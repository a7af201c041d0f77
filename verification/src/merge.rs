//! Merging the lists of two sides (such as the interfaces of a class as the
//! client and the server know it) into one, keeping the order of both sides
//! where they agree.
use vstd::prelude::*;
use vstd::laws_eq::obeys_concrete_eq;
use vstd::std_specs::cmp::PartialEqSpec;

verus! {

/// The merge of `a` from `i` on and `b` from `j` on. Step by step: an item
/// that both sides have next is taken once; else the next item of `a` is taken
/// if `b` does not have it; else the next item of `b` is taken if `a` does not
/// have it. When no step applies, the rest of `a` follows, then the items of
/// the rest of `b` that are not in `a`.
pub open spec fn merge_from<T>(a: Seq<T>, b: Seq<T>, i: int, j: int) -> Seq<T>
    decreases a.len() - i + b.len() - j,
{
    if i < 0 || j < 0 || i > a.len() || j > b.len() {
        Seq::empty()
    } else if i < a.len() && j < b.len() && a[i] == b[j] {
        seq![a[i]] + merge_from(a, b, i + 1, j + 1)
    } else if i < a.len() && !b.contains(a[i]) {
        seq![a[i]] + merge_from(a, b, i + 1, j)
    } else if j < b.len() && !a.contains(b[j]) {
        seq![b[j]] + merge_from(a, b, i, j + 1)
    } else {
        a.subrange(i, a.len() as int) + b.subrange(j, b.len() as int).filter(|y: T| !a.contains(y))
    }
}

/// The merge of `a` and `b`.
pub open spec fn merged<T>(a: Seq<T>, b: Seq<T>) -> Seq<T> {
    merge_from(a, b, 0, 0)
}

/// What the merge from `i` and `j` holds: only items of `a` or `b`; every item
/// of the rest of `a`; and every item of the rest of `b` that `a` lacks.
proof fn lemma_merge_from_items<T>(a: Seq<T>, b: Seq<T>, i: int, j: int, x: T)
    requires
        0 <= i <= a.len(),
        0 <= j <= b.len(),
    ensures
        merge_from(a, b, i, j).contains(x) ==> a.contains(x) || b.contains(x),
        a.subrange(i, a.len() as int).contains(x) ==> merge_from(a, b, i, j).contains(x),
        b.subrange(j, b.len() as int).contains(x) && !a.contains(x) ==> merge_from(a, b, i, j).contains(x),
    decreases a.len() - i + b.len() - j,
{
    let m = merge_from(a, b, i, j);
    let ra = a.subrange(i, a.len() as int);
    let rb = b.subrange(j, b.len() as int);
    if i < a.len() && j < b.len() && a[i] == b[j] {
        lemma_merge_from_items(a, b, i + 1, j + 1, x);
        lemma_split_first(a, i, x);
        lemma_split_first(b, j, x);
        lemma_head_contains(a[i], merge_from(a, b, i + 1, j + 1), x);
    } else if i < a.len() && !b.contains(a[i]) {
        lemma_merge_from_items(a, b, i + 1, j, x);
        lemma_split_first(a, i, x);
        lemma_head_contains(a[i], merge_from(a, b, i + 1, j), x);
        if x == a[i] { assert(a.contains(x)); }
    } else if j < b.len() && !a.contains(b[j]) {
        lemma_merge_from_items(a, b, i, j + 1, x);
        lemma_split_first(b, j, x);
        lemma_head_contains(b[j], merge_from(a, b, i, j + 1), x);
        if x == b[j] { assert(b.contains(x)); }
    } else {
        let keep = |y: T| !a.contains(y);
        let fb = rb.filter(keep);
        assert(m == ra + fb);
        if m.contains(x) {
            let k = choose|k: int| 0 <= k < m.len() && m[k] == x;
            if k < ra.len() {
                assert(a[i + k] == x);
            } else {
                assert(fb[k - ra.len()] == x);
                assert(fb.contains(x));
                rb.lemma_filter_contains_rev(keep, x);
                let l = choose|l: int| 0 <= l < rb.len() && rb[l] == x;
                assert(b[j + l] == x);
            }
        }
        if ra.contains(x) {
            let k = choose|k: int| 0 <= k < ra.len() && ra[k] == x;
            assert(m[k] == x);
        }
        if rb.contains(x) && !a.contains(x) {
            let l = choose|l: int| 0 <= l < rb.len() && rb[l] == x;
            rb.lemma_filter_contains(keep, l);
            let k = choose|k: int| 0 <= k < fb.len() && fb[k] == x;
            assert(m[ra.len() + k] == x);
        }
    }
}

/// The rest of `s` from `i` holds `x` exactly when `x` is its first item or
/// the rest from `i + 1` holds it.
proof fn lemma_split_first<T>(s: Seq<T>, i: int, x: T)
    requires
        0 <= i < s.len(),
    ensures
        s.subrange(i, s.len() as int).contains(x) <==> (s[i] == x || s.subrange(i + 1, s.len() as int).contains(x)),
{
    let r = s.subrange(i, s.len() as int);
    let r1 = s.subrange(i + 1, s.len() as int);
    if r.contains(x) && s[i] != x {
        let k = choose|k: int| 0 <= k < r.len() && r[k] == x;
        assert(r1[k - 1] == x);
    }
    if r1.contains(x) {
        let k = choose|k: int| 0 <= k < r1.len() && r1[k] == x;
        assert(r[k + 1] == x);
    }
    if s[i] == x {
        assert(r[0] == x);
    }
}

/// A sequence with `h` in front holds `x` exactly when `h` is `x` or the rest holds it.
proof fn lemma_head_contains<T>(h: T, rest: Seq<T>, x: T)
    ensures
        (seq![h] + rest).contains(x) <==> (h == x || rest.contains(x)),
{
    let s = seq![h] + rest;
    if s.contains(x) && h != x {
        let k = choose|k: int| 0 <= k < s.len() && s[k] == x;
        assert(rest[k - 1] == x);
    }
    if rest.contains(x) {
        let k = choose|k: int| 0 <= k < rest.len() && rest[k] == x;
        assert(s[k + 1] == x);
    }
    if h == x {
        assert(s[0] == x);
    }
}

/// The merge holds exactly the items of the two sides: each item of `a` and
/// of `b` is in it, and nothing else is.
pub proof fn lemma_merged_items<T>(a: Seq<T>, b: Seq<T>, x: T)
    ensures
        merged(a, b).contains(x) <==> (a.contains(x) || b.contains(x)),
{
    lemma_merge_from_items(a, b, 0, 0, x);
    assert(a.subrange(0, a.len() as int) == a);
    assert(b.subrange(0, b.len() as int) == b);
}

/// Whether `x` equals `y`.
fn same<T: PartialEq>(x: &T, y: &T) -> (r: bool)
    requires
        obeys_concrete_eq::<T>(),
    ensures
        r == (*x == *y),
{
    proof {
        reveal(obeys_concrete_eq);
    }
    let r = x.eq(y);
    proof {
        assert(x.eq_spec(y) <==> (*x == *y));
    }
    r
}

/// Whether `s` holds `x`.
fn slice_contains<T: PartialEq>(s: &[T], x: &T) -> (r: bool)
    requires
        obeys_concrete_eq::<T>(),
    ensures
        r == s@.contains(*x),
{
    let mut k: usize = 0;
    while k < s.len()
        invariant
            obeys_concrete_eq::<T>(),
            k <= s@.len(),
            forall|i: int| 0 <= i < k ==> s@[i] != *x,
        decreases s@.len() - k,
    {
        if same(&s[k], x) {
            assert(s@[k as int] == *x);
            return true;
        }
        k = k + 1;
    }
    false
}

/// The items of the sequence of references `s`.
pub open spec fn derefs<T>(s: Seq<&T>) -> Seq<T> {
    s.map_values(|r: &T| *r)
}

/// Merges `a` and `b`, keeping the order of both where it can (see
/// [`merge_from`]): for `[1, 3]` and `[2, 3]` the result is `[1, 2, 3]`.
/// Where the two orders disagree, the rest of `a` comes first, then what
/// `b` adds.
pub fn merge_preserve_order<'a, T: PartialEq>(a: &'a [T], b: &'a [T]) -> (r: Vec<&'a T>)
    requires
        obeys_concrete_eq::<T>(),
    ensures
        derefs(r@) == merged(a@, b@),
{
    let mut r: Vec<&T> = Vec::new();
    let mut i: usize = 0;
    let mut j: usize = 0;
    loop
        invariant_except_break
            obeys_concrete_eq::<T>(),
            i <= a@.len(),
            j <= b@.len(),
            derefs(r@) + merge_from(a@, b@, i as int, j as int) == merged(a@, b@),
        ensures
            i <= a@.len(),
            j <= b@.len(),
            derefs(r@) + merge_from(a@, b@, i as int, j as int) == merged(a@, b@),
            merge_from(a@, b@, i as int, j as int)
                == a@.subrange(i as int, a@.len() as int) + b@.subrange(j as int, b@.len() as int).filter(|y: T| !a@.contains(y)),
        decreases a@.len() - i + b@.len() - j,
    {
        let ghost before = derefs(r@);
        let ghost rest = merge_from(a@, b@, i as int, j as int);
        if i < a.len() && j < b.len() && same(&a[i], &b[j]) {
            r.push(&a[i]);
            proof {
                assert(derefs(r@) =~= before.push(a@[i as int]));
                assert(before.push(a@[i as int]) + merge_from(a@, b@, i + 1, j + 1) =~= before + rest);
            }
            i = i + 1;
            j = j + 1;
        } else if i < a.len() && !slice_contains(b, &a[i]) {
            r.push(&a[i]);
            proof {
                assert(derefs(r@) =~= before.push(a@[i as int]));
                assert(before.push(a@[i as int]) + merge_from(a@, b@, i + 1, j as int) =~= before + rest);
            }
            i = i + 1;
        } else if j < b.len() && !slice_contains(a, &b[j]) {
            r.push(&b[j]);
            proof {
                assert(derefs(r@) =~= before.push(b@[j as int]));
                assert(before.push(b@[j as int]) + merge_from(a@, b@, i as int, j + 1) =~= before + rest);
            }
            j = j + 1;
        } else {
            break;
        }
    }
    let ghost head = derefs(r@);
    let ghost i0 = i;
    while i < a.len()
        invariant
            i0 <= i <= a@.len(),
            derefs(r@) == head + a@.subrange(i0 as int, i as int),
        decreases a@.len() - i,
    {
        let ghost before = derefs(r@);
        r.push(&a[i]);
        proof {
            assert(derefs(r@) =~= before.push(a@[i as int]));
            assert(a@.subrange(i0 as int, i + 1) =~= a@.subrange(i0 as int, i as int).push(a@[i as int]));
        }
        i = i + 1;
    }
    let ghost mid = derefs(r@);
    let ghost keep = |y: T| !a@.contains(y);
    let ghost j0 = j;
    let mut k: usize = j;
    while k < b.len()
        invariant
            obeys_concrete_eq::<T>(),
            j0 <= k <= b@.len(),
            keep == (|y: T| !a@.contains(y)),
            derefs(r@) == mid + b@.subrange(j0 as int, k as int).filter(keep),
        decreases b@.len() - k,
    {
        let ghost before = derefs(r@);
        proof {
            assert(b@.subrange(j0 as int, k + 1).drop_last() =~= b@.subrange(j0 as int, k as int));
            assert(b@.subrange(j0 as int, k + 1).last() == b@[k as int]);
            reveal(Seq::filter);
        }
        if !slice_contains(a, &b[k]) {
            r.push(&b[k]);
            proof {
                assert(derefs(r@) =~= before.push(b@[k as int]));
            }
        }
        k = k + 1;
    }
    proof {
        assert(derefs(r@) =~= head + (a@.subrange(i0 as int, a@.len() as int)
            + b@.subrange(j0 as int, b@.len() as int).filter(keep)));
    }
    r
}

} // verus!
