//! Strings as the Java Virtual Machine sees them, and their encoding in the
//! "modified UTF-8" format of class files.
//!
//! In the modified UTF-8 format `\0` is stored in two bytes, and code points
//! outside the basic multilingual plane are stored as two three-byte surrogates.
//! A surrogate that is not part of such a pair is kept as it is.
use vstd::prelude::*;
use crate::error::Error;
use vstd::std_specs::iter::IteratorSpec;

verus! {

/// Whether `c` is a Unicode scalar value (a code point that is not a surrogate).
pub open spec fn is_scalar(c: u32) -> bool {
    c <= 0xD7FF || (0xE000 <= c && c <= 0x10FFFF)
}

/// Whether `c` is a high (leading) surrogate.
pub open spec fn is_high(c: u32) -> bool {
    0xD800 <= c && c <= 0xDBFF
}

/// Whether `c` is a low (trailing) surrogate.
pub open spec fn is_low(c: u32) -> bool {
    0xDC00 <= c && c <= 0xDFFF
}

/// The code points of a sequence of characters.
pub open spec fn code_points_of(s: Seq<char>) -> Seq<u32> {
    s.map_values(|c: char| c as u32)
}

/// Whether every element of `s` is a Unicode scalar value.
pub open spec fn all_scalar(s: Seq<u32>) -> bool {
    forall|i: int| 0 <= i < s.len() ==> #[trigger] is_scalar(s[i])
}

/// Whether a high surrogate at `i` is directly followed by a low surrogate.
pub open spec fn pair_at(s: Seq<u32>, i: int) -> bool {
    0 <= i && i + 1 < s.len() && is_high(s[i]) && is_low(s[i + 1])
}

/// Whether `s` can be the contents of a [`JavaString`]: every code point is at
/// most U+10FFFF, and no high surrogate is directly followed by a low one (such
/// a pair stands for one code point outside the basic multilingual plane).
/// Lone surrogates are allowed.
pub open spec fn well_formed_code_points(s: Seq<u32>) -> bool {
    &&& forall|i: int| 0 <= i < s.len() ==> #[trigger] s[i] <= 0x10FFFF
    &&& forall|i: int| !#[trigger] pair_at(s, i)
}

/// A sequence of Unicode scalar values holds no surrogate at all.
pub proof fn lemma_scalars_well_formed(s: Seq<u32>)
    requires
        all_scalar(s),
    ensures
        well_formed_code_points(s),
{
    assert forall|i: int| 0 <= i < s.len() implies #[trigger] s[i] <= 0x10FFFF by {
        assert(is_scalar(s[i]));
    }
    assert forall|i: int| !#[trigger] pair_at(s, i) by {
        if 0 <= i < s.len() { assert(is_scalar(s[i])); }
    }
}

/// A part of a well-formed sequence is well-formed.
pub proof fn lemma_subrange_well_formed(s: Seq<u32>, start: int, end: int)
    requires
        well_formed_code_points(s),
        0 <= start <= end <= s.len(),
    ensures
        well_formed_code_points(s.subrange(start, end)),
{
    let t = s.subrange(start, end);
    assert forall|i: int| 0 <= i < t.len() implies #[trigger] t[i] <= 0x10FFFF by {
        assert(t[i] == s[start + i]);
    }
    assert forall|i: int| !#[trigger] pair_at(t, i) by {
        if pair_at(t, i) {
            assert(t[i] == s[start + i] && t[i + 1] == s[start + i + 1]);
            assert(pair_at(s, start + i));
        }
    }
}

/// Appending to a well-formed sequence keeps it well-formed, unless a high
/// surrogate at the end meets a low surrogate at the start.
pub proof fn lemma_append_well_formed(a: Seq<u32>, b: Seq<u32>)
    requires
        well_formed_code_points(a),
        well_formed_code_points(b),
        !(a.len() > 0 && b.len() > 0 && is_high(a.last()) && is_low(b[0])),
    ensures
        well_formed_code_points(a + b),
{
    let t = a + b;
    assert forall|i: int| 0 <= i < t.len() implies #[trigger] t[i] <= 0x10FFFF by {
        if i >= a.len() { assert(t[i] == b[i - a.len()]); }
    }
    assert forall|i: int| !#[trigger] pair_at(t, i) by {
        if pair_at(t, i) {
            if i + 1 < a.len() {
                assert(pair_at(a, i));
            } else if i >= a.len() {
                assert(t[i] == b[i - a.len()] && t[i + 1] == b[i - a.len() + 1]);
                assert(pair_at(b, i - a.len()));
            }
        }
    }
}

/// The code point of `c`.
fn scalar_value(c: char) -> (r: u32)
    ensures
        r == c as u32,
        is_scalar(r),
{
    c as u32
}

/// A string of code points, as the Java Virtual Machine sees it: Unicode
/// scalar values and lone surrogates.
#[derive(Debug, PartialEq, Eq)]
pub struct JavaString {
    code_points: Vec<u32>,
}

impl View for JavaString {
    type V = Seq<u32>;

    closed spec fn view(&self) -> Seq<u32> {
        self.code_points@
    }
}

impl JavaString {
    #[verifier::type_invariant]
    spec fn well_formed(self) -> bool {
        well_formed_code_points(self.code_points@)
    }

    /// Creates an empty string.
    pub fn new() -> (r: JavaString)
        ensures
            r@ == Seq::<u32>::empty(),
    {
        JavaString { code_points: Vec::new() }
    }

    /// Creates a string from the characters of `s`.
    pub fn from_str(s: &str) -> (r: JavaString)
        ensures
            r@ == code_points_of(s@),
    {
        broadcast use vstd::string::group_string_axioms;
        let mut v: Vec<u32> = Vec::new();
        for c in iter: s.chars()
            invariant
                iter.seq() == s@,
                v@ == iter.seq().take(iter.index() as int).map_values(|c: char| c as u32),
                all_scalar(v@),
        {
            assert(iter.seq().take(iter.index() + 1) == iter.seq().take(iter.index() as int).push(c));
            let cp = scalar_value(c);
            let ghost old_v = v@;
            v.push(cp);
            assert forall|j: int| 0 <= j < v@.len() implies #[trigger] is_scalar(v@[j]) by {
                if j < old_v.len() { assert(v@[j] == old_v[j]); }
            }
        }
        assert(s@.take(s@.len() as int) == s@);
        proof { lemma_scalars_well_formed(v@); }
        JavaString { code_points: v }
    }

    /// Creates a string from code points, failing if one is above U+10FFFF or a
    /// high surrogate is directly followed by a low one.
    pub fn from_code_points(code_points: Vec<u32>) -> (r: Option<JavaString>)
        ensures
            r is Some <==> well_formed_code_points(code_points@),
            r matches Some(s) ==> s@ == code_points@,
    {
        let mut i: usize = 0;
        while i < code_points.len()
            invariant
                i <= code_points.len(),
                forall|j: int| 0 <= j < i ==> #[trigger] code_points@[j] <= 0x10FFFF,
                forall|j: int| j < i ==> !#[trigger] pair_at(code_points@, j),
            decreases code_points.len() - i,
        {
            let c = code_points[i];
            if c > 0x10FFFF {
                return None;
            }
            if i + 1 < code_points.len() && 0xD800 <= c && c <= 0xDBFF
                && 0xDC00 <= code_points[i + 1] && code_points[i + 1] <= 0xDFFF {
                assert(pair_at(code_points@, i as int));
                return None;
            }
            i = i + 1;
        }
        assert forall|j: int| !#[trigger] pair_at(code_points@, j) by {
            if j >= code_points.len() { assert(!pair_at(code_points@, j)); }
        }
        Some(JavaString { code_points })
    }

    /// The number of code points.
    pub fn len(&self) -> (r: usize)
        ensures
            r == self@.len(),
    {
        self.code_points.len()
    }

    /// Whether the string is empty.
    pub fn is_empty(&self) -> (r: bool)
        ensures
            r == (self@.len() == 0),
    {
        self.code_points.len() == 0
    }

    /// The code point at `i`.
    pub fn get(&self, i: usize) -> (r: u32)
        requires
            i < self@.len(),
        ensures
            r == self@[i as int],
    {
        self.code_points[i]
    }

    /// The code points of the string.
    pub fn as_code_points(&self) -> (r: &Vec<u32>)
        ensures
            r@ == self@,
    {
        &self.code_points
    }

    /// A copy of the string.
    pub fn duplicate(&self) -> (r: JavaString)
        ensures
            r@ == self@,
    {
        proof { use_type_invariant(self); }
        JavaString { code_points: self.code_points.clone() }
    }

    /// Appends the code point `c`.
    pub fn push(&mut self, c: u32)
        requires
            c <= 0x10FFFF,
            !(old(self)@.len() > 0 && is_high(old(self)@.last()) && is_low(c)),
        ensures
            final(self)@ == old(self)@.push(c),
    {
        proof { use_type_invariant(&*self); }
        let mut v = Vec::new();
        std::mem::swap(&mut v, &mut self.code_points);
        proof { lemma_append_well_formed(v@, seq![c]); }
        assert(v@ + seq![c] == v@.push(c));
        v.push(c);
        self.code_points = v;
    }

    /// Appends all code points of `other`.
    pub fn push_java_str(&mut self, other: &JavaString)
        requires
            !(old(self)@.len() > 0 && other@.len() > 0 && is_high(old(self)@.last()) && is_low(other@[0])),
        ensures
            final(self)@ == old(self)@ + other@,
    {
        proof { use_type_invariant(&*self); use_type_invariant(other); }
        let mut v = Vec::new();
        std::mem::swap(&mut v, &mut self.code_points);
        let ghost start = v@;
        let mut i: usize = 0;
        while i < other.code_points.len()
            invariant
                i <= other.code_points@.len(),
                v@ == start + other.code_points@.subrange(0, i as int),
            decreases other.code_points@.len() - i,
        {
            v.push(other.code_points[i]);
            i = i + 1;
            assert(start + other.code_points@.subrange(0, i as int) == (start + other.code_points@.subrange(0, i - 1)).push(other.code_points@[i - 1]));
        }
        assert(other.code_points@.subrange(0, other.code_points@.len() as int) == other.code_points@);
        proof { lemma_append_well_formed(start, other.code_points@); }
        self.code_points = v;
    }

    /// Whether the two strings have the same code points.
    pub fn equals(&self, other: &JavaString) -> (r: bool)
        ensures
            r == (self@ == other@),
    {
        if self.code_points.len() != other.code_points.len() {
            return false;
        }
        let mut i: usize = 0;
        while i < self.code_points.len()
            invariant
                i <= self.code_points@.len(),
                self.code_points@.len() == other.code_points@.len(),
                forall|j: int| 0 <= j < i ==> self.code_points@[j] == other.code_points@[j],
            decreases self.code_points@.len() - i,
        {
            if self.code_points[i] != other.code_points[i] {
                return false;
            }
            i = i + 1;
        }
        assert(self.code_points@ =~= other.code_points@);
        true
    }

    /// Whether the string equals the ASCII text `s`.
    pub fn equals_str(&self, s: &str) -> (r: bool)
        ensures
            r == (self@ == code_points_of(s@)),
    {
        let other = JavaString::from_str(s);
        self.equals(&other)
    }

    /// Whether the string starts with the code point `c`.
    pub fn starts_with(&self, c: u32) -> (r: bool)
        ensures
            r == (self@.len() > 0 && self@[0] == c),
    {
        self.code_points.len() > 0 && self.code_points[0] == c
    }

    /// Whether the string contains the code point `c`.
    pub fn contains(&self, c: u32) -> (r: bool)
        ensures
            r == self@.contains(c),
    {
        let mut i: usize = 0;
        while i < self.code_points.len()
            invariant
                i <= self.code_points@.len(),
                forall|j: int| 0 <= j < i ==> self.code_points@[j] != c,
            decreases self.code_points@.len() - i,
        {
            if self.code_points[i] == c {
                assert(self@[i as int] == c);
                return true;
            }
            i = i + 1;
        }
        false
    }

    /// The code points in `start..end`.
    pub fn substring(&self, start: usize, end: usize) -> (r: JavaString)
        requires
            start <= end <= self@.len(),
        ensures
            r@ == self@.subrange(start as int, end as int),
    {
        proof { use_type_invariant(self); }
        let mut v: Vec<u32> = Vec::new();
        let mut i: usize = start;
        while i < end
            invariant
                start <= i <= end,
                end <= self.code_points@.len(),
                v@ == self.code_points@.subrange(start as int, i as int),
            decreases end - i,
        {
            v.push(self.code_points[i]);
            i = i + 1;
            assert(self.code_points@.subrange(start as int, i as int) == self.code_points@.subrange(start as int, i - 1).push(self.code_points@[i - 1]));
        }
        proof { lemma_subrange_well_formed(self.code_points@, start as int, end as int); }
        JavaString { code_points: v }
    }
}

// ----- modified UTF-8 -----

/// Whether `b` is a continuation byte `0b10xx_xxxx`.
pub open spec fn is_cont(b: u8) -> bool {
    0x80 <= b && b < 0xC0
}

/// Whether the three bytes at `i` are the encoding of a low surrogate.
pub open spec fn low_start(b: Seq<u8>, i: int) -> bool {
    0 <= i && i + 3 <= b.len() && b[i] == 0xED && 0xB0 <= b[i + 1] && b[i + 1] < 0xC0 && is_cont(b[i + 2])
}

/// Whether the six bytes at `i` are the encoding of a surrogate pair: a high
/// surrogate directly followed by a low one.
pub open spec fn pair_start(b: Seq<u8>, i: int) -> bool {
    &&& 0 <= i && i + 6 <= b.len()
    &&& b[i] == 0xED && 0xA0 <= b[i + 1] && b[i + 1] < 0xB0 && is_cont(b[i + 2])
    &&& low_start(b, i + 3)
}

/// Decodes the code point starting at `i`, returning it and the number of
/// bytes it takes. A surrogate pair decodes to the one code point it stands
/// for; a surrogate that is not part of a pair decodes to itself.
pub open spec fn decode_one(b: Seq<u8>, i: int) -> Option<(u32, int)> {
    let x = b[i];
    if x < 0x80 {
        Some((x as u32, 1))
    } else if 0xC0 <= x && x < 0xE0 {
        if i + 2 <= b.len() && is_cont(b[i + 1]) {
            Some((((x % 0x20) * 0x40 + b[i + 1] % 0x40) as u32, 2))
        } else {
            None
        }
    } else if pair_start(b, i) {
        Some(((0x10000 + (b[i + 1] % 0x10) * 0x10000 + (b[i + 2] % 0x40) * 0x400
            + (b[i + 4] % 0x10) * 0x40 + b[i + 5] % 0x40) as u32, 6))
    } else if 0xE0 <= x && x < 0xF0 {
        if i + 3 <= b.len() && is_cont(b[i + 1]) && is_cont(b[i + 2]) {
            Some((((x % 0x10) * 0x1000 + (b[i + 1] % 0x40) * 0x40 + b[i + 2] % 0x40) as u32, 3))
        } else {
            None
        }
    } else {
        None
    }
}

/// Decodes the bytes from `i` on.
pub open spec fn decode_from(b: Seq<u8>, i: int) -> Option<Seq<u32>>
    decreases b.len() - i,
{
    if i < 0 || i >= b.len() {
        Some(Seq::empty())
    } else {
        match decode_one(b, i) {
            Some((c, n)) => if n >= 1 {
                match decode_from(b, i + n) {
                    Some(rest) => Some(seq![c] + rest),
                    None => None,
                }
            } else {
                None
            },
            None => None,
        }
    }
}

/// The modified UTF-8 decoding of `b`, or `None` if `b` is not well encoded.
pub open spec fn decode(b: Seq<u8>) -> Option<Seq<u32>> {
    decode_from(b, 0)
}

/// The modified UTF-8 encoding of one code point.
pub open spec fn encode_one(n: u32) -> Seq<u8> {
    if 0x0001 <= n && n <= 0x007F {
        seq![n as u8]
    } else if n == 0 || (0x0080 <= n && n <= 0x07FF) {
        seq![(0xC0 + n / 0x40) as u8, (0x80 + n % 0x40) as u8]
    } else if 0x0800 <= n && n <= 0xFFFF {
        seq![(0xE0 + n / 0x1000) as u8, (0x80 + (n / 0x40) % 0x40) as u8, (0x80 + n % 0x40) as u8]
    } else {
        seq![0xED, (0xA0 + (n / 0x10000) % 0x20 - 1) as u8, (0x80 + (n / 0x400) % 0x40) as u8,
            0xED, (0xB0 + (n / 0x40) % 0x10) as u8, (0x80 + n % 0x40) as u8]
    }
}

/// The modified UTF-8 encoding of a sequence of code points.
pub open spec fn encode(s: Seq<u32>) -> Seq<u8>
    decreases s.len(),
{
    if s.len() == 0 {
        Seq::empty()
    } else {
        encode(s.drop_last()) + encode_one(s.last())
    }
}

/// What is known of one decoded code point: it is at most U+10FFFF, it takes
/// at least one byte, a low surrogate comes from its own three bytes, and a
/// high surrogate is never followed by the three bytes of a low one.
proof fn lemma_decode_one_facts(b: Seq<u8>, i: int)
    requires
        0 <= i < b.len(),
        decode_one(b, i) is Some,
    ensures
        decode_one(b, i).unwrap().0 <= 0x10FFFF,
        1 <= decode_one(b, i).unwrap().1,
        i + decode_one(b, i).unwrap().1 <= b.len(),
        is_low(decode_one(b, i).unwrap().0) ==> low_start(b, i),
        is_high(decode_one(b, i).unwrap().0) ==> !low_start(b, i + 3),
{
    let x = b[i];
    if x < 0x80 {
    } else if 0xC0 <= x && x < 0xE0 {
    } else if pair_start(b, i) {
    } else {
        let y = b[i + 1];
        let z = b[i + 2];
        assert(x % 0x10 == x - 0xE0);
        assert(y % 0x40 == y - 0x80);
        assert(z % 0x40 == z - 0x80);
        let c = (x - 0xE0) * 0x1000 + (y - 0x80) * 0x40 + (z - 0x80);
        assert(decode_one(b, i).unwrap().0 == c);
        if 0xD800 <= c && c <= 0xDFFF {
            assert(x == 0xED);
            if c <= 0xDBFF {
                assert(0xA0 <= y && y < 0xB0);
            } else {
                assert(0xB0 <= y);
            }
        }
    }
}

/// Decodes the code point at `i`; the exec counterpart of [`decode_one`].
fn read_one(b: &Vec<u8>, i: usize) -> (r: Option<(u32, usize)>)
    requires
        i < b@.len(),
    ensures
        r matches Some((c, n)) ==> decode_one(b@, i as int) == Some((c, n as int)),
        r is None ==> decode_one(b@, i as int) is None,
{
    let x = b[i];
    let len = b.len();
    if x < 0x80 {
        Some((x as u32, 1))
    } else if 0xC0 <= x && x < 0xE0 {
        if len - i >= 2 && 0x80 <= b[i + 1] && b[i + 1] < 0xC0 {
            Some(((x as u32 % 0x20) * 0x40 + b[i + 1] as u32 % 0x40, 2))
        } else {
            None
        }
    } else if len - i >= 6 && x == 0xED && 0xA0 <= b[i + 1] && b[i + 1] < 0xB0 && 0x80 <= b[i + 2] && b[i + 2] < 0xC0
        && b[i + 3] == 0xED && 0xB0 <= b[i + 4] && b[i + 4] < 0xC0 && 0x80 <= b[i + 5] && b[i + 5] < 0xC0 {
        Some((0x10000 + (b[i + 1] as u32 % 0x10) * 0x10000 + (b[i + 2] as u32 % 0x40) * 0x400
            + (b[i + 4] as u32 % 0x10) * 0x40 + b[i + 5] as u32 % 0x40, 6))
    } else if 0xE0 <= x && x < 0xF0 {
        if len - i >= 3 && 0x80 <= b[i + 1] && b[i + 1] < 0xC0 && 0x80 <= b[i + 2] && b[i + 2] < 0xC0 {
            Some(((x as u32 % 0x10) * 0x1000 + (b[i + 1] as u32 % 0x40) * 0x40 + b[i + 2] as u32 % 0x40, 3))
        } else {
            None
        }
    } else {
        None
    }
}

/// Takes in a vec of data, tries to read it into a [`JavaString`].
///
/// Fails with [`Error::InvalidModifiedUtf8`] if the data is not a well-formed
/// modified UTF-8 encoding. A surrogate pair is read as the one code point it
/// stands for; a surrogate outside a pair is kept as it is.
pub fn from_vec_to_string(vec: Vec<u8>) -> (r: Result<JavaString, Error>)
    ensures
        decode(vec@) is Some <==> r is Ok,
        r matches Ok(s) ==> decode(vec@) == Some(s@),
        r is Err ==> r == Err::<JavaString, Error>(Error::InvalidModifiedUtf8),
{
    let mut out: Vec<u32> = Vec::new();
    let mut i: usize = 0;
    while i < vec.len()
        invariant
            i <= vec@.len(),
            well_formed_code_points(out@),
            out@.len() > 0 && is_high(out@.last()) ==> !low_start(vec@, i as int),
            match decode_from(vec@, i as int) {
                Some(rest) => decode(vec@) == Some(out@ + rest),
                None => decode(vec@) is None,
            },
        decreases vec@.len() - i,
    {
        match read_one(&vec, i) {
            Some((c, n)) => {
                proof {
                    lemma_decode_one_facts(vec@, i as int);
                    lemma_append_well_formed(out@, seq![c]);
                    assert(out@ + seq![c] == out@.push(c));
                }
                let ghost old_out = out@;
                out.push(c);
                i = i + n;
                proof {
                    match decode_from(vec@, i as int) {
                        Some(rest) => {
                            assert(old_out + (seq![c] + rest) == out@ + rest);
                        },
                        None => {},
                    }
                }
            },
            None => {
                return Err(Error::InvalidModifiedUtf8);
            },
        }
    }
    assert(out@ + Seq::<u32>::empty() == out@);
    Ok(JavaString { code_points: out })
}

/// Appends the encoding of one code point.
fn write_one(w: &mut Vec<u8>, n: u32)
    requires
        n <= 0x10FFFF,
    ensures
        final(w)@ == old(w)@ + encode_one(n),
{
    if 0x0001 <= n && n <= 0x007F {
        w.push(n as u8);
    } else if n == 0 || (0x0080 <= n && n <= 0x07FF) {
        w.push((0xC0 + n / 0x40) as u8);
        w.push((0x80 + n % 0x40) as u8);
    } else if 0x0800 <= n && n <= 0xFFFF {
        w.push((0xE0 + n / 0x1000) as u8);
        w.push((0x80 + (n / 0x40) % 0x40) as u8);
        w.push((0x80 + n % 0x40) as u8);
    } else {
        w.push(0xED);
        w.push((0xA0 + (n / 0x10000) % 0x20 - 1) as u8);
        w.push((0x80 + (n / 0x400) % 0x40) as u8);
        w.push(0xED);
        w.push((0xB0 + (n / 0x40) % 0x10) as u8);
        w.push((0x80 + n % 0x40) as u8);
    }
}

/// Takes in a string and writes it out into a vec.
///
/// This operation cannot fail.
pub fn from_string_to_vec(string: &JavaString) -> (r: Vec<u8>)
    ensures
        r@ == encode(string@),
{
    proof { use_type_invariant(string); }
    let cps = string.as_code_points();
    let mut out: Vec<u8> = Vec::new();
    let mut i: usize = 0;
    while i < cps.len()
        invariant
            i <= cps@.len(),
            cps@ == string@,
            well_formed_code_points(cps@),
            out@ == encode(cps@.take(i as int)),
        decreases cps@.len() - i,
    {
        assert(cps@[i as int] <= 0x10FFFF);
        write_one(&mut out, cps[i]);
        assert(cps@.take(i + 1).drop_last() == cps@.take(i as int));
        i = i + 1;
    }
    assert(cps@.take(cps@.len() as int) == cps@);
    out
}

} // verus!

verus! {

/// The encoding of one code point has between one and six bytes.
proof fn lemma_encode_one_len(c: u32)
    ensures
        1 <= encode_one(c).len() <= 6,
{
}

/// The arithmetic behind decoding a three-byte encoding, and which of them
/// encode surrogates.
proof fn lemma_three_byte_arith(c: u32)
    requires
        0x0800 <= c <= 0xFFFF,
    ensures
        (c / 0x1000) * 0x1000 + ((c / 0x40) % 0x40) * 0x40 + c % 0x40 == c,
        (0xE0 + c / 0x1000) % 0x10 == c / 0x1000,
        (0x80 + (c / 0x40) % 0x40) % 0x40 == (c / 0x40) % 0x40,
        (0x80 + c % 0x40) % 0x40 == c % 0x40,
        (0xE0 + c / 0x1000 == 0xED && 0xA0 <= 0x80 + (c / 0x40) % 0x40 && 0x80 + (c / 0x40) % 0x40 < 0xB0)
            <==> is_high(c),
        (0xE0 + c / 0x1000 == 0xED && 0xB0 <= 0x80 + (c / 0x40) % 0x40) <==> is_low(c),
{
    assert((0xE0 + c / 0x1000 == 0xED && 0xA0 <= 0x80 + (c / 0x40) % 0x40 && 0x80 + (c / 0x40) % 0x40 < 0xB0)
        <==> (0xD800 <= c && c <= 0xDBFF)) by (bit_vector)
        requires 0x0800 <= c <= 0xFFFF;
    assert((0xE0 + c / 0x1000 == 0xED && 0xB0 <= 0x80 + (c / 0x40) % 0x40) <==> (0xDC00 <= c && c <= 0xDFFF))
        by (bit_vector)
        requires 0x0800 <= c <= 0xFFFF;
}

/// The arithmetic behind decoding a six-byte encoding.
proof fn lemma_six_byte_arith(c: u32)
    requires
        0x10000 <= c <= 0x10FFFF,
    ensures
        0x10000 + ((c / 0x10000) % 0x20 - 1) * 0x10000 + ((c / 0x400) % 0x40) * 0x400
            + ((c / 0x40) % 0x10) * 0x40 + c % 0x40 == c,
        1 <= (c / 0x10000) % 0x20 <= 0x10,
        (0xA0 + (c / 0x10000) % 0x20 - 1) % 0x10 == (c / 0x10000) % 0x20 - 1,
        (0x80 + (c / 0x400) % 0x40) % 0x40 == (c / 0x400) % 0x40,
        (0xB0 + (c / 0x40) % 0x10) % 0x10 == (c / 0x40) % 0x10,
        (0x80 + c % 0x40) % 0x40 == c % 0x40,
{
    assert(0x10000 + ((c / 0x10000) % 0x20 - 1) * 0x10000 + ((c / 0x400) % 0x40) * 0x400
        + ((c / 0x40) % 0x10) * 0x40 + c % 0x40 == c) by (bit_vector)
        requires 0x10000 <= c <= 0x10FFFF;
    assert(1 <= (c / 0x10000) % 0x20 <= 0x10) by (bit_vector)
        requires 0x10000 <= c <= 0x10FFFF;
    assert((0xA0 + (c / 0x10000) % 0x20 - 1) % 0x10 == (c / 0x10000) % 0x20 - 1) by (bit_vector)
        requires 0x10000 <= c <= 0x10FFFF;
    assert((0x80 + (c / 0x400) % 0x40) % 0x40 == (c / 0x400) % 0x40) by (bit_vector);
    assert((0xB0 + (c / 0x40) % 0x10) % 0x10 == (c / 0x40) % 0x10) by (bit_vector);
    assert((0x80 + c % 0x40) % 0x40 == c % 0x40) by (bit_vector);
}

/// Decoding the encoding of one code point, followed by anything that does not
/// complete a high surrogate into a pair, gives it back.
proof fn lemma_decode_one_encode_one(p: Seq<u8>, c: u32, q: Seq<u8>)
    requires
        c <= 0x10FFFF,
        is_high(c) ==> !low_start(q, 0),
    ensures
        decode_one(p + encode_one(c) + q, p.len() as int) == Some((c, encode_one(c).len() as int)),
{
    let e = encode_one(c);
    let b = p + e + q;
    let i = p.len() as int;
    assert(forall|k: int| 0 <= k < e.len() ==> b[i + k] == e[k]);
    if 0x0001 <= c && c <= 0x007F {
        assert(b[i] == c as u8);
    } else if c == 0 || (0x0080 <= c && c <= 0x07FF) {
        let x = b[i];
        let y = b[i + 1];
        assert(x == (0xC0 + c / 0x40) as u8);
        assert(y == (0x80 + c % 0x40) as u8);
        assert((x % 0x20) * 0x40 + y % 0x40 == c);
    } else if 0x0800 <= c && c <= 0xFFFF {
        lemma_three_byte_arith(c);
        let x = b[i];
        assert(x == (0xE0 + c / 0x1000) as u8);
        assert(b[i + 1] == (0x80 + (c / 0x40) % 0x40) as u8);
        assert(b[i + 2] == (0x80 + c % 0x40) as u8);
        if is_high(c) {
            assert(forall|k: int| 0 <= k < q.len() ==> b[i + 3 + k] == q[k]);
            assert(b.len() == i + 3 + q.len());
            if low_start(b, i + 3) {
                assert(low_start(q, 0));
            }
        }
        assert(!pair_start(b, i));
    } else {
        lemma_six_byte_arith(c);
        assert(b[i] == 0xED);
        assert(b[i + 1] == (0xA0 + (c / 0x10000) % 0x20 - 1) as u8);
        assert(b[i + 2] == (0x80 + (c / 0x400) % 0x40) as u8);
        assert(b[i + 3] == 0xED);
        assert(b[i + 4] == (0xB0 + (c / 0x40) % 0x10) as u8);
        assert(b[i + 5] == (0x80 + c % 0x40) as u8);
        assert(pair_start(b, i));
    }
}

/// Encoding distributes over concatenation.
proof fn lemma_encode_append(a: Seq<u32>, b: Seq<u32>)
    ensures
        encode(a + b) == encode(a) + encode(b),
    decreases b.len(),
{
    if b.len() == 0 {
        assert(a + b == a);
    } else {
        lemma_encode_append(a, b.drop_last());
        assert((a + b).drop_last() == a + b.drop_last());
        assert((a + b).last() == b.last());
    }
}

/// The encoding of a sequence is that of its first code point, then that of the rest.
proof fn lemma_encode_first(s: Seq<u32>)
    requires
        s.len() > 0,
    ensures
        encode(s) == encode_one(s[0]) + encode(s.drop_first()),
{
    let c = s[0];
    let rest = s.drop_first();
    assert(s == seq![c] + rest);
    lemma_encode_append(seq![c], rest);
    assert(seq![c].drop_last() =~= Seq::<u32>::empty());
    assert(encode(Seq::<u32>::empty()) =~= Seq::<u8>::empty());
    assert(Seq::<u8>::empty() + encode_one(c) =~= encode_one(c));
}

/// The encoding of a sequence that does not start with a low surrogate does
/// not start with the three bytes of one.
proof fn lemma_no_low_start(s: Seq<u32>)
    requires
        s.len() > 0 ==> s[0] <= 0x10FFFF && !is_low(s[0]),
    ensures
        !low_start(encode(s), 0),
{
    if s.len() > 0 {
        let c = s[0];
        lemma_encode_first(s);
        let e = encode_one(c);
        let b = encode(s);
        assert(forall|k: int| 0 <= k < e.len() ==> b[k] == e[k]);
        if 0x0800 <= c && c <= 0xFFFF {
            lemma_three_byte_arith(c);
        } else if 0x10000 <= c {
            lemma_six_byte_arith(c);
        }
    }
}

/// Decoding `p` followed by the encoding of `s`, from the end of `p`, gives `s`.
proof fn lemma_decode_from_encode(p: Seq<u8>, s: Seq<u32>)
    requires
        well_formed_code_points(s),
    ensures
        decode_from(p + encode(s), p.len() as int) == Some(s),
    decreases s.len(),
{
    if s.len() == 0 {
        assert(p + encode(s) == p);
    } else {
        let c = s[0];
        let rest = s.drop_first();
        lemma_encode_first(s);
        let p2 = p + encode_one(c);
        assert(p + encode(s) == p2 + encode(rest));
        assert(rest == s.subrange(1, s.len() as int));
        lemma_subrange_well_formed(s, 1, s.len() as int);
        assert(c <= 0x10FFFF);
        if rest.len() > 0 {
            assert(rest[0] == s[1]);
            assert(rest[0] <= 0x10FFFF);
            assert(!pair_at(s, 0));
        }
        if is_high(c) {
            lemma_no_low_start(rest);
        }
        lemma_decode_one_encode_one(p, c, encode(rest));
        assert(p + encode_one(c) + encode(rest) == p2 + encode(rest));
        lemma_encode_one_len(c);
        lemma_decode_from_encode(p2, rest);
        assert(seq![c] + rest == s);
    }
}

/// Decoding the encoding of a string gives the string back, for every
/// sequence that a [`JavaString`] can hold.
pub proof fn lemma_decode_encode(s: Seq<u32>)
    requires
        well_formed_code_points(s),
    ensures
        decode(encode(s)) == Some(s),
{
    lemma_decode_from_encode(Seq::empty(), s);
    assert(Seq::<u8>::empty() + encode(s) == encode(s));
}

} // verus!
