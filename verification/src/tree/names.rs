//! Validity of class names, unqualified names and method names (JVMS 4.2).
use vstd::prelude::*;
use crate::ascii::{DOT, SEMICOLON, OPEN_BRACKET, SLASH, LESS_THAN, GREATER_THAN};
use crate::jstring::{JavaString, code_points_of};
use crate::tree::descriptor::valid_field_descriptor;
use crate::tree::field::FieldDescriptor;

verus! {

/// Characters an unqualified name must not contain: `.`, `;`, `[` and `/`.
pub open spec fn forbidden_in_unqualified(c: u32) -> bool {
    c == DOT || c == SEMICOLON || c == OPEN_BRACKET || c == SLASH
}

/// Characters a method name other than `<init>` and `<clinit>` must not contain.
pub open spec fn forbidden_in_method(c: u32) -> bool {
    forbidden_in_unqualified(c) || c == LESS_THAN || c == GREATER_THAN
}

/// An unqualified name has at least one character and none of `.`, `;`, `[`, `/`.
pub open spec fn valid_unqualified_name(s: Seq<u32>) -> bool {
    s.len() > 0 && forall|i: int| 0 <= i < s.len() ==> !#[trigger] forbidden_in_unqualified(s[i])
}

/// `s`, split at `/`, consists of unqualified names only: it is non-empty, does
/// not start or end with `/`, has no two `/` in a row, and has no `.`, `;` or `[`.
pub open spec fn valid_slash_separated(s: Seq<u32>) -> bool {
    &&& s.len() > 0
    &&& s[0] != SLASH
    &&& s[s.len() - 1] != SLASH
    &&& forall|i: int| 0 <= i < s.len() - 1 ==> !(#[trigger] s[i] == SLASH && s[i + 1] == SLASH)
    &&& forall|i: int| 0 <= i < s.len() ==> #[trigger] s[i] != DOT && s[i] != SEMICOLON && s[i] != OPEN_BRACKET
}

/// Whether `s` starts with `[`.
pub open spec fn starts_with_bracket(s: Seq<u32>) -> bool {
    s.len() > 0 && s[0] == OPEN_BRACKET
}

/// A class name is an array class name or a `/`-separated list of unqualified names.
pub open spec fn valid_class_name(s: Seq<u32>) -> bool {
    valid_arr_class_name(s) || valid_slash_separated(s)
}

/// An array class name starts with `[` and is a field descriptor (of at most 255 dimensions).
pub open spec fn valid_arr_class_name(s: Seq<u32>) -> bool {
    starts_with_bracket(s) && valid_field_descriptor(s)
}

/// An object class name does not start with `[` and is a `/`-separated list of unqualified names.
pub open spec fn valid_obj_class_name(s: Seq<u32>) -> bool {
    !starts_with_bracket(s) && valid_slash_separated(s)
}

/// The name `<init>`.
pub open spec fn init_name() -> Seq<u32> {
    seq![60, 105, 110, 105, 116, 62]
}

/// The name `<clinit>`.
pub open spec fn clinit_name() -> Seq<u32> {
    seq![60, 99, 108, 105, 110, 105, 116, 62]
}

/// A method name is `<init>`, `<clinit>`, or non-empty without `.`, `;`, `[`, `/`, `<`, `>`.
pub open spec fn valid_method_name(s: Seq<u32>) -> bool {
    s == init_name() || s == clinit_name()
        || (s.len() > 0 && forall|i: int| 0 <= i < s.len() ==> !#[trigger] forbidden_in_method(s[i]))
}

/// Checks if a name is an unqualified name according to JVMS 4.2.2.
///
/// This is used for field names, formal parameter names, local variable names.
pub fn is_valid_unqualified_name(x: &JavaString) -> (r: bool)
    ensures
        r == valid_unqualified_name(x@),
{
    if x.is_empty() {
        return false;
    }
    let mut i: usize = 0;
    while i < x.len()
        invariant
            i <= x@.len(),
            forall|j: int| 0 <= j < i ==> !#[trigger] forbidden_in_unqualified(x@[j]),
        decreases x@.len() - i,
    {
        let c = x.get(i);
        if c == DOT || c == SEMICOLON || c == OPEN_BRACKET || c == SLASH {
            assert(forbidden_in_unqualified(x@[i as int]));
            return false;
        }
        i = i + 1;
    }
    true
}

/// Checks that `x`, split at `/`, consists of unqualified names only.
fn is_valid_slash_separated(x: &JavaString) -> (r: bool)
    ensures
        r == valid_slash_separated(x@),
{
    let len = x.len();
    if len == 0 || x.get(0) == SLASH || x.get(len - 1) == SLASH {
        return false;
    }
    let mut i: usize = 0;
    while i < len
        invariant
            len == x@.len(),
            len > 0,
            i <= len,
            forall|j: int| 0 <= j < i && j < len - 1 ==> !(#[trigger] x@[j] == SLASH && x@[j + 1] == SLASH),
            forall|j: int| 0 <= j < i ==> #[trigger] x@[j] != DOT && x@[j] != SEMICOLON && x@[j] != OPEN_BRACKET,
        decreases len - i,
    {
        let c = x.get(i);
        if c == DOT || c == SEMICOLON || c == OPEN_BRACKET {
            return false;
        }
        if c == SLASH && i + 1 < len && x.get(i + 1) == SLASH {
            return false;
        }
        i = i + 1;
    }
    true
}

/// Checks if a class name is valid according to JVMS 4.2.1 (also accepting array class names).
pub fn is_valid_class_name(x: &JavaString) -> (r: bool)
    ensures
        r == valid_class_name(x@),
{
    if x.starts_with(OPEN_BRACKET) {
        FieldDescriptor::is_valid(x)
    } else {
        is_valid_slash_separated(x)
    }
}

/// Checks if a class name is a valid array class name according to JVMS 4.2.1.
pub fn is_valid_arr_class_name(x: &JavaString) -> (r: bool)
    ensures
        r == valid_arr_class_name(x@),
{
    x.starts_with(OPEN_BRACKET) && FieldDescriptor::is_valid(x)
}

/// Checks if a class name is a valid object class name according to JVMS 4.2.1.
///
/// Doesn't accept array class names.
pub fn is_valid_obj_class_name(x: &JavaString) -> (r: bool)
    ensures
        r == valid_obj_class_name(x@),
{
    !x.starts_with(OPEN_BRACKET) && is_valid_slash_separated(x)
}

/// Checks if a method name is valid according to JVMS 4.2.2.
pub fn is_valid_method_name(x: &JavaString) -> (r: bool)
    ensures
        r == valid_method_name(x@),
{
    if x.equals_str("<init>") || x.equals_str("<clinit>") {
        proof {
            reveal_strlit("<init>");
            reveal_strlit("<clinit>");
        }
        assert(code_points_of("<init>"@) =~= init_name());
        assert(code_points_of("<clinit>"@) =~= clinit_name());
        return true;
    }
    proof {
        reveal_strlit("<init>");
        reveal_strlit("<clinit>");
        assert(code_points_of("<init>"@) =~= init_name());
        assert(code_points_of("<clinit>"@) =~= clinit_name());
    }
    if x.is_empty() {
        return false;
    }
    let mut i: usize = 0;
    while i < x.len()
        invariant
            i <= x@.len(),
            forall|j: int| 0 <= j < i ==> !#[trigger] forbidden_in_method(x@[j]),
            x@ != init_name() && x@ != clinit_name(),
        decreases x@.len() - i,
    {
        let c = x.get(i);
        if c == DOT || c == SEMICOLON || c == OPEN_BRACKET || c == SLASH || c == LESS_THAN || c == GREATER_THAN {
            assert(forbidden_in_method(x@[i as int]));
            assert(x@ != init_name() && x@ != clinit_name());
            return false;
        }
        i = i + 1;
    }
    true
}

} // verus!
