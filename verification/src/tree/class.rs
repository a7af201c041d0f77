//! Class names and class-level data.
use vstd::prelude::*;
use crate::ascii::{OPEN_BRACKET, DOLLAR, SLASH};
use crate::error::Error;
use crate::jstring::{JavaString, code_points_of};
use crate::tree::descriptor::count_brackets;
use crate::tree::method::MethodNameAndDesc;
use crate::tree::names::{valid_class_name, valid_arr_class_name, valid_obj_class_name, starts_with_bracket,
    is_valid_class_name, is_valid_arr_class_name, is_valid_obj_class_name};

verus! {

/// Represents a class name: either an array class name like `[I` or an object class name like `java/lang/Object`.
#[derive(Debug, PartialEq, Eq)]
pub struct ClassName(JavaString);

impl View for ClassName {
    type V = Seq<u32>;

    closed spec fn view(&self) -> Seq<u32> {
        self.0@
    }
}

impl ClassName {
    /// Wraps `s` without checking its contents.
    pub fn from_inner_unchecked(s: JavaString) -> (r: ClassName)
        ensures
            r@ == s@,
    {
        ClassName(s)
    }

    /// The underlying string.
    pub fn as_inner(&self) -> (r: &JavaString)
        ensures
            r@ == self@,
    {
        &self.0
    }

    /// Unwraps the underlying string.
    pub fn into_inner(self) -> (r: JavaString)
        ensures
            r@ == self@,
    {
        self.0
    }

    /// A copy of this value.
    pub fn duplicate(&self) -> (r: ClassName)
        ensures
            r@ == self@,
    {
        ClassName(self.0.duplicate())
    }

    /// Whether `inner` is valid for this type.
    pub fn is_valid(inner: &JavaString) -> (r: bool)
        ensures
            r == valid_class_name(inner@),
    {
        is_valid_class_name(inner)
    }

    /// Wraps `s`, failing with [`Error::InvalidName`] if it is not valid for this type.
    pub fn try_from(s: JavaString) -> (r: Result<ClassName, Error>)
        ensures
            r is Ok <==> valid_class_name(s@),
            r matches Ok(v) ==> v@ == s@,
            r is Err ==> r == Err::<ClassName, Error>(Error::InvalidName),
    {
        if is_valid_class_name(&s) {
            Ok(ClassName(s))
        } else {
            Err(Error::InvalidName)
        }
    }
}

/// Represents an array class name, which starts with `[` followed by a field descriptor.
#[derive(Debug, PartialEq, Eq)]
pub struct ArrClassName(JavaString);

impl View for ArrClassName {
    type V = Seq<u32>;

    closed spec fn view(&self) -> Seq<u32> {
        self.0@
    }
}

impl ArrClassName {
    /// Wraps `s` without checking its contents.
    pub fn from_inner_unchecked(s: JavaString) -> (r: ArrClassName)
        ensures
            r@ == s@,
    {
        ArrClassName(s)
    }

    /// The underlying string.
    pub fn as_inner(&self) -> (r: &JavaString)
        ensures
            r@ == self@,
    {
        &self.0
    }

    /// Unwraps the underlying string.
    pub fn into_inner(self) -> (r: JavaString)
        ensures
            r@ == self@,
    {
        self.0
    }

    /// A copy of this value.
    pub fn duplicate(&self) -> (r: ArrClassName)
        ensures
            r@ == self@,
    {
        ArrClassName(self.0.duplicate())
    }

    /// Whether `inner` is valid for this type.
    pub fn is_valid(inner: &JavaString) -> (r: bool)
        ensures
            r == valid_arr_class_name(inner@),
    {
        is_valid_arr_class_name(inner)
    }

    /// Wraps `s`, failing with [`Error::InvalidName`] if it is not valid for this type.
    pub fn try_from(s: JavaString) -> (r: Result<ArrClassName, Error>)
        ensures
            r is Ok <==> valid_arr_class_name(s@),
            r matches Ok(v) ==> v@ == s@,
            r is Err ==> r == Err::<ArrClassName, Error>(Error::InvalidName),
    {
        if is_valid_arr_class_name(&s) {
            Ok(ArrClassName(s))
        } else {
            Err(Error::InvalidName)
        }
    }
}

/// Represents an object class name, with `/` between the parts of the package path.
#[derive(Debug, PartialEq, Eq)]
pub struct ObjClassName(JavaString);

impl View for ObjClassName {
    type V = Seq<u32>;

    closed spec fn view(&self) -> Seq<u32> {
        self.0@
    }
}

impl ObjClassName {
    /// Wraps `s` without checking its contents.
    pub fn from_inner_unchecked(s: JavaString) -> (r: ObjClassName)
        ensures
            r@ == s@,
    {
        ObjClassName(s)
    }

    /// The underlying string.
    pub fn as_inner(&self) -> (r: &JavaString)
        ensures
            r@ == self@,
    {
        &self.0
    }

    /// Unwraps the underlying string.
    pub fn into_inner(self) -> (r: JavaString)
        ensures
            r@ == self@,
    {
        self.0
    }

    /// A copy of this value.
    pub fn duplicate(&self) -> (r: ObjClassName)
        ensures
            r@ == self@,
    {
        ObjClassName(self.0.duplicate())
    }

    /// Whether `inner` is valid for this type.
    pub fn is_valid(inner: &JavaString) -> (r: bool)
        ensures
            r == valid_obj_class_name(inner@),
    {
        is_valid_obj_class_name(inner)
    }

    /// Wraps `s`, failing with [`Error::InvalidName`] if it is not valid for this type.
    pub fn try_from(s: JavaString) -> (r: Result<ObjClassName, Error>)
        ensures
            r is Ok <==> valid_obj_class_name(s@),
            r matches Ok(v) ==> v@ == s@,
            r is Err ==> r == Err::<ObjClassName, Error>(Error::InvalidName),
    {
        if is_valid_obj_class_name(&s) {
            Ok(ObjClassName(s))
        } else {
            Err(Error::InvalidName)
        }
    }
}

/// Represents a class signature, from a generic such as `Foo<T extends Bar>`.
#[derive(Debug, PartialEq, Eq)]
pub struct ClassSignature(JavaString);

impl View for ClassSignature {
    type V = Seq<u32>;

    closed spec fn view(&self) -> Seq<u32> {
        self.0@
    }
}

impl ClassSignature {
    /// Wraps `s` without checking its contents.
    pub fn from_inner_unchecked(s: JavaString) -> (r: ClassSignature)
        ensures
            r@ == s@,
    {
        ClassSignature(s)
    }

    /// The underlying string.
    pub fn as_inner(&self) -> (r: &JavaString)
        ensures
            r@ == self@,
    {
        &self.0
    }

    /// Unwraps the underlying string.
    pub fn into_inner(self) -> (r: JavaString)
        ensures
            r@ == self@,
    {
        self.0
    }

    /// A copy of this value.
    pub fn duplicate(&self) -> (r: ClassSignature)
        ensures
            r@ == self@,
    {
        ClassSignature(self.0.duplicate())
    }

}


/// Class names are not unsized here; a slice is an owned class name.
pub type ClassNameSlice = ClassName;
/// Array class names are not unsized here; a slice is an owned array class name.
pub type ArrClassNameSlice = ArrClassName;
/// Object class names are not unsized here; a slice is an owned object class name.
pub type ObjClassNameSlice = ObjClassName;

impl ClassName {
    /// Checks if this is an array class. Array class names start with `[`.
    pub fn is_array(&self) -> (r: bool)
        ensures
            r == starts_with_bracket(self@),
    {
        self.0.starts_with(OPEN_BRACKET)
    }

    /// Splits into an array class name (`Ok`) or an object class name (`Err`).
    pub fn into_arr_and_obj(self) -> (r: Result<ArrClassName, ObjClassName>)
        ensures
            starts_with_bracket(self@) ==> (r matches Ok(a) && a@ == self@),
            !starts_with_bracket(self@) ==> (r matches Err(o) && o@ == self@),
    {
        if self.is_array() {
            Ok(ArrClassName::from_inner_unchecked(self.0))
        } else {
            Err(ObjClassName::from_inner_unchecked(self.0))
        }
    }

    /// The array class name, if this is one.
    pub fn into_arr(self) -> (r: Option<ArrClassName>)
        ensures
            r is Some <==> starts_with_bracket(self@),
            r matches Some(a) ==> a@ == self@,
    {
        match self.into_arr_and_obj() {
            Ok(a) => Some(a),
            Err(_) => None,
        }
    }

    /// The object class name, if this is one.
    pub fn into_obj(self) -> (r: Option<ObjClassName>)
        ensures
            r is Some <==> !starts_with_bracket(self@),
            r matches Some(o) ==> o@ == self@,
    {
        match self.into_arr_and_obj() {
            Ok(_) => None,
            Err(o) => Some(o),
        }
    }

    /// A copy of the array class name, if this is one.
    pub fn as_arr(&self) -> (r: Option<ArrClassName>)
        ensures
            r is Some <==> starts_with_bracket(self@),
            r matches Some(a) ==> a@ == self@,
    {
        self.duplicate().into_arr()
    }

    /// A copy of the object class name, if this is one.
    pub fn as_obj(&self) -> (r: Option<ObjClassName>)
        ensures
            r is Some <==> !starts_with_bracket(self@),
            r matches Some(o) ==> o@ == self@,
    {
        self.duplicate().into_obj()
    }

    /// Converts an array class name into a class name.
    pub fn from_arr(value: ArrClassName) -> (r: ClassName)
        ensures
            r@ == value@,
    {
        ClassName(value.into_inner())
    }

    /// Converts an object class name into a class name.
    pub fn from_obj(value: ObjClassName) -> (r: ClassName)
        ensures
            r@ == value@,
    {
        ClassName(value.into_inner())
    }
}

impl ArrClassName {
    /// Returns the dimension of the array class: the number of leading `[`,
    /// truncated to a `u8`, which must not be zero.
    pub fn dimension(&self) -> (r: u8)
        requires
            count_brackets(self@, 0) % 256 != 0,
        ensures
            r == count_brackets(self@, 0) % 256,
    {
        let s = &self.0;
        let mut j: usize = 0;
        let mut count: u8 = 0;
        while j < s.len() && s.get(j) == OPEN_BRACKET
            invariant
                j <= s@.len(),
                count == j % 256,
                count_brackets(s@, 0) == j + count_brackets(s@, j as int),
            decreases s@.len() - j,
        {
            j = j + 1;
            count = if count == 255 { 0 } else { count + 1 };
        }
        count
    }
}

/// The index of the last occurrence of `c` in `s`.
pub open spec fn last_index_of(s: Seq<u32>, c: u32) -> Option<int> {
    if s.contains(c) {
        Some(choose|k: int| 0 <= k < s.len() && s[k] == c && forall|m: int| k < m < s.len() ==> s[m] != c)
    } else {
        None
    }
}

/// A string that contains `c` has a last occurrence of it.
pub proof fn lemma_last_index_exists(s: Seq<u32>, c: u32)
    requires
        s.contains(c),
    ensures
        exists|k: int| 0 <= k < s.len() && s[k] == c && forall|m: int| k < m < s.len() ==> s[m] != c,
    decreases s.len(),
{
    if s[s.len() - 1] == c {
        let k = s.len() - 1;
        assert(0 <= k < s.len() && s[k] == c && forall|m: int| k < m < s.len() ==> s[m] != c);
    } else {
        let t = s.drop_last();
        let w = choose|i: int| 0 <= i < s.len() && s[i] == c;
        assert(t[w] == c);
        lemma_last_index_exists(t, c);
        let k = choose|k: int| 0 <= k < t.len() && t[k] == c && forall|m: int| k < m < t.len() ==> t[m] != c;
        assert(s[k] == t[k]);
        assert forall|m: int| k < m < s.len() implies s[m] != c by {
            if m < s.len() - 1 {
                assert(s[m] == t[m]);
            }
        }
        assert(0 <= k < s.len() && s[k] == c && forall|m: int| k < m < s.len() ==> s[m] != c);
    }
}

/// Finds the last occurrence of `c`.
fn rfind(s: &JavaString, c: u32) -> (r: Option<usize>)
    ensures
        r matches Some(k) ==> k < s@.len() && s@[k as int] == c && forall|m: int| k < m < s@.len() ==> s@[m] != c,
        r is None ==> !s@.contains(c),
{
    let mut k = s.len();
    while k > 0
        invariant
            k <= s@.len(),
            forall|m: int| k <= m < s@.len() ==> s@[m] != c,
        decreases k,
    {
        if s.get(k - 1) == c {
            return Some(k - 1);
        }
        k = k - 1;
    }
    assert forall|m: int| 0 <= m < s@.len() implies s@[m] != c by {}
    None
}

/// The split of an object class name at its last `$` into an inner class
/// parent name and an inner class name: both parts must be non-empty, the
/// parent must not end with `/` and the inner name must not contain `/`.
pub open spec fn inner_class_split(s: Seq<u32>) -> Option<(Seq<u32>, Seq<u32>)> {
    match last_index_of(s, DOLLAR) {
        Some(k) => {
            let parent = s.subrange(0, k);
            let inner = s.subrange(k + 1, s.len() as int);
            if parent.len() > 0 && inner.len() > 0 && parent[parent.len() - 1] != SLASH && !inner.contains(SLASH) {
                Some((parent, inner))
            } else {
                None
            }
        },
        None => None,
    }
}

/// The part after the last `/`, or all of `s` if there is none.
pub open spec fn simple_name(s: Seq<u32>) -> Seq<u32> {
    match last_index_of(s, SLASH) {
        Some(k) => s.subrange(k + 1, s.len() as int),
        None => s,
    }
}

impl ObjClassName {
    /// The class name of `Object`.
    #[allow(non_snake_case)]
    pub fn JAVA_LANG_OBJECT() -> (r: ObjClassName)
        ensures
            r@ == code_points_of("java/lang/Object"@),
    {
        ObjClassName(JavaString::from_str("java/lang/Object"))
    }

    /// Joins an inner class parent name and an inner class name with `$`.
    pub fn from_inner_class(parent: ObjClassName, inner_name: &ObjClassName) -> (r: ObjClassName)
        ensures
            r@ == parent@ + seq![DOLLAR] + inner_name@,
    {
        let mut s = parent.into_inner();
        s.push(DOLLAR);
        s.push_java_str(inner_name.as_inner());
        ObjClassName(s)
    }

    /// A copy of this object class name as a class name.
    pub fn as_class_name(&self) -> (r: ClassName)
        ensures
            r@ == self@,
    {
        ClassName(self.0.duplicate())
    }

    /// Gets the simple name: the part after the last `/`.
    pub fn get_simple_name(&self) -> (r: ObjClassName)
        ensures
            r@ == simple_name(self@),
    {
        match rfind(&self.0, SLASH) {
            Some(k) => {
                proof {
                    let s = self@;
                    assert(s.contains(SLASH));
                    let j = last_index_of(s, SLASH).unwrap();
                    assert(j == k) by {
                        if j < k { assert(s[k as int] != SLASH); }
                        if j > k { assert(s[j] != SLASH); }
                    }
                }
                let n = self.0.len();
                ObjClassName(self.0.substring(k + 1, n))
            },
            None => self.duplicate(),
        }
    }

    /// Splits the class name into the inner class parent name and the inner class name.
    pub fn split_inner_class_parent_and_name(&self) -> (r: Option<(ObjClassName, ObjClassName)>)
        ensures
            r is Some <==> inner_class_split(self@) is Some,
            r matches Some((p, i)) ==> inner_class_split(self@) == Some((p@, i@)),
    {
        let s = &self.0;
        match rfind(s, DOLLAR) {
            Some(k) => {
                proof {
                    assert(s@.contains(DOLLAR));
                    let j = last_index_of(s@, DOLLAR).unwrap();
                    assert(j == k) by {
                        if j < k { assert(s@[k as int] != DOLLAR); }
                        if j > k { assert(s@[j] != DOLLAR); }
                    }
                }
                let n = s.len();
                let parent = s.substring(0, k);
                let inner = s.substring(k + 1, n);
                if !parent.is_empty() && !inner.is_empty() && parent.get(parent.len() - 1) != SLASH && !inner.contains(SLASH) {
                    Some((ObjClassName(parent), ObjClassName(inner)))
                } else {
                    None
                }
            },
            None => None,
        }
    }

    /// Gets the inner class name: the part after the last `$`, see
    /// [`ObjClassName::split_inner_class_parent_and_name`].
    pub fn get_inner_class_name(&self) -> (r: Option<ObjClassName>)
        ensures
            r is Some <==> inner_class_split(self@) is Some,
            r matches Some(i) ==> inner_class_split(self@).unwrap().1 == i@,
    {
        match self.split_inner_class_parent_and_name() {
            Some((_, inner)) => Some(inner),
            None => None,
        }
    }

    /// Gets the inner class parent name: the part before the last `$`, see
    /// [`ObjClassName::split_inner_class_parent_and_name`].
    pub fn get_inner_class_parent(&self) -> (r: Option<ObjClassName>)
        ensures
            r is Some <==> inner_class_split(self@) is Some,
            r matches Some(p) ==> inner_class_split(self@).unwrap().0 == p@,
    {
        match self.split_inner_class_parent_and_name() {
            Some((parent, _)) => Some(parent),
            None => None,
        }
    }
}

/// Splitting an inner class name off and joining it back gives the name back.
pub proof fn lemma_inner_class_split_join(s: Seq<u32>)
    requires
        inner_class_split(s) is Some,
    ensures
        inner_class_split(s).unwrap().0 + seq![DOLLAR] + inner_class_split(s).unwrap().1 == s,
{
    lemma_last_index_exists(s, DOLLAR);
    let k = last_index_of(s, DOLLAR).unwrap();
    assert(s.subrange(0, k) + seq![DOLLAR] + s.subrange(k + 1, s.len() as int) =~= s);
}

/// An inner class of a class.
#[derive(Debug, PartialEq, Eq)]
pub struct InnerClass {
    pub inner_class: ClassName,
    pub outer_class: Option<ClassName>,
    pub inner_name: Option<JavaString>,
    pub flags: InnerClassFlags,
}

/// The class and, if there is one, the method that a local or anonymous class is enclosed by.
#[derive(Debug, PartialEq, Eq)]
pub struct EnclosingMethod {
    pub class: ClassName,
    pub method: Option<MethodNameAndDesc>,
}

} // verus!

verus! {

/// Represents the access flags a class can have.
#[derive(Debug, Clone, Copy, Default, PartialEq, Eq, Structural)]
pub struct ClassAccess {
    pub is_public: bool,
    pub is_final: bool,
    pub is_super: bool,
    pub is_interface: bool,
    pub is_abstract: bool,
    pub is_synthetic: bool,
    pub is_annotation: bool,
    pub is_enum: bool,
    pub is_module: bool,
}

/// Interprets an `u16` as the `access_flags` item of the `ClassFile` structure.
pub open spec fn class_access_of(value: u16) -> ClassAccess {
    ClassAccess {
        is_public: value & 0x0001 != 0,
        is_final: value & 0x0010 != 0,
        is_super: value & 0x0020 != 0,
        is_interface: value & 0x0200 != 0,
        is_abstract: value & 0x0400 != 0,
        is_synthetic: value & 0x1000 != 0,
        is_annotation: value & 0x2000 != 0,
        is_enum: value & 0x4000 != 0,
        is_module: value & 0x8000 != 0,
    }
}

/// The `access_flags` item for the given class access flags.
pub open spec fn class_access_bits(a: ClassAccess) -> u16 {
    (if a.is_public { 0x0001u16 } else { 0 }) | (if a.is_final { 0x0010u16 } else { 0 })
        | (if a.is_super { 0x0020u16 } else { 0 }) | (if a.is_interface { 0x0200u16 } else { 0 })
        | (if a.is_abstract { 0x0400u16 } else { 0 }) | (if a.is_synthetic { 0x1000u16 } else { 0 })
        | (if a.is_annotation { 0x2000u16 } else { 0 }) | (if a.is_enum { 0x4000u16 } else { 0 })
        | (if a.is_module { 0x8000u16 } else { 0 })
}

impl From<u16> for ClassAccess {
    fn from(value: u16) -> (r: ClassAccess) {
        ClassAccess {
            is_public: value & 0x0001 != 0,
            is_final: value & 0x0010 != 0,
            is_super: value & 0x0020 != 0,
            is_interface: value & 0x0200 != 0,
            is_abstract: value & 0x0400 != 0,
            is_synthetic: value & 0x1000 != 0,
            is_annotation: value & 0x2000 != 0,
            is_enum: value & 0x4000 != 0,
            is_module: value & 0x8000 != 0,
        }
    }
}

impl vstd::std_specs::convert::FromSpecImpl<u16> for ClassAccess {
    open spec fn obeys_from_spec() -> bool {
        true
    }

    open spec fn from_spec(v: u16) -> ClassAccess {
        class_access_of(v)
    }
}

impl From<ClassAccess> for u16 {
    fn from(value: ClassAccess) -> (r: u16) {
        (if value.is_public { 0x0001u16 } else { 0 }) | (if value.is_final { 0x0010u16 } else { 0 })
            | (if value.is_super { 0x0020u16 } else { 0 }) | (if value.is_interface { 0x0200u16 } else { 0 })
            | (if value.is_abstract { 0x0400u16 } else { 0 }) | (if value.is_synthetic { 0x1000u16 } else { 0 })
            | (if value.is_annotation { 0x2000u16 } else { 0 }) | (if value.is_enum { 0x4000u16 } else { 0 })
            | (if value.is_module { 0x8000u16 } else { 0 })
    }
}

impl vstd::std_specs::convert::FromSpecImpl<ClassAccess> for u16 {
    open spec fn obeys_from_spec() -> bool {
        true
    }

    open spec fn from_spec(v: ClassAccess) -> u16 {
        class_access_bits(v)
    }
}

/// Writing class access flags to an `u16` and reading them back gives them back.
pub proof fn lemma_class_access_round_trip(a: ClassAccess)
    ensures
        class_access_of(class_access_bits(a)) == a,
{
    let (p, f, s, i, ab, sy, an, e, m) = (a.is_public, a.is_final, a.is_super, a.is_interface, a.is_abstract,
        a.is_synthetic, a.is_annotation, a.is_enum, a.is_module);
    let v = class_access_bits(a);
    assert({
        let v = (if p { 0x0001u16 } else { 0 }) | (if f { 0x0010u16 } else { 0 })
            | (if s { 0x0020u16 } else { 0 }) | (if i { 0x0200u16 } else { 0 })
            | (if ab { 0x0400u16 } else { 0 }) | (if sy { 0x1000u16 } else { 0 })
            | (if an { 0x2000u16 } else { 0 }) | (if e { 0x4000u16 } else { 0 })
            | (if m { 0x8000u16 } else { 0 });
        &&& (v & 0x0001 != 0) == p
        &&& (v & 0x0010 != 0) == f
        &&& (v & 0x0020 != 0) == s
        &&& (v & 0x0200 != 0) == i
        &&& (v & 0x0400 != 0) == ab
        &&& (v & 0x1000 != 0) == sy
        &&& (v & 0x2000 != 0) == an
        &&& (v & 0x4000 != 0) == e
        &&& (v & 0x8000 != 0) == m
    }) by (bit_vector);
}

/// Each of the class access flags stands for one bit of the `access_flags` item of a class, in reading and
/// in writing: `0x0001` for `is_public` (ACC_PUBLIC), `0x0010` for `is_final` (ACC_FINAL), `0x0020` for `is_super` (ACC_SUPER), `0x0200` for `is_interface` (ACC_INTERFACE), `0x0400` for `is_abstract` (ACC_ABSTRACT), `0x1000` for `is_synthetic` (ACC_SYNTHETIC), `0x2000` for `is_annotation` (ACC_ANNOTATION), `0x4000` for `is_enum` (ACC_ENUM), `0x8000` for `is_module` (ACC_MODULE).
pub proof fn lemma_class_access_bits(v: u16, a: ClassAccess)
    ensures
        class_access_of(v).is_public == (v & 0x0001 != 0),
        class_access_of(v).is_final == (v & 0x0010 != 0),
        class_access_of(v).is_super == (v & 0x0020 != 0),
        class_access_of(v).is_interface == (v & 0x0200 != 0),
        class_access_of(v).is_abstract == (v & 0x0400 != 0),
        class_access_of(v).is_synthetic == (v & 0x1000 != 0),
        class_access_of(v).is_annotation == (v & 0x2000 != 0),
        class_access_of(v).is_enum == (v & 0x4000 != 0),
        class_access_of(v).is_module == (v & 0x8000 != 0),
        (class_access_bits(a) & 0x0001 != 0) == a.is_public,
        (class_access_bits(a) & 0x0010 != 0) == a.is_final,
        (class_access_bits(a) & 0x0020 != 0) == a.is_super,
        (class_access_bits(a) & 0x0200 != 0) == a.is_interface,
        (class_access_bits(a) & 0x0400 != 0) == a.is_abstract,
        (class_access_bits(a) & 0x1000 != 0) == a.is_synthetic,
        (class_access_bits(a) & 0x2000 != 0) == a.is_annotation,
        (class_access_bits(a) & 0x4000 != 0) == a.is_enum,
        (class_access_bits(a) & 0x8000 != 0) == a.is_module,
{
    lemma_class_access_round_trip(a);
}

/// Represents the access flags of an inner class.
#[derive(Debug, Clone, Copy, Default, PartialEq, Eq, Structural)]
pub struct InnerClassFlags {
    pub is_public: bool,
    pub is_private: bool,
    pub is_protected: bool,
    pub is_static: bool,
    pub is_final: bool,
    pub is_interface: bool,
    pub is_abstract: bool,
    pub is_synthetic: bool,
    pub is_annotation: bool,
    pub is_enum: bool,
}

/// Interprets an `u16` as InnerClassFlags flags; other bits are ignored.
pub open spec fn inner_class_flags_of(value: u16) -> InnerClassFlags {
    InnerClassFlags {
        is_public: value & 0x0001 != 0,
        is_private: value & 0x0002 != 0,
        is_protected: value & 0x0004 != 0,
        is_static: value & 0x0008 != 0,
        is_final: value & 0x0010 != 0,
        is_interface: value & 0x0200 != 0,
        is_abstract: value & 0x0400 != 0,
        is_synthetic: value & 0x1000 != 0,
        is_annotation: value & 0x2000 != 0,
        is_enum: value & 0x4000 != 0,
    }
}

/// The `u16` for the given InnerClassFlags flags.
pub open spec fn inner_class_flags_bits(a: InnerClassFlags) -> u16 {
    (if a.is_public { 0x0001u16 } else { 0 }) | (if a.is_private { 0x0002u16 } else { 0 }) | (if a.is_protected { 0x0004u16 } else { 0 }) | (if a.is_static { 0x0008u16 } else { 0 }) | (if a.is_final { 0x0010u16 } else { 0 }) | (if a.is_interface { 0x0200u16 } else { 0 }) | (if a.is_abstract { 0x0400u16 } else { 0 }) | (if a.is_synthetic { 0x1000u16 } else { 0 }) | (if a.is_annotation { 0x2000u16 } else { 0 }) | (if a.is_enum { 0x4000u16 } else { 0 })
}

impl From<u16> for InnerClassFlags {
    fn from(value: u16) -> (r: InnerClassFlags) {
        InnerClassFlags {
            is_public: value & 0x0001 != 0,
            is_private: value & 0x0002 != 0,
            is_protected: value & 0x0004 != 0,
            is_static: value & 0x0008 != 0,
            is_final: value & 0x0010 != 0,
            is_interface: value & 0x0200 != 0,
            is_abstract: value & 0x0400 != 0,
            is_synthetic: value & 0x1000 != 0,
            is_annotation: value & 0x2000 != 0,
            is_enum: value & 0x4000 != 0,
        }
    }
}

impl vstd::std_specs::convert::FromSpecImpl<u16> for InnerClassFlags {
    open spec fn obeys_from_spec() -> bool {
        true
    }

    open spec fn from_spec(v: u16) -> InnerClassFlags {
        inner_class_flags_of(v)
    }
}

impl From<InnerClassFlags> for u16 {
    fn from(value: InnerClassFlags) -> (r: u16) {
        (if value.is_public { 0x0001u16 } else { 0 }) | (if value.is_private { 0x0002u16 } else { 0 }) | (if value.is_protected { 0x0004u16 } else { 0 }) | (if value.is_static { 0x0008u16 } else { 0 }) | (if value.is_final { 0x0010u16 } else { 0 }) | (if value.is_interface { 0x0200u16 } else { 0 }) | (if value.is_abstract { 0x0400u16 } else { 0 }) | (if value.is_synthetic { 0x1000u16 } else { 0 }) | (if value.is_annotation { 0x2000u16 } else { 0 }) | (if value.is_enum { 0x4000u16 } else { 0 })
    }
}

impl vstd::std_specs::convert::FromSpecImpl<InnerClassFlags> for u16 {
    open spec fn obeys_from_spec() -> bool {
        true
    }

    open spec fn from_spec(v: InnerClassFlags) -> u16 {
        inner_class_flags_bits(v)
    }
}

/// Writing InnerClassFlags flags to an `u16` and reading them back gives them back.
pub proof fn lemma_inner_class_flags_round_trip(a: InnerClassFlags)
    ensures
        inner_class_flags_of(inner_class_flags_bits(a)) == a,
{
    let (x0, x1, x2, x3, x4, x5, x6, x7, x8, x9) = (a.is_public, a.is_private, a.is_protected, a.is_static, a.is_final, a.is_interface, a.is_abstract, a.is_synthetic, a.is_annotation, a.is_enum);
    assert({
        let v = (if x0 { 0x0001u16 } else { 0 }) | (if x1 { 0x0002u16 } else { 0 }) | (if x2 { 0x0004u16 } else { 0 }) | (if x3 { 0x0008u16 } else { 0 }) | (if x4 { 0x0010u16 } else { 0 }) | (if x5 { 0x0200u16 } else { 0 }) | (if x6 { 0x0400u16 } else { 0 }) | (if x7 { 0x1000u16 } else { 0 }) | (if x8 { 0x2000u16 } else { 0 }) | (if x9 { 0x4000u16 } else { 0 });
        &&& (v & 0x0001 != 0) == x0
        &&& (v & 0x0002 != 0) == x1
        &&& (v & 0x0004 != 0) == x2
        &&& (v & 0x0008 != 0) == x3
        &&& (v & 0x0010 != 0) == x4
        &&& (v & 0x0200 != 0) == x5
        &&& (v & 0x0400 != 0) == x6
        &&& (v & 0x1000 != 0) == x7
        &&& (v & 0x2000 != 0) == x8
        &&& (v & 0x4000 != 0) == x9
    }) by (bit_vector);
}

/// Each of the inner class flags stands for one bit of the `inner_class_access_flags` item, in reading and
/// in writing: `0x0001` for `is_public` (ACC_PUBLIC), `0x0002` for `is_private` (ACC_PRIVATE), `0x0004` for `is_protected` (ACC_PROTECTED), `0x0008` for `is_static` (ACC_STATIC), `0x0010` for `is_final` (ACC_FINAL), `0x0200` for `is_interface` (ACC_INTERFACE), `0x0400` for `is_abstract` (ACC_ABSTRACT), `0x1000` for `is_synthetic` (ACC_SYNTHETIC), `0x2000` for `is_annotation` (ACC_ANNOTATION), `0x4000` for `is_enum` (ACC_ENUM).
pub proof fn lemma_inner_class_flags_bits(v: u16, a: InnerClassFlags)
    ensures
        inner_class_flags_of(v).is_public == (v & 0x0001 != 0),
        inner_class_flags_of(v).is_private == (v & 0x0002 != 0),
        inner_class_flags_of(v).is_protected == (v & 0x0004 != 0),
        inner_class_flags_of(v).is_static == (v & 0x0008 != 0),
        inner_class_flags_of(v).is_final == (v & 0x0010 != 0),
        inner_class_flags_of(v).is_interface == (v & 0x0200 != 0),
        inner_class_flags_of(v).is_abstract == (v & 0x0400 != 0),
        inner_class_flags_of(v).is_synthetic == (v & 0x1000 != 0),
        inner_class_flags_of(v).is_annotation == (v & 0x2000 != 0),
        inner_class_flags_of(v).is_enum == (v & 0x4000 != 0),
        (inner_class_flags_bits(a) & 0x0001 != 0) == a.is_public,
        (inner_class_flags_bits(a) & 0x0002 != 0) == a.is_private,
        (inner_class_flags_bits(a) & 0x0004 != 0) == a.is_protected,
        (inner_class_flags_bits(a) & 0x0008 != 0) == a.is_static,
        (inner_class_flags_bits(a) & 0x0010 != 0) == a.is_final,
        (inner_class_flags_bits(a) & 0x0200 != 0) == a.is_interface,
        (inner_class_flags_bits(a) & 0x0400 != 0) == a.is_abstract,
        (inner_class_flags_bits(a) & 0x1000 != 0) == a.is_synthetic,
        (inner_class_flags_bits(a) & 0x2000 != 0) == a.is_annotation,
        (inner_class_flags_bits(a) & 0x4000 != 0) == a.is_enum,
{
    lemma_inner_class_flags_round_trip(a);
}


} // verus!
