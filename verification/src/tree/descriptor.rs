//! Parsing and writing of field and method descriptors.
//!
//! The grammar is:
//! ```txt
//! FieldDescriptor:  FieldType
//! MethodDescriptor: "(" FieldType* ")" ReturnDescriptor
//! ReturnDescriptor: FieldType | "V"
//! FieldType:        "B" | "C" | "D" | "F" | "I" | "J" | "S" | "Z" | "L" ClassName ";" | "[" FieldType
//! ```
use vstd::prelude::*;
use crate::ascii::{OPEN_BRACKET, SEMICOLON, UPPER_B, UPPER_C, UPPER_D, UPPER_F, UPPER_I, UPPER_J, UPPER_L, UPPER_S, UPPER_Z, OPEN_PAREN, CLOSE_PAREN, UPPER_V};
use crate::error::Error;
use crate::jstring::JavaString;
use crate::tree::class::ClassName;
use crate::tree::names::{valid_obj_class_name, is_valid_obj_class_name};
use crate::tree::field::FieldDescriptor;
use crate::tree::method::MethodDescriptor;

verus! {

/// The inner type of an array type, or a non-array type.
#[derive(Debug, PartialEq, Eq)]
pub enum ArrayType {
    B,
    C,
    D,
    F,
    I,
    J,
    S,
    Z,
    Object(ClassName),
}

/// Represents a type. Arrays are given by their dimension and inner type.
#[derive(Debug, PartialEq, Eq)]
pub enum Type {
    /// A `byte`.
    B,
    /// A `char`.
    C,
    /// A `double`.
    D,
    /// A `float`.
    F,
    /// An `int`.
    I,
    /// A `long`.
    J,
    /// A `short`.
    S,
    /// A `boolean`.
    Z,
    /// An instance of the class given.
    Object(ClassName),
    /// An array type, represented by the dimension and the inner type.
    Array(u8, ArrayType),
}

/// The mathematical model of an [`ArrayType`].
pub ghost enum ElementModel {
    B,
    C,
    D,
    F,
    I,
    J,
    S,
    Z,
    Object(Seq<u32>),
}

/// The mathematical model of a [`Type`].
pub ghost enum TypeModel {
    Plain(ElementModel),
    Array(u8, ElementModel),
}

impl View for ArrayType {
    type V = ElementModel;

    open spec fn view(&self) -> ElementModel {
        match self {
            ArrayType::B => ElementModel::B,
            ArrayType::C => ElementModel::C,
            ArrayType::D => ElementModel::D,
            ArrayType::F => ElementModel::F,
            ArrayType::I => ElementModel::I,
            ArrayType::J => ElementModel::J,
            ArrayType::S => ElementModel::S,
            ArrayType::Z => ElementModel::Z,
            ArrayType::Object(n) => ElementModel::Object(n@),
        }
    }
}

impl View for Type {
    type V = TypeModel;

    open spec fn view(&self) -> TypeModel {
        match self {
            Type::B => TypeModel::Plain(ElementModel::B),
            Type::C => TypeModel::Plain(ElementModel::C),
            Type::D => TypeModel::Plain(ElementModel::D),
            Type::F => TypeModel::Plain(ElementModel::F),
            Type::I => TypeModel::Plain(ElementModel::I),
            Type::J => TypeModel::Plain(ElementModel::J),
            Type::S => TypeModel::Plain(ElementModel::S),
            Type::Z => TypeModel::Plain(ElementModel::Z),
            Type::Object(n) => TypeModel::Plain(ElementModel::Object(n@)),
            Type::Array(d, e) => TypeModel::Array(*d, e@),
        }
    }
}

// ----- the written form -----

/// The characters of an element type.
pub open spec fn element_chars(e: ElementModel) -> Seq<u32> {
    match e {
        ElementModel::B => seq![UPPER_B],
        ElementModel::C => seq![UPPER_C],
        ElementModel::D => seq![UPPER_D],
        ElementModel::F => seq![UPPER_F],
        ElementModel::I => seq![UPPER_I],
        ElementModel::J => seq![UPPER_J],
        ElementModel::S => seq![UPPER_S],
        ElementModel::Z => seq![UPPER_Z],
        ElementModel::Object(n) => seq![UPPER_L] + n + seq![SEMICOLON],
    }
}

/// `n` opening brackets.
pub open spec fn brackets(n: nat) -> Seq<u32> {
    Seq::new(n, |k: int| OPEN_BRACKET)
}

/// The characters of a type as written in a descriptor.
pub open spec fn type_chars(t: TypeModel) -> Seq<u32> {
    match t {
        TypeModel::Plain(e) => element_chars(e),
        TypeModel::Array(d, e) => brackets(d as nat) + element_chars(e),
    }
}

/// Whether an element type can be written and read back: class names must not contain `;`.
pub open spec fn wf_element(e: ElementModel) -> bool {
    match e {
        ElementModel::Object(n) => !n.contains(SEMICOLON),
        _ => true,
    }
}

/// Whether a type can be written and read back: class names must not contain
/// `;`, and arrays must have at least one dimension.
pub open spec fn wf_type(t: TypeModel) -> bool {
    match t {
        TypeModel::Plain(e) => wf_element(e),
        TypeModel::Array(d, e) => d >= 1 && wf_element(e),
    }
}

// ----- the parser -----

/// The number of `[` at `i` and directly after it.
pub open spec fn count_brackets(s: Seq<u32>, i: int) -> nat
    decreases s.len() - i,
{
    if 0 <= i < s.len() && s[i] == OPEN_BRACKET {
        1 + count_brackets(s, i + 1)
    } else {
        0
    }
}

/// The index of the first `;` at or after `i`.
pub open spec fn find_semicolon(s: Seq<u32>, i: int) -> Option<int>
    decreases s.len() - i,
{
    if i < 0 || i >= s.len() {
        None
    } else if s[i] == SEMICOLON {
        Some(i)
    } else {
        find_semicolon(s, i + 1)
    }
}

/// The primitive element type written as `c`, if any.
pub open spec fn primitive(c: u32) -> Option<ElementModel> {
    if c == UPPER_B {
        Some(ElementModel::B)
    } else if c == UPPER_C {
        Some(ElementModel::C)
    } else if c == UPPER_D {
        Some(ElementModel::D)
    } else if c == UPPER_F {
        Some(ElementModel::F)
    } else if c == UPPER_I {
        Some(ElementModel::I)
    } else if c == UPPER_J {
        Some(ElementModel::J)
    } else if c == UPPER_S {
        Some(ElementModel::S)
    } else if c == UPPER_Z {
        Some(ElementModel::Z)
    } else {
        None
    }
}

/// Reads an element type at `j`, returning it and the index after it.
pub open spec fn read_element(s: Seq<u32>, j: int) -> Option<(ElementModel, int)> {
    if j < 0 || j >= s.len() {
        None
    } else if primitive(s[j]) is Some {
        Some((primitive(s[j]).unwrap(), j + 1))
    } else if s[j] == UPPER_L {
        match find_semicolon(s, j + 1) {
            Some(k) => Some((ElementModel::Object(s.subrange(j + 1, k)), k + 1)),
            None => None,
        }
    } else {
        None
    }
}

/// Reads a field type at `i`, returning it and the index after it.
pub open spec fn read_field(s: Seq<u32>, i: int) -> Option<(TypeModel, int)> {
    let d = count_brackets(s, i);
    match read_element(s, i + d) {
        Some((e, j)) => Some((if d == 0 { TypeModel::Plain(e) } else { TypeModel::Array(d as u8, e) }, j)),
        None => None,
    }
}

/// The field descriptor `s` parses to a type.
pub open spec fn parse_field(s: Seq<u32>) -> Option<TypeModel> {
    match read_field(s, 0) {
        Some((t, j)) => if j == s.len() { Some(t) } else { None },
        None => None,
    }
}

// ----- exec -----

/// Counts the `[` at `i` and directly after it.
fn count_open_brackets(s: &JavaString, i: usize) -> (r: usize)
    requires
        i <= s@.len(),
        count_brackets(s@, i as int) < 256,
    ensures
        r == count_brackets(s@, i as int),
{
    let mut j = i;
    while j < s.len() && s.get(j) == OPEN_BRACKET
        invariant
            i <= j <= s@.len(),
            count_brackets(s@, i as int) == (j - i) + count_brackets(s@, j as int),
        decreases s@.len() - j,
    {
        j = j + 1;
    }
    j - i
}

/// Finds the first `;` at or after `i`.
fn find_semicolon_exec(s: &JavaString, i: usize) -> (r: Option<usize>)
    requires
        i <= s@.len(),
    ensures
        r matches Some(k) ==> find_semicolon(s@, i as int) == Some(k as int),
        r is None ==> find_semicolon(s@, i as int) is None,
{
    let mut k = i;
    while k < s.len()
        invariant
            i <= k <= s@.len(),
            find_semicolon(s@, i as int) == find_semicolon(s@, k as int),
        decreases s@.len() - k,
    {
        if s.get(k) == SEMICOLON {
            return Some(k);
        }
        k = k + 1;
    }
    None
}

/// Reads the element type at `j`.
fn read_element_exec(s: &JavaString, j: usize) -> (r: Result<(ArrayType, usize), Error>)
    requires
        j <= s@.len(),
    ensures
        r matches Ok((e, k)) ==> read_element(s@, j as int) == Some((e@, k as int)),
        r is Err ==> read_element(s@, j as int) is None && r == Err::<(ArrayType, usize), Error>(Error::InvalidDescriptor),
{
    if j >= s.len() {
        return Err(Error::InvalidDescriptor);
    }
    let c = s.get(j);
    if c == UPPER_B {
        Ok((ArrayType::B, j + 1))
    } else if c == UPPER_C {
        Ok((ArrayType::C, j + 1))
    } else if c == UPPER_D {
        Ok((ArrayType::D, j + 1))
    } else if c == UPPER_F {
        Ok((ArrayType::F, j + 1))
    } else if c == UPPER_I {
        Ok((ArrayType::I, j + 1))
    } else if c == UPPER_J {
        Ok((ArrayType::J, j + 1))
    } else if c == UPPER_S {
        Ok((ArrayType::S, j + 1))
    } else if c == UPPER_Z {
        Ok((ArrayType::Z, j + 1))
    } else if c == UPPER_L {
        match find_semicolon_exec(s, j + 1) {
            Some(k) => {
                proof { lemma_find_semicolon(s@, j + 1); }
                let name = s.substring(j + 1, k);
                Ok((ArrayType::Object(ClassName::from_inner_unchecked(name)), k + 1))
            },
            None => Err(Error::InvalidDescriptor),
        }
    } else {
        Err(Error::InvalidDescriptor)
    }
}

/// Turns an element type into the non-array type it stands for.
fn plain_type(e: ArrayType) -> (r: Type)
    ensures
        r@ == TypeModel::Plain(e@),
{
    match e {
        ArrayType::B => Type::B,
        ArrayType::C => Type::C,
        ArrayType::D => Type::D,
        ArrayType::F => Type::F,
        ArrayType::I => Type::I,
        ArrayType::J => Type::J,
        ArrayType::S => Type::S,
        ArrayType::Z => Type::Z,
        ArrayType::Object(n) => Type::Object(n),
    }
}

/// Reads a field type starting at `i`, returning it and the index after it.
fn read_field_type(s: &JavaString, i: usize) -> (r: Result<(Type, usize), Error>)
    requires
        i <= s@.len(),
        count_brackets(s@, i as int) < 256,
    ensures
        r matches Ok((t, k)) ==> read_field(s@, i as int) == Some((t@, k as int)),
        r is Err ==> read_field(s@, i as int) is None && r == Err::<(Type, usize), Error>(Error::InvalidDescriptor),
{
    let d = count_open_brackets(s, i);
    let _len = s.len();
    proof { lemma_count_brackets_bound(s@, i as int); }
    let (e, k) = read_element_exec(s, i + d)?;
    if d == 0 {
        Ok((plain_type(e), k))
    } else {
        Ok((Type::Array(d as u8, e), k))
    }
}

/// A `;` that is found lies at or after `i`, within the string.
proof fn lemma_find_semicolon(s: Seq<u32>, i: int)
    ensures
        find_semicolon(s, i) matches Some(k) ==> i <= k < s.len() && s[k] == SEMICOLON
            && !s.subrange(i, k).contains(SEMICOLON),
    decreases s.len() - i,
{
    if 0 <= i < s.len() && s[i] != SEMICOLON {
        lemma_find_semicolon(s, i + 1);
        if let Some(k) = find_semicolon(s, i + 1) {
            assert forall|m: int| 0 <= m < s.subrange(i, k).len() implies s.subrange(i, k)[m] != SEMICOLON by {
                if m > 0 {
                    assert(s.subrange(i, k)[m] == s.subrange(i + 1, k)[m - 1]);
                }
            }
        }
    }
}

/// The brackets counted at `i` lie within the string.
proof fn lemma_count_brackets_bound(s: Seq<u32>, i: int)
    requires
        0 <= i <= s.len(),
    ensures
        i + count_brackets(s, i) <= s.len(),
    decreases s.len() - i,
{
    if i < s.len() && s[i] == OPEN_BRACKET {
        lemma_count_brackets_bound(s, i + 1);
    }
}

/// The parsed form of a field descriptor.
#[derive(Debug, PartialEq, Eq)]
pub struct ParsedFieldDescriptor(pub Type);

impl FieldDescriptor {
    /// Parses a field descriptor according to the grammar of field types.
    ///
    /// Fails with [`Error::InvalidDescriptor`] if the descriptor is not one
    /// field type with at most 255 array dimensions and a valid class name, if
    /// any, with nothing after it. The inverse is [`ParsedFieldDescriptor::write`].
    pub fn parse(&self) -> (r: Result<ParsedFieldDescriptor, Error>)
        ensures
            r is Ok <==> valid_field_descriptor(self@),
            r matches Ok(d) ==> parse_field(self@) == Some(d.0@),
            r is Err ==> r == Err::<ParsedFieldDescriptor, Error>(Error::InvalidDescriptor),
    {
        if !FieldDescriptor::is_valid(self.as_inner()) {
            return Err(Error::InvalidDescriptor);
        }
        self.parse_grammar()
    }

    /// Parses the descriptor by the grammar alone, for one whose array
    /// dimensions are fewer than 256.
    fn parse_grammar(&self) -> (r: Result<ParsedFieldDescriptor, Error>)
        requires
            count_brackets(self@, 0) < 256,
        ensures
            r is Ok <==> parse_field(self@) is Some,
            r matches Ok(d) ==> parse_field(self@) == Some(d.0@),
            r is Err ==> r == Err::<ParsedFieldDescriptor, Error>(Error::InvalidDescriptor),
    {
        let s = self.as_inner();
        let (t, k) = read_field_type(s, 0)?;
        if k != s.len() {
            return Err(Error::InvalidDescriptor);
        }
        Ok(ParsedFieldDescriptor(t))
    }
}


/// Appends the characters of an element type.
fn write_element(e: &ArrayType, string: &mut JavaString)
    ensures
        final(string)@ == old(string)@ + element_chars(e@),
{
    match e {
        ArrayType::B => string.push(UPPER_B),
        ArrayType::C => string.push(UPPER_C),
        ArrayType::D => string.push(UPPER_D),
        ArrayType::F => string.push(UPPER_F),
        ArrayType::I => string.push(UPPER_I),
        ArrayType::J => string.push(UPPER_J),
        ArrayType::S => string.push(UPPER_S),
        ArrayType::Z => string.push(UPPER_Z),
        ArrayType::Object(class_name) => {
            string.push(UPPER_L);
            string.push_java_str(class_name.as_inner());
            string.push(SEMICOLON);
        },
    }
}

/// Appends the characters of a type as written in a descriptor.
fn write_field_type(t: &Type, string: &mut JavaString)
    ensures
        final(string)@ == old(string)@ + type_chars(t@),
{
    match t {
        Type::B => string.push(UPPER_B),
        Type::C => string.push(UPPER_C),
        Type::D => string.push(UPPER_D),
        Type::F => string.push(UPPER_F),
        Type::I => string.push(UPPER_I),
        Type::J => string.push(UPPER_J),
        Type::S => string.push(UPPER_S),
        Type::Z => string.push(UPPER_Z),
        Type::Object(class_name) => {
            string.push(UPPER_L);
            string.push_java_str(class_name.as_inner());
            string.push(SEMICOLON);
        },
        Type::Array(array_dimension, array_type) => {
            let ghost start = string@;
            let mut k: u8 = 0;
            while k < *array_dimension
                invariant
                    k <= *array_dimension,
                    string@ == start + brackets(k as nat),
                decreases *array_dimension - k,
            {
                string.push(OPEN_BRACKET);
                k = k + 1;
                assert(brackets(k as nat) == brackets((k - 1) as nat).push(OPEN_BRACKET));
            }
            write_element(array_type, string);
        },
    }
}

impl ParsedFieldDescriptor {
    /// Writes the field descriptor. The inverse of [`FieldDescriptor::parse`].
    pub fn write(&self) -> (r: FieldDescriptor)
        ensures
            r@ == type_chars(self.0@),
    {
        let mut s = JavaString::new();
        write_field_type(&self.0, &mut s);
        assert(Seq::<u32>::empty() + type_chars(self.0@) == type_chars(self.0@));
        FieldDescriptor::from_inner_unchecked(s)
    }
}

// ----- laws -----

/// `count_brackets` counts a run of brackets followed by something else.
proof fn lemma_count_brackets_run(s: Seq<u32>, i: int, d: nat)
    requires
        0 <= i,
        i + d < s.len(),
        forall|k: int| i <= k < i + d ==> s[k] == OPEN_BRACKET,
        s[i + d] != OPEN_BRACKET,
    ensures
        count_brackets(s, i) == d,
    decreases d,
{
    if d > 0 {
        lemma_count_brackets_run(s, i + 1, (d - 1) as nat);
    }
}

/// The counted brackets are all `[`, and the next character is not.
proof fn lemma_count_brackets_chars(s: Seq<u32>, i: int)
    requires
        0 <= i <= s.len(),
    ensures
        forall|k: int| i <= k < i + count_brackets(s, i) ==> s[k] == OPEN_BRACKET,
        i + count_brackets(s, i) < s.len() ==> s[i + count_brackets(s, i)] != OPEN_BRACKET,
    decreases s.len() - i,
{
    if i < s.len() && s[i] == OPEN_BRACKET {
        lemma_count_brackets_chars(s, i + 1);
    }
}

/// `find_semicolon` finds the first `;` after a run without one.
proof fn lemma_find_semicolon_after(s: Seq<u32>, i: int, n: nat)
    requires
        0 <= i,
        i + n < s.len(),
        forall|k: int| i <= k < i + n ==> s[k] != SEMICOLON,
        s[i + n] == SEMICOLON,
    ensures
        find_semicolon(s, i) == Some(i + n),
    decreases n,
{
    if n > 0 {
        lemma_find_semicolon_after(s, i + 1, (n - 1) as nat);
    }
}

/// Reading a written element type, followed by anything, gives it back.
proof fn lemma_read_element_written(p: Seq<u32>, e: ElementModel, q: Seq<u32>)
    requires
        wf_element(e),
    ensures
        read_element(p + element_chars(e) + q, p.len() as int) == Some((e, (p.len() + element_chars(e).len()) as int)),
{
    let s = p + element_chars(e) + q;
    let i = p.len() as int;
    if let ElementModel::Object(n) = e {
        assert(s[i] == UPPER_L);
        assert forall|k: int| i + 1 <= k < i + 1 + n.len() implies s[k] != SEMICOLON by {
            assert(s[k] == n[k - i - 1]);
        }
        assert(s[i + 1 + n.len()] == SEMICOLON);
        lemma_find_semicolon_after(s, i + 1, n.len());
        assert(s.subrange(i + 1, i + 1 + n.len()) == n);
    } else {
        assert(s[i] == element_chars(e)[0]);
    }
}

/// Reading a written type, followed by anything, gives it back.
pub proof fn lemma_read_field_written(p: Seq<u32>, t: TypeModel, q: Seq<u32>)
    requires
        wf_type(t),
    ensures
        read_field(p + type_chars(t) + q, p.len() as int) == Some((t, (p.len() + type_chars(t).len()) as int)),
{
    let s = p + type_chars(t) + q;
    let i = p.len() as int;
    match t {
        TypeModel::Plain(e) => {
            lemma_read_element_written(p, e, q);
            assert(s[i] == element_chars(e)[0]);
            assert(count_brackets(s, i) == 0);
        },
        TypeModel::Array(d, e) => {
            let p2 = p + brackets(d as nat);
            assert(s == p2 + element_chars(e) + q);
            lemma_read_element_written(p2, e, q);
            assert forall|k: int| i <= k < i + d implies s[k] == OPEN_BRACKET by {
                assert(s[k] == brackets(d as nat)[k - i]);
            }
            assert(s[i + d] == element_chars(e)[0]);
            lemma_count_brackets_run(s, i, d as nat);
        },
    }
}

/// What a field type was read from is its written form.
pub proof fn lemma_read_field_chars(s: Seq<u32>, i: int)
    requires
        0 <= i <= s.len(),
        count_brackets(s, i) < 256,
        read_field(s, i) is Some,
    ensures
        wf_type(read_field(s, i).unwrap().0),
        i < read_field(s, i).unwrap().1 <= s.len(),
        s.subrange(i, read_field(s, i).unwrap().1) == type_chars(read_field(s, i).unwrap().0),
{
    let d = count_brackets(s, i);
    lemma_count_brackets_chars(s, i);
    lemma_count_brackets_bound(s, i);
    let j = i + d;
    let (e, k) = read_element(s, j).unwrap();
    if s[j] == UPPER_L && primitive(s[j]) is None {
        lemma_find_semicolon(s, j + 1);
        let m = find_semicolon(s, j + 1).unwrap();
        assert(s.subrange(j, k) == seq![UPPER_L] + s.subrange(j + 1, m) + seq![SEMICOLON]);
    } else {
        assert(s.subrange(j, k) == seq![s[j]]);
    }
    assert(s.subrange(i, j) == brackets(d));
    assert(s.subrange(i, k) == s.subrange(i, j) + s.subrange(j, k));
    if d == 0 {
        assert(brackets(0) + s.subrange(j, k) == s.subrange(j, k));
    }
}

/// Parsing a written field descriptor gives the type back.
pub proof fn lemma_parse_field_write(t: TypeModel)
    requires
        wf_type(t),
    ensures
        parse_field(type_chars(t)) == Some(t),
{
    lemma_read_field_written(Seq::empty(), t, Seq::empty());
    assert(Seq::<u32>::empty() + type_chars(t) + Seq::<u32>::empty() == type_chars(t));
}

/// Writing a parsed field descriptor gives the descriptor back.
pub proof fn lemma_write_parse_field(s: Seq<u32>)
    requires
        count_brackets(s, 0) < 256,
        parse_field(s) is Some,
    ensures
        wf_type(parse_field(s).unwrap()),
        type_chars(parse_field(s).unwrap()) == s,
{
    lemma_read_field_chars(s, 0);
    assert(s.subrange(0, s.len() as int) == s);
}


// ----- method descriptors -----

/// Reads parameter types from `i` up to and including the closing `)`,
/// returning them and the index after the `)`.
pub open spec fn read_params(s: Seq<u32>, i: int) -> Option<(Seq<TypeModel>, int)>
    decreases s.len() - i,
{
    if i < 0 || i >= s.len() {
        None
    } else if s[i] == CLOSE_PAREN {
        Some((Seq::empty(), i + 1))
    } else {
        match read_field(s, i) {
            Some((t, j)) => if i < j <= s.len() {
                match read_params(s, j) {
                    Some((ts, k)) => Some((seq![t] + ts, k)),
                    None => None,
                }
            } else {
                None
            },
            None => None,
        }
    }
}

/// Whether no parameter type read from `i` on starts with 256 or more `[`.
pub open spec fn params_dims_ok(s: Seq<u32>, i: int) -> bool
    decreases s.len() - i,
{
    if i < 0 || i >= s.len() || s[i] == CLOSE_PAREN {
        true
    } else {
        count_brackets(s, i) < 256 && match read_field(s, i) {
            Some((t, j)) => i < j <= s.len() ==> params_dims_ok(s, j),
            None => true,
        }
    }
}

/// The method descriptor `s` parses to parameter types and a return type (`None` for `V`).
pub open spec fn parse_method(s: Seq<u32>) -> Option<(Seq<TypeModel>, Option<TypeModel>)> {
    if s.len() == 0 || s[0] != OPEN_PAREN {
        None
    } else {
        match read_params(s, 1) {
            Some((ps, k)) => if k < s.len() && s[k] == UPPER_V {
                if k + 1 == s.len() { Some((ps, None)) } else { None }
            } else {
                match read_field(s, k) {
                    Some((r, m)) => if m == s.len() { Some((ps, Some(r))) } else { None },
                    None => None,
                }
            },
            None => None,
        }
    }
}

/// Whether parsing the method descriptor `s` never meets 256 or more `[` in a row
/// where a type starts.
pub open spec fn method_dims_ok(s: Seq<u32>) -> bool {
    s.len() == 0 || s[0] != OPEN_PAREN || (params_dims_ok(s, 1) && match read_params(s, 1) {
        Some((ps, k)) => (k < s.len() && s[k] == UPPER_V) || count_brackets(s, k) < 256,
        None => true,
    })
}

/// The characters of a sequence of types, one after the other.
pub open spec fn types_chars(ts: Seq<TypeModel>) -> Seq<u32>
    decreases ts.len(),
{
    if ts.len() == 0 {
        Seq::empty()
    } else {
        type_chars(ts[0]) + types_chars(ts.drop_first())
    }
}

/// The characters of a method descriptor.
pub open spec fn method_chars(ps: Seq<TypeModel>, r: Option<TypeModel>) -> Seq<u32> {
    seq![OPEN_PAREN] + types_chars(ps) + seq![CLOSE_PAREN] + match r {
        Some(t) => type_chars(t),
        None => seq![UPPER_V],
    }
}

/// Whether every type of `ts` can be written and read back.
pub open spec fn wf_types(ts: Seq<TypeModel>) -> bool {
    forall|k: int| 0 <= k < ts.len() ==> #[trigger] wf_type(ts[k])
}

/// The parsed form of a method descriptor.
#[derive(Debug, PartialEq, Eq)]
pub struct ParsedMethodDescriptor {
    pub parameter_descriptors: Vec<Type>,
    /// `None` stands for the `V` (void) return descriptor.
    pub return_descriptor: Option<Type>,
}

/// The models of a vector of types.
pub open spec fn types_view(ts: Seq<Type>) -> Seq<TypeModel> {
    ts.map_values(|t: Type| t@)
}

/// The model of an optional type.
pub open spec fn opt_view(t: Option<Type>) -> Option<TypeModel> {
    match t {
        Some(t) => Some(t@),
        None => None,
    }
}

impl MethodDescriptor {
    /// Parses a method descriptor: `(`, parameter types, `)`, then a return type or `V`.
    ///
    /// Fails with [`Error::InvalidDescriptor`] if the descriptor does not follow that grammar,
    /// has a type with more than 255 array dimensions or an invalid class name,
    /// or has something after it. The inverse is [`ParsedMethodDescriptor::write`].
    pub fn parse(&self) -> (r: Result<ParsedMethodDescriptor, Error>)
        ensures
            r is Ok <==> valid_method_descriptor(self@),
            r matches Ok(d) ==> parse_method(self@) == Some((types_view(d.parameter_descriptors@), opt_view(d.return_descriptor))),
            r is Err ==> r == Err::<ParsedMethodDescriptor, Error>(Error::InvalidDescriptor),
    {
        if !MethodDescriptor::is_valid(self.as_inner()) {
            return Err(Error::InvalidDescriptor);
        }
        self.parse_grammar()
    }

    /// Parses the descriptor by the grammar alone, for one whose types all
    /// have fewer than 256 array dimensions.
    fn parse_grammar(&self) -> (r: Result<ParsedMethodDescriptor, Error>)
        requires
            method_dims_ok(self@),
        ensures
            r is Ok <==> parse_method(self@) is Some,
            r matches Ok(d) ==> parse_method(self@) == Some((types_view(d.parameter_descriptors@), opt_view(d.return_descriptor))),
            r is Err ==> r == Err::<ParsedMethodDescriptor, Error>(Error::InvalidDescriptor),
    {
        let s = self.as_inner();
        let len = s.len();
        if len == 0 || s.get(0) != OPEN_PAREN {
            return Err(Error::InvalidDescriptor);
        }
        let mut parameter_descriptors: Vec<Type> = Vec::new();
        let mut i: usize = 1;
        loop
            invariant_except_break
                1 <= i <= len,
                len == s@.len(),
                s@ == self@,
                method_dims_ok(self@),
                params_dims_ok(s@, i as int),
                read_params(s@, 1) == match read_params(s@, i as int) {
                    Some((ts, k)) => Some((types_view(parameter_descriptors@) + ts, k)),
                    None => None::<(Seq<TypeModel>, int)>,
                },
            ensures
                1 <= i <= len,
                len == s@.len(),
                s@ == self@,
                read_params(s@, 1) == Some((types_view(parameter_descriptors@), i as int)),
            decreases len - i,
        {
            if i >= len {
                return Err(Error::InvalidDescriptor);
            }
            if s.get(i) == CLOSE_PAREN {
                i = i + 1;
                assert(types_view(parameter_descriptors@) + Seq::<TypeModel>::empty() == types_view(parameter_descriptors@));
                break;
            }
            let (t, j) = read_field_type(s, i)?;
            proof { lemma_read_field_chars(s@, i as int); }
            let ghost before = types_view(parameter_descriptors@);
            parameter_descriptors.push(t);
            proof {
                assert(types_view(parameter_descriptors@) == before.push(t@));
                match read_params(s@, j as int) {
                    Some((ts, k)) => {
                        assert(before + (seq![t@] + ts) == before.push(t@) + ts);
                    },
                    None => {},
                }
            }
            i = j;
        }
        if i < len && s.get(i) == UPPER_V {
            if i + 1 == len {
                return Ok(ParsedMethodDescriptor { parameter_descriptors, return_descriptor: None });
            } else {
                return Err(Error::InvalidDescriptor);
            }
        }
        let (t, m) = read_field_type(s, i)?;
        if m != len {
            return Err(Error::InvalidDescriptor);
        }
        Ok(ParsedMethodDescriptor { parameter_descriptors, return_descriptor: Some(t) })
    }
}

impl ParsedMethodDescriptor {
    /// Writes the method descriptor. The inverse of [`MethodDescriptor::parse`].
    pub fn write(&self) -> (r: MethodDescriptor)
        ensures
            r@ == method_chars(types_view(self.parameter_descriptors@), opt_view(self.return_descriptor)),
    {
        let mut s = JavaString::new();
        s.push(OPEN_PAREN);
        let ghost ps = types_view(self.parameter_descriptors@);
        let mut i: usize = 0;
        while i < self.parameter_descriptors.len()
            invariant
                i <= self.parameter_descriptors@.len(),
                ps == types_view(self.parameter_descriptors@),
                s@ == seq![OPEN_PAREN] + types_chars(ps.take(i as int)),
            decreases self.parameter_descriptors@.len() - i,
        {
            write_field_type(&self.parameter_descriptors[i], &mut s);
            proof { lemma_types_chars_push(ps.take(i as int), ps[i as int]); }
            assert(ps.take(i + 1) == ps.take(i as int).push(ps[i as int]));
            i = i + 1;
        }
        assert(ps.take(ps.len() as int) == ps);
        s.push(CLOSE_PAREN);
        match &self.return_descriptor {
            Some(t) => write_field_type(t, &mut s),
            None => s.push(UPPER_V),
        }
        MethodDescriptor::from_inner_unchecked(s)
    }
}

/// Writing one more type appends its characters.
proof fn lemma_types_chars_push(ts: Seq<TypeModel>, t: TypeModel)
    ensures
        types_chars(ts.push(t)) == types_chars(ts) + type_chars(t),
    decreases ts.len(),
{
    if ts.len() == 0 {
        assert(ts.push(t).drop_first() == Seq::<TypeModel>::empty());
        assert(types_chars(Seq::<TypeModel>::empty()) == Seq::<u32>::empty());
        assert(ts.push(t)[0] == t);
        assert(type_chars(t) + Seq::<u32>::empty() == type_chars(t));
        assert(Seq::<u32>::empty() + type_chars(t) == type_chars(t));
    } else {
        assert(ts.push(t)[0] == ts[0]);
        lemma_types_chars_push(ts.drop_first(), t);
        assert(ts.push(t).drop_first() == ts.drop_first().push(t));
    }
}

/// Reading written parameter types and the `)`, followed by anything, gives them back.
proof fn lemma_read_params_written(p: Seq<u32>, ts: Seq<TypeModel>, q: Seq<u32>)
    requires
        wf_types(ts),
    ensures
        read_params(p + types_chars(ts) + seq![CLOSE_PAREN] + q, p.len() as int)
            == Some((ts, (p.len() + types_chars(ts).len() + 1) as int)),
    decreases ts.len(),
{
    let s = p + types_chars(ts) + seq![CLOSE_PAREN] + q;
    let i = p.len() as int;
    if ts.len() == 0 {
        assert(s[i] == CLOSE_PAREN);
    } else {
        let t = ts[0];
        let rest = ts.drop_first();
        assert(wf_type(ts[0]));
        assert(wf_types(rest)) by {
            assert forall|k: int| 0 <= k < rest.len() implies #[trigger] wf_type(rest[k]) by {
                assert(rest[k] == ts[k + 1]);
            }
        }
        let q2 = types_chars(rest) + seq![CLOSE_PAREN] + q;
        assert(s == p + type_chars(t) + q2);
        lemma_read_field_written(p, t, q2);
        let p2 = p + type_chars(t);
        assert(s == p2 + types_chars(rest) + seq![CLOSE_PAREN] + q);
        lemma_read_params_written(p2, rest, q);
        assert(type_chars(t).len() > 0) by {
            match t {
                TypeModel::Plain(e) => { assert(element_chars(e).len() > 0); },
                TypeModel::Array(d, e) => { assert(element_chars(e).len() > 0); },
            }
        }
        assert(s[i] == type_chars(t)[0]);
        assert(s[i] != CLOSE_PAREN) by {
            match t {
                TypeModel::Plain(e) => { assert(type_chars(t)[0] == element_chars(e)[0]); },
                TypeModel::Array(d, e) => { assert(type_chars(t)[0] == OPEN_BRACKET); },
            }
        }
        assert(seq![t] + rest == ts);
    }
}

/// What parameter types were read from is their written form, followed by `)`.
proof fn lemma_read_params_chars(s: Seq<u32>, i: int)
    requires
        0 <= i <= s.len(),
        params_dims_ok(s, i),
        read_params(s, i) is Some,
    ensures
        wf_types(read_params(s, i).unwrap().0),
        i < read_params(s, i).unwrap().1 <= s.len(),
        s.subrange(i, read_params(s, i).unwrap().1) == types_chars(read_params(s, i).unwrap().0) + seq![CLOSE_PAREN],
    decreases s.len() - i,
{
    if s[i] == CLOSE_PAREN {
        assert(s.subrange(i, i + 1) == seq![CLOSE_PAREN]);
        assert(types_chars(Seq::<TypeModel>::empty()) + seq![CLOSE_PAREN] == seq![CLOSE_PAREN]);
    } else {
        let (t, j) = read_field(s, i).unwrap();
        lemma_read_field_chars(s, i);
        lemma_read_params_chars(s, j);
        let (ts, k) = read_params(s, j).unwrap();
        let all = seq![t] + ts;
        assert(all.drop_first() == ts);
        assert(all[0] == t);
        assert(s.subrange(i, k) == s.subrange(i, j) + s.subrange(j, k));
        assert(wf_types(all)) by {
            assert forall|m: int| 0 <= m < all.len() implies #[trigger] wf_type(all[m]) by {
                if m > 0 { assert(all[m] == ts[m - 1]); }
            }
        }
    }
}

/// Parsing a written method descriptor gives its types back.
pub proof fn lemma_parse_method_write(ps: Seq<TypeModel>, r: Option<TypeModel>)
    requires
        wf_types(ps),
        r matches Some(t) ==> wf_type(t),
    ensures
        parse_method(method_chars(ps, r)) == Some((ps, r)),
{
    let tail = match r {
        Some(t) => type_chars(t),
        None => seq![UPPER_V],
    };
    let s = method_chars(ps, r);
    let p = seq![OPEN_PAREN];
    assert(s == p + types_chars(ps) + seq![CLOSE_PAREN] + tail);
    lemma_read_params_written(p, ps, tail);
    let k = (1 + types_chars(ps).len() + 1) as int;
    let pre = p + types_chars(ps) + seq![CLOSE_PAREN];
    assert(pre.len() == k);
    assert(s == pre + tail);
    match r {
        Some(t) => {
            lemma_read_field_written(pre, t, Seq::empty());
            assert(pre + type_chars(t) + Seq::<u32>::empty() == s);
            assert(s[k] == type_chars(t)[0]);
            assert(s[k] != UPPER_V) by {
                match t {
                    TypeModel::Plain(e) => { assert(type_chars(t)[0] == element_chars(e)[0]); },
                    TypeModel::Array(d, e) => { assert(type_chars(t)[0] == OPEN_BRACKET); },
                }
            }
        },
        None => {
            assert(s[k] == UPPER_V);
        },
    }
}

/// Writing a parsed method descriptor gives the descriptor back.
pub proof fn lemma_write_parse_method(s: Seq<u32>)
    requires
        method_dims_ok(s),
        parse_method(s) is Some,
    ensures
        wf_types(parse_method(s).unwrap().0),
        parse_method(s).unwrap().1 matches Some(t) ==> wf_type(t),
        method_chars(parse_method(s).unwrap().0, parse_method(s).unwrap().1) == s,
{
    lemma_read_params_chars(s, 1);
    let (ps, k) = read_params(s, 1).unwrap();
    assert(s.subrange(0, 1) == seq![OPEN_PAREN]);
    if k < s.len() && s[k] == UPPER_V {
        assert(s == s.subrange(0, 1) + s.subrange(1, k) + s.subrange(k, s.len() as int));
        assert(s.subrange(k, s.len() as int) == seq![UPPER_V]);
    } else {
        lemma_read_field_chars(s, k);
        assert(s == s.subrange(0, 1) + s.subrange(1, k) + s.subrange(k, s.len() as int));
    }
}


// ----- argument sizes -----

/// The size of the arguments of a method descriptor from `i` on, added to `acc`:
/// `D` and `J` count two, other types one. Primitive characters are not checked.
pub open spec fn args_walk(s: Seq<u32>, i: int, acc: int) -> Option<int>
    decreases s.len() - i,
{
    if i < 0 || i >= s.len() {
        None
    } else if s[i] == CLOSE_PAREN {
        Some(acc)
    } else if s[i] == UPPER_D || s[i] == UPPER_J {
        args_walk(s, i + 1, acc + 2)
    } else {
        let j = i + count_brackets(s, i);
        if j >= s.len() {
            None
        } else if s[j] == UPPER_L {
            match find_semicolon(s, j + 1) {
                Some(k) => if i < k < s.len() { args_walk(s, k + 1, acc + 1) } else { None },
                None => None,
            }
        } else if i < j + 1 {
            args_walk(s, j + 1, acc + 1)
        } else {
            None
        }
    }
}

/// Whether the running size of [`args_walk`] stays within a `u8`.
pub open spec fn args_fit(s: Seq<u32>, i: int, acc: int) -> bool
    decreases s.len() - i,
{
    if i < 0 || i >= s.len() || s[i] == CLOSE_PAREN {
        true
    } else if s[i] == UPPER_D || s[i] == UPPER_J {
        acc + 2 <= 255 && args_fit(s, i + 1, acc + 2)
    } else {
        let j = i + count_brackets(s, i);
        if j >= s.len() {
            true
        } else if s[j] == UPPER_L {
            match find_semicolon(s, j + 1) {
                Some(k) => if i < k < s.len() { acc + 1 <= 255 && args_fit(s, k + 1, acc + 1) } else { true },
                None => true,
            }
        } else if i < j + 1 {
            acc + 1 <= 255 && args_fit(s, j + 1, acc + 1)
        } else {
            true
        }
    }
}

/// The size of one argument type: `D` and `J` take two slots, all other types
/// (arrays of `D` and `J` among them) one.
pub open spec fn type_size(t: TypeModel) -> int {
    if t == TypeModel::Plain(ElementModel::D) || t == TypeModel::Plain(ElementModel::J) { 2 } else { 1 }
}

/// The size of a list of argument types.
pub open spec fn types_size(ts: Seq<TypeModel>) -> int
    decreases ts.len(),
{
    if ts.len() == 0 { 0 } else { type_size(ts[0]) + types_size(ts.drop_first()) }
}

/// Walking the arguments from `i` adds the sizes of the parameter types read from `i`.
proof fn lemma_args_walk_params(s: Seq<u32>, i: int, acc: int)
    requires
        read_params(s, i) is Some,
    ensures
        args_walk(s, i, acc) == Some(acc + types_size(read_params(s, i).unwrap().0)),
    decreases s.len() - i,
{
    if s[i] != CLOSE_PAREN {
        let (t, j) = read_field(s, i).unwrap();
        let (ts, k) = read_params(s, j).unwrap();
        lemma_args_walk_params(s, j, acc + type_size(t));
        let all = seq![t] + ts;
        assert(all.drop_first() == ts);
        assert(all[0] == t);
        assert(read_params(s, i).unwrap().0 == all);
        if s[i] == UPPER_D || s[i] == UPPER_J {
            assert(count_brackets(s, i) == 0);
        } else {
            let jj = i + count_brackets(s, i);
            if s[jj] == UPPER_L && primitive(s[jj]) is None {
                lemma_find_semicolon(s, jj + 1);
            } else {
                assert(count_brackets(s, i) == 0 ==> s[i] == s[jj]);
            }
        }
    }
}

/// The argument size of a method descriptor that parses is one (for the
/// implicit `this`) plus the sizes of its parameter types: two for `D` and
/// `J`, one for every other type; the return type does not count.
pub proof fn lemma_arguments_size(s: Seq<u32>)
    requires
        parse_method(s) is Some,
    ensures
        args_walk(s, 1, 1) == Some(1 + types_size(parse_method(s).unwrap().0)),
{
    lemma_args_walk_params(s, 1, 1);
}

impl MethodDescriptor {
    /// Returns the argument size + 1 (for the implicit `this`).
    /// Doubles and longs count 2 instead of 1. Does not look at the return descriptor.
    ///
    /// Fails with [`Error::InvalidDescriptor`] if the descriptor does not start
    /// with `(` or ends before the `)` closing the parameters.
    pub fn get_arguments_size(&self) -> (r: Result<u8, Error>)
        requires
            self@.len() == 0 || self@[0] != OPEN_PAREN || args_fit(self@, 1, 1),
        ensures
            r is Ok <==> (self@.len() > 0 && self@[0] == OPEN_PAREN && args_walk(self@, 1, 1) is Some),
            r matches Ok(n) ==> args_walk(self@, 1, 1) == Some(n as int),
            r is Err ==> r == Err::<u8, Error>(Error::InvalidDescriptor),
    {
        let s = self.as_inner();
        let len = s.len();
        if len == 0 || s.get(0) != OPEN_PAREN {
            return Err(Error::InvalidDescriptor);
        }
        let mut size: u8 = 1;
        let mut i: usize = 1;
        loop
            invariant_except_break
                1 <= i <= len,
                len == s@.len(),
                s@ == self@,
                args_walk(s@, 1, 1) == args_walk(s@, i as int, size as int),
                args_fit(s@, i as int, size as int),
            ensures
                s@ == self@,
                args_walk(s@, 1, 1) == Some(size as int),
            decreases len - i,
        {
            if i >= len {
                return Err(Error::InvalidDescriptor);
            }
            let c = s.get(i);
            if c == CLOSE_PAREN {
                break;
            } else if c == UPPER_D || c == UPPER_J {
                size = size + 2;
                i = i + 1;
            } else {
                let ghost i0 = i as int;
                proof { lemma_count_brackets_bound(s@, i0); }
                let mut j = i;
                while j < len && s.get(j) == OPEN_BRACKET
                    invariant
                        i <= j <= len,
                        len == s@.len(),
                        count_brackets(s@, i as int) == (j - i) + count_brackets(s@, j as int),
                    decreases len - j,
                {
                    j = j + 1;
                }
                if j >= len {
                    return Err(Error::InvalidDescriptor);
                }
                if s.get(j) == UPPER_L {
                    match find_semicolon_exec(s, j + 1) {
                        Some(k) => {
                            proof { lemma_find_semicolon(s@, j + 1); }
                            size = size + 1;
                            i = k + 1;
                        },
                        None => {
                            return Err(Error::InvalidDescriptor);
                        },
                    }
                } else {
                    size = size + 1;
                    i = j + 1;
                }
            }
        }
        Ok(size)
    }
}

impl FieldDescriptor {
    /// Creates the field descriptor of an object class name: `L`, the name, then `;`.
    pub fn from_class(class_name: &ClassName) -> (r: FieldDescriptor)
        requires
            !(class_name@.len() > 0 && class_name@[0] == OPEN_BRACKET),
        ensures
            r@ == seq![UPPER_L] + class_name@ + seq![SEMICOLON],
    {
        let mut s = JavaString::new();
        s.push(UPPER_L);
        s.push_java_str(class_name.as_inner());
        s.push(SEMICOLON);
        assert(Seq::<u32>::empty().push(UPPER_L) == seq![UPPER_L]);
        FieldDescriptor::from_inner_unchecked(s)
    }
}

/// A return descriptor: a field descriptor, or `V`.
#[derive(Debug, PartialEq, Eq)]
pub struct ReturnDescriptor(JavaString);

impl View for ReturnDescriptor {
    type V = Seq<u32>;

    closed spec fn view(&self) -> Seq<u32> {
        self.0@
    }
}

impl ReturnDescriptor {
    /// Converts a field descriptor into a return descriptor; field descriptors
    /// are a subset of return descriptors.
    pub fn from_field_descriptor(value: FieldDescriptor) -> (r: ReturnDescriptor)
        ensures
            r@ == value@,
    {
        ReturnDescriptor(value.into_inner())
    }

    /// Wraps `s` without checking it.
    pub fn from_inner_unchecked(s: JavaString) -> (r: ReturnDescriptor)
        ensures
            r@ == s@,
    {
        ReturnDescriptor(s)
    }

    /// The underlying string.
    pub fn as_inner(&self) -> (r: &JavaString)
        ensures
            r@ == self@,
    {
        &self.0
    }
}


// ----- validity -----

/// The class name inside an element type, if any, is a valid object class name.
pub open spec fn element_names_ok(e: ElementModel) -> bool {
    e matches ElementModel::Object(n) ==> valid_obj_class_name(n)
}

/// The class name inside a type, if any, is a valid object class name.
pub open spec fn type_names_ok(t: TypeModel) -> bool {
    match t {
        TypeModel::Plain(e) => element_names_ok(e),
        TypeModel::Array(_, e) => element_names_ok(e),
    }
}

/// A valid field descriptor: one field type with at most 255 array dimensions
/// and a valid class name, if any, and nothing after it.
pub open spec fn valid_field_descriptor(s: Seq<u32>) -> bool {
    &&& count_brackets(s, 0) < 256
    &&& parse_field(s) matches Some(t) && type_names_ok(t)
}

/// A valid method descriptor: parameter types and a return type, each with
/// at most 255 array dimensions and a valid class name, if any, and nothing after them.
pub open spec fn valid_method_descriptor(s: Seq<u32>) -> bool {
    method_dims_ok(s) && match parse_method(s) {
        Some((ps, r)) => (forall|k: int| 0 <= k < ps.len() ==> #[trigger] type_names_ok(ps[k])) && match r {
            Some(t) => type_names_ok(t),
            None => true,
        },
        None => false,
    }
}

/// A valid return descriptor: `V` or a valid field descriptor.
pub open spec fn valid_return_descriptor(s: Seq<u32>) -> bool {
    s == seq![UPPER_V] || valid_field_descriptor(s)
}

/// A method descriptor with a parameter whose class name is not valid is not valid.
proof fn lemma_invalid_parameter(s: Seq<u32>, ps: Seq<TypeModel>, r: Option<TypeModel>, j: int)
    requires
        parse_method(s) == Some((ps, r)),
        0 <= j < ps.len(),
        !type_names_ok(ps[j]),
    ensures
        !valid_method_descriptor(s),
{
    let (ps2, r2) = parse_method(s).unwrap();
    assert(ps2 == ps);
    assert(!type_names_ok(ps2[j]));
    assert(!(forall|k: int| 0 <= k < ps2.len() ==> #[trigger] type_names_ok(ps2[k])));
}

/// The end of the parameter list starting at `i`, if it can be read.
pub open spec fn params_end(s: Seq<u32>, i: int) -> Option<int> {
    match read_params(s, i) {
        Some((_, k)) => Some(k),
        None => None,
    }
}

/// Counts the `[` at `i` and directly after it, stopping at 256.
fn count_brackets_capped(s: &JavaString, i: usize) -> (r: usize)
    requires
        i <= s@.len(),
    ensures
        r <= 256,
        r < 256 ==> r == count_brackets(s@, i as int),
        r == 256 ==> count_brackets(s@, i as int) >= 256,
{
    let mut j = i;
    while j < s.len() && s.get(j) == OPEN_BRACKET && j - i < 256
        invariant
            i <= j <= s@.len(),
            j - i <= 256,
            count_brackets(s@, i as int) == (j - i) + count_brackets(s@, j as int),
        decreases s@.len() - j,
    {
        j = j + 1;
    }
    j - i
}

/// Whether the class name inside `t`, if any, is a valid object class name.
fn type_names_valid(t: &Type) -> (r: bool)
    ensures
        r == type_names_ok(t@),
{
    match t {
        Type::Object(n) => is_valid_obj_class_name(n.as_inner()),
        Type::Array(_, ArrayType::Object(n)) => is_valid_obj_class_name(n.as_inner()),
        _ => true,
    }
}

impl FieldDescriptor {
    /// Whether `inner` is a valid field descriptor.
    pub fn is_valid(inner: &JavaString) -> (r: bool)
        ensures
            r == valid_field_descriptor(inner@),
    {
        if count_brackets_capped(inner, 0) >= 256 {
            return false;
        }
        match read_field_type(inner, 0) {
            Ok((t, k)) => k == inner.len() && type_names_valid(&t),
            Err(_) => false,
        }
    }

    /// Wraps `s`, failing with [`Error::InvalidDescriptor`] if it is not a
    /// valid field descriptor.
    pub fn try_from(s: JavaString) -> (r: Result<FieldDescriptor, Error>)
        ensures
            r is Ok <==> valid_field_descriptor(s@),
            r matches Ok(d) ==> d@ == s@,
            r is Err ==> r == Err::<FieldDescriptor, Error>(Error::InvalidDescriptor),
    {
        if FieldDescriptor::is_valid(&s) {
            Ok(FieldDescriptor::from_inner_unchecked(s))
        } else {
            Err(Error::InvalidDescriptor)
        }
    }
}

impl ReturnDescriptor {
    /// Whether `inner` is a valid return descriptor.
    pub fn is_valid(inner: &JavaString) -> (r: bool)
        ensures
            r == valid_return_descriptor(inner@),
    {
        if inner.len() == 1 && inner.get(0) == UPPER_V {
            assert(inner@ =~= seq![UPPER_V]);
            true
        } else {
            FieldDescriptor::is_valid(inner)
        }
    }
}

impl MethodDescriptor {
    /// Whether `inner` is a valid method descriptor.
    pub fn is_valid(inner: &JavaString) -> (r: bool)
        ensures
            r == valid_method_descriptor(inner@),
    {
        let ghost s = inner@;
        let n = inner.len();
        if n == 0 || inner.get(0) != OPEN_PAREN {
            return false;
        }
        let mut i: usize = 1;
        while i < n && inner.get(i) != CLOSE_PAREN
            invariant
                s == inner@,
                n == s.len(),
                n > 0 && s[0] == OPEN_PAREN,
                1 <= i <= n,
                params_dims_ok(s, 1) == params_dims_ok(s, i as int),
                params_end(s, 1) == params_end(s, i as int),
            decreases n - i,
        {
            if count_brackets_capped(inner, i) >= 256 {
                return false;
            }
            match read_field_type(inner, i) {
                Ok((_, j)) => {
                    proof {
                        lemma_read_field_chars(s, i as int);
                    }
                    i = j;
                },
                Err(_) => {
                    return false;
                },
            }
        }
        if i >= n {
            return false;
        }
        let k = i + 1;
        proof {
            assert(params_end(s, i as int) == Some(k as int));
        }
        if !(k < n && inner.get(k) == UPPER_V) && count_brackets_capped(inner, k) >= 256 {
            return false;
        }
        let d = MethodDescriptor::from_inner_unchecked(inner.duplicate());
        match d.parse_grammar() {
            Ok(parsed) => {
                let ghost ps = types_view(parsed.parameter_descriptors@);
                let mut j: usize = 0;
                while j < parsed.parameter_descriptors.len()
                    invariant
                        j <= parsed.parameter_descriptors@.len(),
                        ps == types_view(parsed.parameter_descriptors@),
                        parse_method(inner@) == Some((ps, opt_view(parsed.return_descriptor))),
                        method_dims_ok(inner@),
                        forall|m: int| 0 <= m < j ==> #[trigger] type_names_ok(ps[m]),
                    decreases parsed.parameter_descriptors@.len() - j,
                {
                    if !type_names_valid(&parsed.parameter_descriptors[j]) {
                        assert(ps[j as int] == parsed.parameter_descriptors@[j as int]@);
                        assert(ps.len() == parsed.parameter_descriptors@.len());
                        proof {
                            lemma_invalid_parameter(inner@, ps, opt_view(parsed.return_descriptor), j as int);
                        }
                        return false;
                    }
                    j = j + 1;
                }
                match &parsed.return_descriptor {
                    Some(t) => type_names_valid(t),
                    None => true,
                }
            },
            Err(_) => false,
        }
    }

    /// Wraps `s`, failing with [`Error::InvalidDescriptor`] if it is not a
    /// valid method descriptor.
    pub fn try_from(s: JavaString) -> (r: Result<MethodDescriptor, Error>)
        ensures
            r is Ok <==> valid_method_descriptor(s@),
            r matches Ok(d) ==> d@ == s@,
            r is Err ==> r == Err::<MethodDescriptor, Error>(Error::InvalidDescriptor),
    {
        if MethodDescriptor::is_valid(&s) {
            Ok(MethodDescriptor::from_inner_unchecked(s))
        } else {
            Err(Error::InvalidDescriptor)
        }
    }
}

/// The primitive types of descriptors are written with the JVMS letters: `B`
/// byte, `C` char, `D` double, `F` float, `I` int, `J` long, `S` short, `Z`
/// boolean; an object type is `L`, the class name, then `;`, and an array type
/// has one `[` per dimension. Other characters do not start a primitive type.
pub proof fn lemma_descriptor_letters(c: u32, n: Seq<u32>, d: nat)
    ensures
        primitive(66) == Some(ElementModel::B),
        element_chars(ElementModel::B) == seq![66u32],
        Type::B@ == TypeModel::Plain(ElementModel::B),
        ArrayType::B@ == ElementModel::B,
        primitive(67) == Some(ElementModel::C),
        element_chars(ElementModel::C) == seq![67u32],
        Type::C@ == TypeModel::Plain(ElementModel::C),
        ArrayType::C@ == ElementModel::C,
        primitive(68) == Some(ElementModel::D),
        element_chars(ElementModel::D) == seq![68u32],
        Type::D@ == TypeModel::Plain(ElementModel::D),
        ArrayType::D@ == ElementModel::D,
        primitive(70) == Some(ElementModel::F),
        element_chars(ElementModel::F) == seq![70u32],
        Type::F@ == TypeModel::Plain(ElementModel::F),
        ArrayType::F@ == ElementModel::F,
        primitive(73) == Some(ElementModel::I),
        element_chars(ElementModel::I) == seq![73u32],
        Type::I@ == TypeModel::Plain(ElementModel::I),
        ArrayType::I@ == ElementModel::I,
        primitive(74) == Some(ElementModel::J),
        element_chars(ElementModel::J) == seq![74u32],
        Type::J@ == TypeModel::Plain(ElementModel::J),
        ArrayType::J@ == ElementModel::J,
        primitive(83) == Some(ElementModel::S),
        element_chars(ElementModel::S) == seq![83u32],
        Type::S@ == TypeModel::Plain(ElementModel::S),
        ArrayType::S@ == ElementModel::S,
        primitive(90) == Some(ElementModel::Z),
        element_chars(ElementModel::Z) == seq![90u32],
        Type::Z@ == TypeModel::Plain(ElementModel::Z),
        ArrayType::Z@ == ElementModel::Z,
        !(c == 0x42 || c == 0x43 || c == 0x44 || c == 0x46 || c == 0x49 || c == 0x4A || c == 0x53 || c == 0x5A)
            ==> primitive(c) is None,
        element_chars(ElementModel::Object(n)) == seq![0x4Cu32] + n + seq![0x3Bu32],
        forall|k: int| 0 <= k < d ==> #[trigger] brackets(d)[k] == 0x5B,
        brackets(d).len() == d,
{
}

} // verus!

