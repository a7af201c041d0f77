//! Reading and writing of Java class files: the byte-level reader and writer,
//! the modified UTF-8 string codec, names, descriptors, access flags and the
//! constant pool; whole classes read into a tree (fields, methods, code,
//! stack maps, modules, records, annotations and type annotations); fields,
//! record components, annotations, modules and code targets written back; and
//! the order-preserving merge of two lists.
use vstd::prelude::*;

pub mod error;
pub mod bytes;
pub mod jstring;
pub mod ascii;
pub mod tree;
pub mod class_reader;
pub mod simple_class_writer;
pub mod visitor;
pub mod merge;

verus! {
} // verus!
