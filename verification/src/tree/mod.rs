//! The data model of class files.
pub mod class;
pub mod field;
pub mod method;
pub mod descriptor;
pub mod names;
pub mod version;
pub mod module;
pub mod code;
pub mod type_annotation;
pub mod instruction;
pub mod attribute;
pub mod member;
pub mod record;
pub mod class_file;
pub mod annotation;
