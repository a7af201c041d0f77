//! Writing class files: the constant pool and its entries.
pub mod pool;
pub mod labels;
pub mod code;
pub mod module;
pub mod module_round_trip;
pub mod member;
pub mod field_round_trip;
pub mod annotation;
pub mod annotation_round_trip;
