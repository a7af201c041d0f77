//! Code points of the ASCII characters that class file grammars use.
use vstd::prelude::*;

verus! {

pub const DOLLAR: u32 = 36;
pub const OPEN_PAREN: u32 = 40;
pub const CLOSE_PAREN: u32 = 41;
pub const DOT: u32 = 46;
pub const SLASH: u32 = 47;
pub const SEMICOLON: u32 = 59;
pub const LESS_THAN: u32 = 60;
pub const GREATER_THAN: u32 = 62;
pub const UPPER_B: u32 = 66;
pub const UPPER_C: u32 = 67;
pub const UPPER_D: u32 = 68;
pub const UPPER_F: u32 = 70;
pub const UPPER_I: u32 = 73;
pub const UPPER_J: u32 = 74;
pub const UPPER_L: u32 = 76;
pub const UPPER_S: u32 = 83;
pub const UPPER_V: u32 = 86;
pub const UPPER_Z: u32 = 90;
pub const OPEN_BRACKET: u32 = 91;

} // verus!
