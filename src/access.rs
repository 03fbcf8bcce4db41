//! Access flags of classes and members.
use vstd::prelude::*;

verus! {

pub const PUBLIC: u16 = 0x0001;

pub const PRIVATE: u16 = 0x0002;

pub const PROTECTED: u16 = 0x0004;

pub const STATIC: u16 = 0x0008;

pub const FINAL: u16 = 0x0010;

pub const SUPER: u16 = 0x0020;

pub const INTERFACE: u16 = 0x0200;

pub const ABSTRACT: u16 = 0x0400;

pub const SYNTHETIC: u16 = 0x1000;

pub const ANNOTATION: u16 = 0x2000;

pub const ENUM: u16 = 0x4000;

pub open spec fn has_flag(flags: u16, f: u16) -> bool {
    flags & f != 0
}

/// Whether `flags` carries the bit `f`.
pub fn flag_set(flags: u16, f: u16) -> (r: bool)
    ensures
        r == has_flag(flags, f),
{
    flags & f != 0
}

} // verus!
