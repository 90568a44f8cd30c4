//! Bindings for the sample C++ header, in the form the generator gives them; the types
//! that hold only integers.

use vstd::prelude::*;

verus! {

pub type c_int = i32;

pub type c_uint = u32;

pub type _u32 = c_int;

/// `struct Xy { int x; int y; }`
#[derive(Clone, Copy, PartialEq, Eq, Debug, Structural)]
pub struct Struct_Xy {
    pub x: c_int,
    pub y: c_int,
}

pub type Xy = Struct_Xy;

/// `struct Abc { int a; int b; int c; }`
#[derive(Clone, Copy, PartialEq, Eq, Debug, Structural)]
pub struct Struct_Abc {
    pub a: c_int,
    pub b: c_int,
    pub c: c_int,
}

pub type Abc = Struct_Abc;

pub type Enum_ETest = c_uint;

pub const E_1: c_uint = 0;

pub const E_2: c_uint = 1;

pub const E_3: c_uint = 2;

} // verus!
