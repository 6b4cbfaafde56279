//! CPU exceptions that the kernel installs handlers for, and what becomes of
//! execution after each.
use vstd::prelude::*;

verus! {

/// Vector of the keyboard interrupt, IRQ 1 after remapping.
pub const KEYBOARD_VECTOR: u8 = 33;

#[derive(Clone, Copy, Debug, PartialEq, Eq, Structural)]
pub enum Exception {
    DivideByZero,
    Debug,
    Breakpoint,
    DoubleFault,
    GeneralProtectionFault,
    PageFault,
}

/// Vector of each handled exception, as the architecture fixes it.
pub open spec fn exception_vector(e: Exception) -> u8 {
    match e {
        Exception::DivideByZero => 0,
        Exception::Debug => 1,
        Exception::Breakpoint => 3,
        Exception::DoubleFault => 8,
        Exception::GeneralProtectionFault => 13,
        Exception::PageFault => 14,
    }
}

impl Exception {
    /// The exception's vector.
    pub fn vector(&self) -> (r: u8)
        ensures
            r == exception_vector(*self),
    {
        match self {
            Exception::DivideByZero => 0,
            Exception::Debug => 1,
            Exception::Breakpoint => 3,
            Exception::DoubleFault => 8,
            Exception::GeneralProtectionFault => 13,
            Exception::PageFault => 14,
        }
    }

    /// The handled exception raised on `vector`, if any.
    pub fn from_vector(vector: u8) -> (r: Option<Exception>)
        ensures
            r matches Some(e) ==> exception_vector(e) == vector,
            r is None ==> forall|e: Exception| exception_vector(e) != vector,
    {
        match vector {
            0 => Some(Exception::DivideByZero),
            1 => Some(Exception::Debug),
            3 => Some(Exception::Breakpoint),
            8 => Some(Exception::DoubleFault),
            13 => Some(Exception::GeneralProtectionFault),
            14 => Some(Exception::PageFault),
            _ => None,
        }
    }

    /// Whether the exception halts the kernel for good once reported: all but
    /// the debug and breakpoint exceptions, after which execution resumes.
    pub fn is_fatal(&self) -> (r: bool)
        ensures
            r == !(*self == Exception::Debug || *self == Exception::Breakpoint),
    {
        match self {
            Exception::Debug | Exception::Breakpoint => false,
            _ => true,
        }
    }
}

} // verus!
