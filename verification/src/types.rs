//! Shared value types: addresses, lengths, page-type tags, and errors.

use vstd::prelude::*;

verus! {

/// Addition modulo 2^64: what address arithmetic means on the hardware.
pub open spec fn wadd(a: u64, b: u64) -> u64 {
    if a + b > u64::MAX {
        (a + b - 0x1_0000_0000_0000_0000) as u64
    } else {
        (a + b) as u64
    }
}

/// Subtraction modulo 2^64.
pub open spec fn wsub(a: u64, b: u64) -> u64 {
    if a >= b {
        (a - b) as u64
    } else {
        (a + 0x1_0000_0000_0000_0000 - b) as u64
    }
}

/// A 64-bit address, physical or virtual, with zero as the distinguished
/// null value.  Arithmetic on addresses wraps, as the hardware's does.
#[derive(Clone, Copy, Debug, PartialEq, Eq, Structural)]
pub struct Address(pub u64);

impl Address {
    pub fn null() -> (r: Address)
        ensures
            r.0 == 0,
    {
        Address(0)
    }

    pub fn is_null(&self) -> (r: bool)
        ensures
            r == (self.0 == 0),
    {
        self.0 == 0
    }

    pub fn as_u64(&self) -> (r: u64)
        ensures
            r == self.0,
    {
        self.0
    }

    /// The address moved forward by `n` bytes, wrapping at the top of the
    /// 64-bit space.
    pub fn wrapping_add(&self, n: u64) -> (r: Address)
        ensures
            r.0 == wadd(self.0, n),
    {
        Address(self.0.wrapping_add(n))
    }

    /// The address moved back by `n` bytes, wrapping below zero.
    pub fn wrapping_sub(&self, n: u64) -> (r: Address)
        ensures
            r.0 == wsub(self.0, n),
    {
        Address(self.0.wrapping_sub(n))
    }

    /// The containing page's base: the address rounded down to a multiple
    /// of `page_size`.
    pub fn align_down(&self, page_size: u64) -> (r: Address)
        requires
            page_size > 0,
        ensures
            r.0 == self.0 - self.0 % page_size,
    {
        proof {
            assert(self.0 % page_size <= self.0) by (nonlinear_arith)
                requires
                    page_size > 0,
            ;
        }
        Address(self.0 - self.0 % page_size)
    }
}

/// A byte count.
#[derive(Clone, Copy, Debug, PartialEq, Eq, Structural)]
pub struct Length(pub u64);

impl Length {
    pub fn as_u64(&self) -> (r: u64)
        ensures
            r == self.0,
    {
        self.0
    }

    pub fn is_zero(&self) -> (r: bool)
        ensures
            r == (self.0 == 0),
    {
        self.0 == 0
    }
}

/// The tag a caller assigns to a physical page when caching it.
#[derive(Clone, Copy, Debug, PartialEq, Eq, Structural)]
pub enum PageType {
    Code,
    ReadOnly,
    Writeable,
    Stack,
    Bufferable,
}

/// The kinds of failure the core distinguishes.  Translation failures are
/// per-chunk in batched calls; the other kinds are fatal to the call that
/// raised them.
#[derive(Clone, Copy, Debug, PartialEq, Eq, Structural)]
pub enum ErrorKind {
    Initialization,
    Connector,
    Translation,
    Encoding,
    NotFound,
}

/// An error: its kind, a short human-readable message, and, for translation
/// failures, the offending virtual address.
#[derive(Clone, Copy, Debug, PartialEq, Eq)]
pub struct Error {
    pub kind: ErrorKind,
    pub message: &'static str,
    pub va: Address,
}

impl Error {
    pub fn new(kind: ErrorKind, message: &'static str) -> (r: Error)
        ensures
            r.kind == kind,
            r.message == message,
            r.va.0 == 0,
    {
        Error { kind, message, va: Address(0) }
    }

    pub fn translation(va: Address) -> (r: Error)
        ensures
            r.kind == ErrorKind::Translation,
            r.va == va,
    {
        Error { kind: ErrorKind::Translation, message: "virtual address not translatable", va }
    }

    pub fn kind(&self) -> (r: ErrorKind)
        ensures
            r == self.kind,
    {
        self.kind
    }
}

} // verus!
