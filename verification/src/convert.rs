//! Wrapper types that select how Rust values convert to and from JavaScript.
use vstd::prelude::*;
use vstd::std_specs::convert::FromSpecImpl;

verus! {

/// Marks a numeric type as being converted as a small JavaScript integer.
#[derive(Debug, Clone, Copy, PartialEq, Eq)]
pub struct Smi<T: SmallInt>(pub T);

/// A type that can hold a small JavaScript integer: conversions to and from
/// `i32`.
pub trait SmallInt: Sized {
    fn as_i32(self) -> i32;

    fn from_i32(value: i32) -> Self;
}

impl SmallInt for u8 {
    fn as_i32(self) -> (r: i32)
        ensures
            r == self as i32,
    {
        self as i32
    }

    fn from_i32(value: i32) -> (r: Self)
        ensures
            r == value as u8,
    {
        value as u8
    }
}

impl SmallInt for u16 {
    fn as_i32(self) -> (r: i32)
        ensures
            r == self as i32,
    {
        self as i32
    }

    fn from_i32(value: i32) -> (r: Self)
        ensures
            r == value as u16,
    {
        value as u16
    }
}

impl SmallInt for u32 {
    fn as_i32(self) -> (r: i32)
        ensures
            r == self as i32,
    {
        self as i32
    }

    fn from_i32(value: i32) -> (r: Self)
        ensures
            r == value as u32,
    {
        value as u32
    }
}

impl SmallInt for u64 {
    fn as_i32(self) -> (r: i32)
        ensures
            r == self as i32,
    {
        self as i32
    }

    fn from_i32(value: i32) -> (r: Self)
        ensures
            r == value as u64,
    {
        value as u64
    }
}

impl SmallInt for usize {
    fn as_i32(self) -> (r: i32)
        ensures
            r == self as i32,
    {
        self as i32
    }

    fn from_i32(value: i32) -> (r: Self)
        ensures
            r == value as usize,
    {
        value as usize
    }
}

impl SmallInt for i8 {
    fn as_i32(self) -> (r: i32)
        ensures
            r == self as i32,
    {
        self as i32
    }

    fn from_i32(value: i32) -> (r: Self)
        ensures
            r == value as i8,
    {
        value as i8
    }
}

impl SmallInt for i16 {
    fn as_i32(self) -> (r: i32)
        ensures
            r == self as i32,
    {
        self as i32
    }

    fn from_i32(value: i32) -> (r: Self)
        ensures
            r == value as i16,
    {
        value as i16
    }
}

impl SmallInt for i32 {
    fn as_i32(self) -> (r: i32)
        ensures
            r == self,
    {
        self
    }

    fn from_i32(value: i32) -> (r: Self)
        ensures
            r == value,
    {
        value
    }
}

impl SmallInt for i64 {
    fn as_i32(self) -> (r: i32)
        ensures
            r == self as i32,
    {
        self as i32
    }

    fn from_i32(value: i32) -> (r: Self)
        ensures
            r == value as i64,
    {
        value as i64
    }
}

impl SmallInt for isize {
    fn as_i32(self) -> (r: i32)
        ensures
            r == self as i32,
    {
        self as i32
    }

    fn from_i32(value: i32) -> (r: Self)
        ensures
            r == value as isize,
    {
        value as isize
    }
}

/// An `Option` whose `None` converts to JavaScript `null`.
#[derive(Debug, Clone, PartialEq, Eq)]
pub struct OptionNull<T>(pub Option<T>);

impl<T> From<Option<T>> for OptionNull<T> {
    fn from(option: Option<T>) -> (r: Self) {
        OptionNull(option)
    }
}

impl<T> FromSpecImpl<Option<T>> for OptionNull<T> {
    open spec fn obeys_from_spec() -> bool {
        true
    }

    open spec fn from_spec(option: Option<T>) -> Self {
        OptionNull(option)
    }
}

/// An `Option` whose `None` converts to JavaScript `undefined`.
#[derive(Debug, Clone, PartialEq, Eq)]
pub struct OptionUndefined<T>(pub Option<T>);

impl<T> From<Option<T>> for OptionUndefined<T> {
    fn from(option: Option<T>) -> (r: Self) {
        OptionUndefined(option)
    }
}

impl<T> FromSpecImpl<Option<T>> for OptionUndefined<T> {
    open spec fn obeys_from_spec() -> bool {
        true
    }

    open spec fn from_spec(option: Option<T>) -> Self {
        OptionUndefined(option)
    }
}

impl<T> OptionNull<T> {
    /// The wrapped `Option`.
    pub fn into_option(self) -> (r: Option<T>)
        ensures
            r == self.0,
    {
        self.0
    }
}

impl<T> OptionUndefined<T> {
    /// The wrapped `Option`.
    pub fn into_option(self) -> (r: Option<T>)
        ensures
            r == self.0,
    {
        self.0
    }
}

} // verus!
