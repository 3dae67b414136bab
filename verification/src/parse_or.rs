//! Lenient number reading: parse a text, and fall back to a given
//! value — or to zero — when it does not parse. The catalog listing
//! leans on this for its duration and date fields.

use vstd::prelude::*;
use vstd::string::StringSliceAdditionalSpecFns;

use crate::decimal::{
    parse_i32, parse_u64, parse_u8, spec_parse_i32, spec_parse_u64, spec_parse_u8,
};

verus! {

/// Read a value out of a text, falling back to a given default.
pub trait ParseOr<T>: Sized {
    /// The value the text holds, when it parses.
    spec fn parse_view(self) -> Option<T>;

    /// The parsed value, or `default` when the text does not parse.
    fn parse_or(self, default: T) -> (r: T)
        ensures
            r == match self.parse_view() {
                Some(v) => v,
                None => default,
            },
    ;
}

/// Read a value out of a text, falling back to the type's zero value.
pub trait ParseOrDefault<T>: Sized {
    /// The value the text holds, when it parses.
    spec fn parsed(self) -> Option<T>;

    /// The value used when the text does not parse.
    spec fn fallback() -> T;

    /// The fallback, as a value.
    fn fallback_value() -> (r: T)
        ensures
            r == Self::fallback(),
    ;

    /// The parsed value, or the fallback when the text does not parse.
    fn parse_or_default(self) -> (r: T)
        ensures
            r == match self.parsed() {
                Some(v) => v,
                None => Self::fallback(),
            },
    ;
}

impl ParseOr<u64> for &str {
    open spec fn parse_view(self) -> Option<u64> {
        spec_parse_u64(self.spec_bytes())
    }

    fn parse_or(self, default: u64) -> u64 {
        match parse_u64(self.as_bytes()) {
            Some(v) => v,
            None => default,
        }
    }
}

impl ParseOr<u8> for &str {
    open spec fn parse_view(self) -> Option<u8> {
        spec_parse_u8(self.spec_bytes())
    }

    fn parse_or(self, default: u8) -> u8 {
        match parse_u8(self.as_bytes()) {
            Some(v) => v,
            None => default,
        }
    }
}

impl ParseOr<i32> for &str {
    open spec fn parse_view(self) -> Option<i32> {
        spec_parse_i32(self.spec_bytes())
    }

    fn parse_or(self, default: i32) -> i32 {
        match parse_i32(self.as_bytes()) {
            Some(v) => v,
            None => default,
        }
    }
}

impl<T, Y: ParseOr<T>> ParseOr<T> for Option<Y> {
    open spec fn parse_view(self) -> Option<T> {
        match self {
            Some(y) => y.parse_view(),
            None => None,
        }
    }

    fn parse_or(self, default: T) -> T {
        match self {
            Some(y) => y.parse_or(default),
            None => default,
        }
    }
}

impl ParseOrDefault<u64> for &str {
    open spec fn parsed(self) -> Option<u64> {
        spec_parse_u64(self.spec_bytes())
    }

    open spec fn fallback() -> u64 {
        0
    }

    fn fallback_value() -> u64 {
        0
    }

    fn parse_or_default(self) -> u64 {
        self.parse_or(0u64)
    }
}

impl ParseOrDefault<u8> for &str {
    open spec fn parsed(self) -> Option<u8> {
        spec_parse_u8(self.spec_bytes())
    }

    open spec fn fallback() -> u8 {
        0
    }

    fn fallback_value() -> u8 {
        0
    }

    fn parse_or_default(self) -> u8 {
        self.parse_or(0u8)
    }
}

impl ParseOrDefault<i32> for &str {
    open spec fn parsed(self) -> Option<i32> {
        spec_parse_i32(self.spec_bytes())
    }

    open spec fn fallback() -> i32 {
        0
    }

    fn fallback_value() -> i32 {
        0
    }

    fn parse_or_default(self) -> i32 {
        self.parse_or(0i32)
    }
}

impl<T, Y: ParseOrDefault<T>> ParseOrDefault<T> for Option<Y> {
    open spec fn parsed(self) -> Option<T> {
        match self {
            Some(y) => y.parsed(),
            None => None,
        }
    }

    open spec fn fallback() -> T {
        Y::fallback()
    }

    fn fallback_value() -> T {
        Y::fallback_value()
    }

    fn parse_or_default(self) -> T {
        match self {
            Some(y) => y.parse_or_default(),
            None => Y::fallback_value(),
        }
    }
}

} // verus!
