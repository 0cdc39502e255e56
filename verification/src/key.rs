//! Keys that map into the integer domain of the presence index.

use vstd::prelude::*;

verus! {

/// The key has no 32-bit integer form, or the integer has no key; on
/// insertion also: the integer lies beyond what the presence index can hold.
#[derive(Debug, Clone, Copy, PartialEq, Eq, Structural)]
pub struct KeyRangeError;

/// A key type with a partial, invertible mapping to 32-bit indices.
///
/// `index_of` is the integer form of a key, if it has one; `key_at` is the key
/// of an integer, if it has one. Every implementation proves that going to the
/// integer form and back returns the key it started from.
pub trait Key: Copy {
    /// The integer form of the key, or `None` where the key is out of range.
    spec fn index_of(self) -> Option<u32>;

    /// The key whose integer form is `index`, or `None` where there is none.
    spec fn key_at(index: u32) -> Option<Self>;

    /// A key that has an integer form is the key of that integer.
    proof fn lemma_round_trip(self)
        ensures
            self.index_of() matches Some(i) ==> Self::key_at(i) == Some(self),
    ;

    /// Converts the key to its integer form.
    fn to_index(self) -> (r: Result<u32, KeyRangeError>)
        ensures
            r == match self.index_of() {
                Some(i) => Ok::<u32, KeyRangeError>(i),
                None => Err(KeyRangeError),
            },
    ;

    /// Converts an integer back to its key.
    fn from_index(index: u32) -> (r: Result<Self, KeyRangeError>)
        ensures
            r == match Self::key_at(index) {
                Some(k) => Ok::<Self, KeyRangeError>(k),
                None => Err(KeyRangeError),
            },
    ;
}

impl Key for u8 {
    open spec fn index_of(self) -> Option<u32> {
        Some(self as u32)
    }

    open spec fn key_at(index: u32) -> Option<u8> {
        if index <= u8::MAX {
            Some(index as u8)
        } else {
            None
        }
    }

    proof fn lemma_round_trip(self) {
    }

    fn to_index(self) -> (r: Result<u32, KeyRangeError>) {
        Ok(u32::from(self))
    }

    fn from_index(index: u32) -> (r: Result<u8, KeyRangeError>) {
        match u8::try_from(index) {
            Ok(k) => Ok(k),
            Err(_) => Err(KeyRangeError),
        }
    }
}

impl Key for u16 {
    open spec fn index_of(self) -> Option<u32> {
        Some(self as u32)
    }

    open spec fn key_at(index: u32) -> Option<u16> {
        if index <= u16::MAX {
            Some(index as u16)
        } else {
            None
        }
    }

    proof fn lemma_round_trip(self) {
    }

    fn to_index(self) -> (r: Result<u32, KeyRangeError>) {
        Ok(u32::from(self))
    }

    fn from_index(index: u32) -> (r: Result<u16, KeyRangeError>) {
        match u16::try_from(index) {
            Ok(k) => Ok(k),
            Err(_) => Err(KeyRangeError),
        }
    }
}

impl Key for u32 {
    open spec fn index_of(self) -> Option<u32> {
        Some(self)
    }

    open spec fn key_at(index: u32) -> Option<u32> {
        Some(index)
    }

    proof fn lemma_round_trip(self) {
    }

    fn to_index(self) -> (r: Result<u32, KeyRangeError>) {
        Ok(self)
    }

    fn from_index(index: u32) -> (r: Result<u32, KeyRangeError>) {
        Ok(index)
    }
}

impl Key for u64 {
    open spec fn index_of(self) -> Option<u32> {
        if self <= u32::MAX {
            Some(self as u32)
        } else {
            None
        }
    }

    open spec fn key_at(index: u32) -> Option<u64> {
        Some(index as u64)
    }

    proof fn lemma_round_trip(self) {
    }

    fn to_index(self) -> (r: Result<u32, KeyRangeError>) {
        match u32::try_from(self) {
            Ok(i) => Ok(i),
            Err(_) => Err(KeyRangeError),
        }
    }

    fn from_index(index: u32) -> (r: Result<u64, KeyRangeError>) {
        Ok(u64::from(index))
    }
}

impl Key for usize {
    open spec fn index_of(self) -> Option<u32> {
        if self <= u32::MAX {
            Some(self as u32)
        } else {
            None
        }
    }

    open spec fn key_at(index: u32) -> Option<usize> {
        if index <= usize::MAX {
            Some(index as usize)
        } else {
            None
        }
    }

    proof fn lemma_round_trip(self) {
    }

    fn to_index(self) -> (r: Result<u32, KeyRangeError>) {
        match u32::try_from(self) {
            Ok(i) => Ok(i),
            Err(_) => Err(KeyRangeError),
        }
    }

    fn from_index(index: u32) -> (r: Result<usize, KeyRangeError>) {
        match usize::try_from(index) {
            Ok(k) => Ok(k),
            Err(_) => Err(KeyRangeError),
        }
    }
}

impl Key for i32 {
    open spec fn index_of(self) -> Option<u32> {
        if 0 <= self <= u32::MAX {
            Some(self as u32)
        } else {
            None
        }
    }

    open spec fn key_at(index: u32) -> Option<i32> {
        if index <= i32::MAX {
            Some(index as i32)
        } else {
            None
        }
    }

    proof fn lemma_round_trip(self) {
    }

    fn to_index(self) -> (r: Result<u32, KeyRangeError>) {
        match u32::try_from(self) {
            Ok(i) => Ok(i),
            Err(_) => Err(KeyRangeError),
        }
    }

    fn from_index(index: u32) -> (r: Result<i32, KeyRangeError>) {
        if index <= 0x7fff_ffff {
            Ok(index as i32)
        } else {
            Err(KeyRangeError)
        }
    }
}

impl Key for i64 {
    open spec fn index_of(self) -> Option<u32> {
        if 0 <= self <= u32::MAX {
            Some(self as u32)
        } else {
            None
        }
    }

    open spec fn key_at(index: u32) -> Option<i64> {
        if index <= i64::MAX {
            Some(index as i64)
        } else {
            None
        }
    }

    proof fn lemma_round_trip(self) {
    }

    fn to_index(self) -> (r: Result<u32, KeyRangeError>) {
        match u32::try_from(self) {
            Ok(i) => Ok(i),
            Err(_) => Err(KeyRangeError),
        }
    }

    fn from_index(index: u32) -> (r: Result<i64, KeyRangeError>) {
        Ok(index as i64)
    }
}

impl Key for i8 {
    open spec fn index_of(self) -> Option<u32> {
        if 0 <= self <= u32::MAX {
            Some(self as u32)
        } else {
            None
        }
    }

    open spec fn key_at(index: u32) -> Option<i8> {
        if index <= i8::MAX {
            Some(index as i8)
        } else {
            None
        }
    }

    proof fn lemma_round_trip(self) {
    }

    fn to_index(self) -> (r: Result<u32, KeyRangeError>) {
        match u32::try_from(self) {
            Ok(i) => Ok(i),
            Err(_) => Err(KeyRangeError),
        }
    }

    fn from_index(index: u32) -> (r: Result<i8, KeyRangeError>) {
        match i8::try_from(index) {
            Ok(k) => Ok(k),
            Err(_) => Err(KeyRangeError),
        }
    }
}

impl Key for i16 {
    open spec fn index_of(self) -> Option<u32> {
        if 0 <= self <= u32::MAX {
            Some(self as u32)
        } else {
            None
        }
    }

    open spec fn key_at(index: u32) -> Option<i16> {
        if index <= i16::MAX {
            Some(index as i16)
        } else {
            None
        }
    }

    proof fn lemma_round_trip(self) {
    }

    fn to_index(self) -> (r: Result<u32, KeyRangeError>) {
        match u32::try_from(self) {
            Ok(i) => Ok(i),
            Err(_) => Err(KeyRangeError),
        }
    }

    fn from_index(index: u32) -> (r: Result<i16, KeyRangeError>) {
        match i16::try_from(index) {
            Ok(k) => Ok(k),
            Err(_) => Err(KeyRangeError),
        }
    }
}

impl Key for isize {
    open spec fn index_of(self) -> Option<u32> {
        if 0 <= self <= u32::MAX {
            Some(self as u32)
        } else {
            None
        }
    }

    open spec fn key_at(index: u32) -> Option<isize> {
        if index <= isize::MAX {
            Some(index as isize)
        } else {
            None
        }
    }

    proof fn lemma_round_trip(self) {
    }

    fn to_index(self) -> (r: Result<u32, KeyRangeError>) {
        match u32::try_from(self) {
            Ok(i) => Ok(i),
            Err(_) => Err(KeyRangeError),
        }
    }

    fn from_index(index: u32) -> (r: Result<isize, KeyRangeError>) {
        match isize::try_from(index) {
            Ok(k) => Ok(k),
            Err(_) => Err(KeyRangeError),
        }
    }
}

impl Key for u128 {
    open spec fn index_of(self) -> Option<u32> {
        if 0 <= self <= u32::MAX {
            Some(self as u32)
        } else {
            None
        }
    }

    open spec fn key_at(index: u32) -> Option<u128> {
        if index <= u128::MAX {
            Some(index as u128)
        } else {
            None
        }
    }

    proof fn lemma_round_trip(self) {
    }

    fn to_index(self) -> (r: Result<u32, KeyRangeError>) {
        match u32::try_from(self) {
            Ok(i) => Ok(i),
            Err(_) => Err(KeyRangeError),
        }
    }

    fn from_index(index: u32) -> (r: Result<u128, KeyRangeError>) {
        Ok(u128::from(index))
    }
}

impl Key for i128 {
    open spec fn index_of(self) -> Option<u32> {
        if 0 <= self <= u32::MAX {
            Some(self as u32)
        } else {
            None
        }
    }

    open spec fn key_at(index: u32) -> Option<i128> {
        if index <= i128::MAX {
            Some(index as i128)
        } else {
            None
        }
    }

    proof fn lemma_round_trip(self) {
    }

    fn to_index(self) -> (r: Result<u32, KeyRangeError>) {
        match u32::try_from(self) {
            Ok(i) => Ok(i),
            Err(_) => Err(KeyRangeError),
        }
    }

    fn from_index(index: u32) -> (r: Result<i128, KeyRangeError>) {
        Ok(index as i128)
    }
}

/// Whether `index` is a Unicode scalar value.
pub open spec fn is_scalar_value(index: u32) -> bool {
    index <= 0xD7FF || 0xE000 <= index <= 0x10FFFF
}

/// `char::from_u32`: the character with this code point, which exists
/// exactly where the code point is a Unicode scalar value.
#[verifier::external_body]
fn char_from_u32(index: u32) -> (r: Option<char>)
    ensures
        r == if is_scalar_value(index) {
            Some(index as char)
        } else {
            None
        },
{
    char::from_u32(index)
}

impl Key for char {
    open spec fn index_of(self) -> Option<u32> {
        Some(self as u32)
    }

    open spec fn key_at(index: u32) -> Option<char> {
        if is_scalar_value(index) {
            Some(index as char)
        } else {
            None
        }
    }

    proof fn lemma_round_trip(self) {
        vstd::utf8::char_is_scalar(self);
        vstd::utf8::char_u32_cast(self, self as u32);
    }

    fn to_index(self) -> (r: Result<u32, KeyRangeError>) {
        Ok(self as u32)
    }

    fn from_index(index: u32) -> (r: Result<char, KeyRangeError>) {
        match char_from_u32(index) {
            Some(k) => Ok(k),
            None => Err(KeyRangeError),
        }
    }
}

} // verus!
