//! The integer types as values with a text: decimal notation, within the
//! bounds of each type.

use crate::decimal::{
    bounded_value, format_integer, integer_text, lemma_integer_text_value, parse_bounded,
    push_decimal, read_decimal,
};
use crate::scalar::{reads_back, TextConvertible};
use vstd::prelude::*;

verus! {

impl TextConvertible for u8 {
    open spec fn parsed(s: Seq<char>) -> Option<u8> {
        match bounded_value(s, u8::MIN as int, u8::MAX as int) {
            Some(v) => Some(v as u8),
            None => None,
        }
    }

    open spec fn formatted(v: u8) -> Seq<char> {
        integer_text(v as int)
    }

    open spec fn type_label() -> Seq<char> {
        "u8"@
    }

    fn from_text(s: &str) -> (r: Option<u8>) {
        match parse_bounded(s, u8::MIN as i128, u8::MAX as i128) {
            Some(v) => Some(v as u8),
            None => None,
        }
    }

    fn to_text(&self) -> (r: String) {
        format_integer(*self as i128)
    }

    fn label() -> (r: &'static str) {
        "u8"
    }
}

impl TextConvertible for u16 {
    open spec fn parsed(s: Seq<char>) -> Option<u16> {
        match bounded_value(s, u16::MIN as int, u16::MAX as int) {
            Some(v) => Some(v as u16),
            None => None,
        }
    }

    open spec fn formatted(v: u16) -> Seq<char> {
        integer_text(v as int)
    }

    open spec fn type_label() -> Seq<char> {
        "u16"@
    }

    fn from_text(s: &str) -> (r: Option<u16>) {
        match parse_bounded(s, u16::MIN as i128, u16::MAX as i128) {
            Some(v) => Some(v as u16),
            None => None,
        }
    }

    fn to_text(&self) -> (r: String) {
        format_integer(*self as i128)
    }

    fn label() -> (r: &'static str) {
        "u16"
    }
}

impl TextConvertible for u32 {
    open spec fn parsed(s: Seq<char>) -> Option<u32> {
        match bounded_value(s, u32::MIN as int, u32::MAX as int) {
            Some(v) => Some(v as u32),
            None => None,
        }
    }

    open spec fn formatted(v: u32) -> Seq<char> {
        integer_text(v as int)
    }

    open spec fn type_label() -> Seq<char> {
        "u32"@
    }

    fn from_text(s: &str) -> (r: Option<u32>) {
        match parse_bounded(s, u32::MIN as i128, u32::MAX as i128) {
            Some(v) => Some(v as u32),
            None => None,
        }
    }

    fn to_text(&self) -> (r: String) {
        format_integer(*self as i128)
    }

    fn label() -> (r: &'static str) {
        "u32"
    }
}

impl TextConvertible for u64 {
    open spec fn parsed(s: Seq<char>) -> Option<u64> {
        match bounded_value(s, u64::MIN as int, u64::MAX as int) {
            Some(v) => Some(v as u64),
            None => None,
        }
    }

    open spec fn formatted(v: u64) -> Seq<char> {
        integer_text(v as int)
    }

    open spec fn type_label() -> Seq<char> {
        "u64"@
    }

    fn from_text(s: &str) -> (r: Option<u64>) {
        match parse_bounded(s, u64::MIN as i128, u64::MAX as i128) {
            Some(v) => Some(v as u64),
            None => None,
        }
    }

    fn to_text(&self) -> (r: String) {
        format_integer(*self as i128)
    }

    fn label() -> (r: &'static str) {
        "u64"
    }
}

impl TextConvertible for u128 {
    open spec fn parsed(s: Seq<char>) -> Option<u128> {
        match bounded_value(s, u128::MIN as int, u128::MAX as int) {
            Some(v) => Some(v as u128),
            None => None,
        }
    }

    open spec fn formatted(v: u128) -> Seq<char> {
        integer_text(v as int)
    }

    open spec fn type_label() -> Seq<char> {
        "u128"@
    }

    fn from_text(s: &str) -> (r: Option<u128>) {
        match read_decimal(s, false, 0, u128::MAX) {
            Some((_, m)) => Some(m),
            None => None,
        }
    }

    fn to_text(&self) -> (r: String) {
        let mut out = String::new();
        push_decimal(&mut out, *self);
        out
    }

    fn label() -> (r: &'static str) {
        "u128"
    }
}

impl TextConvertible for usize {
    open spec fn parsed(s: Seq<char>) -> Option<usize> {
        match bounded_value(s, usize::MIN as int, usize::MAX as int) {
            Some(v) => Some(v as usize),
            None => None,
        }
    }

    open spec fn formatted(v: usize) -> Seq<char> {
        integer_text(v as int)
    }

    open spec fn type_label() -> Seq<char> {
        "usize"@
    }

    fn from_text(s: &str) -> (r: Option<usize>) {
        match parse_bounded(s, usize::MIN as i128, usize::MAX as i128) {
            Some(v) => Some(v as usize),
            None => None,
        }
    }

    fn to_text(&self) -> (r: String) {
        format_integer(*self as i128)
    }

    fn label() -> (r: &'static str) {
        "usize"
    }
}

impl TextConvertible for i8 {
    open spec fn parsed(s: Seq<char>) -> Option<i8> {
        match bounded_value(s, i8::MIN as int, i8::MAX as int) {
            Some(v) => Some(v as i8),
            None => None,
        }
    }

    open spec fn formatted(v: i8) -> Seq<char> {
        integer_text(v as int)
    }

    open spec fn type_label() -> Seq<char> {
        "i8"@
    }

    fn from_text(s: &str) -> (r: Option<i8>) {
        match parse_bounded(s, i8::MIN as i128, i8::MAX as i128) {
            Some(v) => Some(v as i8),
            None => None,
        }
    }

    fn to_text(&self) -> (r: String) {
        format_integer(*self as i128)
    }

    fn label() -> (r: &'static str) {
        "i8"
    }
}

impl TextConvertible for i16 {
    open spec fn parsed(s: Seq<char>) -> Option<i16> {
        match bounded_value(s, i16::MIN as int, i16::MAX as int) {
            Some(v) => Some(v as i16),
            None => None,
        }
    }

    open spec fn formatted(v: i16) -> Seq<char> {
        integer_text(v as int)
    }

    open spec fn type_label() -> Seq<char> {
        "i16"@
    }

    fn from_text(s: &str) -> (r: Option<i16>) {
        match parse_bounded(s, i16::MIN as i128, i16::MAX as i128) {
            Some(v) => Some(v as i16),
            None => None,
        }
    }

    fn to_text(&self) -> (r: String) {
        format_integer(*self as i128)
    }

    fn label() -> (r: &'static str) {
        "i16"
    }
}

impl TextConvertible for i32 {
    open spec fn parsed(s: Seq<char>) -> Option<i32> {
        match bounded_value(s, i32::MIN as int, i32::MAX as int) {
            Some(v) => Some(v as i32),
            None => None,
        }
    }

    open spec fn formatted(v: i32) -> Seq<char> {
        integer_text(v as int)
    }

    open spec fn type_label() -> Seq<char> {
        "i32"@
    }

    fn from_text(s: &str) -> (r: Option<i32>) {
        match parse_bounded(s, i32::MIN as i128, i32::MAX as i128) {
            Some(v) => Some(v as i32),
            None => None,
        }
    }

    fn to_text(&self) -> (r: String) {
        format_integer(*self as i128)
    }

    fn label() -> (r: &'static str) {
        "i32"
    }
}

impl TextConvertible for i64 {
    open spec fn parsed(s: Seq<char>) -> Option<i64> {
        match bounded_value(s, i64::MIN as int, i64::MAX as int) {
            Some(v) => Some(v as i64),
            None => None,
        }
    }

    open spec fn formatted(v: i64) -> Seq<char> {
        integer_text(v as int)
    }

    open spec fn type_label() -> Seq<char> {
        "i64"@
    }

    fn from_text(s: &str) -> (r: Option<i64>) {
        match parse_bounded(s, i64::MIN as i128, i64::MAX as i128) {
            Some(v) => Some(v as i64),
            None => None,
        }
    }

    fn to_text(&self) -> (r: String) {
        format_integer(*self as i128)
    }

    fn label() -> (r: &'static str) {
        "i64"
    }
}

impl TextConvertible for i128 {
    open spec fn parsed(s: Seq<char>) -> Option<i128> {
        match bounded_value(s, i128::MIN as int, i128::MAX as int) {
            Some(v) => Some(v as i128),
            None => None,
        }
    }

    open spec fn formatted(v: i128) -> Seq<char> {
        integer_text(v as int)
    }

    open spec fn type_label() -> Seq<char> {
        "i128"@
    }

    fn from_text(s: &str) -> (r: Option<i128>) {
        match parse_bounded(s, i128::MIN as i128, i128::MAX as i128) {
            Some(v) => Some(v as i128),
            None => None,
        }
    }

    fn to_text(&self) -> (r: String) {
        format_integer(*self as i128)
    }

    fn label() -> (r: &'static str) {
        "i128"
    }
}

impl TextConvertible for isize {
    open spec fn parsed(s: Seq<char>) -> Option<isize> {
        match bounded_value(s, isize::MIN as int, isize::MAX as int) {
            Some(v) => Some(v as isize),
            None => None,
        }
    }

    open spec fn formatted(v: isize) -> Seq<char> {
        integer_text(v as int)
    }

    open spec fn type_label() -> Seq<char> {
        "isize"@
    }

    fn from_text(s: &str) -> (r: Option<isize>) {
        match parse_bounded(s, isize::MIN as i128, isize::MAX as i128) {
            Some(v) => Some(v as isize),
            None => None,
        }
    }

    fn to_text(&self) -> (r: String) {
        format_integer(*self as i128)
    }

    fn label() -> (r: &'static str) {
        "isize"
    }
}

/// Every `u8` is read back from its canonical text.
pub proof fn lemma_u8_reads_back(n: u8)
    ensures
        reads_back::<u8>(n),
{
    lemma_integer_text_value(n as int, u8::MIN as int, u8::MAX as int);
}

/// Every `u16` is read back from its canonical text.
pub proof fn lemma_u16_reads_back(n: u16)
    ensures
        reads_back::<u16>(n),
{
    lemma_integer_text_value(n as int, u16::MIN as int, u16::MAX as int);
}

/// Every `u32` is read back from its canonical text.
pub proof fn lemma_u32_reads_back(n: u32)
    ensures
        reads_back::<u32>(n),
{
    lemma_integer_text_value(n as int, u32::MIN as int, u32::MAX as int);
}

/// Every `u64` is read back from its canonical text.
pub proof fn lemma_u64_reads_back(n: u64)
    ensures
        reads_back::<u64>(n),
{
    lemma_integer_text_value(n as int, u64::MIN as int, u64::MAX as int);
}

/// Every `u128` is read back from its canonical text.
pub proof fn lemma_u128_reads_back(n: u128)
    ensures
        reads_back::<u128>(n),
{
    lemma_integer_text_value(n as int, u128::MIN as int, u128::MAX as int);
}

/// Every `usize` is read back from its canonical text.
pub proof fn lemma_usize_reads_back(n: usize)
    ensures
        reads_back::<usize>(n),
{
    lemma_integer_text_value(n as int, usize::MIN as int, usize::MAX as int);
}

/// Every `i8` is read back from its canonical text.
pub proof fn lemma_i8_reads_back(n: i8)
    ensures
        reads_back::<i8>(n),
{
    lemma_integer_text_value(n as int, i8::MIN as int, i8::MAX as int);
}

/// Every `i16` is read back from its canonical text.
pub proof fn lemma_i16_reads_back(n: i16)
    ensures
        reads_back::<i16>(n),
{
    lemma_integer_text_value(n as int, i16::MIN as int, i16::MAX as int);
}

/// Every `i32` is read back from its canonical text.
pub proof fn lemma_i32_reads_back(n: i32)
    ensures
        reads_back::<i32>(n),
{
    lemma_integer_text_value(n as int, i32::MIN as int, i32::MAX as int);
}

/// Every `i64` is read back from its canonical text.
pub proof fn lemma_i64_reads_back(n: i64)
    ensures
        reads_back::<i64>(n),
{
    lemma_integer_text_value(n as int, i64::MIN as int, i64::MAX as int);
}

/// Every `i128` is read back from its canonical text.
pub proof fn lemma_i128_reads_back(n: i128)
    ensures
        reads_back::<i128>(n),
{
    lemma_integer_text_value(n as int, i128::MIN as int, i128::MAX as int);
}

/// Every `isize` is read back from its canonical text.
pub proof fn lemma_isize_reads_back(n: isize)
    ensures
        reads_back::<isize>(n),
{
    lemma_integer_text_value(n as int, isize::MIN as int, isize::MAX as int);
}

} // verus!
