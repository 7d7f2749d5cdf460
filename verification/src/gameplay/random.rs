//! What is made of a random number once it is drawn.
//!
//! Each function takes the 32 bits that an entropy source gave and turns
//! them into a coin flip, a number in a range or a choice from a list. The
//! same bits always give the same answer.

use vstd::prelude::*;

verus! {

/// The 32 bits read as a signed number in two's complement.
pub open spec fn signed(raw: u32) -> int {
    if raw < 0x8000_0000 {
        raw as int
    } else {
        raw - 0x1_0000_0000
    }
}

/// The size of a number.
pub open spec fn magnitude(d: int) -> int {
    if d < 0 {
        -d
    } else {
        d
    }
}

/// The remainder of a division that rounds towards zero: it has the sign of
/// `x` and is smaller in size than `d`.
pub open spec fn remainder(x: int, d: int) -> int {
    if x >= 0 {
        x % magnitude(d)
    } else {
        -((-x) % magnitude(d))
    }
}

/// A number is one of the 32-bit signed numbers.
pub open spec fn fits(n: int) -> bool {
    i32::MIN <= n <= i32::MAX
}

/// The number drawn between `start` and `end`: `start` plus the remainder
/// of the signed bits by the width `end - start`. There is none where the
/// width is zero or does not fit 32 bits, where the remainder is not
/// defined (the least number by minus one), or where the sum does not fit.
pub open spec fn between_of(raw: u32, start: int, end: int) -> Option<i32> {
    let width = end - start;
    if width == 0 || !fits(width) || (signed(raw) == i32::MIN && width == -1) || !fits(
        start + remainder(signed(raw), width),
    ) {
        None
    } else {
        Some((start + remainder(signed(raw), width)) as i32)
    }
}

/// Heads or tails: heads where the bits, as a number, leave 50 or more
/// when divided by 100.
pub fn coin(raw: u32) -> (heads: bool)
    ensures
        heads == (raw % 100 >= 50),
{
    (raw % 100) >= 50
}

/// A number drawn between `start` and `end`. With a positive width and
/// bits that read as a number from zero up it lies from `start` up to, not
/// including, `end`.
pub fn between(raw: u32, start: i32, end: i32) -> (picked: Option<i32>)
    ensures
        picked == between_of(raw, start as int, end as int),
{
    let x: i64 = if raw < 0x8000_0000 {
        raw as i64
    } else {
        raw as i64 - 0x1_0000_0000
    };
    let width: i64 = end as i64 - start as i64;
    if width == 0 || width < i32::MIN as i64 || width > i32::MAX as i64 {
        return None;
    }
    if x == i32::MIN as i64 && width == -1 {
        return None;
    }
    let size: i64 = if width < 0 {
        -width
    } else {
        width
    };
    let rest: i64 = if x >= 0 {
        x % size
    } else {
        -((-x) % size)
    };
    let sum: i64 = start as i64 + rest;
    if sum < i32::MIN as i64 || sum > i32::MAX as i64 {
        None
    } else {
        Some(sum as i32)
    }
}

/// A number drawn between `start` and `end`, drawn as `between` draws it.
pub fn strict_between(raw: u32, start: i32, end: i32) -> (picked: Option<i32>)
    ensures
        picked == between_of(raw, start as int, end as int),
{
    between(raw, start, end)
}

/// The place in a list of `len` things that the bits choose: the bits as a
/// number, divided by `len`, leave it. An empty list has no place.
pub fn choice_index(raw: u32, len: usize) -> (at: Option<usize>)
    ensures
        len == 0 ==> at is None,
        len > 0 ==> at == Some((raw as int % len as int) as usize),
{
    if len == 0 {
        None
    } else {
        Some(raw as usize % len)
    }
}

/// A copy of the thing in the list that the bits choose.
pub fn choice<T: Clone>(raw: u32, source: &[T]) -> (picked: Option<T>)
    ensures
        source@.len() == 0 ==> picked is None,
        source@.len() > 0 ==> picked is Some && cloned(
            source@[raw as int % source@.len() as int],
            picked->Some_0,
        ),
{
    match choice_index(raw, source.len()) {
        Some(at) => Some(source[at].clone()),
        None => None,
    }
}

/// With a positive width and bits that read as a number from zero up, a
/// draw succeeds and lies from `start` up to, not including, `end`.
pub proof fn law_draw_in_range(raw: u32, start: i32, end: i32)
    requires
        raw < 0x8000_0000,
        start < end,
        fits(end - start),
    ensures
        between_of(raw, start as int, end as int) is Some,
        start <= between_of(raw, start as int, end as int)->Some_0 < end,
{
}

} // verus!
