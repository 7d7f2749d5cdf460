//! Numbers as they are written in tables: decimal digits, with a sign in
//! front where the number may have one.

use vstd::prelude::*;

verus! {

/// The value of a decimal digit; no value for any other character.
pub open spec fn digit(c: char) -> Option<int> {
    if '0' <= c <= '9' {
        Some(c as int - '0' as int)
    } else {
        None
    }
}

/// The text consists of decimal digits only.
pub open spec fn all_digits(text: Seq<char>) -> bool {
    forall|i: int| 0 <= i < text.len() ==> digit(#[trigger] text[i]) is Some
}

/// The number that a text of decimal digits writes, the empty text writing
/// zero.
pub open spec fn value(text: Seq<char>) -> int
    decreases text.len(),
{
    if text.len() == 0 {
        0
    } else {
        value(text.drop_last()) * 10 + match digit(text.last()) {
            Some(d) => d,
            None => 0,
        }
    }
}

/// The number that a text writes: at least one decimal digit, after a plus
/// sign or, where `signed`, a minus sign if there is one. Nothing else is a
/// number: no white space, no empty text, no sign alone.
pub open spec fn number(text: Seq<char>, signed: bool) -> Option<int> {
    if text.len() > 0 && text[0] == '-' && signed {
        if text.len() > 1 && all_digits(text.drop_first()) {
            Some(-value(text.drop_first()))
        } else {
            None
        }
    } else if text.len() > 0 && text[0] == '+' {
        if text.len() > 1 && all_digits(text.drop_first()) {
            Some(value(text.drop_first()))
        } else {
            None
        }
    } else if text.len() > 0 && all_digits(text) {
        Some(value(text))
    } else {
        None
    }
}

/// The 32-bit signed number that a text writes, if it writes one.
pub open spec fn i32_of(text: Seq<char>) -> Option<i32> {
    match number(text, true) {
        Some(n) => if i32::MIN <= n <= i32::MAX {
            Some(n as i32)
        } else {
            None
        },
        None => None,
    }
}

/// The 32-bit unsigned number that a text writes, if it writes one.
pub open spec fn u32_of(text: Seq<char>) -> Option<u32> {
    match number(text, false) {
        Some(n) => if n <= u32::MAX {
            Some(n as u32)
        } else {
            None
        },
        None => None,
    }
}

/// A longer text of digits writes no smaller number than its start.
pub proof fn lemma_value_grows(text: Seq<char>, i: int)
    requires
        0 <= i <= text.len(),
    ensures
        0 <= value(text.take(i)) <= value(text),
    decreases text.len() - i,
{
    lemma_value_nonnegative(text.take(i));
    if i < text.len() {
        lemma_value_grows(text, i + 1);
        assert(text.take(i + 1).drop_last() =~= text.take(i));
    } else {
        assert(text.take(i) =~= text);
    }
}

/// A text of digits writes no negative number.
pub proof fn lemma_value_nonnegative(text: Seq<char>)
    ensures
        value(text) >= 0,
    decreases text.len(),
{
    if text.len() > 0 {
        lemma_value_nonnegative(text.drop_last());
    }
}

/// The number that the digits from `from` on write, if they are digits
/// and the number is at most `most`.
fn digits(text: &Vec<char>, from: usize, most: u64) -> (n: Option<u64>)
    requires
        from <= text.len(),
        most <= 0x1_0000_0000,
    ensures
        match n {
            Some(n) => all_digits(text@.skip(from as int)) && n == value(text@.skip(from as int))
                && n <= most,
            None => !all_digits(text@.skip(from as int)) || value(text@.skip(from as int)) > most,
        },
{
    let ghost tail = text@.skip(from as int);
    let mut n: u64 = 0;
    let mut i: usize = from;
    assert(tail.take(0) =~= Seq::<char>::empty());
    while i < text.len()
        invariant
            from <= i <= text.len(),
            most <= 0x1_0000_0000,
            tail == text@.skip(from as int),
            n == value(tail.take(i - from)),
            n <= most,
            all_digits(tail.take(i - from)),
        decreases text.len() - i,
    {
        let c: char = text[i];
        assert(tail[i - from] == c);
        assert(tail.take(i - from + 1).drop_last() =~= tail.take(i - from));
        if c < '0' || c > '9' {
            assert(digit(tail[i - from]) is None);
            return None;
        }
        let d: u64 = (c as u32 - '0' as u32) as u64;
        let next: u64 = n * 10 + d;
        if next > most {
            proof {
                lemma_value_grows(tail, i - from + 1);
            }
            return None;
        }
        n = next;
        i += 1;
        assert forall|k: int| 0 <= k < i - from implies digit(
            #[trigger] tail.take(i - from)[k],
        ) is Some by {
            if k < i - from - 1 {
                assert(tail.take(i - from - 1)[k] == tail.take(i - from)[k]);
            }
        }
    }
    assert(tail.take(tail.len() as int) =~= tail);
    Some(n)
}

/// Reads a 32-bit signed number.
pub fn parse_i32(text: &Vec<char>) -> (n: Option<i32>)
    ensures
        n == i32_of(text@),
{
    if text.len() == 0 {
        return None;
    }
    let negative: bool = text[0] == '-';
    let from: usize = if negative || text[0] == '+' {
        1
    } else {
        0
    };
    if from == text.len() {
        return None;
    }
    assert(from == 1 ==> text@.skip(1) =~= text@.drop_first());
    assert(from == 0 ==> text@.skip(0) =~= text@);
    if negative {
        match digits(text, from, 0x8000_0000) {
            Some(n) => Some((-(n as i64)) as i32),
            None => None,
        }
    } else {
        match digits(text, from, 0x7fff_ffff) {
            Some(n) => Some(n as i32),
            None => None,
        }
    }
}

/// Reads a 32-bit unsigned number.
pub fn parse_u32(text: &Vec<char>) -> (n: Option<u32>)
    ensures
        n == u32_of(text@),
{
    if text.len() == 0 {
        return None;
    }
    let from: usize = if text[0] == '+' {
        1
    } else {
        0
    };
    if from == text.len() {
        return None;
    }
    assert(from == 1 ==> text@.skip(1) =~= text@.drop_first());
    assert(from == 0 ==> text@.skip(0) =~= text@);
    match digits(text, from, 0xffff_ffff) {
        Some(n) => Some(n as u32),
        None => None,
    }
}

} // verus!
