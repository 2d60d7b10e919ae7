use vstd::prelude::*;

verus! {

/// Whether `c` is one of the digits 0 to 9.
pub open spec fn is_digit(c: char) -> bool {
    48 <= c as u32 <= 57
}

/// The value of the digit `c`.
pub open spec fn digit_of(c: char) -> nat
    recommends
        is_digit(c),
{
    (c as u32 - 48) as nat
}

/// Whether `text` is not empty and holds digits only.
pub open spec fn all_digits(text: Seq<char>) -> bool {
    text.len() > 0 && forall|i: int| 0 <= i < text.len() ==> is_digit(#[trigger] text[i])
}

/// The number that the digits `text` write in base ten.
pub open spec fn number_of(text: Seq<char>) -> nat
    decreases text.len(),
{
    if text.len() == 0 {
        0
    } else {
        number_of(text.drop_last()) * 10 + digit_of(text.last())
    }
}

/// The number that `text` writes in base ten, where it holds digits only and
/// the number fits 64 bits. Leading zeros count for nothing; a sign is no
/// digit.
pub open spec fn decimal_of(text: Seq<char>) -> Option<u64> {
    if all_digits(text) && number_of(text) <= u64::MAX {
        Some(number_of(text) as u64)
    } else {
        None
    }
}

/// The number written by the first digits of a text is at most the number
/// written by all of them.
pub proof fn lemma_prefix_is_no_larger(text: Seq<char>, k: int)
    requires
        0 <= k <= text.len(),
    ensures
        number_of(text.take(k)) <= number_of(text),
    decreases text.len() - k,
{
    if k < text.len() {
        lemma_prefix_is_no_larger(text, k + 1);
        assert(text.take(k + 1).drop_last() =~= text.take(k));
    } else {
        assert(text.take(k) =~= text);
    }
}

/// Reads `text` as an unsigned number in base ten.
pub fn parse_decimal(text: &str) -> (n: Option<u64>)
    ensures
        n == decimal_of(text@),
{
    let len: usize = text.unicode_len();
    if len == 0 {
        return None;
    }
    let mut value: u64 = 0;
    let mut i: usize = 0;
    assert(text@.take(0) =~= Seq::<char>::empty());
    while i < len
        invariant
            i <= len,
            len == text@.len(),
            forall|k: int| 0 <= k < i ==> is_digit(#[trigger] text@[k]),
            value == number_of(text@.take(i as int)),
        decreases len - i,
    {
        let c: char = text.get_char(i);
        let code: u32 = c as u32;
        if code < 48 || code > 57 {
            assert(!is_digit(text@[i as int]));
            return None;
        }
        let digit: u64 = (code - 48) as u64;
        assert(text@.take(i as int + 1).drop_last() =~= text@.take(i as int));
        assert(text@.take(i as int + 1).last() == text@[i as int]);
        assert(number_of(text@.take(i as int + 1)) == value * 10 + digit);
        if value > (u64::MAX - digit) / 10 {
            proof {
                lemma_prefix_is_no_larger(text@, i as int + 1);
            }
            return None;
        }
        value = value * 10 + digit;
        i = i + 1;
    }
    assert(text@.take(len as int) =~= text@);
    Some(value)
}

} // verus!
