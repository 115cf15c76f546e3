//! The file in which a connection leaves its parameters for the next one:
//! comma-separated fields, with the round-trip time in seconds in the second,
//! the congestion window in the fourth, and the time at which they were saved,
//! in seconds since the epoch, in the sixth.

use vstd::prelude::*;

verus! {

/// The index of the field with the round-trip time.
pub const RTT_FIELD: usize = 1;

/// The index of the field with the congestion window.
pub const CWND_FIELD: usize = 3;

/// The index of the field with the time of saving.
pub const TIME_FIELD: usize = 5;

pub const COMMA: u8 = 44;

pub const PLUS: u8 = 43;

pub const ZERO: u8 = 48;

pub const NINE: u8 = 57;

/// The fields of a text: what stands between its commas.
pub open spec fn fields(text: Seq<u8>) -> Seq<Seq<u8>>
    decreases text.len(),
{
    if text.len() == 0 {
        seq![Seq::<u8>::empty()]
    } else {
        let before = fields(text.drop_last());
        if text.last() == COMMA {
            before.push(Seq::empty())
        } else {
            before.update(before.len() - 1, before.last().push(text.last()))
        }
    }
}

pub open spec fn is_digit(c: u8) -> bool {
    ZERO <= c <= NINE
}

/// Whether a text is made of decimal digits, at least one.
pub open spec fn is_number(text: Seq<u8>) -> bool {
    text.len() > 0 && forall|i: int| 0 <= i < text.len() ==> is_digit(#[trigger] text[i])
}

/// The value of a text of decimal digits.
pub open spec fn value(digits: Seq<u8>) -> nat
    decreases digits.len(),
{
    if digits.len() == 0 {
        0
    } else {
        10 * value(digits.drop_last()) + (digits.last() - ZERO) as nat
    }
}

/// The digits of a text: all of it but a leading plus sign.
pub open spec fn unsigned(text: Seq<u8>) -> Seq<u8> {
    if text.len() > 0 && text[0] == PLUS {
        text.skip(1)
    } else {
        text
    }
}

/// The whole number that a text denotes, where it denotes one no greater than
/// `most`.
pub open spec fn number(text: Seq<u8>, most: nat) -> Option<nat> {
    if is_number(unsigned(text)) && value(unsigned(text)) <= most {
        Some(value(unsigned(text)))
    } else {
        None
    }
}

/// Whether a text with all its fields supplies the two parameters that careful
/// resume cannot do without: a round-trip time and a window.
pub open spec fn supplied(text: Seq<u8>) -> bool {
    &&& number(fields(text)[RTT_FIELD as int], u64::MAX as nat) is Some
    &&& number(fields(text)[CWND_FIELD as int], usize::MAX as nat) is Some
}

/// The contents of a list of byte strings.
pub open spec fn contents_of(list: Seq<Vec<u8>>) -> Seq<Seq<u8>> {
    list.map_values(|v: Vec<u8>| v@)
}

/// Splits a text at its commas.
pub fn split_fields(text: &[u8]) -> (list: Vec<Vec<u8>>)
    ensures
        contents_of(list@) == fields(text@),
        list@.len() >= 1,
{
    let mut list: Vec<Vec<u8>> = Vec::new();
    let mut field: Vec<u8> = Vec::new();
    let mut i: usize = 0;
    proof {
        assert(text@.take(0).len() == 0);
        assert(contents_of(list@).push(field@) =~= fields(text@.take(0)));
    }
    while i < text.len()
        invariant
            i <= text.len(),
            contents_of(list@).push(field@) == fields(text@.take(i as int)),
        decreases text.len() - i,
    {
        let c = text[i];
        let ghost before = fields(text@.take(i as int));
        let ghost old_list = list@;
        let ghost old_field = field@;
        proof {
            assert(text@.take(i + 1).drop_last() =~= text@.take(i as int));
            assert(text@.take(i + 1).last() == c);
            assert(before.last() == old_field);
        }
        if c == COMMA {
            list.push(field);
            field = Vec::new();
            proof {
                assert(contents_of(list@) =~= contents_of(old_list).push(old_field));
                assert(contents_of(list@).push(field@) =~= before.push(Seq::empty()));
            }
        } else {
            field.push(c);
            proof {
                assert(contents_of(list@).push(field@) =~= before.update(
                    before.len() - 1,
                    old_field.push(c),
                ));
            }
        }
        i = i + 1;
    }
    let ghost old_list = list@;
    let ghost old_field = field@;
    list.push(field);
    proof {
        assert(text@.take(text@.len() as int) =~= text@);
        assert(contents_of(list@) =~= contents_of(old_list).push(old_field));
    }
    list
}

/// The value of a text of digits is no smaller than that of its beginning.
proof fn lemma_value_grows(digits: Seq<u8>, n: int)
    requires
        0 <= n <= digits.len(),
        forall|i: int| 0 <= i < digits.len() ==> is_digit(#[trigger] digits[i]),
    ensures
        value(digits.take(n)) <= value(digits),
    decreases digits.len() - n,
{
    if n == digits.len() {
        assert(digits.take(n) =~= digits);
    } else {
        lemma_value_grows(digits, n + 1);
        assert(digits.take(n + 1).drop_last() =~= digits.take(n));
        assert(is_digit(digits[n]));
    }
}

/// Reads a whole number no greater than `most`.
pub fn parse_number(text: &[u8], most: u64) -> (n: Option<u64>)
    ensures
        match n {
            Some(n) => number(text@, most as nat) == Some(n as nat),
            None => number(text@, most as nat) is None,
        },
{
    let start: usize = if text.len() > 0 && text[0] == PLUS {
        1
    } else {
        0
    };
    let ghost digits = unsigned(text@);
    proof {
        assert(digits =~= text@.skip(start as int));
    }
    if start == text.len() {
        return None;
    }
    let mut n: u64 = 0;
    let mut i: usize = start;
    proof {
        assert(digits.take(0).len() == 0);
    }
    while i < text.len()
        invariant
            start <= i <= text.len(),
            digits == text@.skip(start as int),
            digits == unsigned(text@),
            n == value(digits.take(i - start)),
            n <= most,
            forall|j: int| 0 <= j < i - start ==> is_digit(#[trigger] digits[j]),
        decreases text.len() - i,
    {
        let c = text[i];
        proof {
            assert(digits[i - start] == c);
            assert(digits.take(i + 1 - start).drop_last() =~= digits.take(i - start));
            assert(digits.take(i + 1 - start).last() == c);
        }
        if c < ZERO || c > NINE {
            return None;
        }
        let next: u128 = n as u128 * 10 + (c - ZERO) as u128;
        if next > most as u128 {
            proof {
                if is_number(digits) {
                    lemma_value_grows(digits, i + 1 - start);
                }
            }
            return None;
        }
        n = next as u64;
        i = i + 1;
    }
    proof {
        assert(digits.take(text.len() - start) =~= digits);
    }
    Some(n)
}

/// The text of a list of fields, with a comma between each two.
pub open spec fn joined(list: Seq<Seq<u8>>) -> Seq<u8>
    decreases list.len(),
{
    if list.len() == 0 {
        Seq::empty()
    } else if list.len() == 1 {
        list[0]
    } else {
        joined(list.drop_last()).push(44) + list.last()
    }
}

/// The fields of a text have no comma, and make up the text with a comma between
/// each two.
pub proof fn fields_make_up_the_text(text: &[u8], list: Vec<Vec<u8>>)
    requires
        call_ensures(split_fields, (text,), list),
    ensures
        list@.len() >= 1,
        joined(contents_of(list@)) == text@,
        forall|i: int, j: int|
            0 <= i < list@.len() && 0 <= j < list@[i]@.len() ==> #[trigger] list@[i]@[j] != 44,
{
    lemma_joined(text@);
    lemma_no_comma(text@);
    assert forall|i: int, j: int| 0 <= i < list@.len() && 0 <= j < list@[i]@.len() implies
        #[trigger] list@[i]@[j] != 44 by {
        assert(list@[i]@ == fields(text@)[i]);
        assert(fields(text@)[i][j] != 44);
    }
}

proof fn lemma_joined(text: Seq<u8>)
    ensures
        fields(text).len() >= 1,
        joined(fields(text)) =~= text,
    decreases text.len(),
{
    if text.len() > 0 {
        let before = fields(text.drop_last());
        lemma_joined(text.drop_last());
        let all = fields(text);
        let last = text.last();
        assert(text.drop_last().push(last) =~= text);
        if last == COMMA {
            assert(all.drop_last() =~= before);
        } else {
            assert(all.drop_last() =~= before.drop_last());
            if before.len() == 1 {
                assert(all[0] == before[0].push(last));
            } else {
                assert(all.last() == before.last().push(last));
                assert(joined(before) == joined(before.drop_last()).push(44) + before.last());
            }
        }
    }
}

proof fn lemma_no_comma(text: Seq<u8>)
    ensures
        fields(text).len() >= 1,
        forall|i: int, j: int|
            0 <= i < fields(text).len() && 0 <= j < fields(text)[i].len() ==> #[trigger] fields(
                text,
            )[i][j] != 44,
    decreases text.len(),
{
    if text.len() > 0 {
        let before = fields(text.drop_last());
        lemma_no_comma(text.drop_last());
        let all = fields(text);
        assert forall|i: int, j: int| 0 <= i < all.len() && 0 <= j < all[i].len() implies
            #[trigger] all[i][j] != 44 by {
            if text.last() == COMMA {
                if i < before.len() {
                    assert(all[i] == before[i]);
                }
            } else if i < before.len() - 1 {
                assert(all[i] == before[i]);
            } else if j < before[i].len() {
                assert(all[i][j] == before[i][j]);
            }
        }
    }
}

/// The decimal digits of a number.
pub open spec fn digits_of(n: nat) -> Seq<u8>
    decreases n,
{
    if n < 10 {
        seq![(48 + n) as u8]
    } else {
        digits_of(n / 10).push((48 + n % 10) as u8)
    }
}

/// A number is read back from its decimal digits, with a plus sign or without,
/// as long as it is not too large; a text with anything but digits is no number.
pub proof fn numbers_are_read_back(
    n: nat,
    text: &[u8],
    most: u64,
    read: Option<u64>,
)
    requires
        call_ensures(parse_number, (text, most), read),
    ensures
        text@ == digits_of(n) || text@ == seq![43u8] + digits_of(n) ==> if n <= most {
            read is Some && read->0 == n
        } else {
            read is None
        },
        text@.len() == 0 ==> read is None,
        (exists|i: int|
            0 <= i < text@.len() && !(48 <= #[trigger] text@[i] <= 57) && !(i == 0 && text@[0]
                == 43)) ==> read is None,
{
    lemma_digits(n);
    let d = digits_of(n);
    if text@ == seq![43u8] + d {
        assert(unsigned(text@) =~= d);
    }
    if text@ == d {
        assert(is_digit(d[0]));
        assert(unsigned(text@) =~= d);
    }
    if exists|i: int|
        0 <= i < text@.len() && !(48 <= #[trigger] text@[i] <= 57) && !(i == 0 && text@[0] == 43) {
        let i = choose|i: int|
            0 <= i < text@.len() && !(48 <= #[trigger] text@[i] <= 57) && !(i == 0 && text@[0]
                == 43);
        let u = unsigned(text@);
        if text@[0] == 43 {
            assert(u[i - 1] == text@[i]);
            assert(!is_digit(u[i - 1]));
        } else {
            assert(!is_digit(u[i]));
        }
    }
}

/// The digits of a number are digits, and have its value.
pub proof fn lemma_digits(n: nat)
    ensures
        is_number(digits_of(n)),
        value(digits_of(n)) == n,
    decreases n,
{
    if n < 10 {
        let d = digits_of(n);
        assert(d.drop_last() =~= Seq::empty());
        assert(value(Seq::<u8>::empty()) == 0);
    } else {
        lemma_digits(n / 10);
        let d = digits_of(n);
        assert(d.drop_last() =~= digits_of(n / 10));
        assert forall|i: int| 0 <= i < d.len() implies is_digit(#[trigger] d[i]) by {
            if i < d.len() - 1 {
                assert(d[i] == digits_of(n / 10)[i]);
            }
        }
    }
}

} // verus!
