//! Text helpers: splitting and joining, and decimal numbers.

use vstd::prelude::*;
use std::num::ParseIntError;

verus! {

/// The characters of each string of a list.
pub open spec fn texts(list: Seq<String>) -> Seq<Seq<char>> {
    Seq::new(list.len(), |i: int| list[i]@)
}

/// The pieces of `text` between the occurrences of `sep`, in order. An empty
/// text has one piece, which is empty.
pub open spec fn pieces(text: Seq<char>, sep: char) -> Seq<Seq<char>>
    decreases text.len(),
{
    if text.len() == 0 {
        seq![text]
    } else {
        let before = pieces(text.drop_last(), sep);
        if text.last() == sep {
            before.push(Seq::empty())
        } else {
            before.drop_last().push(before.last().push(text.last()))
        }
    }
}

/// The texts of `list` one after the other, with `sep` between two neighbours.
pub open spec fn joined(list: Seq<Seq<char>>, sep: Seq<char>) -> Seq<char>
    decreases list.len(),
{
    if list.len() == 0 {
        Seq::empty()
    } else if list.len() == 1 {
        list[0]
    } else {
        joined(list.drop_last(), sep) + sep + list.last()
    }
}

/// A list of texts has as many texts as the list has strings, each with the
/// characters of its string.
pub proof fn law_texts(list: Seq<String>)
    ensures
        texts(list).len() == list.len(),
        forall|i: int| 0 <= i < list.len() ==> #[trigger] texts(list)[i] == list[i]@,
{
}

/// Joining puts the separator between two neighbours and nowhere else: nothing
/// joined is nothing, one text joined is that text, and each further text comes
/// after one more separator.
pub proof fn law_joined_grows(list: Seq<Seq<char>>, text: Seq<char>, sep: Seq<char>)
    ensures
        joined(Seq::empty(), sep) == Seq::<char>::empty(),
        list.len() == 0 ==> joined(list.push(text), sep) == text,
        list.len() > 0 ==> joined(list.push(text), sep) == joined(list, sep) + sep + text,
{
    assert(list.push(text).drop_last() == list);
}

/// Splitting loses nothing: there is at least one piece, no piece holds the
/// separator, and the pieces joined by the separator are the text again.
pub proof fn law_pieces_join_back(text: Seq<char>, sep: char)
    ensures
        pieces(text, sep).len() >= 1,
        forall|i: int| 0 <= i < pieces(text, sep).len() ==> !(#[trigger] pieces(text, sep)[i]).contains(sep),
        joined(pieces(text, sep), seq![sep]) == text,
    decreases text.len(),
{
    let all = pieces(text, sep);
    if text.len() > 0 {
        let before = pieces(text.drop_last(), sep);
        law_pieces_join_back(text.drop_last(), sep);
        assert(text == text.drop_last().push(text.last()));
        if text.last() == sep {
            assert(all.drop_last() == before);
            assert(joined(all, seq![sep]) == text);
        } else {
            assert(all.drop_last() == before.drop_last());
            assert forall|i: int| 0 <= i < all.len() implies !(#[trigger] all[i]).contains(sep) by {
                if i < all.len() - 1 {
                    assert(all[i] == before[i]);
                } else {
                    let grown = before.last().push(text.last());
                    assert(!before[before.len() - 1].contains(sep));
                    assert forall|k: int| 0 <= k < grown.len() implies grown[k] != sep by {
                        if k < grown.len() - 1 {
                            assert(before.last()[k] == grown[k]);
                        }
                    }
                }
            }
            assert(joined(all, seq![sep]) == text);
        }
    }
}

/// A text has one piece more than it has separators.
pub proof fn law_pieces_count(text: Seq<char>, sep: char)
    ensures
        pieces(text, sep).len() == text.filter(|c: char| c == sep).len() + 1,
    decreases text.len(),
{
    reveal(Seq::filter);
    if text.len() > 0 {
        law_pieces_count(text.drop_last(), sep);
        law_pieces_join_back(text.drop_last(), sep);
    }
}

/// A list of texts without the separator is got back, by splitting, from what
/// joining makes of it.
pub proof fn law_joined_splits_back(list: Seq<Seq<char>>, sep: char)
    requires
        list.len() >= 1,
        forall|i: int| 0 <= i < list.len() ==> !(#[trigger] list[i]).contains(sep),
    ensures
        pieces(joined(list, seq![sep]), sep) == list,
    decreases list.len(),
{
    let last = list.last();
    assert(!list[list.len() - 1].contains(sep));
    if list.len() == 1 {
        lemma_pieces_append(Seq::empty(), last, sep);
        assert(Seq::<char>::empty() + last == last);
        assert(pieces(Seq::<char>::empty(), sep) == seq![Seq::<char>::empty()]);
        assert(list == seq![last]);
    } else {
        let rest = list.drop_last();
        assert forall|i: int| 0 <= i < rest.len() implies !(#[trigger] rest[i]).contains(sep) by {
            assert(rest[i] == list[i]);
        }
        law_joined_splits_back(rest, sep);
        let head = joined(rest, seq![sep]) + seq![sep];
        assert(head.drop_last() == joined(rest, seq![sep]));
        assert(pieces(head, sep) == rest.push(Seq::empty()));
        lemma_pieces_append(head, last, sep);
        assert(Seq::<char>::empty() + last == last);
        assert(rest.push(last) == list);
    }
}

/// Text without a separator only makes the last piece longer.
proof fn lemma_pieces_append(head: Seq<char>, tail: Seq<char>, sep: char)
    requires
        !tail.contains(sep),
    ensures
        pieces(head, sep).len() >= 1,
        pieces(head + tail, sep) == pieces(head, sep).drop_last().push(pieces(head, sep).last() + tail),
    decreases tail.len(),
{
    law_pieces_join_back(head, sep);
    let before = pieces(head, sep);
    if tail.len() == 0 {
        assert(head + tail == head);
        assert(before.last() + tail == before.last());
        assert(before.drop_last().push(before.last()) == before);
    } else {
        let shorter = tail.drop_last();
        assert forall|k: int| 0 <= k < shorter.len() implies shorter[k] != sep by {
            assert(tail[k] == shorter[k]);
        }
        lemma_pieces_append(head, shorter, sep);
        assert((head + tail).drop_last() == head + shorter);
        assert((head + tail).last() == tail.last());
        assert(tail[tail.len() - 1] != sep);
        let mid = pieces(head + shorter, sep);
        assert(mid.drop_last() == before.drop_last());
        assert(mid.last().push(tail.last()) == before.last() + tail);
    }
}

/// Splits `text` at every `sep`.
pub fn split(text: &str, sep: char) -> (list: Vec<String>)
    ensures
        texts(list@) == pieces(text@, sep),
        list@.len() == text@.filter(|c: char| c == sep).len() + 1,
        forall|i: int| 0 <= i < list@.len() ==> !(#[trigger] list@[i])@.contains(sep),
        joined(Seq::new(list@.len(), |i: int| list@[i]@), seq![sep]) == text@,
{
    let len = text.unicode_len();
    let mut list: Vec<String> = Vec::new();
    let mut start: usize = 0;
    let mut at: usize = 0;
    proof {
        assert(text@.take(0) == Seq::<char>::empty());
        assert(texts(list@).push(text@.subrange(0, 0)) == pieces(text@.take(0), sep));
    }
    for c in it: text.chars()
        invariant
            it.seq() == text@,
            at == it.index(),
            len == text@.len(),
            start <= at <= len,
            texts(list@).push(text@.subrange(start as int, at as int)) == pieces(text@.take(at as int), sep),
    {
        let ghost before = texts(list@);
        let ghost piece = text@.subrange(start as int, at as int);
        proof {
            assert(text@.take(at + 1).drop_last() == text@.take(at as int));
            assert(text@.take(at + 1).last() == c);
            assert(before.push(piece).last() == piece);
            assert(before.push(piece).drop_last() == before);
        }
        if c == sep {
            list.push(text.substring_char(start, at).to_string());
            start = at + 1;
            proof {
                assert(texts(list@) == before.push(piece));
                assert(text@.subrange(start as int, at + 1) == Seq::<char>::empty());
            }
        } else {
            proof {
                assert(text@.subrange(start as int, at + 1) == piece.push(c));
            }
        }
        at = at + 1;
    }
    let ghost before = texts(list@);
    list.push(text.substring_char(start, len).to_string());
    proof {
        assert(text@.take(len as int) == text@);
        assert(texts(list@) == before.push(text@.subrange(start as int, len as int)));
        law_pieces_join_back(text@, sep);
        law_pieces_count(text@, sep);
        assert(texts(list@) == Seq::new(list@.len(), |i: int| list@[i]@));
        assert forall|i: int| 0 <= i < list@.len() implies !(#[trigger] list@[i])@.contains(sep) by {
            assert(texts(list@)[i] == list@[i]@);
        }
    }
    list
}

/// Joins the texts of `list` with `sep` between two neighbours.
pub fn join(list: &Vec<String>, sep: &str) -> (text: String)
    ensures
        text@ == joined(texts(list@), sep@),
        text@ == joined(Seq::new(list@.len(), |i: int| list@[i]@), sep@),
{
    let mut text = String::new();
    let mut i: usize = 0;
    assert(texts(list@).take(0) == Seq::<Seq<char>>::empty());
    while i < list.len()
        invariant
            i <= list.len(),
            text@ == joined(texts(list@).take(i as int), sep@),
        decreases list.len() - i,
    {
        if i > 0 {
            text.append(sep);
        }
        text.append(list[i].as_str());
        proof {
            let now = texts(list@).take(i + 1);
            assert(now.drop_last() == texts(list@).take(i as int));
            assert(now.last() == list@[i as int]@);
            if i == 0 {
                assert(Seq::<char>::empty() + now[0] == now[0]);
            }
        }
        i = i + 1;
    }
    assert(texts(list@).take(i as int) == texts(list@));
    assert(texts(list@) == Seq::new(list@.len(), |i: int| list@[i]@));
    text
}

/// What a debug print of a text shows: the text in double quotes, with some
/// characters escaped.
pub uninterp spec fn quoted(text: Seq<char>) -> Seq<char>;

/// The `{:?}` format of a `str`. What it shows is trusted to depend on the text
/// alone: it is `quoted` of the text, which says no more of it than that.
#[verifier::external_body]
pub(crate) fn quote(text: &str) -> (shown: String)
    ensures
        shown@ == quoted(text@),
{
    format!("{:?}", text)
}

/// The character of a decimal digit.
pub open spec fn digit(d: nat) -> char {
    ('0' as int + d) as char
}

/// A number written in decimal, without leading zeros.
pub open spec fn decimal(n: nat) -> Seq<char>
    decreases n,
{
    if n < 10 {
        seq![digit(n)]
    } else {
        decimal(n / 10).push(digit(n % 10))
    }
}

/// Writes a decimal digit.
fn digit_text(d: u64) -> (text: &'static str)
    requires
        d < 10,
    ensures
        text@ == seq![digit(d as nat)],
{
    proof {
        reveal_strlit("0");
        reveal_strlit("1");
        reveal_strlit("2");
        reveal_strlit("3");
        reveal_strlit("4");
        reveal_strlit("5");
        reveal_strlit("6");
        reveal_strlit("7");
        reveal_strlit("8");
        reveal_strlit("9");
    }
    match d {
        0 => "0",
        1 => "1",
        2 => "2",
        3 => "3",
        4 => "4",
        5 => "5",
        6 => "6",
        7 => "7",
        8 => "8",
        _ => "9",
    }
}

/// Writes a number in decimal.
pub fn decimal_text(n: u64) -> (text: String)
    ensures
        text@ == decimal(n as nat),
    decreases n,
{
    if n < 10 {
        digit_text(n).to_string()
    } else {
        let text = decimal_text(n / 10).concat(digit_text(n % 10));
        assert(text@ == decimal((n / 10) as nat).push(digit((n % 10) as nat)));
        text
    }
}

/// Every character of `text` is a decimal digit.
pub open spec fn all_digits(text: Seq<char>) -> bool {
    forall|i: int| 0 <= i < text.len() ==> '0' <= #[trigger] text[i] <= '9'
}

/// What a sequence of decimal digits stands for.
pub open spec fn digits_value(text: Seq<char>) -> nat
    decreases text.len(),
{
    if text.len() == 0 {
        0
    } else {
        digits_value(text.drop_last()) * 10 + (text.last() as int - '0' as int) as nat
    }
}

/// The `u32` that `text` stands for: an optional `+` and then one or more
/// decimal digits, and nothing else. `None` where the text has another form, or
/// where the number is too large.
pub open spec fn u32_value(text: Seq<char>) -> Option<u32> {
    let digits = if text.len() > 0 && text[0] == '+' {
        text.skip(1)
    } else {
        text
    };
    if digits.len() > 0 && all_digits(digits) && digits_value(digits) <= u32::MAX {
        Some(digits_value(digits) as u32)
    } else {
        None
    }
}

/// The error of `str::parse` for an integer type.
#[verifier::external_type_specification]
#[verifier::external_body]
pub struct ExParseIntError(ParseIntError);

/// The error of reading a text as a `u32`, where the text is none.
pub uninterp spec fn u32_error(text: Seq<char>) -> ParseIntError;

/// `str::parse` for `u32`. It is trusted to succeed on exactly the texts that
/// `u32_value` gives a number to, and to return that number. On the others its
/// error is trusted to depend on the text alone: it is `u32_error` of the text,
/// which says no more of it than that.
#[verifier::external_body]
pub(crate) fn parse_u32(text: &str) -> (number: Result<u32, ParseIntError>)
    ensures
        match number {
            Ok(n) => u32_value(text@) == Some(n),
            Err(error) => u32_value(text@) is None && error == u32_error(text@),
        },
{
    text.parse::<u32>()
}

/// A number is written by its digits, from the highest on, and without a zero in
/// front of another digit.
pub proof fn law_decimal_digits(n: nat)
    ensures
        n < 10 ==> decimal(n) == seq![('0' as int + n) as char],
        n >= 10 ==> decimal(n) == decimal(n / 10).push(('0' as int + n % 10) as char),
        n > 0 ==> decimal(n)[0] != '0',
    decreases n,
{
    if n >= 10 {
        law_decimal_digits(n / 10);
        lemma_decimal(n / 10);
        assert(decimal(n)[0] == decimal(n / 10)[0]);
    }
}

/// Two numbers that are written alike are the same.
pub proof fn law_decimal_tells_numbers_apart(one: nat, other: nat)
    requires
        decimal(one) == decimal(other),
    ensures
        one == other,
{
    lemma_decimal(one);
    lemma_decimal(other);
}

/// What digits stand for: none stand for 0, and one more digit makes ten times
/// the number and the digit.
pub proof fn law_digits_value_grows(digits: Seq<char>, last: char)
    requires
        '0' <= last <= '9',
    ensures
        digits_value(Seq::empty()) == 0,
        digits_value(digits.push(last)) == 10 * digits_value(digits) + (last as int - '0' as int),
{
    assert(digits.push(last).drop_last() == digits);
}

/// A text without a sign in front is a `u32` exactly where it is one or more
/// decimal digits that stand for no more than a `u32` can hold, and then it is
/// that number. A plus in front of it makes no difference.
pub proof fn law_u32_value(digits: Seq<char>)
    requires
        digits.len() > 0 ==> digits[0] != '+',
    ensures
        u32_value(digits) is Some <==> {
            &&& digits.len() > 0
            &&& forall|i: int| 0 <= i < digits.len() ==> '0' <= #[trigger] digits[i] <= '9'
            &&& digits_value(digits) <= 0xFFFF_FFFF
        },
        u32_value(digits) matches Some(n) ==> n == digits_value(digits),
        u32_value(seq!['+'] + digits) == u32_value(digits),
{
    assert((seq!['+'] + digits).skip(1) == digits);
}

/// A second plus is not taken.
pub proof fn law_u32_value_has_one_sign(text: Seq<char>)
    ensures
        u32_value(seq!['+', '+'] + text) is None,
{
    let whole = seq!['+', '+'] + text;
    assert(whole.skip(1)[0] == '+');
}

/// A number written in decimal is read back as that number.
pub proof fn law_decimal_reads_back(n: u32)
    ensures
        u32_value(decimal(n as nat)) == Some(n),
{
    lemma_decimal(n as nat);
}

proof fn lemma_decimal(n: nat)
    ensures
        decimal(n).len() >= 1,
        all_digits(decimal(n)),
        digits_value(decimal(n)) == n,
    decreases n,
{
    let all = decimal(n);
    if n < 10 {
        assert(all.drop_last() == Seq::<char>::empty());
        assert(digits_value(all.drop_last()) == 0);
    } else {
        lemma_decimal(n / 10);
        assert(all.drop_last() == decimal(n / 10));
        assert forall|i: int| 0 <= i < all.len() implies '0' <= #[trigger] all[i] <= '9' by {
            if i < all.len() - 1 {
                assert(all[i] == decimal(n / 10)[i]);
            }
        }
    }
}

} // verus!
