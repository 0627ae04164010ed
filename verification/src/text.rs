//! Text, as this library needs it: comparing two texts, cutting one without
//! splitting a character, and printing a number.

use vstd::prelude::*;
use vstd::utf8::{decode_utf8, encode_utf8, is_char_boundary, valid_utf8};
use vstd::string::*;

verus! {

/// Whether two texts hold the same characters.
pub fn same_text(a: &str, b: &str) -> (same: bool)
    ensures
        same == (a@ == b@),
{
    let left: &[u8] = a.as_bytes();
    let right: &[u8] = b.as_bytes();
    proof {
        vstd::utf8::encode_utf8_decode_utf8(a@);
        vstd::utf8::encode_utf8_decode_utf8(b@);
    }
    if left.len() != right.len() {
        return false;
    }
    let mut i: usize = 0;
    while i < left.len()
        invariant
            left@ == encode_utf8(a@),
            right@ == encode_utf8(b@),
            left@.len() == right@.len(),
            i <= left@.len(),
            forall|j: int| 0 <= j < i ==> left@[j] == right@[j],
        decreases left@.len() - i,
    {
        if left[i] != right[i] {
            return false;
        }
        i += 1;
    }
    proof {
        assert(left@ =~= right@);
    }
    true
}

/// The character of one decimal digit.
pub open spec fn digit_char(d: int) -> char {
    (0x30 + d) as char
}

/// A number in decimal, without leading zeros.
pub open spec fn decimal_of(n: nat) -> Seq<char>
    decreases n,
{
    if n < 10 {
        seq![digit_char(n as int)]
    } else {
        decimal_of(n / 10).push(digit_char((n % 10) as int))
    }
}

/// The number that a text of decimal digits stands for.
pub open spec fn number_of(text: Seq<char>) -> int
    decreases text.len(),
{
    if text.len() == 0 {
        0
    } else {
        10 * number_of(text.drop_last()) + (text.last() as u32 - 0x30)
    }
}

/// A number that was printed reads back as itself, from decimal digits alone and
/// without leading zeros. So no two numbers are printed alike.
pub proof fn a_number_reads_back(n: nat)
    ensures
        number_of(decimal_of(n)) == n,
        decimal_of(n).len() > 0,
        forall|i: int|
            0 <= i < decimal_of(n).len() ==> 0x30 <= (#[trigger] decimal_of(n)[i]) as u32 <= 0x39,
        decimal_of(n).len() > 1 ==> decimal_of(n)[0] as u32 != 0x30,
        n > 0 ==> decimal_of(n)[0] as u32 != 0x30,
    decreases n,
{
    if n < 10 {
        let text = decimal_of(n);
        assert(text.drop_last() =~= Seq::empty());
        assert(number_of(text.drop_last()) == 0);
    } else {
        let text = decimal_of(n);
        a_number_reads_back(n / 10);
        assert(text.drop_last() =~= decimal_of(n / 10));
        assert forall|i: int| 0 <= i < text.len() implies 0x30 <= (#[trigger] text[i]) as u32
            <= 0x39 by {
            if i < text.len() - 1 {
                assert(text[i] == decimal_of(n / 10)[i]);
            }
        }
        assert(text[0] == decimal_of(n / 10)[0]);
    }
}

/// One decimal digit as text.
fn digit_text(d: u64) -> (text: &'static str)
    requires
        d < 10,
    ensures
        text@ == seq![digit_char(d as int)],
{
    proof {
        reveal_strlit("0");
        reveal_strlit("1");
        reveal_strlit("2");
        reveal_strlit("3");
        reveal_strlit("4");
        reveal_strlit("5");
        reveal_strlit("6");
        reveal_strlit("7");
        reveal_strlit("8");
        reveal_strlit("9");
    }
    match d {
        0 => "0",
        1 => "1",
        2 => "2",
        3 => "3",
        4 => "4",
        5 => "5",
        6 => "6",
        7 => "7",
        8 => "8",
        _ => "9",
    }
}

/// Prints a number in decimal.
pub fn decimal(n: u64) -> (text: String)
    ensures
        text@ == decimal_of(n as nat),
        number_of(text@) == n,
    decreases n,
{
    proof {
        a_number_reads_back(n as nat);
    }
    if n < 10 {
        digit_text(n).to_owned()
    } else {
        let mut text = decimal(n / 10);
        text.append(digit_text(n % 10));
        proof {
            assert(text@ =~= decimal_of(n as nat));
        }
        text
    }
}

/// The first `len` bytes of a text, if a character ends there.
pub open spec fn cut_at(text: Seq<char>, len: int) -> Seq<char> {
    decode_utf8(encode_utf8(text).subrange(0, len))
}

/// Whether `len` is the longest length, up to `limit`, at which the text can be
/// cut without splitting a character.
pub open spec fn longest_cut(text: Seq<char>, limit: int, len: int) -> bool {
    let bytes = encode_utf8(text);
    &&& 0 <= len <= limit
    &&& len <= bytes.len()
    &&& is_char_boundary(bytes, len)
    &&& forall|longer: int|
        len < longer <= limit && longer <= bytes.len() ==> !#[trigger] is_char_boundary(bytes, longer)
}

/// A text can be cut after any of its characters: its first characters are written
/// as the first bytes of the whole, and each character takes at least one byte.
pub proof fn a_text_can_be_cut_after_any_character(text: Seq<char>, count: int)
    requires
        0 <= count <= text.len(),
    ensures
        encode_utf8(text.take(count)).is_prefix_of(encode_utf8(text)),
        is_char_boundary(encode_utf8(text), encode_utf8(text.take(count)).len() as int),
        count < text.len() ==> encode_utf8(text.take(count)).len() < encode_utf8(
            text.take(count + 1),
        ).len(),
    decreases text.len(),
{
    let bytes = encode_utf8(text);
    let head = text.take(count);
    vstd::utf8::encode_utf8_valid_utf8(text);
    if text.len() > 0 {
        let rest = text.drop_first();
        vstd::utf8::char_is_scalar(text[0]);
        let first = vstd::utf8::encode_scalar(text[0] as u32);
        vstd::utf8::encode_utf8_first_scalar(text);
        assert(vstd::utf8::pop_first_scalar(bytes) =~= encode_utf8(rest));
        if count == 0 {
            assert(encode_utf8(head) =~= Seq::empty());
            let tail = text.take(1).drop_first();
            assert(encode_utf8(tail) =~= Seq::empty());
            assert(text.take(1)[0] == text[0]);
            assert(encode_utf8(text.take(1)) =~= first);
        } else {
            a_text_can_be_cut_after_any_character(rest, count - 1);
            assert(head.drop_first() =~= rest.take(count - 1));
            assert(encode_utf8(head) =~= first + encode_utf8(rest.take(count - 1)));
            assert(encode_utf8(head).is_prefix_of(bytes)) by {
                assert(encode_utf8(head) =~= bytes.subrange(0, encode_utf8(head).len() as int));
            }
            if count < text.len() {
                assert(text.take(count + 1).drop_first() =~= rest.take(count));
            }
        }
    } else {
        assert(head =~= text);
    }
}

/// Cuts a text to at most `limit` bytes without splitting a character.
///
/// A text that is short enough comes back whole. The rest keeps as many of its
/// first characters as fit.
pub fn truncate(text: String, limit: usize) -> (cut: String)
    ensures
        encode_utf8(text@).len() <= limit ==> cut@ == text@,
        encode_utf8(text@).len() > limit ==> exists|len: int| #[trigger]
            longest_cut(text@, limit as int, len) && cut@ == cut_at(text@, len),
        encode_utf8(cut@).len() <= limit,
        cut@.is_prefix_of(text@),
        cut@.len() < text@.len() ==> encode_utf8(text@.take(cut@.len() as int + 1)).len() > limit,
{
    let bytes: &[u8] = text.as_str().as_bytes();
    if bytes.len() <= limit {
        return text;
    }
    proof {
        vstd::utf8::encode_utf8_valid_utf8(text@);
    }
    let mut end: usize = limit;
    while !text.as_str().is_char_boundary(end)
        invariant
            bytes@ == encode_utf8(text@),
            valid_utf8(bytes@),
            end <= limit < bytes@.len(),
            forall|longer: int|
                end < longer <= limit ==> !#[trigger] is_char_boundary(bytes@, longer),
        decreases end,
    {
        proof {
            vstd::utf8::is_char_boundary_start_end_of_seq(bytes@);
        }
        end -= 1;
    }
    let (head, _) = text.as_str().split_at(end);
    proof {
        assert(longest_cut(text@, limit as int, end as int));
        vstd::utf8::encode_utf8_decode_utf8(head@);
        vstd::utf8::encode_utf8_decode_utf8(text@);
        vstd::utf8::decode_utf8_split(bytes@, end as int);
        let kept = head@.len() as int;
        if kept < text@.len() {
            a_text_can_be_cut_after_any_character(text@, kept);
            a_text_can_be_cut_after_any_character(text@, kept + 1);
            assert(text@.take(kept) =~= head@);
            let longer = encode_utf8(text@.take(kept + 1)).len() as int;
            assert(is_char_boundary(bytes@, longer));
        }
    }
    head.to_owned()
}

} // verus!
