//! Numbers written out as text: fixed-width upper-case hexadecimal, and
//! decimal. Also the quoted form of a string in a report.

use vstd::prelude::*;

verus! {

/// The digit for `n`, upper case from ten on. Meant for `0 <= n < 16`.
pub open spec fn digit_char(n: int) -> char {
    if n == 0 {
        '0'
    } else if n == 1 {
        '1'
    } else if n == 2 {
        '2'
    } else if n == 3 {
        '3'
    } else if n == 4 {
        '4'
    } else if n == 5 {
        '5'
    } else if n == 6 {
        '6'
    } else if n == 7 {
        '7'
    } else if n == 8 {
        '8'
    } else if n == 9 {
        '9'
    } else if n == 10 {
        'A'
    } else if n == 11 {
        'B'
    } else if n == 12 {
        'C'
    } else if n == 13 {
        'D'
    } else if n == 14 {
        'E'
    } else {
        'F'
    }
}

/// The last `digits` hexadecimal digits of `value`, most significant first,
/// padded with zeros on the left.
pub open spec fn hex(value: nat, digits: nat) -> Seq<char>
    decreases digits,
{
    if digits == 0 {
        Seq::empty()
    } else {
        hex(value / 16, (digits - 1) as nat).push(digit_char((value % 16) as int))
    }
}

/// `value` in decimal, without leading zeros.
pub open spec fn decimal(value: nat) -> Seq<char>
    decreases value,
{
    if value < 10 {
        seq![digit_char(value as int)]
    } else {
        decimal(value / 10).push(digit_char((value % 10) as int))
    }
}

/// Sixteen to the power of `digits`.
pub open spec fn pow16(digits: nat) -> nat
    decreases digits,
{
    if digits == 0 {
        1
    } else {
        16 * pow16((digits - 1) as nat)
    }
}

/// `hex` writes exactly as many digits as asked.
pub proof fn lemma_hex_len(value: nat, digits: nat)
    ensures
        hex(value, digits).len() == digits,
    decreases digits,
{
    if digits > 0 {
        lemma_hex_len(value / 16, (digits - 1) as nat);
    }
}

/// Two numbers that fit the digits and are written alike are the same
/// number.
pub proof fn lemma_hex_injective(a: nat, b: nat, digits: nat)
    requires
        a < pow16(digits),
        b < pow16(digits),
        hex(a, digits) == hex(b, digits),
    ensures
        a == b,
    decreases digits,
{
    if digits > 0 {
        let rest = (digits - 1) as nat;
        let front_a = hex(a / 16, rest);
        let front_b = hex(b / 16, rest);
        assert(hex(a, digits).last() == digit_char((a % 16) as int));
        assert(hex(b, digits).last() == digit_char((b % 16) as int));
        assert(a % 16 == b % 16);
        assert(hex(a, digits).drop_last() =~= front_a);
        assert(hex(b, digits).drop_last() =~= front_b);
        lemma_hex_injective(a / 16, b / 16, rest);
    }
}

/// The lines of a list as plain values.
pub open spec fn texts(lines: Seq<String>) -> Seq<Seq<char>> {
    lines.map_values(|line: String| line@)
}

/// The lines of each list as plain values.
pub open spec fn text_lists(lists: Seq<Vec<String>>) -> Seq<Seq<Seq<char>>> {
    lists.map_values(|lines: Vec<String>| texts(lines@))
}

/// The items one after the other with the separator between them.
pub open spec fn joined(items: Seq<Seq<char>>, separator: Seq<char>) -> Seq<char>
    decreases items.len(),
{
    if items.len() == 0 {
        Seq::empty()
    } else if items.len() == 1 {
        items[0]
    } else {
        joined(items.drop_last(), separator) + separator + items.last()
    }
}

/// The items one after the other with the separator between them.
pub fn join(items: &Vec<String>, separator: &str) -> (text: String)
    ensures
        text@ == joined(texts(items@), separator@),
{
    let mut text = String::new();
    let mut i: usize = 0;
    while i < items.len()
        invariant
            i <= items.len(),
            text@ == joined(texts(items@).take(i as int), separator@),
        decreases items.len() - i,
    {
        let ghost so_far = texts(items@).take(i as int);
        if i > 0 {
            text.append(separator);
        }
        text.append(items[i].as_str());
        proof {
            let now = texts(items@).take(i + 1);
            assert(now.drop_last() =~= so_far);
            assert(now.last() == items@[i as int]@);
            if i == 0 {
                assert(text@ =~= items@[i as int]@);
            }
        }
        i += 1;
    }
    assert(texts(items@).take(i as int) =~= texts(items@));
    text
}

/// The text of one digit.
pub fn digit_text(n: u8) -> (text: &'static str)
    requires
        n < 16,
    ensures
        text@ == seq![digit_char(n as int)],
{
    proof {
        reveal_strlit("0");
        reveal_strlit("1");
        reveal_strlit("2");
        reveal_strlit("3");
        reveal_strlit("4");
        reveal_strlit("5");
        reveal_strlit("6");
        reveal_strlit("7");
        reveal_strlit("8");
        reveal_strlit("9");
        reveal_strlit("A");
        reveal_strlit("B");
        reveal_strlit("C");
        reveal_strlit("D");
        reveal_strlit("E");
        reveal_strlit("F");
    }
    let text = if n == 0 {
        "0"
    } else if n == 1 {
        "1"
    } else if n == 2 {
        "2"
    } else if n == 3 {
        "3"
    } else if n == 4 {
        "4"
    } else if n == 5 {
        "5"
    } else if n == 6 {
        "6"
    } else if n == 7 {
        "7"
    } else if n == 8 {
        "8"
    } else if n == 9 {
        "9"
    } else if n == 10 {
        "A"
    } else if n == 11 {
        "B"
    } else if n == 12 {
        "C"
    } else if n == 13 {
        "D"
    } else if n == 14 {
        "E"
    } else {
        "F"
    };
    assert(text@ =~= seq![digit_char(n as int)]);
    text
}

/// Appends the last `digits` hexadecimal digits of `value` to `text`.
pub fn push_hex(text: &mut String, value: u32, digits: u8)
    ensures
        final(text)@ == old(text)@ + hex(value as nat, digits as nat),
    decreases digits,
{
    if digits == 0 {
        assert(text@ =~= old(text)@ + hex(value as nat, 0));
    } else {
        push_hex(text, value / 16, digits - 1);
        text.append(digit_text((value % 16) as u8));
        assert(text@ =~= old(text)@ + hex(value as nat, digits as nat));
    }
}

/// Appends `value` in decimal to `text`.
pub fn push_decimal(text: &mut String, value: u64)
    ensures
        final(text)@ == old(text)@ + decimal(value as nat),
    decreases value,
{
    if value >= 10 {
        push_decimal(text, value / 10);
    }
    text.append(digit_text((value % 10) as u8));
    assert(text@ =~= old(text)@ + decimal(value as nat));
}

/// What `{:?}` writes for a string: the string between double quotes, with
/// the characters that need it escaped.
pub uninterp spec fn debug_text(text: Seq<char>) -> Seq<char>;

/// Formats `text` with `{:?}`, through `<str as core::fmt::Debug>::fmt`.
/// The result is taken to depend on the characters of `text` alone; what it
/// is, character by character, is left to the standard library.
#[verifier::external_body]
pub(crate) fn quoted(text: &str) -> (result: String)
    ensures
        result@ == debug_text(text@),
{
    format!("{:?}", text)
}

} // verus!
