//! What holds of taking texts apart and of writing numbers.
use vstd::prelude::*;

use crate::text;

verus! {

// ---------------------------------------------------------------------------
// White space
// ---------------------------------------------------------------------------

/// White space is what Unicode calls so, and nothing else.
pub proof fn law_white_space_is_that_of_unicode(c: char)
    ensures
        text::is_white(c) <==> {
            let n = c as u32;
            ||| n == 0x09 || n == 0x0A || n == 0x0B || n == 0x0C || n == 0x0D || n == 0x20
            ||| n == 0x85 || n == 0xA0 || n == 0x1680 || n == 0x2000 || n == 0x2001 || n == 0x2002
            ||| n == 0x2003 || n == 0x2004 || n == 0x2005 || n == 0x2006 || n == 0x2007 || n
                == 0x2008
            ||| n == 0x2009 || n == 0x200A || n == 0x2028 || n == 0x2029 || n == 0x202F || n
                == 0x205F || n == 0x3000
        },
{
}

proof fn lemma_trim_end(s: Seq<char>) -> (n: int)
    ensures
        0 <= n <= s.len(),
        text::trim_end(s) == s.take(n),
        n > 0 ==> !text::is_white(s[n - 1]),
        forall|i: int| n <= i < s.len() ==> text::is_white(#[trigger] s[i]),
    decreases s.len(),
{
    if s.len() > 0 && text::is_white(s.last()) {
        let rest = s.drop_last();
        let n = lemma_trim_end(rest);
        assert(rest.take(n) =~= s.take(n));
        assert forall|i: int| n <= i < s.len() implies text::is_white(#[trigger] s[i]) by {
            if i < rest.len() {
                assert(rest[i] == s[i]);
            }
        }
        n
    } else {
        assert(s.take(s.len() as int) =~= s);
        s.len() as int
    }
}

/// What is left of a text without the white space at its ends is what stands between two runs of
/// white space, and has none at its own ends.
pub proof fn law_trimming_takes_off_only_white_space(s: Seq<char>) -> (r: (int, int))
    ensures
        0 <= r.0 <= r.1 <= s.len(),
        text::trim(s) == s.subrange(r.0, r.1),
        forall|i: int| 0 <= i < r.0 || r.1 <= i < s.len() ==> text::is_white(#[trigger] s[i]),
        r.0 < r.1 ==> !text::is_white(s[r.0]) && !text::is_white(s[r.1 - 1]),
{
    text::lemma_lead_props(s, text::white());
    let from = text::lead(s, text::white()) as int;
    let t = text::trim_start(s);
    let n = lemma_trim_end(t);
    assert(t.take(n) =~= s.subrange(from, from + n));
    assert forall|i: int| 0 <= i < from || from + n <= i < s.len() implies text::is_white(
        #[trigger] s[i],
    ) by {
        if i < from {
            assert(text::white()(s[i]));
        } else {
            assert(t[i - from] == s[i]);
        }
    }
    if n > 0 {
        assert(!text::white()(s[from]));
        assert(t[n - 1] == s[from + n - 1]);
    }
    (from, from + n)
}

/// The words on both sides of white space are those of the text before it and of the text after
/// it.
pub proof fn law_white_space_parts_words(a: Seq<char>, w: char, b: Seq<char>)
    requires
        text::is_white(w),
    ensures
        text::words(a + seq![w] + b) == text::words(a) + text::words(b),
    decreases a.len(),
{
    let s = a + seq![w] + b;
    let white = text::white();
    let dark = text::dark();
    text::lemma_lead_props(a, white);
    text::lemma_lead_props(b, white);
    let from = text::lead(a, white) as int;
    let t = text::trim_start(a);
    if t.len() == 0 {
        let into = text::lead(b, white) as int;
        let all = (a.len() + 1 + into) as int;
        assert forall|i: int| 0 <= i < all implies white(s[i]) by {
            if i < a.len() {
                assert(white(a[i]));
                assert(s[i] == a[i]);
            } else if i > a.len() {
                assert(s[i] == b[i - a.len() - 1]);
                assert(white(b[i - a.len() - 1]));
            } else {
                assert(s[i] == w);
            }
        }
        if all < s.len() {
            assert(s[all] == b[into]);
        }
        text::lemma_lead_is(s, white, all as nat);
        assert(text::trim_start(s) =~= text::trim_start(b));
        assert(text::words(a) =~= Seq::<Seq<char>>::empty());
        assert(text::words(s) =~= text::words(a) + text::words(b));
    } else {
        assert(t[0] == a[from]);
        assert forall|i: int| 0 <= i < from implies white(s[i]) by {
            assert(s[i] == a[i]);
            assert(white(a[i]));
        }
        assert(s[from] == a[from]);
        text::lemma_lead_is(s, white, from as nat);
        let u = text::trim_start(s);
        assert(u =~= t + seq![w] + b);
        text::lemma_lead_props(t, dark);
        let n = text::lead(t, dark) as int;
        assert(dark(t[0]));
        assert(n > 0);
        assert forall|i: int| 0 <= i < n implies dark(u[i]) by {
            assert(u[i] == t[i]);
            assert(dark(t[i]));
        }
        if n < t.len() {
            assert(u[n] == t[n]);
        } else {
            assert(u[n] == w);
        }
        text::lemma_lead_is(u, dark, n as nat);
        assert(u.take(n) =~= t.take(n));
        assert(u.skip(n) =~= t.skip(n) + seq![w] + b);
        law_white_space_parts_words(t.skip(n), w, b);
        assert(text::words(s) =~= text::words(a) + text::words(b));
    }
}

/// A text without white space is one word, and nothing is none.
pub proof fn law_a_word_is_one_word(word: Seq<char>)
    requires
        forall|i: int| 0 <= i < word.len() ==> !text::is_white(#[trigger] word[i]),
    ensures
        word.len() > 0 ==> text::words(word) == seq![word],
        word.len() == 0 ==> text::words(word).len() == 0,
{
    if word.len() > 0 {
        text::lemma_words_of_joined(seq![word]);
        assert(text::join(seq![word], seq![' ']) == word);
    } else {
        text::lemma_lead_props(word, text::white());
        assert(text::trim_start(word).len() == 0);
    }
}

// ---------------------------------------------------------------------------
// Lines and fields
// ---------------------------------------------------------------------------

/// A line ends at the first line feed, and a carriage return right before it is not part of it. A
/// text without a line feed is one line as it stands, and nothing is none.
pub proof fn law_a_line_ends_at_a_line_feed(line: Seq<char>, rest: Seq<char>)
    requires
        forall|i: int| 0 <= i < line.len() ==> #[trigger] line[i] != '\n',
    ensures
        ({
            let all = text::lines(line + seq!['\n'] + rest);
            &&& all.len() == 1 + text::lines(rest).len()
            &&& all.skip(1) == text::lines(rest)
            &&& line.len() > 0 && line.last() == '\r' ==> all[0] == line.take(line.len() - 1)
            &&& line.len() == 0 || line.last() != '\r' ==> all[0] == line
            &&& line.len() > 0 ==> text::lines(line) == seq![line]
            &&& line.len() == 0 ==> text::lines(line).len() == 0
        }),
{
    text::lemma_lines_front(line, rest);
    let all = text::lines(line + seq!['\n'] + rest);
    assert(all.skip(1) =~= text::lines(rest));
    if line.len() > 0 {
        text::lemma_lead_is(line, text::other_than('\n'), line.len());
    }
}

/// A field ends at the first separator; what comes after it are the other fields. A text without
/// a separator is one field.
pub proof fn law_a_field_ends_at_a_separator(field: Seq<char>, x: char, rest: Seq<char>)
    requires
        forall|i: int| 0 <= i < field.len() ==> #[trigger] field[i] != x,
    ensures
        text::fields(field + seq![x] + rest, x) == seq![field] + text::fields(rest, x),
        text::fields(field, x) == seq![field],
{
    let s = field + seq![x] + rest;
    text::lemma_lead_is(s, text::other_than(x), field.len());
    assert(s.take(field.len() as int) =~= field);
    assert(s.skip(field.len() as int + 1) =~= rest);
    text::lemma_lead_is(field, text::other_than(x), field.len());
}

/// Joining texts puts the separator between each two and nowhere else.
pub proof fn law_joining_puts_a_separator_between(
    parts: Seq<Seq<char>>,
    last: Seq<char>,
    sep: Seq<char>,
)
    ensures
        text::join(Seq::empty(), sep).len() == 0,
        text::join(seq![last], sep) == last,
        parts.len() > 0 ==> text::join(parts.push(last), sep) == text::join(parts, sep) + sep
            + last,
{
    assert(parts.push(last).drop_last() =~= parts);
}

// ---------------------------------------------------------------------------
// Letters and numbers
// ---------------------------------------------------------------------------

/// Only ASCII letters have a case, and the case of a letter is all that is changed.
pub proof fn law_only_letters_have_a_case(c: char)
    ensures
        65 <= c as u32 <= 90 ==> text::lower(c) as u32 == c as u32 + 32 && text::upper(c) == c,
        97 <= c as u32 <= 122 ==> text::upper(c) as u32 == c as u32 - 32 && text::lower(c) == c,
        !(65 <= c as u32 <= 90 || 97 <= c as u32 <= 122) ==> text::lower(c) == c && text::upper(
            c,
        ) == c,
        text::lower(text::upper(c)) == text::lower(c),
{
}

/// Two texts are the same but for the case of letters exactly when they are equally long and differ
/// in nothing but that.
pub proof fn law_only_the_case_may_differ(a: Seq<char>, b: Seq<char>)
    ensures
        text::same_letters(a, b) <==> {
            &&& a.len() == b.len()
            &&& forall|i: int|
                0 <= i < a.len() ==> {
                    let x = (#[trigger] a[i]) as u32;
                    let y = b[i] as u32;
                    ||| x == y
                    ||| 65 <= x <= 90 && y == x + 32
                    ||| 97 <= x <= 122 && x == y + 32
                }
        },
{
    if a.len() == b.len() {
        assert forall|i: int| 0 <= i < a.len() implies (text::lower(#[trigger] a[i]) == text::lower(
            b[i],
        ) <==> {
            let x = a[i] as u32;
            let y = b[i] as u32;
            ||| x == y
            ||| 65 <= x <= 90 && y == x + 32
            ||| 97 <= x <= 122 && x == y + 32
        }) by {}
    }
}

proof fn lemma_value(s: Seq<char>)
    requires
        forall|i: int| 0 <= i < s.len() ==> '0' <= #[trigger] s[i] <= '9',
    ensures
        text::digits_value(s) == s.fold_left(0int, |v: int, c: char| v * 10 + (c as int - 48)),
    decreases s.len(),
{
    if s.len() > 0 {
        let rest = s.drop_last();
        assert forall|i: int| 0 <= i < rest.len() implies '0' <= #[trigger] rest[i] <= '9' by {
            assert(rest[i] == s[i]);
        }
        assert('0' <= s[s.len() - 1] <= '9');
        lemma_value(rest);
    }
}

/// A number is written in decimal: digit by digit it reads as itself, and begins with a 0 only
/// where it is 0.
pub proof fn law_a_number_reads_as_itself(n: nat)
    ensures
        ({
            let s = text::decimal(n);
            &&& s.len() > 0
            &&& forall|i: int| 0 <= i < s.len() ==> '0' <= #[trigger] s[i] <= '9'
            &&& s.fold_left(0int, |v: int, c: char| v * 10 + (c as int - 48)) == n
            &&& s[0] == '0' ==> n == 0 && s.len() == 1
            &&& n <= i64::MAX ==> text::number(s) == Some(n as int)
        }),
    decreases n,
{
    let s = text::decimal(n);
    let f = |v: int, c: char| v * 10 + (c as int - 48);
    text::lemma_decimal_digits(n);
    assert forall|i: int| 0 <= i < s.len() implies '0' <= #[trigger] s[i] <= '9' by {
        assert(text::is_digit(s[i]));
    }
    lemma_value(s);
    if n < 10 {
        assert(s.drop_last() =~= Seq::<char>::empty());
        assert(text::digits_value(s.drop_last()) == 0);
        assert(s.last() as nat == 48 + n);
        assert(text::digits_value(s) == n);
    } else {
        law_a_number_reads_as_itself(n / 10);
        let t = text::decimal(n / 10);
        lemma_value(t);
        assert(s.drop_last() =~= t);
        assert(s.last() as nat == 48 + n % 10);
        assert(text::digits_value(s) == n);
        assert(s[0] == t[0]);
    }
}

/// A text stands for a number exactly when it is a row of digits and fits into 63 bits, and then
/// for the one it reads as.
pub proof fn law_a_row_of_digits_is_a_number(s: Seq<char>)
    ensures
        ({
            let value = s.fold_left(0int, |v: int, c: char| v * 10 + (c as int - 48));
            let digits = s.len() > 0 && forall|i: int|
                0 <= i < s.len() ==> '0' <= #[trigger] s[i] <= '9';
            &&& text::number(s) is Some <==> digits && value <= 0x7fff_ffff_ffff_ffff
            &&& text::number(s) is Some ==> text::number(s)->0 == value
        }),
{
    if s.len() > 0 && forall|i: int| 0 <= i < s.len() ==> '0' <= #[trigger] s[i] <= '9' {
        lemma_value(s);
        assert(text::all_digits(s)) by {
            assert forall|i: int| 0 <= i < s.len() implies text::is_digit(#[trigger] s[i]) by {
                assert('0' <= s[i] <= '9');
            }
        }
    } else if text::all_digits(s) {
        assert forall|i: int| 0 <= i < s.len() implies '0' <= #[trigger] s[i] <= '9' by {
            assert(text::is_digit(s[i]));
        }
    }
}

/// A number below 100 is written with two digits where two are wanted.
pub proof fn law_two_digits_are_two(n: nat)
    requires
        n < 100,
    ensures
        text::two_digits(n).len() == 2,
        text::two_digits(n)[0] as int == 48 + n / 10,
        text::two_digits(n)[1] as int == 48 + n % 10,
{
    if n >= 10 {
        reveal_with_fuel(text::decimal, 2);
    }
}

/// The value of a hexadecimal digit in lower case.
pub open spec fn hex_value(c: char) -> int {
    if '0' <= c <= '9' {
        c as int - 48
    } else {
        c as int - 87
    }
}

/// Bytes are written with two hexadecimal digits each, the higher one first, so that they can be
/// read back, and different bytes are written differently.
pub proof fn law_bytes_can_be_read_back(bytes: Seq<u8>, i: int)
    requires
        0 <= i < bytes.len(),
    ensures
        text::hex_digits(bytes).len() == 2 * bytes.len(),
        hex_value(text::hex_digits(bytes)[2 * i]) * 16 + hex_value(
            text::hex_digits(bytes)[2 * i + 1],
        ) == bytes[i],
        0 <= hex_value(text::hex_digits(bytes)[2 * i]) < 16,
        0 <= hex_value(text::hex_digits(bytes)[2 * i + 1]) < 16,
{
    let b = bytes[i];
    assert((2 * i) % 2 == 0 && (2 * i) / 2 == i);
    assert((2 * i + 1) % 2 == 1 && (2 * i + 1) / 2 == i);
    assert(b / 16 < 16 && b % 16 < 16);
}

} // verus!
