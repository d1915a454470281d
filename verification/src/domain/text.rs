//! Text helpers shared by the domain: case folding, literal comparison,
//! decimal numbers and splitting on a separator.

use vstd::prelude::*;
use vstd::string::*;

verus! {

/// The lowercase form of a text as the standard library computes it from the
/// Unicode case tables.
pub uninterp spec fn lowercase_of(text: Seq<char>) -> Seq<char>;

/// Calls `str::to_lowercase`. The contract only gives the result its name:
/// the lowercase form is a function of the characters alone.
#[verifier::external_body]
pub(crate) fn lowercased(text: &str) -> (lower: String)
    ensures
        lower@ == lowercase_of(text@),
{
    text.to_lowercase()
}

/// The character at a position. Where the text is known to be ASCII the
/// position is a byte offset and no decoding is needed.
pub(crate) fn char_at(text: &str, ascii: bool, i: usize) -> (c: char)
    requires
        i < text@.len(),
        ascii ==> is_ascii(text),
    ensures
        c == text@[i as int],
{
    if ascii {
        let byte = text.get_ascii(i);
        byte as char
    } else {
        text.get_char(i)
    }
}

/// The part of a text between two positions.
fn part_of<'a>(text: &'a str, ascii: bool, from: usize, to: usize) -> (part: &'a str)
    requires
        from <= to <= text@.len(),
        ascii ==> is_ascii(text),
    ensures
        part@ == text@.subrange(from as int, to as int),
{
    if ascii {
        text.substring_ascii(from, to)
    } else {
        text.substring_char(from, to)
    }
}

/// Tells whether two string slices hold the same characters.
///
/// ASCII texts are compared in place, byte by byte; others through owned
/// copies.
pub fn same_text(left: &str, right: &str) -> (same: bool)
    ensures
        same == (left@ == right@),
{
    if left.is_ascii() && right.is_ascii() {
        let n: usize = left.unicode_len();
        if n != right.unicode_len() {
            return false;
        }
        let mut i: usize = 0;
        while i < n
            invariant
                i <= n,
                n == left@.len(),
                n == right@.len(),
                is_ascii(left),
                is_ascii(right),
                forall|k: int| 0 <= k < i ==> left@[k] == right@[k],
            decreases n - i,
        {
            if char_at(left, true, i) != char_at(right, true, i) {
                return false;
            }
            i = i + 1;
        }
        assert(left@ =~= right@);
        true
    } else {
        let a = String::from_str(left);
        let b = String::from_str(right);
        a == b
    }
}

/// Tells whether `text` holds exactly the characters of `literal`.
pub fn text_is(text: &String, literal: &str) -> (same: bool)
    ensures
        same == (text@ == literal@),
{
    same_text(text.as_str(), literal)
}

/// The character that stands for a decimal digit.
pub open spec fn digit_char(d: nat) -> char
    recommends
        d < 10,
{
    if d == 0 {
        '0'
    } else if d == 1 {
        '1'
    } else if d == 2 {
        '2'
    } else if d == 3 {
        '3'
    } else if d == 4 {
        '4'
    } else if d == 5 {
        '5'
    } else if d == 6 {
        '6'
    } else if d == 7 {
        '7'
    } else if d == 8 {
        '8'
    } else {
        '9'
    }
}

/// The number a decimal digit stands for; `None` for any other character.
pub open spec fn digit_value(c: char) -> Option<nat> {
    if c == '0' {
        Some(0)
    } else if c == '1' {
        Some(1)
    } else if c == '2' {
        Some(2)
    } else if c == '3' {
        Some(3)
    } else if c == '4' {
        Some(4)
    } else if c == '5' {
        Some(5)
    } else if c == '6' {
        Some(6)
    } else if c == '7' {
        Some(7)
    } else if c == '8' {
        Some(8)
    } else if c == '9' {
        Some(9)
    } else {
        None
    }
}

/// Whether every character of a text is an ASCII digit.
pub open spec fn all_digits(s: Seq<char>) -> bool {
    forall|i: int| 0 <= i < s.len() ==> (#[trigger] digit_value(s[i])) is Some
}

/// The number that a run of digits denotes, leading zeros allowed.
pub open spec fn digits_value(s: Seq<char>) -> nat
    decreases s.len(),
{
    if s.len() == 0 {
        0
    } else {
        digits_value(s.drop_last()) * 10 + match digit_value(s.last()) {
            Some(d) => d,
            None => 0,
        }
    }
}

/// What remains of a number's text once an optional leading `+` is taken off.
pub open spec fn unsigned_digits(s: Seq<char>) -> Seq<char> {
    if s.len() > 0 && s[0] == '+' {
        s.subrange(1, s.len() as int)
    } else {
        s
    }
}

/// The value of a decimal number written as an optional `+` and at least one
/// digit, when it is at most `max`; `None` for every other text.
pub open spec fn parse_unsigned(s: Seq<char>, max: nat) -> Option<nat> {
    let digits = unsigned_digits(s);
    if digits.len() > 0 && all_digits(digits) && digits_value(digits) <= max {
        Some(digits_value(digits))
    } else {
        None
    }
}

/// The usual decimal notation of a number: no sign, no leading zero.
pub open spec fn decimal_text(n: nat) -> Seq<char>
    decreases n,
{
    if n < 10 {
        seq![digit_char(n)]
    } else {
        decimal_text(n / 10).push(digit_char(n % 10))
    }
}

fn digit_text(d: u64) -> (text: &'static str)
    requires
        d < 10,
    ensures
        text@ == seq![digit_char(d as nat)],
{
    proof {
        reveal_strlit("0");
        reveal_strlit("1");
        reveal_strlit("2");
        reveal_strlit("3");
        reveal_strlit("4");
        reveal_strlit("5");
        reveal_strlit("6");
        reveal_strlit("7");
        reveal_strlit("8");
        reveal_strlit("9");
    }
    let text = if d == 0 {
        "0"
    } else if d == 1 {
        "1"
    } else if d == 2 {
        "2"
    } else if d == 3 {
        "3"
    } else if d == 4 {
        "4"
    } else if d == 5 {
        "5"
    } else if d == 6 {
        "6"
    } else if d == 7 {
        "7"
    } else if d == 8 {
        "8"
    } else {
        "9"
    };
    assert(text@ =~= seq![digit_char(d as nat)]);
    text
}

/// Appends the decimal notation of `n` to `out`.
pub fn append_decimal(out: &mut String, n: u64)
    ensures
        final(out)@ == old(out)@ + decimal_text(n as nat),
    decreases n,
{
    if n >= 10 {
        append_decimal(out, n / 10);
    }
    out.append(digit_text(n % 10));
    proof {
        let before = old(out)@;
        if n >= 10 {
            assert(before + decimal_text((n / 10) as nat) + seq![digit_char((n % 10) as nat)]
                =~= before + decimal_text(n as nat));
        }
    }
}

/// A run of digits ending at `k` denotes no more than the whole run.
proof fn lemma_digits_value_grows(s: Seq<char>, k: int)
    requires
        0 <= k <= s.len(),
    ensures
        digits_value(s.subrange(0, k)) <= digits_value(s),
    decreases s.len() - k,
{
    if k == s.len() {
        assert(s.subrange(0, k) =~= s);
    } else {
        lemma_digits_value_grows(s, k + 1);
        let longer = s.subrange(0, k + 1);
        assert(longer.drop_last() =~= s.subrange(0, k));
    }
}

fn digit_of(c: char) -> (digit: Option<u64>)
    ensures
        match digit {
            Some(d) => digit_value(c) == Some(d as nat) && d < 10,
            None => digit_value(c) is None,
        },
{
    if c == '0' {
        Some(0)
    } else if c == '1' {
        Some(1)
    } else if c == '2' {
        Some(2)
    } else if c == '3' {
        Some(3)
    } else if c == '4' {
        Some(4)
    } else if c == '5' {
        Some(5)
    } else if c == '6' {
        Some(6)
    } else if c == '7' {
        Some(7)
    } else if c == '8' {
        Some(8)
    } else if c == '9' {
        Some(9)
    } else {
        None
    }
}

/// Reads a decimal `u64`: an optional `+`, then digits only.
pub fn parse_u64(text: &str) -> (number: Option<u64>)
    ensures
        match parse_unsigned(text@, u64::MAX as nat) {
            Some(v) => number == Some(v as u64),
            None => number is None,
        },
{
    let ascii = text.is_ascii();
    let n: usize = text.unicode_len();
    let start: usize = if n > 0 && char_at(text, ascii, 0) == '+' {
        1
    } else {
        0
    };
    if start == n {
        return None;
    }
    let ghost digits = unsigned_digits(text@);
    assert(digits =~= text@.subrange(start as int, n as int));
    let mut value: u64 = 0;
    let mut i: usize = start;
    while i < n
        invariant
            start <= i <= n,
            n == text@.len(),
            digits == text@.subrange(start as int, n as int),
            digits == unsigned_digits(text@),
            ascii ==> is_ascii(text),
            all_digits(digits.subrange(0, i - start)),
            value as nat == digits_value(digits.subrange(0, i - start)),
        decreases n - i,
    {
        let ghost seen = digits.subrange(0, i - start);
        let ghost next = digits.subrange(0, i + 1 - start);
        assert(next.drop_last() =~= seen);
        assert(next.last() == text@[i as int]);
        assert(digits[i - start] == text@[i as int]);
        assert(digits_value(next) == digits_value(seen) * 10 + match digit_value(next.last()) {
            Some(d) => d,
            None => 0,
        });
        match digit_of(char_at(text, ascii, i)) {
            None => {
                assert(digit_value(digits[i - start]) is None);
                return None;
            },
            Some(d) => {
                if value > (u64::MAX - d) / 10 {
                    proof {
                        lemma_digits_value_grows(digits, i + 1 - start);
                    }
                    return None;
                }
                value = value * 10 + d;
                assert forall|j: int| 0 <= j < next.len() implies (#[trigger] digit_value(
                    next[j],
                )) is Some by {
                    if j < seen.len() {
                        assert(next[j] == seen[j]);
                    }
                }
            },
        }
        i = i + 1;
    }
    assert(digits.subrange(0, n - start) =~= digits);
    Some(value)
}

/// Reads a decimal `u32`: an optional `+`, then digits only.
pub fn parse_u32(text: &str) -> (number: Option<u32>)
    ensures
        match parse_unsigned(text@, u32::MAX as nat) {
            Some(v) => number == Some(v as u32),
            None => number is None,
        },
{
    match parse_u64(text) {
        Some(v) => if v <= 0xffff_ffff {
            Some(v as u32)
        } else {
            None
        },
        None => None,
    }
}

/// The pieces of a text between the occurrences of a separator: one more
/// piece than there are separators, each possibly empty.
pub open spec fn split_on(s: Seq<char>, sep: char) -> Seq<Seq<char>>
    decreases s.len(),
{
    if s.len() == 0 {
        seq![Seq::<char>::empty()]
    } else {
        let before = split_on(s.drop_last(), sep);
        if s.last() == sep {
            before.push(Seq::<char>::empty())
        } else {
            before.drop_last().push(before.last().push(s.last()))
        }
    }
}

/// The characters of each string slice of a list.
pub open spec fn texts_of(parts: Seq<&str>) -> Seq<Seq<char>> {
    Seq::new(parts.len(), |i: int| parts[i]@)
}

/// Splits the characters of `text` from position `from` on at every `sep`.
pub fn split_from<'a>(text: &'a str, from: usize, sep: char) -> (parts: Vec<&'a str>)
    requires
        from <= text@.len(),
    ensures
        texts_of(parts@) == split_on(text@.subrange(from as int, text@.len() as int), sep),
{
    let ascii = text.is_ascii();
    let n: usize = text.unicode_len();
    let ghost s = text@.subrange(from as int, n as int);
    let mut parts: Vec<&'a str> = Vec::new();
    let mut start: usize = from;
    let mut i: usize = from;
    assert(s.subrange(0, 0) =~= Seq::<char>::empty());
    assert(text@.subrange(from as int, from as int) =~= Seq::<char>::empty());
    assert(texts_of(parts@).push(Seq::<char>::empty()) =~= seq![Seq::<char>::empty()]);
    while i < n
        invariant
            from <= start <= i <= n,
            n == text@.len(),
            s == text@.subrange(from as int, n as int),
            ascii ==> is_ascii(text),
            split_on(s.subrange(0, i - from), sep) == texts_of(parts@).push(
                text@.subrange(start as int, i as int),
            ),
        decreases n - i,
    {
        let ghost seen = s.subrange(0, i - from);
        let ghost next = s.subrange(0, i + 1 - from);
        let ghost piece = text@.subrange(start as int, i as int);
        let ghost done = texts_of(parts@);
        assert(next.drop_last() =~= seen);
        assert(next.last() == text@[i as int]);
        assert(done.push(piece).drop_last() =~= done);
        if char_at(text, ascii, i) == sep {
            parts.push(part_of(text, ascii, start, i));
            start = i + 1;
            assert(texts_of(parts@) =~= done.push(piece));
            assert(text@.subrange(start as int, i + 1) =~= Seq::<char>::empty());
        } else {
            assert(text@.subrange(start as int, i + 1) =~= piece.push(text@[i as int]));
        }
        i = i + 1;
    }
    let ghost done = texts_of(parts@);
    parts.push(part_of(text, ascii, start, n));
    assert(s.subrange(0, n - from) =~= s);
    assert(texts_of(parts@) =~= done.push(text@.subrange(start as int, n as int)));
    parts
}

/// Whether a text holds no occurrence of a character.
pub open spec fn lacks(s: Seq<char>, c: char) -> bool {
    forall|i: int| 0 <= i < s.len() ==> s[i] != c
}

/// The texts of a list, with a separator between each and the next.
pub open spec fn joined(parts: Seq<Seq<char>>, sep: char) -> Seq<char>
    decreases parts.len(),
{
    if parts.len() == 0 {
        Seq::empty()
    } else if parts.len() == 1 {
        parts[0]
    } else {
        joined(parts.drop_last(), sep) + seq![sep] + parts.last()
    }
}

/// The decimal notation of a number is made of digits, and read as a run of
/// digits it gives the number back.
pub proof fn lemma_decimal_text(n: nat)
    ensures
        decimal_text(n).len() > 0,
        all_digits(decimal_text(n)),
        digits_value(decimal_text(n)) == n,
        lacks(decimal_text(n), ':'),
    decreases n,
{
    let text = decimal_text(n);
    if n < 10 {
        assert(text.drop_last() =~= Seq::<char>::empty());
        assert(digits_value(text.drop_last()) == 0);
        assert(digit_value(text.last()) == Some(n));
    } else {
        lemma_decimal_text(n / 10);
        assert(text.drop_last() =~= decimal_text(n / 10));
        assert(digit_value(text.last()) == Some(n % 10));
        assert forall|i: int| 0 <= i < text.len() implies (#[trigger] digit_value(
            text[i],
        )) is Some by {
            if i < text.len() - 1 {
                assert(text[i] == decimal_text(n / 10)[i]);
            }
        }
    }
    assert forall|i: int| 0 <= i < text.len() implies text[i] != ':' by {
        assert(digit_value(text[i]) is Some);
    }
}

/// Two numbers with the same decimal notation are the same number.
pub proof fn lemma_decimal_text_injective(a: nat, b: nat)
    requires
        decimal_text(a) == decimal_text(b),
    ensures
        a == b,
{
    lemma_decimal_text(a);
    lemma_decimal_text(b);
}

/// A split gives at least one piece.
pub proof fn lemma_split_not_empty(s: Seq<char>, sep: char)
    ensures
        split_on(s, sep).len() >= 1,
    decreases s.len(),
{
    if s.len() > 0 {
        lemma_split_not_empty(s.drop_last(), sep);
    }
}

/// A text without the separator is its own single piece.
pub proof fn lemma_split_lacking(s: Seq<char>, sep: char)
    requires
        lacks(s, sep),
    ensures
        split_on(s, sep) == seq![s],
    decreases s.len(),
{
    if s.len() == 0 {
        assert(s =~= Seq::<char>::empty());
    } else {
        lemma_split_lacking(s.drop_last(), sep);
        let before = split_on(s.drop_last(), sep);
        assert(before.last().push(s.last()) =~= s);
        assert(before.drop_last().push(s) =~= seq![s]);
    }
}

/// The pieces of two texts joined by the separator are the pieces of the
/// first followed by those of the second.
pub proof fn lemma_split_around(a: Seq<char>, b: Seq<char>, sep: char)
    ensures
        split_on(a + seq![sep] + b, sep) == split_on(a, sep) + split_on(b, sep),
    decreases b.len(),
{
    let whole = a + seq![sep] + b;
    if b.len() == 0 {
        assert(whole.drop_last() =~= a);
        assert(split_on(a, sep).push(Seq::<char>::empty()) =~= split_on(a, sep) + split_on(
            b,
            sep,
        ));
    } else {
        lemma_split_around(a, b.drop_last(), sep);
        lemma_split_not_empty(b.drop_last(), sep);
        assert(whole.drop_last() =~= a + seq![sep] + b.drop_last());
        assert(whole.last() == b.last());
        let left = split_on(a, sep);
        let right = split_on(b.drop_last(), sep);
        let before = left + right;
        if b.last() == sep {
            assert(before.push(Seq::<char>::empty()) =~= left + right.push(
                Seq::<char>::empty(),
            ));
        } else {
            assert(before.last() == right.last());
            assert(before.drop_last() =~= left + right.drop_last());
            assert(before.drop_last().push(before.last().push(b.last())) =~= left
                + right.drop_last().push(right.last().push(b.last())));
        }
    }
}

/// Splitting what was joined gives the list back, where no text of the list
/// holds the separator.
pub proof fn lemma_split_joined(parts: Seq<Seq<char>>, sep: char)
    requires
        parts.len() >= 1,
        forall|i: int| 0 <= i < parts.len() ==> lacks(#[trigger] parts[i], sep),
    ensures
        split_on(joined(parts, sep), sep) == parts,
    decreases parts.len(),
{
    if parts.len() == 1 {
        lemma_split_lacking(parts[0], sep);
        assert(seq![parts[0]] =~= parts);
    } else {
        let init = parts.drop_last();
        assert forall|i: int| 0 <= i < init.len() implies lacks(#[trigger] init[i], sep) by {
            assert(init[i] == parts[i]);
        }
        lemma_split_joined(init, sep);
        lemma_split_around(joined(init, sep), parts.last(), sep);
        lemma_split_lacking(parts.last(), sep);
        assert(init + seq![parts.last()] =~= parts);
    }
}

/// What was joined is not empty where its last text is not.
pub proof fn lemma_joined_not_empty(parts: Seq<Seq<char>>, sep: char)
    requires
        parts.len() >= 1,
        parts.last().len() > 0,
    ensures
        joined(parts, sep).len() > 0,
{
}

/// What was joined lacks a character that is not the separator and that
/// every text of the list lacks.
pub proof fn lemma_joined_lacks(parts: Seq<Seq<char>>, sep: char, c: char)
    requires
        c != sep,
        forall|i: int| 0 <= i < parts.len() ==> lacks(#[trigger] parts[i], c),
    ensures
        lacks(joined(parts, sep), c),
    decreases parts.len(),
{
    if parts.len() == 1 {
        assert(lacks(parts[0], c));
    } else if parts.len() > 1 {
        let init = parts.drop_last();
        assert forall|i: int| 0 <= i < init.len() implies lacks(#[trigger] init[i], c) by {
            assert(init[i] == parts[i]);
        }
        lemma_joined_lacks(init, sep, c);
        assert(lacks(parts[parts.len() - 1], c));
    }
}

} // verus!
