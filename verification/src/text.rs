//! Text helpers: comparison, blank text, substrings and decimal numbers.

use vstd::prelude::*;
use vstd::string::*;

verus! {

/// The characters that Unicode gives the property `White_Space`.
pub open spec fn white_space(c: char) -> bool {
    ||| '\u{9}' <= c <= '\u{d}'
    ||| c == '\u{20}'
    ||| c == '\u{85}'
    ||| c == '\u{a0}'
    ||| c == '\u{1680}'
    ||| '\u{2000}' <= c <= '\u{200a}'
    ||| c == '\u{2028}'
    ||| c == '\u{2029}'
    ||| c == '\u{202f}'
    ||| c == '\u{205f}'
    ||| c == '\u{3000}'
}

/// A text is blank when trimming white space off both ends leaves nothing of it.
pub open spec fn blank(s: Seq<char>) -> bool {
    forall|i: int| 0 <= i < s.len() ==> white_space(#[trigger] s[i])
}

/// `needle` stands somewhere in `haystack`.
pub open spec fn has_part(haystack: Seq<char>, needle: Seq<char>) -> bool {
    exists|i: int|
        0 <= i <= haystack.len() - needle.len() && #[trigger] part_at(haystack, needle, i)
}

/// `needle` stands in `haystack` from position `i` on.
pub open spec fn part_at(haystack: Seq<char>, needle: Seq<char>, i: int) -> bool {
    haystack.subrange(i, i + needle.len()) == needle
}

/// A result, with the text of its error.
pub open spec fn result_view<T>(result: Result<T, String>) -> Result<T, Seq<char>> {
    match result {
        Ok(value) => Ok(value),
        Err(error) => Err(error@),
    }
}

/// An optional text.
pub open spec fn option_view(text: Option<String>) -> Option<Seq<char>> {
    match text {
        Some(text) => Some(text@),
        None => None,
    }
}

/// Whether `c` is white space.
pub fn is_white_space(c: char) -> (r: bool)
    ensures
        r == white_space(c),
{
    ('\u{9}' <= c && c <= '\u{d}') || c == '\u{20}' || c == '\u{85}' || c == '\u{a0}' || c
        == '\u{1680}' || ('\u{2000}' <= c && c <= '\u{200a}') || c == '\u{2028}' || c == '\u{2029}'
        || c == '\u{202f}' || c == '\u{205f}' || c == '\u{3000}'
}

/// The characters of a text.
fn chars_of(s: &str) -> (chars: Vec<char>)
    ensures
        chars@ == s@,
{
    let mut chars: Vec<char> = Vec::new();
    for c in it: s.chars()
        invariant
            it.seq() == s@,
            chars@ == s@.take(it.index() as int),
    {
        chars.push(c);
    }
    chars
}

/// Whether a text holds nothing but white space.
pub fn is_blank(s: &str) -> (r: bool)
    ensures
        r == blank(s@),
{
    let chars = chars_of(s);
    let mut i: usize = 0;
    while i < chars.len()
        invariant
            i <= chars.len(),
            chars@ == s@,
            forall|j: int| 0 <= j < i ==> white_space(#[trigger] s@[j]),
        decreases chars.len() - i,
    {
        if !is_white_space(chars[i]) {
            assert(!white_space(s@[i as int]));
            return false;
        }
        i += 1;
    }
    true
}

/// Whether two texts are the same, character by character.
pub fn same_text(a: &str, b: &str) -> (r: bool)
    ensures
        r == (a@ == b@),
{
    a.to_owned() == b.to_owned()
}

/// Whether `needle` stands in `haystack` from position `i` on.
fn is_part_at(haystack: &Vec<char>, needle: &Vec<char>, i: usize) -> (r: bool)
    requires
        i + needle.len() <= haystack.len(),
    ensures
        r == part_at(haystack@, needle@, i as int),
{
    let mut j: usize = 0;
    while j < needle.len()
        invariant
            j <= needle.len(),
            i + needle.len() <= haystack.len(),
            forall|k: int| 0 <= k < j ==> haystack@[i + k] == needle@[k],
        decreases needle@.len() - j,
    {
        if haystack[i + j] != needle[j] {
            assert(haystack@.subrange(i as int, i + needle@.len())[j as int] != needle@[j as int]);
            return false;
        }
        j += 1;
    }
    assert(haystack@.subrange(i as int, i + needle@.len()) =~= needle@);
    true
}

/// Whether `needle` stands somewhere in `haystack`.
pub fn contains_text(haystack: &str, needle: &str) -> (r: bool)
    ensures
        r == has_part(haystack@, needle@),
{
    let hay = chars_of(haystack);
    let part = chars_of(needle);
    if part.len() > hay.len() {
        return false;
    }
    let last: usize = hay.len() - part.len();
    let mut i: usize = 0;
    loop
        invariant
            hay@ == haystack@,
            part@ == needle@,
            last == hay@.len() - part@.len(),
            i <= last,
            forall|k: int| 0 <= k < i ==> !part_at(haystack@, needle@, k),
        decreases last - i,
    {
        if is_part_at(&hay, &part, i) {
            return true;
        }
        if i == last {
            return false;
        }
        i += 1;
    }
}

/// A code unit that stands for a character by itself, and not for half of one.
pub open spec fn whole_unit(unit: u16) -> bool {
    !(0xd800 <= unit <= 0xdfff)
}

/// Two code units that stand for a character together.
pub open spec fn unit_pair(first: u16, second: u16) -> bool {
    0xd800 <= first <= 0xdbff && 0xdc00 <= second <= 0xdfff
}

/// The text that UTF-16 code units stand for. Half of a character without its other half is
/// replaced by the replacement character.
pub open spec fn utf16_text(units: Seq<u16>) -> Seq<char>
    decreases units.len(),
{
    if units.len() == 0 {
        Seq::empty()
    } else if whole_unit(units[0]) {
        seq![units[0] as char] + utf16_text(units.skip(1))
    } else if units.len() > 1 && unit_pair(units[0], units[1]) {
        seq![(0x10000 + (units[0] - 0xd800) * 0x400 + (units[1] - 0xdc00)) as char] + utf16_text(
            units.skip(2),
        )
    } else {
        seq!['\u{fffd}'] + utf16_text(units.skip(1))
    }
}

/// `String::from_utf16_lossy`: the text of UTF-16 code units, in which the replacement character
/// stands for each surrogate that has no partner.
#[verifier::external_body]
pub(crate) fn text_from_utf16(units: &[u16]) -> (text: String)
    ensures
        text@ == utf16_text(units@),
{
    String::from_utf16_lossy(units)
}

/// Code units none of which is half of a character stand for one character each, with their own
/// number.
pub proof fn whole_units_stand_for_themselves(units: Seq<u16>)
    requires
        forall|i: int| 0 <= i < units.len() ==> whole_unit(#[trigger] units[i]),
    ensures
        utf16_text(units).len() == units.len(),
        forall|i: int|
            0 <= i < units.len() ==> (#[trigger] utf16_text(units)[i]) as u32 == units[i],
    decreases units.len(),
{
    if units.len() > 0 {
        let rest = units.skip(1);
        assert forall|i: int| 0 <= i < rest.len() implies whole_unit(#[trigger] rest[i]) by {
            assert(whole_unit(units[i + 1]));
        }
        whole_units_stand_for_themselves(rest);
        assert(whole_unit(units[0]));
        assert forall|i: int| 0 <= i < units.len() implies (
        #[trigger] utf16_text(units)[i]) as u32 == units[i] by {
            if i > 0 {
                assert(utf16_text(units)[i] == utf16_text(rest)[i - 1]);
            }
        }
    }
}

/// A text in lower case.
pub uninterp spec fn lowercase(text: Seq<char>) -> Seq<char>;

/// A character, an ASCII capital letter put in lower case.
pub open spec fn ascii_lower(c: char) -> char {
    if 'A' <= c <= 'Z' {
        (c as u32 + 32) as char
    } else {
        c
    }
}

/// Every character is an ASCII one.
pub open spec fn ascii(text: Seq<char>) -> bool {
    forall|i: int| 0 <= i < text.len() ==> (#[trigger] text[i]) as u32 <= 127
}

/// `str::to_lowercase`: the text in lower case, as Unicode defines it. Of an ASCII text only the
/// letters from `A` to `Z` change, each to its small letter.
#[verifier::external_body]
pub(crate) fn to_lowercase(text: &str) -> (lower: String)
    ensures
        lower@ == lowercase(text@),
        ascii(text@) ==> lower@ == text@.map_values(|c: char| ascii_lower(c)),
{
    text.to_lowercase()
}

/// A digit.
pub open spec fn digit(n: int) -> char {
    (48 + n) as char
}

/// The decimal digits of a number.
pub open spec fn digits(n: nat) -> Seq<char>
    decreases n,
{
    if n < 10 {
        seq![digit(n as int)]
    } else {
        digits(n / 10).push(digit((n % 10) as int))
    }
}

/// A number in decimal notation.
pub open spec fn decimal(n: int) -> Seq<char> {
    if n < 0 {
        seq!['-'] + digits((-n) as nat)
    } else {
        digits(n as nat)
    }
}

/// A digit.
fn digit_text(n: u64) -> (text: &'static str)
    requires
        n < 10,
    ensures
        text@ == seq![digit(n as int)],
{
    proof {
        reveal_strlit("0");
        reveal_strlit("1");
        reveal_strlit("2");
        reveal_strlit("3");
        reveal_strlit("4");
        reveal_strlit("5");
        reveal_strlit("6");
        reveal_strlit("7");
        reveal_strlit("8");
        reveal_strlit("9");
    }
    let text = match n {
        0 => "0",
        1 => "1",
        2 => "2",
        3 => "3",
        4 => "4",
        5 => "5",
        6 => "6",
        7 => "7",
        8 => "8",
        _ => "9",
    };
    assert(text@ =~= seq![digit(n as int)]);
    text
}

/// The decimal digits of a number.
fn digits_text(n: u64) -> (text: String)
    ensures
        text@ == digits(n as nat),
    decreases n,
{
    if n < 10 {
        digit_text(n).to_owned()
    } else {
        let text = digits_text(n / 10).concat(digit_text(n % 10));
        assert(text@ =~= digits(n as nat));
        text
    }
}

/// A number in decimal notation.
pub fn decimal_text(n: isize) -> (text: String)
    ensures
        text@ == decimal(n as int),
{
    if n < 0 {
        let magnitude: i128 = -(n as i128);
        proof {
            reveal_strlit("-");
        }
        let text = "-".to_owned().concat(digits_text(magnitude as u64).as_str());
        assert(text@ =~= decimal(n as int));
        text
    } else {
        digits_text(n as u64)
    }
}

/// A text is blank exactly where each of its parts is; of a single character that is whether it is
/// white space.
pub proof fn blank_part_by_part(a: Seq<char>, b: Seq<char>, c: char)
    ensures
        blank(Seq::empty()),
        blank(seq![c]) <==> white_space(c),
        blank(a + b) <==> blank(a) && blank(b),
{
    if blank(seq![c]) {
        assert(white_space(seq![c][0]));
    }
    if blank(a + b) {
        assert forall|i: int| 0 <= i < a.len() implies white_space(#[trigger] a[i]) by {
            assert(white_space((a + b)[i]));
        }
        assert forall|i: int| 0 <= i < b.len() implies white_space(#[trigger] b[i]) by {
            assert(white_space((a + b)[a.len() + i]));
        }
    }
}

/// A text stands in another exactly where the other consists of something, the text, and something
/// more.
pub proof fn parts_stand_between_others(haystack: Seq<char>, needle: Seq<char>)
    ensures
        has_part(haystack, needle) <==> exists|before: Seq<char>, after: Seq<char>|
            haystack == #[trigger] (before + needle + after),
{
    if has_part(haystack, needle) {
        let i = choose|i: int|
            0 <= i <= haystack.len() - needle.len() && #[trigger] part_at(haystack, needle, i);
        let before = haystack.take(i);
        let after = haystack.skip(i + needle.len());
        assert(haystack =~= before + needle + after) by {
            assert forall|k: int| 0 <= k < haystack.len() implies #[trigger] haystack[k] == (before
                + needle + after)[k] by {
                if i <= k && k < i + needle.len() {
                    assert(haystack.subrange(i, i + needle.len())[k - i] == needle[k - i]);
                }
            }
        }
    }
    if exists|before: Seq<char>, after: Seq<char>|
        haystack == #[trigger] (before + needle + after) {
        let (before, after) = choose|before: Seq<char>, after: Seq<char>|
            haystack == #[trigger] (before + needle + after);
        let i = before.len() as int;
        assert(haystack.subrange(i, i + needle.len()) =~= needle);
        assert(part_at(haystack, needle, i));
    }
}

/// The number that decimal digits stand for.
pub open spec fn number_of(text: Seq<char>) -> int
    decreases text.len(),
{
    if text.len() == 0 {
        0
    } else {
        10 * number_of(text.drop_last()) + (text.last() as int - '0' as int)
    }
}

/// A number in decimal notation reads back as the number. It is written with digits alone, with no
/// zero in front but for 0 itself; a number below zero is written as its opposite behind a minus
/// sign.
pub proof fn decimals_read_back(n: int)
    ensures
        n >= 0 ==> number_of(decimal(n)) == n,
        n >= 0 ==> decimal(n).len() > 0 && forall|i: int|
            0 <= i < decimal(n).len() ==> '0' <= #[trigger] decimal(n)[i] <= '9',
        n > 0 ==> decimal(n)[0] != '0',
        n == 0 ==> decimal(n).len() == 1,
        n < 0 ==> decimal(n) == seq!['-'] + decimal(-n),
{
    if n >= 0 {
        lemma_digits(n as nat);
    }
}

proof fn lemma_digits(n: nat)
    ensures
        number_of(digits(n)) == n,
        digits(n).len() > 0,
        forall|i: int| 0 <= i < digits(n).len() ==> '0' <= #[trigger] digits(n)[i] <= '9',
        n > 0 ==> digits(n)[0] != '0',
        n == 0 ==> digits(n).len() == 1,
    decreases n,
{
    let text = digits(n);
    if n < 10 {
        assert(text.drop_last() =~= Seq::empty());
        assert(number_of(text.drop_last()) == 0);
    } else {
        lemma_digits(n / 10);
        assert(text.drop_last() =~= digits(n / 10));
    }
}

/// The code units that a character is written with in UTF-16.
pub open spec fn units_of(c: char) -> Seq<u16> {
    if (c as int) < 0x10000 {
        seq![(c as int) as u16]
    } else {
        seq![
            (0xd800 + (c as int - 0x10000) / 0x400) as u16,
            (0xdc00 + (c as int - 0x10000) % 0x400) as u16,
        ]
    }
}

/// The code units that a text is written with in UTF-16.
pub open spec fn utf16_units(text: Seq<char>) -> Seq<u16>
    decreases text.len(),
{
    if text.len() == 0 {
        Seq::empty()
    } else {
        units_of(text[0]) + utf16_units(text.skip(1))
    }
}

/// What a character is written with reads back as the character, whatever follows.
proof fn lemma_units_of(c: char, rest: Seq<u16>)
    ensures
        utf16_text(units_of(c) + rest) == seq![c] + utf16_text(rest),
{
    let code = c as int;
    let head = units_of(c);
    let units = head + rest;
    if code < 0x10000 {
        assert(head[0] == code);
        assert(units.skip(1) =~= rest);
    } else {
        let above = code - 0x10000;
        assert(head[0] == 0xd800 + above / 0x400 && head[1] == 0xdc00 + above % 0x400);
        assert(0x10000 + (units[0] - 0xd800) * 0x400 + (units[1] - 0xdc00) == code);
        assert(units.skip(2) =~= rest);
    }
}

/// What a text is written with in UTF-16 reads back as the text.
pub proof fn utf16_reads_back(text: Seq<char>)
    ensures
        utf16_text(utf16_units(text)) == text,
    decreases text.len(),
{
    if text.len() > 0 {
        let rest = text.skip(1);
        utf16_reads_back(rest);
        lemma_units_of(text[0], utf16_units(rest));
        assert(seq![text[0]] + rest =~= text);
    } else {
        assert(text =~= Seq::empty());
    }
}

/// Half of a character without its other half reads as the replacement character, and what follows
/// reads as it would without it.
pub proof fn loose_halves_are_replaced(half: u16, rest: Seq<u16>)
    requires
        0xd800 <= half <= 0xdfff,
        half <= 0xdbff ==> rest.len() == 0 || !(0xdc00 <= rest[0] <= 0xdfff),
    ensures
        utf16_text(seq![half] + rest) == seq!['\u{fffd}'] + utf16_text(rest),
{
    assert((seq![half] + rest).skip(1) =~= rest);
}

/// Looking at the text of an error changes nothing about a result.
pub proof fn results_are_seen_as_they_are<T>(value: T, error: String)
    ensures
        result_view(Ok::<T, String>(value)) == Ok::<T, Seq<char>>(value),
        result_view(Err::<T, String>(error)) == Err::<T, Seq<char>>(error@),
        option_view(Some(error)) == Some(error@),
        option_view(None) is None,
{
}

/// In lower case an ASCII capital is the small letter that stands 32 places on, and any other
/// character is itself.
pub proof fn small_letters(c: char)
    ensures
        65 <= c as u32 <= 90 ==> ascii_lower(c) as u32 == c as u32 + 32,
        !(65 <= c as u32 <= 90) ==> ascii_lower(c) == c,
        ascii(seq![c]) <==> (c as u32) < 128,
{
    if ascii(seq![c]) {
        assert(seq![c][0] as u32 <= 127);
    }
}

} // verus!
