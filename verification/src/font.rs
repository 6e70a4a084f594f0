//! The font definition: a text of eighty comma-separated hexadecimal byte
//! literals, sixteen glyphs of five rows each.
//!
//! Whitespace anywhere in the text is ignored. What is left is cut at every
//! comma, so a text with `n` commas has `n + 1` entries, the empty string
//! included. An entry is any number of `0x` prefixes, an optional `+`, and at
//! least one hexadecimal digit in either case, naming a value up to `ff`.

use vstd::prelude::*;

verus! {

/// The number of bytes in a font: 16 glyphs of 5 rows.
pub const FONT_SIZE: usize = 80;

/// Why a text is no font definition.
#[derive(Clone, Copy, Debug, PartialEq, Eq, Structural)]
pub enum FontError {
    /// The text does not have exactly eighty entries.
    WrongEntryCount,
    /// There are eighty entries, but one of them is no hexadecimal byte.
    InvalidEntry,
}

/// Whether `c` is white space in the sense of Unicode's `White_Space`
/// property.
pub open spec fn is_whitespace(c: char) -> bool {
    let n = c as u32;
    ||| 0x09 <= n <= 0x0d
    ||| n == 0x20
    ||| n == 0x85
    ||| n == 0xa0
    ||| n == 0x1680
    ||| 0x2000 <= n <= 0x200a
    ||| n == 0x2028
    ||| n == 0x2029
    ||| n == 0x202f
    ||| n == 0x205f
    ||| n == 0x3000
}

/// `text` with every white space character taken out.
pub open spec fn without_whitespace(text: Seq<char>) -> Seq<char> {
    text.filter(|c: char| !is_whitespace(c))
}

/// The pieces of `text` between its commas, in order. There is always at
/// least one piece, and pieces may be empty.
pub open spec fn split_at_commas(text: Seq<char>) -> Seq<Seq<char>>
    decreases text.len(),
{
    if text.len() == 0 {
        seq![Seq::empty()]
    } else {
        let pieces = split_at_commas(text.drop_last());
        if text.last() == ',' {
            pieces.push(Seq::empty())
        } else {
            pieces.update(pieces.len() - 1, pieces.last().push(text.last()))
        }
    }
}

/// The entries of a font definition: white space removed, then cut at commas.
pub open spec fn font_entries(source: Seq<char>) -> Seq<Seq<char>> {
    split_at_commas(without_whitespace(source))
}

/// `entry` without the `0x` prefixes it starts with, however many there are.
pub open spec fn without_prefix(entry: Seq<char>) -> Seq<char>
    decreases entry.len(),
{
    if entry.len() >= 2 && entry[0] == '0' && entry[1] == 'x' {
        without_prefix(entry.skip(2))
    } else {
        entry
    }
}

/// `body` without the `+` sign it may start with.
pub open spec fn without_sign(body: Seq<char>) -> Seq<char> {
    if body.len() > 0 && body[0] == '+' {
        body.skip(1)
    } else {
        body
    }
}

/// The value of one hexadecimal digit, in either case.
pub open spec fn hex_digit_value(c: char) -> Option<u8> {
    let n = c as u32;
    if 0x30 <= n <= 0x39 {
        Some((n - 0x30) as u8)
    } else if 0x41 <= n <= 0x46 {
        Some((n - 0x41 + 10) as u8)
    } else if 0x61 <= n <= 0x66 {
        Some((n - 0x61 + 10) as u8)
    } else {
        None
    }
}

/// Whether every character of `digits` is a hexadecimal digit.
pub open spec fn all_hex_digits(digits: Seq<char>) -> bool {
    forall|i: int| 0 <= i < digits.len() ==> hex_digit_value(#[trigger] digits[i]) is Some
}

/// The number that the hexadecimal digits `digits` spell, most significant
/// digit first.
pub open spec fn hex_number(digits: Seq<char>) -> nat
    decreases digits.len(),
{
    if digits.len() == 0 {
        0
    } else {
        hex_number(digits.drop_last()) * 16 + hex_digit_value(digits.last()).unwrap() as nat
    }
}

/// The byte that `entry` names, if it names one.
pub open spec fn entry_byte(entry: Seq<char>) -> Option<u8> {
    let digits = without_sign(without_prefix(entry));
    if digits.len() > 0 && all_hex_digits(digits) && hex_number(digits) <= 255 {
        Some(hex_number(digits) as u8)
    } else {
        None
    }
}

/// The font that `source` defines, or why it defines none. A wrong number of
/// entries is reported before any entry is looked at.
pub open spec fn font_of(source: Seq<char>) -> Result<Seq<u8>, FontError> {
    let entries = font_entries(source);
    if entries.len() != FONT_SIZE {
        Err(FontError::WrongEntryCount)
    } else if exists|i: int| 0 <= i < FONT_SIZE && entry_byte(#[trigger] entries[i]) is None {
        Err(FontError::InvalidEntry)
    } else {
        Ok(Seq::new(FONT_SIZE as nat, |i: int| entry_byte(entries[i]).unwrap()))
    }
}

/// The views of a sequence of character vectors.
spec fn views(entries: Seq<Vec<char>>) -> Seq<Seq<char>> {
    Seq::new(entries.len(), |i: int| entries[i]@)
}

/// Removing white space from a text that is one character longer.
proof fn lemma_without_whitespace_push(text: Seq<char>, c: char)
    ensures
        without_whitespace(text.push(c)) == if is_whitespace(c) {
            without_whitespace(text)
        } else {
            without_whitespace(text).push(c)
        },
{
    reveal(Seq::filter);
    assert(text.push(c).drop_last() =~= text);
}

/// Cutting a text that is one character longer.
proof fn lemma_split_push(text: Seq<char>, c: char)
    ensures
        split_at_commas(text).len() >= 1,
        split_at_commas(text.push(c)) == if c == ',' {
            split_at_commas(text).push(Seq::empty())
        } else {
            split_at_commas(text).update(
                split_at_commas(text).len() - 1,
                split_at_commas(text).last().push(c),
            )
        },
    decreases text.len(),
{
    assert(text.push(c).drop_last() =~= text);
    if text.len() > 0 {
        lemma_split_push(text.drop_last(), text.last());
    }
}

/// A number is at least the number that any of its leading digits spell.
proof fn lemma_hex_number_grows(digits: Seq<char>, k: int)
    requires
        0 <= k <= digits.len(),
    ensures
        hex_number(digits.take(k)) <= hex_number(digits),
    decreases digits.len(),
{
    if k == digits.len() {
        assert(digits.take(k) =~= digits);
    } else {
        lemma_hex_number_grows(digits.drop_last(), k);
        assert(digits.drop_last().take(k) =~= digits.take(k));
    }
}

/// Whether `c` is white space.
fn is_whitespace_char(c: char) -> (white: bool)
    ensures
        white == is_whitespace(c),
{
    let n: u32 = c as u32;
    (0x09 <= n && n <= 0x0d) || n == 0x20 || n == 0x85 || n == 0xa0 || n == 0x1680 || (0x2000 <= n
        && n <= 0x200a) || n == 0x2028 || n == 0x2029 || n == 0x202f || n == 0x205f || n == 0x3000
}

/// The value of the hexadecimal digit `c`, if it is one.
fn hex_digit(c: char) -> (value: Option<u8>)
    ensures
        value == hex_digit_value(c),
        value matches Some(d) ==> d < 16,
{
    let n: u32 = c as u32;
    if 0x30 <= n && n <= 0x39 {
        Some((n - 0x30) as u8)
    } else if 0x41 <= n && n <= 0x46 {
        Some((n - 0x41 + 10) as u8)
    } else if 0x61 <= n && n <= 0x66 {
        Some((n - 0x61 + 10) as u8)
    } else {
        None
    }
}

/// Cuts `source` into its entries.
fn split_entries(source: &str) -> (entries: Vec<Vec<char>>)
    ensures
        views(entries@) == font_entries(source@),
{
    let mut done: Vec<Vec<char>> = Vec::new();
    let mut current: Vec<char> = Vec::new();
    assert(source@.take(0) =~= Seq::<char>::empty());
    assert(without_whitespace(Seq::<char>::empty()) =~= Seq::<char>::empty()) by {
        reveal(Seq::filter);
    }
    assert(views(done@).push(current@) =~= split_at_commas(Seq::<char>::empty()));
    for c in characters: source.chars()
        invariant
            characters.seq() == source@,
            views(done@).push(current@) == font_entries(source@.take(characters.index() as int)),
    {
        proof {
            let seen = source@.take(characters.index() as int);
            assert(source@.take(characters.index() + 1) =~= seen.push(c));
            lemma_without_whitespace_push(seen, c);
            lemma_split_push(without_whitespace(seen), c);
        }
        if !is_whitespace_char(c) {
            if c == ',' {
                let ghost pieces = views(done@).push(current@);
                done.push(current);
                current = Vec::new();
                assert(views(done@).push(current@) =~= pieces.push(Seq::empty()));
            } else {
                let ghost pieces = views(done@).push(current@);
                current.push(c);
                assert(views(done@).push(current@) =~= pieces.update(
                    pieces.len() - 1,
                    pieces.last().push(c),
                ));
            }
        }
    }
    assert(source@.take(source@.len() as int) =~= source@);
    let ghost pieces = views(done@).push(current@);
    done.push(current);
    assert(views(done@) =~= pieces);
    done
}

/// Reads one entry as a byte.
fn parse_entry(entry: &Vec<char>) -> (byte: Option<u8>)
    ensures
        byte == entry_byte(entry@),
{
    let length = entry.len();
    let mut start: usize = 0;
    assert(entry@.skip(0) =~= entry@);
    while length - start >= 2 && entry[start] == '0' && entry[start + 1] == 'x'
        invariant
            length == entry@.len(),
            start <= length,
            without_prefix(entry@) == without_prefix(entry@.skip(start as int)),
        decreases length - start,
    {
        assert(entry@.skip(start as int).skip(2) =~= entry@.skip(start + 2));
        start += 2;
    }
    assert(without_prefix(entry@) == entry@.skip(start as int));
    if start < length && entry[start] == '+' {
        assert(entry@.skip(start as int).skip(1) =~= entry@.skip(start + 1));
        start += 1;
    }
    let ghost digits = entry@.skip(start as int);
    assert(digits == without_sign(without_prefix(entry@)));
    if start == length {
        return None;
    }
    let mut value: u16 = 0;
    let mut i: usize = start;
    assert(digits.take(0) =~= Seq::<char>::empty());
    while i < length
        invariant
            length == entry@.len(),
            start <= i <= length,
            digits == entry@.skip(start as int),
            digits == without_sign(without_prefix(entry@)),
            all_hex_digits(digits.take(i - start)),
            value == hex_number(digits.take(i - start)),
            value <= 255,
        decreases length - i,
    {
        let ghost seen = digits.take(i - start);
        assert(digits.take(i - start + 1).drop_last() =~= seen);
        match hex_digit(entry[i]) {
            None => {
                assert(hex_digit_value(digits[i - start]) is None);
                return None;
            },
            Some(d) => {
                value = value * 16 + d as u16;
                assert(value == hex_number(digits.take(i - start + 1)));
                if value > 255 {
                    proof {
                        lemma_hex_number_grows(digits, i - start + 1);
                    }
                    return None;
                }
            },
        }
        i += 1;
    }
    assert(digits.take(length - start) =~= digits);
    Some(value as u8)
}

/// Reads a font definition, whatever the text is: the text of eighty
/// hexadecimal byte literals, separated by commas, gives the eighty bytes in
/// order; any other text is rejected with the reason.
pub fn parse_font(source: &str) -> (result: Result<[u8; 80], FontError>)
    ensures
        match result {
            Ok(font) => font_of(source@) == Ok::<Seq<u8>, FontError>(font@),
            Err(error) => font_of(source@) == Err::<Seq<u8>, FontError>(error),
        },
{
    let entries = split_entries(source);
    if entries.len() != FONT_SIZE {
        return Err(FontError::WrongEntryCount);
    }
    let mut font = [0u8; 80];
    let mut i: usize = 0;
    while i < FONT_SIZE
        invariant
            i <= FONT_SIZE,
            entries@.len() == FONT_SIZE,
            views(entries@) == font_entries(source@),
            forall|k: int|
                0 <= k < i ==> entry_byte(#[trigger] font_entries(source@)[k]) == Some(font@[k]),
        decreases FONT_SIZE - i,
    {
        assert(views(entries@)[i as int] == entries@[i as int]@);
        match parse_entry(&entries[i]) {
            None => {
                return Err(FontError::InvalidEntry);
            },
            Some(byte) => {
                font[i] = byte;
            },
        }
        i += 1;
    }
    assert(font@ =~= Seq::new(
        FONT_SIZE as nat,
        |i: int| entry_byte(font_entries(source@)[i]).unwrap(),
    ));
    Ok(font)
}

/// Reads a font definition whose entries are known to be bytes. A text of
/// eighty entries gives the eighty bytes in order; a text with any other
/// number of entries gives nothing. A text of eighty entries of which one is
/// no hexadecimal byte is a fatal condition and is excluded here: callers
/// that cannot rule it out ask [`parse_font`].
pub fn read_font(source: &str) -> (result: Option<[u8; 80]>)
    requires
        font_of(source@) != Err::<Seq<u8>, FontError>(FontError::InvalidEntry),
    ensures
        match result {
            Some(font) => font_of(source@) == Ok::<Seq<u8>, FontError>(font@),
            None => font_of(source@) == Err::<Seq<u8>, FontError>(FontError::WrongEntryCount),
        },
{
    match parse_font(source) {
        Ok(font) => Some(font),
        Err(_) => None,
    }
}

} // verus!
