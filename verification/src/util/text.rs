//! Text scanning for the catalog files: splitting a text into lines, a line
//! into whitespace-separated fields, a field on commas, and reading integers
//! and flags. Every scanner works on the characters of the text and hands
//! back positions, so that fields can be cut out of the text itself.

use vstd::prelude::*;

verus! {

/// Whether `c` separates fields: the Unicode white space characters.
pub open spec fn is_space(c: char) -> bool {
    let n = c as u32;
    ||| 0x09 <= n <= 0x0D
    ||| n == 0x20
    ||| n == 0x85
    ||| n == 0xA0
    ||| n == 0x1680
    ||| 0x2000 <= n <= 0x200A
    ||| n == 0x2028
    ||| n == 0x2029
    ||| n == 0x202F
    ||| n == 0x205F
    ||| n == 0x3000
}

/// The pieces of `s` between occurrences of `sep`. There is always at least
/// one piece; pieces may be empty.
pub open spec fn split_on(s: Seq<char>, sep: char) -> Seq<Seq<char>>
    decreases s.len(),
{
    if s.len() == 0 {
        seq![Seq::<char>::empty()]
    } else {
        let before = split_on(s.drop_last(), sep);
        if s.last() == sep {
            before.push(Seq::<char>::empty())
        } else {
            before.update(before.len() - 1, before.last().push(s.last()))
        }
    }
}

/// The lines of a text: its pieces between line feeds, where a line feed at
/// the very end of the text does not open another line.
pub open spec fn lines(s: Seq<char>) -> Seq<Seq<char>> {
    let pieces = split_on(s, '\n');
    if pieces.last().len() == 0 {
        pieces.drop_last()
    } else {
        pieces
    }
}

/// The fields of a line: its maximal runs of characters that are not white
/// space, from left to right.
pub open spec fn fields(s: Seq<char>) -> Seq<Seq<char>>
    decreases s.len(),
{
    if s.len() == 0 {
        Seq::<Seq<char>>::empty()
    } else {
        let before = fields(s.drop_last());
        if is_space(s.last()) {
            before
        } else if s.len() >= 2 && !is_space(s[s.len() - 2]) {
            before.update(before.len() - 1, before.last().push(s.last()))
        } else {
            before.push(seq![s.last()])
        }
    }
}

/// The parts of `s` that the position pairs of `bounds` cut out, in order.
pub open spec fn slices(s: Seq<char>, bounds: Seq<(usize, usize)>) -> Seq<Seq<char>> {
    Seq::new(bounds.len(), |i: int| s.subrange(bounds[i].0 as int, bounds[i].1 as int))
}

/// Every pair of `bounds` is a range inside `from..to`.
pub open spec fn bounds_within(bounds: Seq<(usize, usize)>, from: int, to: int) -> bool {
    forall|i: int|
        0 <= i < bounds.len() ==> from <= (#[trigger] bounds[i]).0 <= bounds[i].1 <= to
}

/// Whether `c` is one of the decimal digits `0` to `9`.
pub open spec fn is_digit(c: char) -> bool {
    '0' <= c <= '9'
}

/// Whether `s` is made of decimal digits only.
pub open spec fn all_digits(s: Seq<char>) -> bool {
    forall|i: int| 0 <= i < s.len() ==> is_digit(#[trigger] s[i])
}

/// The number that a run of decimal digits writes.
pub open spec fn digits_value(s: Seq<char>) -> int
    decreases s.len(),
{
    if s.len() == 0 {
        0
    } else {
        digits_value(s.drop_last()) * 10 + (s.last() as int - '0' as int)
    }
}

/// The 32-bit signed integer that `s` writes in decimal: an optional `+` or
/// `-`, then at least one digit and nothing else. `None` where `s` has
/// another shape or the number does not fit.
pub open spec fn number_of(s: Seq<char>) -> Option<i32> {
    let signed = s.len() > 0 && (s[0] == '-' || s[0] == '+');
    let digits = if signed { s.drop_first() } else { s };
    let magnitude = digits_value(digits);
    let value = if s.len() > 0 && s[0] == '-' { -magnitude } else { magnitude };
    if digits.len() > 0 && all_digits(digits) && i32::MIN <= value <= i32::MAX {
        Some(value as i32)
    } else {
        None
    }
}

/// Whether `c` is the lower-case letter `w` or its upper-case ASCII form.
pub open spec fn same_letter(c: char, w: char) -> bool {
    c == w || ('A' <= c <= 'Z' && c as u32 + 32 == w as u32)
}

/// Whether `s` spells the lower-case `word` when ASCII letter case is
/// ignored.
pub open spec fn spells(s: Seq<char>, word: Seq<char>) -> bool {
    &&& s.len() == word.len()
    &&& forall|i: int| 0 <= i < s.len() ==> same_letter(#[trigger] s[i], word[i])
}

/// The characters of the word `true`.
pub open spec fn word_true() -> Seq<char> {
    seq!['t', 'r', 'u', 'e']
}

/// The characters of the word `false`.
pub open spec fn word_false() -> Seq<char> {
    seq!['f', 'a', 'l', 's', 'e']
}

/// The truth value that `s` writes: `true` or `false` in any letter case.
pub open spec fn flag_of(s: Seq<char>) -> Option<bool> {
    if spells(s, word_true()) {
        Some(true)
    } else if spells(s, word_false()) {
        Some(false)
    } else {
        None
    }
}

/// Whether a line is a comment.
pub open spec fn is_comment(line: Seq<char>) -> bool {
    line.len() > 0 && line[0] == '#'
}

/// Decides `is_space`.
pub fn is_space_char(c: char) -> (space: bool)
    ensures
        space == is_space(c),
{
    let n: u32 = c as u32;
    (0x09 <= n && n <= 0x0D) || n == 0x20 || n == 0x85 || n == 0xA0 || n == 0x1680 || (0x2000 <= n
        && n <= 0x200A) || n == 0x2028 || n == 0x2029 || n == 0x202F || n == 0x205F || n == 0x3000
}

/// The characters of `text`, one by one.
pub fn to_chars(text: &str) -> (chars: Vec<char>)
    ensures
        chars@ == text@,
{
    let mut chars: Vec<char> = Vec::new();
    for c in it: text.chars()
        invariant
            chars@ == it.seq().take(it.index() as int),
            it.seq() == text@,
    {
        chars.push(c);
    }
    chars
}

/// Cuts `from..to` at every `sep`.
pub fn split_bounds(chars: &Vec<char>, from: usize, to: usize, sep: char) -> (bounds: Vec<
    (usize, usize),
>)
    requires
        from <= to <= chars@.len(),
    ensures
        slices(chars@, bounds@) == split_on(chars@.subrange(from as int, to as int), sep),
        bounds_within(bounds@, from as int, to as int),
        bounds@.len() >= 1,
{
    let mut bounds: Vec<(usize, usize)> = Vec::new();
    let mut start: usize = from;
    let mut i: usize = from;
    assert(slices(chars@, bounds@).push(chars@.subrange(start as int, i as int)) =~~= split_on(
        chars@.subrange(from as int, i as int),
        sep,
    ));
    while i < to
        invariant
            from <= start <= i <= to <= chars@.len(),
            slices(chars@, bounds@).push(chars@.subrange(start as int, i as int)) == split_on(
                chars@.subrange(from as int, i as int),
                sep,
            ),
            bounds_within(bounds@, from as int, i as int),
        decreases to - i,
    {
        let ghost before = split_on(chars@.subrange(from as int, i as int), sep);
        let ghost grown = chars@.subrange(from as int, i + 1);
        assert(grown.drop_last() =~= chars@.subrange(from as int, i as int));
        assert(grown.last() == chars@[i as int]);
        assert(before.last() == chars@.subrange(start as int, i as int));
        if chars[i] == sep {
            bounds.push((start, i));
            start = i + 1;
            assert(slices(chars@, bounds@).push(chars@.subrange(start as int, i + 1)) =~~= before.push(
                Seq::<char>::empty(),
            ));
        } else {
            assert(chars@.subrange(start as int, i + 1) =~= before.last().push(chars@[i as int]));
            assert(slices(chars@, bounds@).push(chars@.subrange(start as int, i + 1))
                =~= before.update(before.len() - 1, before.last().push(chars@[i as int])));
        }
        i = i + 1;
    }
    let ghost closed = slices(chars@, bounds@).push(chars@.subrange(start as int, to as int));
    bounds.push((start, to));
    assert(slices(chars@, bounds@) =~= closed);
    bounds
}

/// Cuts the characters into lines.
pub fn line_bounds(chars: &Vec<char>) -> (bounds: Vec<(usize, usize)>)
    ensures
        slices(chars@, bounds@) == lines(chars@),
        bounds_within(bounds@, 0, chars@.len() as int),
{
    let mut bounds = split_bounds(chars, 0, chars.len(), '\n');
    assert(chars@.subrange(0, chars@.len() as int) =~= chars@);
    let ghost pieces = slices(chars@, bounds@);
    let last = bounds[bounds.len() - 1];
    assert(pieces.last() == chars@.subrange(last.0 as int, last.1 as int));
    if last.0 == last.1 {
        bounds.pop();
        assert(slices(chars@, bounds@) =~= pieces.drop_last());
    }
    bounds
}

/// Cuts `from..to` into its fields.
pub fn field_bounds(chars: &Vec<char>, from: usize, to: usize) -> (bounds: Vec<(usize, usize)>)
    requires
        from <= to <= chars@.len(),
    ensures
        slices(chars@, bounds@) == fields(chars@.subrange(from as int, to as int)),
        bounds_within(bounds@, from as int, to as int),
{
    let mut bounds: Vec<(usize, usize)> = Vec::new();
    let mut start: usize = from;
    let mut open: bool = false;
    let mut i: usize = from;
    assert(slices(chars@, bounds@) =~= fields(chars@.subrange(from as int, i as int)));
    while i < to
        invariant
            from <= start <= i <= to <= chars@.len(),
            open ==> start < i && !is_space(chars@[i - 1]) && slices(chars@, bounds@).push(
                chars@.subrange(start as int, i as int),
            ) == fields(chars@.subrange(from as int, i as int)),
            !open ==> (i == from || is_space(chars@[i - 1])) && slices(chars@, bounds@) == fields(
                chars@.subrange(from as int, i as int),
            ),
            bounds_within(bounds@, from as int, i as int),
        decreases to - i,
    {
        let ghost before = fields(chars@.subrange(from as int, i as int));
        let ghost grown = chars@.subrange(from as int, i + 1);
        assert(grown.drop_last() =~= chars@.subrange(from as int, i as int));
        assert(grown.last() == chars@[i as int]);
        assert(i > from ==> grown[grown.len() - 2] == chars@[i - 1]);
        let c = chars[i];
        if is_space_char(c) {
            if open {
                bounds.push((start, i));
                open = false;
                assert(slices(chars@, bounds@) =~= before);
            }
        } else {
            if open {
                assert(before.last() == chars@.subrange(start as int, i as int));
                assert(chars@.subrange(start as int, i + 1) =~= before.last().push(c));
                assert(slices(chars@, bounds@).push(chars@.subrange(start as int, i + 1))
                    =~= before.update(before.len() - 1, before.last().push(c)));
            } else {
                start = i;
                open = true;
                assert(chars@.subrange(start as int, i + 1) =~= seq![c]);
            }
        }
        i = i + 1;
    }
    if open {
        let ghost closed = slices(chars@, bounds@).push(chars@.subrange(start as int, to as int));
        bounds.push((start, to));
        assert(slices(chars@, bounds@) =~= closed);
    }
    bounds
}

/// A run of digits writes at least what any of its prefixes writes.
proof fn lemma_digits_prefix(s: Seq<char>, j: int)
    requires
        all_digits(s),
        0 <= j <= s.len(),
    ensures
        0 <= digits_value(s.take(j)) <= digits_value(s),
    decreases s.len(),
{
    if s.len() == 0 {
        assert(s.take(j) =~= s);
    } else {
        assert(all_digits(s.drop_last())) by {
            assert forall|i: int| 0 <= i < s.drop_last().len() implies is_digit(
                #[trigger] s.drop_last()[i],
            ) by {
                assert(s.drop_last()[i] == s[i]);
            }
        }
        assert(is_digit(s[s.len() - 1]));
        if j == s.len() {
            assert(s.take(j) =~= s);
            lemma_digits_prefix(s.drop_last(), j - 1);
        } else {
            assert(s.drop_last().take(j) =~= s.take(j));
            lemma_digits_prefix(s.drop_last(), j);
        }
    }
}

/// Reads `from..to` as a decimal 32-bit signed integer.
pub fn read_number(chars: &Vec<char>, from: usize, to: usize) -> (value: Option<i32>)
    requires
        from <= to <= chars@.len(),
    ensures
        value == number_of(chars@.subrange(from as int, to as int)),
{
    let ghost s = chars@.subrange(from as int, to as int);
    if from == to {
        return None;
    }
    let first = chars[from];
    assert(s[0] == first);
    let negative = first == '-';
    let start: usize = if negative || first == '+' { from + 1 } else { from };
    let ghost digits = chars@.subrange(start as int, to as int);
    assert(digits =~= (if s[0] == '-' || s[0] == '+' { s.drop_first() } else { s }));
    if start == to {
        return None;
    }
    let mut magnitude: i64 = 0;
    let mut i: usize = start;
    assert(digits.take(0) =~= Seq::<char>::empty());
    while i < to
        invariant
            from <= start <= i <= to <= chars@.len(),
            from < to,
            s == chars@.subrange(from as int, to as int),
            digits == chars@.subrange(start as int, to as int),
            digits == (if s[0] == '-' || s[0] == '+' { s.drop_first() } else { s }),
            magnitude == digits_value(digits.take(i - start)),
            all_digits(digits.take(i - start)),
            0 <= magnitude <= 0x8000_0000,
        decreases to - i,
    {
        let c = chars[i];
        assert(digits[i - start] == c);
        if !('0' <= c && c <= '9') {
            assert(!is_digit(digits[i - start]));
            return None;
        }
        let digit: i64 = (c as u32 - '0' as u32) as i64;
        let ghost grown = digits.take(i - start + 1);
        assert(grown.drop_last() =~= digits.take(i - start));
        assert(grown.last() == c);
        magnitude = magnitude * 10 + digit;
        if magnitude > 0x8000_0000 {
            proof {
                if all_digits(digits) {
                    lemma_digits_prefix(digits, i - start + 1);
                }
            }
            return None;
        }
        i = i + 1;
    }
    assert(digits.take(to - start) =~= digits);
    if negative {
        Some((-magnitude) as i32)
    } else if magnitude > 0x7fff_ffff {
        None
    } else {
        Some(magnitude as i32)
    }
}

/// Whether `from..to` spells the lower-case `word`, letter case ignored.
pub fn spells_word(chars: &Vec<char>, from: usize, to: usize, word: &Vec<char>) -> (same: bool)
    requires
        from <= to <= chars@.len(),
    ensures
        same == spells(chars@.subrange(from as int, to as int), word@),
{
    let ghost s = chars@.subrange(from as int, to as int);
    if to - from != word.len() {
        return false;
    }
    let mut i: usize = 0;
    while i < word.len()
        invariant
            from <= to <= chars@.len(),
            to - from == word@.len(),
            i <= word@.len(),
            s == chars@.subrange(from as int, to as int),
            forall|j: int| 0 <= j < i ==> same_letter(#[trigger] s[j], word@[j]),
        decreases word@.len() - i,
    {
        let c = chars[from + i];
        let w = word[i];
        assert(s[i as int] == c);
        let upper = 'A' <= c && c <= 'Z';
        if !(c == w || (upper && c as u32 + 32 == w as u32)) {
            return false;
        }
        i = i + 1;
    }
    true
}

/// Reads `from..to` as a truth value.
pub fn read_flag(chars: &Vec<char>, from: usize, to: usize) -> (flag: Option<bool>)
    requires
        from <= to <= chars@.len(),
    ensures
        flag == flag_of(chars@.subrange(from as int, to as int)),
{
    let yes: Vec<char> = vec!['t', 'r', 'u', 'e'];
    let no: Vec<char> = vec!['f', 'a', 'l', 's', 'e'];
    assert(yes@ =~= word_true());
    assert(no@ =~= word_false());
    if spells_word(chars, from, to, &yes) {
        Some(true)
    } else if spells_word(chars, from, to, &no) {
        Some(false)
    } else {
        None
    }
}

/// Cuts the characters `from..to` out of `text`.
pub fn cut(text: &str, from: usize, to: usize) -> (part: String)
    requires
        from <= to <= text@.len(),
    ensures
        part@ == text@.subrange(from as int, to as int),
{
    text.substring_char(from, to).to_owned()
}

} // verus!
