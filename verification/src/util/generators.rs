//! Names for planets and points of interest.
//!
//! A name is a run of syllables, after which an end letter and a numeral
//! may follow. Which syllables, and whether the rest follows, is drawn at
//! random; what the name is once that is drawn is fixed, and stated here.
//! The numeral is written by the `roman` crate.

pub use crate::util::random::{maybe, maybe_chance};
use crate::util::random::{pick_index, random_i32, random_in_range, random_usize};
use vstd::prelude::*;

verus! {

pub const PHONETICS: [&'static str; 119] = [
    "AE", "AI", "AU",
    "EA", "EE", "EI", "EU",
    "IA", "IE", "IO", "IU",
    "OA", "OE", "OI", "OU",
    "UA", "UE", "UI", "UO",
    "BA", "BE", "BI", "BO", "BU",
    "CA", "CE", "CI", "CO", "CU",
    "DA", "DE", "DI", "DO", "DU",
    "FA", "FE", "FI", "FO", "FU",
    "GA", "GE", "GI", "GO", "GU",
    "HA", "HE", "HI", "HO", "HU",
    "JA", "JE", "JI", "JO", "JU",
    "KA", "KE", "KI", "KO", "KU",
    "LA", "LE", "LI", "LO", "LU",
    "MA", "ME", "MI", "MO", "MU",
    "NA", "NE", "NI", "NO", "NU",
    "PA", "PE", "PI", "PO", "PU",
    "RA", "RE", "RI", "RO", "RU",
    "SA", "SE", "SI", "SO", "SU",
    "TA", "TE", "TI", "TO", "TU",
    "VA", "VE", "VI", "VO", "VU",
    "WA", "WE", "WI", "WO", "WU",
    "XA", "XE", "XI", "XO", "XU",
    "YA", "YE", "YI", "YO", "YU",
    "ZA", "ZE", "ZI", "ZO", "ZU",
];

pub const END_VOWELS: [&'static str; 5] = ["A", "E", "I", "O", "U"];

pub const END_CONSONANTS: [&'static str; 20] = [
    "B", "C", "D", "F", "G", "H", "J", "K", "L", "M",
    "N", "P", "R", "S", "T", "V", "W", "X", "Y", "Z",
];

pub const CAN_DOUBLE: [&'static str; 12] = [
    "C", "D", "F", "G", "K", "L", "M",
    "N", "P", "S", "T", "Z",
];

pub const DEFAULT_MIN: i32 = 1;

pub const DEFAULT_MAX: i32 = 5;

/// The greatest number that has a roman numeral.
pub const ROMAN_MAX: i32 = 3999;

/// What a name may look like. A field that is `None` takes its default.
#[derive(Debug)]
pub struct NameGenerationParams {
    /// The least number of syllables; 1 by default.
    pub min: Option<i32>,
    /// One more than the greatest number of syllables; 5 by default.
    pub max: Option<i32>,
    /// Whether an end letter may follow; it may by default.
    pub can_have_end_letter: Option<bool>,
    /// Whether an end letter always follows; not by default.
    pub must_have_end_letter: Option<bool>,
    /// Whether a numeral may follow; it may by default.
    pub can_have_numeral: Option<bool>,
    /// Whether a numeral always follows; not by default.
    pub must_have_numeral: Option<bool>,
}

/// The parameters that leave every choice to its default: one to four
/// syllables, after which an end letter and a numeral may follow.
pub open spec fn default_params() -> NameGenerationParams {
    NameGenerationParams {
        min: None,
        max: None,
        can_have_end_letter: None,
        must_have_end_letter: None,
        can_have_numeral: None,
        must_have_numeral: None,
    }
}

impl Default for NameGenerationParams {
    fn default() -> (params: NameGenerationParams)
        ensures
            params == default_params(),
    {
        NameGenerationParams {
            min: None,
            max: None,
            can_have_end_letter: None,
            must_have_end_letter: None,
            can_have_numeral: None,
            must_have_numeral: None,
        }
    }
}

impl NameGenerationParams {
    /// The least number of syllables.
    pub open spec fn least(self) -> int {
        match self.min {
            Some(n) => n as int,
            None => DEFAULT_MIN as int,
        }
    }

    /// One more than the greatest number of syllables.
    pub open spec fn limit(self) -> int {
        match self.max {
            Some(n) => n as int,
            None => DEFAULT_MAX as int,
        }
    }

    /// Whether an end letter may follow the syllables.
    pub open spec fn may_end(self) -> bool {
        self.can_have_end_letter != Some(false) || self.must_have_end_letter == Some(true)
    }

    /// Whether an end letter always follows the syllables.
    pub open spec fn must_end(self) -> bool {
        self.must_have_end_letter == Some(true)
    }

    /// Whether a numeral may follow.
    pub open spec fn may_number(self) -> bool {
        self.can_have_numeral != Some(false) || self.must_have_numeral == Some(true)
    }

    /// Whether a numeral always follows.
    pub open spec fn must_number(self) -> bool {
        self.must_have_numeral == Some(true)
    }

    /// A name can be drawn: there is a number of syllables to choose.
    pub open spec fn drawable(self) -> bool {
        self.least() < self.limit()
    }
}

/// The roman numeral of a number from 1 to 3999, as the `roman` crate
/// writes it.
pub uninterp spec fn roman_text(n: int) -> Seq<char>;

/// The roman numeral of `n`, `None` where `n` has none.
///
/// Wraps `roman::to`, which writes the numeral of a number from 1 to 3999
/// and gives `None` for every other number. The contract says when the
/// result is `None`, and names the numeral otherwise.
#[verifier::external_body]
fn roman_numeral(n: i32) -> (numeral: Option<String>)
    ensures
        numeral is Some <==> 1 <= n <= ROMAN_MAX,
        numeral is Some ==> numeral->0@ == roman_text(n as int),
{
    roman::to(n)
}

/// The roman numeral of `n`, and nothing where `n` has none.
pub open spec fn roman_or_empty(n: int) -> Seq<char> {
    if 1 <= n <= ROMAN_MAX {
        roman_text(n)
    } else {
        Seq::empty()
    }
}

/// The numeral that is written, given what the conversion came to: the
/// numeral itself, or nothing.
pub fn numeral_or_empty(numeral: Option<String>) -> (text: String)
    ensures
        match numeral {
            Some(s) => text == s,
            None => text@ == Seq::<char>::empty(),
        },
{
    match numeral {
        Some(s) => s,
        None => String::new(),
    }
}

/// The roman numeral of `n`, or the empty text where `n` has none.
pub fn n_to_roman(n: i32) -> (text: String)
    ensures
        text@ == roman_or_empty(n as int),
{
    numeral_or_empty(roman_numeral(n))
}

/// Whether the one-letter texts of `letters` hold the letter `c`.
pub open spec fn has_letter(letters: Seq<&'static str>, c: char) -> bool {
    exists|i: int| 0 <= i < letters.len() && (#[trigger] letters[i])@ == seq![c]
}

/// Decides `has_letter`.
pub fn is_among(letters: &[&'static str], c: char) -> (found: bool)
    ensures
        found == has_letter(letters@, c),
{
    let mut i: usize = 0;
    while i < letters.len()
        invariant
            i <= letters@.len(),
            forall|j: int| 0 <= j < i ==> (#[trigger] letters@[j])@ != seq![c],
        decreases letters@.len() - i,
    {
        let letter: &str = letters[i];
        if letter.unicode_len() == 1 && letter.get_char(0) == c {
            assert(letter@ =~= seq![c]);
            return true;
        }
        assert(letter@ != seq![c]) by {
            if letter@ == seq![c] {
                assert(letter@.len() == 1);
                assert(letter@[0] == c);
            }
        }
        i = i + 1;
    }
    false
}

/// A syllable as it goes into a name: where it is to be doubled and its
/// first letter is one that can be, that letter stands twice.
pub open spec fn syllable_text(phonetic: Seq<char>, doubled: bool) -> Seq<char> {
    if doubled && phonetic.len() > 0 && has_letter(CAN_DOUBLE@, phonetic[0]) {
        seq![phonetic[0]] + phonetic
    } else {
        phonetic
    }
}

/// Appends a syllable to a name.
pub fn push_syllable(name: &mut String, phonetic: &str, doubled: bool)
    ensures
        final(name)@ == old(name)@ + syllable_text(phonetic@, doubled),
{
    if doubled && phonetic.unicode_len() > 0 {
        let first = phonetic.get_char(0);
        if is_among(&CAN_DOUBLE, first) {
            let head = phonetic.substring_char(0, 1);
            assert(head@ =~= seq![phonetic@[0]]);
            name.append(head);
            name.append(phonetic);
            assert(name@ =~= old(name)@ + (seq![phonetic@[0]] + phonetic@));
            return;
        }
    }
    name.append(phonetic);
}

/// The end letter that follows a name: the vowel with the index drawn
/// where the name ends in a consonant, the consonant with the index drawn
/// otherwise, also where the name is empty.
pub open spec fn end_text(name: Seq<char>, drawn: usize) -> Seq<char> {
    if name.len() > 0 && has_letter(END_CONSONANTS@, name.last()) {
        END_VOWELS@[drawn as int % 5]@
    } else {
        END_CONSONANTS@[drawn as int % 20]@
    }
}

/// Appends the end letter that the drawn number picks.
pub fn push_end_letter(name: &mut String, drawn: usize)
    ensures
        final(name)@ == old(name)@ + end_text(old(name)@, drawn),
{
    let len = name.as_str().unicode_len();
    let after_consonant = len > 0 && is_among(&END_CONSONANTS, name.as_str().get_char(len - 1));
    if after_consonant {
        name.append(END_VOWELS[pick_index(drawn, 5)]);
    } else {
        name.append(END_CONSONANTS[pick_index(drawn, 20)]);
    }
}

/// The remainder of `n` by 20, with the sign of `n`.
pub open spec fn small_numeral(n: int) -> int {
    if n >= 0 {
        n % 20
    } else {
        -((-n) % 20)
    }
}

/// The number for the numeral that a drawn number gives: between -19 and
/// 19.
pub fn numeral_from(drawn: i32) -> (n: i32)
    ensures
        n == small_numeral(drawn as int),
        -20 < n < 20,
{
    drawn % 20
}

/// The text that follows the name for a numeral: a blank, then the roman
/// numeral of the number where it has one.
pub open spec fn numeral_text(n: int) -> Seq<char> {
    seq![' '] + roman_or_empty(n)
}

/// Appends the numeral.
pub fn push_numeral(name: &mut String, n: i32)
    ensures
        final(name)@ == old(name)@ + numeral_text(n as int),
{
    let numeral = n_to_roman(n);
    proof {
        reveal_strlit(" ");
    }
    assert(" "@ =~= seq![' ']);
    name.append(" ");
    name.append(numeral.as_str());
    assert(name@ =~= old(name)@ + (seq![' '] + roman_or_empty(n as int)));
}

/// What was drawn for a name: the number that sets how many syllables
/// there are, for each syllable its index in the table and whether it is
/// to be doubled, then the number drawn for the end letter and the number
/// for the numeral, where these follow.
pub struct NameDraws {
    pub length: int,
    pub syllables: Seq<(int, bool)>,
    pub end: Option<usize>,
    pub numeral: Option<int>,
}

/// The syllables of a name, one after the other.
pub open spec fn syllables_text(syllables: Seq<(int, bool)>) -> Seq<char>
    decreases syllables.len(),
{
    if syllables.len() == 0 {
        Seq::empty()
    } else {
        syllables_text(syllables.drop_last()) + syllable_text(
            PHONETICS@[syllables.last().0]@,
            syllables.last().1,
        )
    }
}

impl NameDraws {
    /// The name that the draws give.
    pub open spec fn text(self) -> Seq<char> {
        let body = syllables_text(self.syllables);
        let ended = match self.end {
            Some(drawn) => body + end_text(body, drawn),
            None => body,
        };
        match self.numeral {
            Some(n) => ended + numeral_text(n),
            None => ended,
        }
    }

    /// The draws are ones that the parameters allow: the length is in
    /// range, there are as many syllables as the length says (none where it
    /// is negative), every syllable is one of the table, the first is not
    /// doubled, an end letter and a numeral follow only where they may and
    /// always where they must, and the number for the numeral lies between
    /// -19 and 19.
    pub open spec fn allowed(self, params: NameGenerationParams) -> bool {
        &&& params.least() <= self.length < params.limit()
        &&& self.syllables.len() == (if self.length > 0 {
            self.length
        } else {
            0
        })
        &&& forall|i: int|
            0 <= i < self.syllables.len() ==> 0 <= (#[trigger] self.syllables[i]).0 < 119
        &&& self.syllables.len() > 0 ==> !self.syllables[0].1
        &&& self.end is Some ==> params.may_end()
        &&& params.must_end() ==> self.end is Some
        &&& self.numeral is Some ==> params.may_number() && -20 < self.numeral->0 < 20
        &&& params.must_number() ==> self.numeral is Some
    }
}

/// Whether `name` is a name that the parameters allow: the text of some
/// allowed draws.
pub open spec fn is_name(params: NameGenerationParams, name: Seq<char>) -> bool {
    exists|draws: NameDraws| #[trigger] draws.allowed(params) && draws.text() == name
}

/// A random name.
///
/// The parameters have to leave a number of syllables to choose from.
pub fn generate_name(params: NameGenerationParams) -> (name: String)
    requires
        params.drawable(),
    ensures
        is_name(params, name@),
{
    let mut name = String::new();
    let min = match params.min {
        Some(n) => n,
        None => DEFAULT_MIN,
    };
    let max = match params.max {
        Some(n) => n,
        None => DEFAULT_MAX,
    };
    let can_number = match params.can_have_numeral {
        Some(b) => b,
        None => true,
    };
    let must_number = match params.must_have_numeral {
        Some(b) => b,
        None => false,
    };
    let can_end = match params.can_have_end_letter {
        Some(b) => b,
        None => true,
    };
    let must_end = match params.must_have_end_letter {
        Some(b) => b,
        None => false,
    };
    let length = random_in_range(min as i64, max as i64);
    let numeral: Option<i32> = if (can_number && maybe()) || must_number {
        Some(numeral_from(random_i32()))
    } else {
        None
    };
    let ghost mut syllables: Seq<(int, bool)> = Seq::empty();
    let mut left: i64 = length;
    let mut first_iter = true;
    while left > 0
        invariant
            left <= length,
            left >= 0 || left == length,
            name@ == syllables_text(syllables),
            syllables.len() == (if length > 0 {
                length - left
            } else {
                0
            }),
            first_iter == (syllables.len() == 0),
            forall|i: int| 0 <= i < syllables.len() ==> 0 <= (#[trigger] syllables[i]).0 < 119,
            syllables.len() > 0 ==> !syllables[0].1,
        decreases left,
    {
        let index = pick_index(random_usize(), 119);
        // Can only do this if not at the beginning
        let doubled = !first_iter && maybe_chance(4);
        push_syllable(&mut name, PHONETICS[index], doubled);
        proof {
            let grown = syllables.push((index as int, doubled));
            assert(grown.drop_last() =~= syllables);
            syllables = grown;
        }
        left = left - 1;
        first_iter = false;
    }
    let end_letter = (can_end && maybe_chance(4)) || must_end;
    let ghost mut end: Option<usize> = None;
    if end_letter {
        let drawn = random_usize();
        push_end_letter(&mut name, drawn);
        proof {
            end = Some(drawn);
        }
    }
    if let Some(n) = numeral {
        push_numeral(&mut name, n);
    }
    proof {
        let draws = NameDraws {
            length: length as int,
            syllables,
            end,
            numeral: match numeral {
                Some(n) => Some(n as int),
                None => None,
            },
        };
        assert(draws.allowed(params));
        assert(draws.text() == name@);
    }
    name
}

} // verus!
