//! The short names of intervals ("M3", "m6", "Aug4", "Dim5"): writing and
//! reading them.

use vstd::prelude::*;
use vstd::string::*;
use crate::errors::MusicError;
use crate::interval::{spec_from_quality_degree, Interval, IntervalQuality};

verus! {

/// The character of a decimal digit.
pub open spec fn digit_char(d: int) -> char {
    if d == 0 {
        '0'
    } else if d == 1 {
        '1'
    } else if d == 2 {
        '2'
    } else if d == 3 {
        '3'
    } else if d == 4 {
        '4'
    } else if d == 5 {
        '5'
    } else if d == 6 {
        '6'
    } else if d == 7 {
        '7'
    } else if d == 8 {
        '8'
    } else {
        '9'
    }
}

pub open spec fn is_digit(c: char) -> bool {
    48 <= c as u32 <= 57
}

/// The digit that a digit character stands for.
pub open spec fn digit_of(c: char) -> nat {
    (c as u32 - 48) as nat
}

/// A number in decimal, without sign or leading zeros.
pub open spec fn decimal_text(n: nat) -> Seq<char>
    decreases n,
{
    if n < 10 {
        seq![digit_char(n as int)]
    } else {
        decimal_text(n / 10).push(digit_char((n % 10) as int))
    }
}

/// The letters that stand for a quality in an interval's name.
pub open spec fn quality_prefix(quality: IntervalQuality) -> Seq<char> {
    match quality {
        IntervalQuality::Perfect => seq!['P'],
        IntervalQuality::Major => seq!['M'],
        IntervalQuality::Minor => seq!['m'],
        IntervalQuality::Augmented => seq!['A', 'u', 'g'],
        IntervalQuality::Diminished => seq!['D', 'i', 'm'],
    }
}

/// The number that a run of digit characters denotes.
pub open spec fn digits_value(s: Seq<char>) -> nat
    decreases s.len(),
{
    if s.len() == 0 {
        0
    } else {
        digits_value(s.drop_last()) * 10 + digit_of(s.last())
    }
}

pub open spec fn all_digits(s: Seq<char>) -> bool {
    forall|i: int| 0 <= i < s.len() ==> is_digit(#[trigger] s[i])
}

/// What follows an optional leading plus sign.
pub open spec fn unsigned_part(s: Seq<char>) -> Seq<char> {
    if s.len() > 0 && s[0] == '+' {
        s.subrange(1, s.len() as int)
    } else {
        s
    }
}

/// Reads a degree: an optional plus sign, then one or more decimal digits
/// whose value is at most 255. Anything else is no degree.
pub open spec fn parse_degree(s: Seq<char>) -> Option<u8> {
    let digits = unsigned_part(s);
    if digits.len() > 0 && all_digits(digits) && digits_value(digits) <= 255 {
        Some(digits_value(digits) as u8)
    } else {
        None
    }
}

pub open spec fn starts_with(s: Seq<char>, prefix: Seq<char>) -> bool {
    s.len() >= prefix.len() && s.subrange(0, prefix.len() as int) == prefix
}

/// The quality that the first letters of a name select, tried in the order
/// P, Aug, Dim, M, m, with the number of letters it takes.
pub open spec fn leading_quality(s: Seq<char>) -> Option<(IntervalQuality, int)> {
    if starts_with(s, quality_prefix(IntervalQuality::Perfect)) {
        Some((IntervalQuality::Perfect, 1))
    } else if starts_with(s, quality_prefix(IntervalQuality::Augmented)) {
        Some((IntervalQuality::Augmented, 3))
    } else if starts_with(s, quality_prefix(IntervalQuality::Diminished)) {
        Some((IntervalQuality::Diminished, 3))
    } else if starts_with(s, quality_prefix(IntervalQuality::Major)) {
        Some((IntervalQuality::Major, 1))
    } else if starts_with(s, quality_prefix(IntervalQuality::Minor)) {
        Some((IntervalQuality::Minor, 1))
    } else {
        None
    }
}

/// The quality and degree that a name spells, if it spells any.
pub open spec fn parse_label(s: Seq<char>) -> Option<(IntervalQuality, u8)> {
    match leading_quality(s) {
        Some((quality, taken)) => match parse_degree(s.subrange(taken, s.len() as int)) {
            Some(degree) => Some((quality, degree)),
            None => None,
        },
        None => None,
    }
}

/// The text of one decimal digit.
fn digit_str(d: u8) -> (r: &'static str)
    requires
        d < 10,
    ensures
        r@ == seq![digit_char(d as int)],
{
    proof {
        reveal_strlit("0");
        reveal_strlit("1");
        reveal_strlit("2");
        reveal_strlit("3");
        reveal_strlit("4");
        reveal_strlit("5");
        reveal_strlit("6");
        reveal_strlit("7");
        reveal_strlit("8");
        reveal_strlit("9");
    }
    let r = if d == 0 {
        "0"
    } else if d == 1 {
        "1"
    } else if d == 2 {
        "2"
    } else if d == 3 {
        "3"
    } else if d == 4 {
        "4"
    } else if d == 5 {
        "5"
    } else if d == 6 {
        "6"
    } else if d == 7 {
        "7"
    } else if d == 8 {
        "8"
    } else {
        "9"
    };
    r
}

/// The letters of a quality.
fn prefix_str(quality: IntervalQuality) -> (r: &'static str)
    ensures
        r@ == quality_prefix(quality),
{
    proof {
        reveal_strlit("P");
        reveal_strlit("M");
        reveal_strlit("m");
        reveal_strlit("Aug");
        reveal_strlit("Dim");
    }
    let r = match quality {
        IntervalQuality::Perfect => "P",
        IntervalQuality::Major => "M",
        IntervalQuality::Minor => "m",
        IntervalQuality::Augmented => "Aug",
        IntervalQuality::Diminished => "Dim",
    };
    r
}

/// The characters of a text, one by one.
fn chars_of(s: &str) -> (v: Vec<char>)
    ensures
        v@ == s@,
{
    let n = s.unicode_len();
    let mut v: Vec<char> = Vec::new();
    let mut i: usize = 0;
    while i < n
        invariant
            n == s@.len(),
            i <= n,
            v@ == s@.subrange(0, i as int),
        decreases n - i,
    {
        v.push(s.get_char(i));
        i = i + 1;
    }
    v
}

/// Reads the degree that the characters from `start` on spell.
fn read_degree(v: &Vec<char>, start: usize) -> (r: Option<u8>)
    requires
        start <= v@.len(),
    ensures
        r == parse_degree(v@.subrange(start as int, v@.len() as int)),
{
    let n = v.len();
    let begin: usize = if start < n && v[start] == '+' {
        start + 1
    } else {
        start
    };
    let ghost digits = v@.subrange(begin as int, n as int);
    if begin == n {
        return None;
    }
    // The value read so far, held at 256 once it has passed 255.
    let mut acc: u32 = 0;
    let mut i: usize = begin;
    while i < n
        invariant
            begin <= i <= n,
            n == v@.len(),
            start <= n,
            digits == v@.subrange(begin as int, n as int),
            digits == unsigned_part(v@.subrange(start as int, n as int)),
            all_digits(digits.subrange(0, i - begin)),
            acc <= 256,
            acc == if digits_value(digits.subrange(0, i - begin)) <= 255 {
                digits_value(digits.subrange(0, i - begin))
            } else {
                256
            },
        decreases n - i,
    {
        let c = v[i];
        let code = c as u32;
        let ghost before = digits.subrange(0, i - begin);
        let ghost after = digits.subrange(0, i - begin + 1);
        assert(after.drop_last() =~= before);
        assert(after.last() == c);
        if code < 48 || code > 57 {
            return None;
        }
        assert(all_digits(after)) by {
            assert forall|k: int| 0 <= k < before.len() implies after[k] == before[k] by {}
        }
        let next = acc * 10 + (code - 48);
        acc = if next > 255 {
            256
        } else {
            next
        };
        i = i + 1;
    }
    assert(digits.subrange(0, n - begin) =~= digits);
    if acc > 255 {
        None
    } else {
        Some(acc as u8)
    }
}

/// Whether the characters begin with the letters of a text.
fn begins_with(v: &Vec<char>, prefix: &str) -> (r: bool)
    ensures
        r == starts_with(v@, prefix@),
{
    let m = prefix.unicode_len();
    if v.len() < m {
        return false;
    }
    let mut i: usize = 0;
    while i < m
        invariant
            m == prefix@.len(),
            m <= v@.len(),
            i <= m,
            v@.subrange(0, i as int) == prefix@.subrange(0, i as int),
        decreases m - i,
    {
        if v[i] != prefix.get_char(i) {
            return false;
        }
        i = i + 1;
    }
    assert(prefix@.subrange(0, m as int) =~= prefix@);
    true
}

impl Interval {
    /// The interval's short name: the letters of its quality, then its
    /// degree in decimal.
    pub fn name(&self) -> (r: String)
        ensures
            r@ == quality_prefix(self.quality) + decimal_text(self.degree.0 as nat),
    {
        let d = self.degree.0;
        let mut out = String::from_str(prefix_str(self.quality));
        proof {
            reveal_with_fuel(decimal_text, 3);
        }
        if d >= 100 {
            out.append(digit_str(d / 100));
        }
        if d >= 10 {
            out.append(digit_str((d / 10) % 10));
        }
        out.append(digit_str(d % 10));
        out
    }

    /// Reads an interval from its short name. A text that spells no quality
    /// and degree is returned in the error; one that does is built as
    /// `from_quality_degree` builds it.
    pub fn try_from(s: &str) -> (r: Result<Interval, MusicError>)
        ensures
            match parse_label(s@) {
                Some((quality, degree)) => r == spec_from_quality_degree(quality, degree),
                None => r matches Err(MusicError::IntervalParseError { name }) && name@ == s@,
            },
    {
        let v = chars_of(s);
        let found: Option<(IntervalQuality, usize)> = if begins_with(
            &v,
            prefix_str(IntervalQuality::Perfect),
        ) {
            Some((IntervalQuality::Perfect, 1))
        } else if begins_with(&v, prefix_str(IntervalQuality::Augmented)) {
            Some((IntervalQuality::Augmented, 3))
        } else if begins_with(&v, prefix_str(IntervalQuality::Diminished)) {
            Some((IntervalQuality::Diminished, 3))
        } else if begins_with(&v, prefix_str(IntervalQuality::Major)) {
            Some((IntervalQuality::Major, 1))
        } else if begins_with(&v, prefix_str(IntervalQuality::Minor)) {
            Some((IntervalQuality::Minor, 1))
        } else {
            None
        };
        match found {
            Some((quality, taken)) => match read_degree(&v, taken) {
                Some(degree) => Interval::from_quality_degree(quality, degree),
                None => Err(MusicError::IntervalParseError { name: s.to_owned() }),
            },
            None => Err(MusicError::IntervalParseError { name: s.to_owned() }),
        }
    }
}

/// A number written in decimal is one or more digits that denote it.
pub proof fn lemma_decimal_text_denotes(n: nat)
    ensures
        decimal_text(n).len() >= 1,
        all_digits(decimal_text(n)),
        digits_value(decimal_text(n)) == n,
    decreases n,
{
    let text = decimal_text(n);
    if n < 10 {
        assert(text.drop_last() =~= Seq::<char>::empty());
        assert(digits_value(text) == digits_value(text.drop_last()) * 10 + digit_of(text.last()));
    } else {
        lemma_decimal_text_denotes(n / 10);
        assert(text.drop_last() =~= decimal_text(n / 10));
        assert(text.last() == digit_char((n % 10) as int));
        assert(digits_value(text) == digits_value(text.drop_last()) * 10 + digit_of(text.last()));
        assert forall|i: int| 0 <= i < text.len() implies is_digit(#[trigger] text[i]) by {
            if i < text.len() - 1 {
                assert(text[i] == decimal_text(n / 10)[i]);
            }
        }
    }
}

/// Reading the name that is written for a quality and a degree gives the
/// quality and the degree back.
pub proof fn lemma_name_reads_back(quality: IntervalQuality, degree: u8)
    ensures
        parse_label(quality_prefix(quality) + decimal_text(degree as nat)) == Some(
            (quality, degree),
        ),
{
    let prefix = quality_prefix(quality);
    let digits = decimal_text(degree as nat);
    let name = prefix + digits;
    lemma_decimal_text_denotes(degree as nat);
    assert(is_digit(digits[0]));
    assert(name.subrange(prefix.len() as int, name.len() as int) =~= digits);
    assert(name.subrange(0, prefix.len() as int) =~= prefix);
    assert(name[0] == prefix[0]);
    // No other quality's letters begin with the first letter of this one.
    assert(name.subrange(0, 1)[0] == name[0]);
    if name.len() >= 3 {
        assert(name.subrange(0, 3)[0] == name[0]);
    }
    assert(leading_quality(name) == Some((quality, prefix.len() as int)));
    assert(unsigned_part(digits) == digits);
}

} // verus!
