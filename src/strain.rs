//! Strains and serotypes, and the identifiers that name them ("WPV2", "opv1").
use vstd::prelude::*;

verus! {

/// Wild-type or vaccine-derived poliovirus.
#[derive(Debug, Clone, Copy, PartialEq, Eq, Hash, Structural)]
pub enum InfectionStrain {
    WPV,
    OPV,
}

/// One of the three antigenic subtypes of poliovirus.
#[derive(Debug, Clone, Copy, PartialEq, Eq, Hash, Structural)]
pub enum InfectionSerotype {
    Type1,
    Type2,
    Type3,
}

/// The serotype numbered `n`, if there is one.
pub open spec fn serotype_of_num(n: int) -> Option<InfectionSerotype> {
    if n == 1 {
        Some(InfectionSerotype::Type1)
    } else if n == 2 {
        Some(InfectionSerotype::Type2)
    } else if n == 3 {
        Some(InfectionSerotype::Type3)
    } else {
        None
    }
}

impl InfectionSerotype {
    pub fn from_num(n: u8) -> (r: Option<Self>)
        ensures
            r == serotype_of_num(n as int),
    {
        match n {
            1 => Some(InfectionSerotype::Type1),
            2 => Some(InfectionSerotype::Type2),
            3 => Some(InfectionSerotype::Type3),
            _ => None,
        }
    }
}

/// `c` is the ASCII capital letter `upper` in either case.
pub open spec fn same_letter(c: char, upper: char) -> bool {
    c == upper || c as int == upper as int + 32
}

/// The strain that a three-letter prefix names, ignoring ASCII case.
pub open spec fn strain_of_prefix(p: Seq<char>) -> Option<InfectionStrain> {
    if same_letter(p[1], 'P') && same_letter(p[2], 'V') && same_letter(p[0], 'W') {
        Some(InfectionStrain::WPV)
    } else if same_letter(p[1], 'P') && same_letter(p[2], 'V') && same_letter(p[0], 'O') {
        Some(InfectionStrain::OPV)
    } else {
        None
    }
}

pub open spec fn is_digit(c: char) -> bool {
    '0' <= c && c <= '9'
}

pub open spec fn all_digits(s: Seq<char>) -> bool {
    forall|i: int| 0 <= i < s.len() ==> #[trigger] is_digit(s[i])
}

/// The value of a string of decimal digits.
pub open spec fn decimal_value(s: Seq<char>) -> int
    decreases s.len(),
{
    if s.len() == 0 {
        0
    } else {
        10 * decimal_value(s.drop_last()) + (s.last() as int - '0' as int)
    }
}

/// The number that an unsigned decimal literal spells: an optional `+`, then
/// one or more decimal digits (leading zeros allowed).
pub open spec fn unsigned_literal(s: Seq<char>) -> Option<int> {
    let digits = if s.len() > 0 && s[0] == '+' {
        s.drop_first()
    } else {
        s
    };
    if digits.len() > 0 && all_digits(digits) {
        Some(decimal_value(digits))
    } else {
        None
    }
}

/// What an identifier names: a strain prefix, "WPV" or "OPV" in any ASCII
/// case, followed by the number of a serotype.
pub open spec fn infection_type_of(s: Seq<char>) -> Option<(InfectionStrain, InfectionSerotype)> {
    if s.len() < 3 {
        None
    } else {
        match (strain_of_prefix(s.take(3)), unsigned_literal(s.skip(3))) {
            (Some(strain), Some(n)) => match serotype_of_num(n) {
                Some(serotype) => Some((strain, serotype)),
                None => None,
            },
            _ => None,
        }
    }
}

fn same_letter_exec(c: char, upper: char) -> (r: bool)
    requires
        'A' <= upper <= 'Z',
    ensures
        r == same_letter(c, upper),
{
    c == upper || (c as u32) == (upper as u32) + 32
}

/// The number spelled from position `start` to the end of `s`, where it is
/// at most 3 (no serotype has a larger one).
fn small_literal_from(s: &str, start: usize) -> (r: Option<u8>)
    requires
        start <= s@.len(),
    ensures
        match r {
            Some(v) => v <= 3 && unsigned_literal(s@.skip(start as int)) == Some(v as int),
            None => match unsigned_literal(s@.skip(start as int)) {
                Some(v) => v > 3,
                None => true,
            },
        },
{
    let n = s.unicode_len();
    let ghost rest = s@.skip(start as int);
    let mut i: usize = start;
    if i < n && s.get_char(i) == '+' {
        i = i + 1;
    }
    let first: usize = i;
    let ghost digits = s@.subrange(first as int, n as int);
    assert(digits =~= (if rest.len() > 0 && rest[0] == '+' { rest.drop_first() } else { rest }));
    if first == n {
        return None;
    }
    // the value read so far, held at 4 once it passes 3
    let mut value: u8 = 0;
    while i < n
        invariant
            first <= i <= n,
            n == s@.len(),
            digits == s@.subrange(first as int, n as int),
            rest == s@.skip(start as int),
            digits == (if rest.len() > 0 && rest[0] == '+' {
                rest.drop_first()
            } else {
                rest
            }),
            all_digits(s@.subrange(first as int, i as int)),
            value as int == if decimal_value(s@.subrange(first as int, i as int)) > 3 {
                4
            } else {
                decimal_value(s@.subrange(first as int, i as int))
            },
        decreases n - i,
    {
        let c = s.get_char(i);
        if !('0' <= c && c <= '9') {
            assert(digits[i - first] == c);
            assert(!is_digit(digits[i - first]));
            assert(!all_digits(digits));
            return None;
        }
        let d: u8 = (c as u32 - '0' as u32) as u8;
        proof {
            let next = s@.subrange(first as int, i + 1);
            assert(next.drop_last() =~= s@.subrange(first as int, i as int));
            assert(decimal_value(next) == 10 * decimal_value(s@.subrange(first as int, i as int)) + d);
        }
        if value > 3 || 10 * value + d > 3 {
            value = 4;
        } else {
            value = 10 * value + d;
        }
        i = i + 1;
    }
    assert(s@.subrange(first as int, i as int) =~= digits);
    if value > 3 {
        None
    } else {
        Some(value)
    }
}

/// Reads a strain identifier such as "WPV2" or "opv1": a strain prefix in
/// any ASCII case followed by a serotype number from 1 to 3.
pub fn parse_infection_type(s: &str) -> (r: Option<(InfectionStrain, InfectionSerotype)>)
    ensures
        r == infection_type_of(s@),
{
    let n = s.unicode_len();
    if n < 3 {
        return None;
    }
    let c0 = s.get_char(0);
    let c1 = s.get_char(1);
    let c2 = s.get_char(2);
    let ghost p = s@.take(3);
    assert(p[0] == c0 && p[1] == c1 && p[2] == c2);
    let strain = if same_letter_exec(c1, 'P') && same_letter_exec(c2, 'V') && same_letter_exec(c0, 'W') {
        InfectionStrain::WPV
    } else if same_letter_exec(c1, 'P') && same_letter_exec(c2, 'V') && same_letter_exec(c0, 'O') {
        InfectionStrain::OPV
    } else {
        return None;
    };
    match small_literal_from(s, 3) {
        Some(v) => match InfectionSerotype::from_num(v) {
            Some(serotype) => Some((strain, serotype)),
            None => None,
        },
        None => None,
    }
}

} // verus!
