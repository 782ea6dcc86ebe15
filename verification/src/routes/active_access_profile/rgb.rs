//! Colours, as access profiles write them: `#RRGGBB` or `#RGB`.

use vstd::prelude::*;
use vstd::string::*;

verus! {

/// A colour as three byte channels.
#[derive(Clone, Copy, Debug, PartialEq, Eq, Structural)]
pub struct Rgb {
    pub r: u8,
    pub g: u8,
    pub b: u8,
}

/// The string is no colour.
#[derive(Clone, Copy, Debug, PartialEq, Eq, Structural)]
pub struct RgbParseError;

impl RgbParseError {
    /// The text of the error.
    pub fn message(&self) -> (m: String)
        ensures
            m@ == "Invalid RGB string."@,
    {
        String::from_str("Invalid RGB string.")
    }
}

/// The value of a hexadecimal digit, or -1 for any other character.
pub open spec fn hex_value(c: char) -> int {
    let n = c as int;
    if 48 <= n <= 57 {
        n - 48
    } else if 97 <= n <= 102 {
        n - 87
    } else if 65 <= n <= 70 {
        n - 55
    } else {
        -1
    }
}

/// Every character of `s` is a hexadecimal digit.
pub open spec fn all_hex(s: Seq<char>) -> bool {
    forall|i: int| 0 <= i < s.len() ==> hex_value(#[trigger] s[i]) >= 0
}

/// The number that the hexadecimal digits of `s` write, most significant
/// digit first.
pub open spec fn hex_number(s: Seq<char>) -> int
    decreases s.len(),
{
    if s.len() == 0 {
        0
    } else {
        16 * hex_number(s.drop_last()) + hex_value(s.last())
    }
}

/// One channel: a non-empty run of hexadecimal digits, with no sign, that
/// writes a number below 256.
pub open spec fn spec_parse_one(s: Seq<char>) -> Option<u8> {
    if s.len() > 0 && all_hex(s) && hex_number(s) <= 255 {
        Some(hex_number(s) as u8)
    } else {
        None
    }
}

/// A colour is a `#` and six digits, two for each of the three channels,
/// or a `#` and three digits, one for each channel, that stands for itself
/// written twice. Anything else is no colour.
pub open spec fn spec_from_hex_string(s: Seq<char>) -> Option<Rgb> {
    if s.len() == 7 && s[0] == '#' {
        match (
            spec_parse_one(s.subrange(1, 3)),
            spec_parse_one(s.subrange(3, 5)),
            spec_parse_one(s.subrange(5, 7)),
        ) {
            (Some(r), Some(g), Some(b)) => Some(Rgb { r, g, b }),
            _ => None,
        }
    } else if s.len() == 4 && s[0] == '#' {
        match (
            spec_parse_one(s.subrange(1, 2)),
            spec_parse_one(s.subrange(2, 3)),
            spec_parse_one(s.subrange(3, 4)),
        ) {
            (Some(r), Some(g), Some(b)) => Some(
                Rgb { r: (17 * r) as u8, g: (17 * g) as u8, b: (17 * b) as u8 },
            ),
            _ => None,
        }
    } else {
        None
    }
}

/// Digits only ever add to the number: a prefix writes no more than the
/// whole.
pub proof fn lemma_hex_number_grows(s: Seq<char>, n: int)
    requires
        all_hex(s),
        0 <= n <= s.len(),
    ensures
        0 <= hex_number(s.take(n)) <= hex_number(s),
    decreases s.len() - n,
{
    if n == s.len() {
        assert(s.take(n) =~= s);
        lemma_hex_number_nonnegative(s);
    } else {
        lemma_hex_number_grows(s, n + 1);
        let t = s.take(n + 1);
        assert(t.drop_last() =~= s.take(n));
        assert(t.last() == s[n]);
        assert forall|i: int| 0 <= i < s.take(n).len() implies hex_value(
            #[trigger] s.take(n)[i],
        ) >= 0 by {
            assert(s.take(n)[i] == s[i]);
        }
        lemma_hex_number_nonnegative(s.take(n));
    }
}

/// A run of digits writes a number that is not negative.
pub proof fn lemma_hex_number_nonnegative(s: Seq<char>)
    requires
        all_hex(s),
    ensures
        hex_number(s) >= 0,
    decreases s.len(),
{
    if s.len() > 0 {
        assert forall|i: int| 0 <= i < s.drop_last().len() implies hex_value(
            #[trigger] s.drop_last()[i],
        ) >= 0 by {
            assert(s.drop_last()[i] == s[i]);
        }
        lemma_hex_number_nonnegative(s.drop_last());
    }
}

/// The value of the byte `b` as a hexadecimal digit.
fn hex_digit(b: u8) -> (d: Option<u8>)
    ensures
        match d {
            Some(v) => hex_value(b as char) == v && v < 16,
            None => hex_value(b as char) < 0,
        },
{
    if b >= 48 && b <= 57 {
        Some(b - 48)
    } else if b >= 97 && b <= 102 {
        Some(b - 87)
    } else if b >= 65 && b <= 70 {
        Some(b - 55)
    } else {
        None
    }
}

impl Rgb {
    /// Reads one channel.
    pub fn parse_one(part: &str) -> (r: Result<u8, RgbParseError>)
        ensures
            match spec_parse_one(part@) {
                Some(v) => r == Ok::<u8, RgbParseError>(v),
                None => r == Err::<u8, RgbParseError>(RgbParseError),
            },
    {
        if !part.is_ascii() {
            proof {
                let i = choose|i: int|
                    0 <= i < part@.len() && !('\0' <= #[trigger] part@[i] <= '\u{7f}');
                assert(hex_value(part@[i]) < 0);
            }
            return Err(RgbParseError);
        }
        let bytes = part.as_bytes();
        proof {
            is_ascii_spec_bytes(part);
        }
        let n = bytes.len();
        if n == 0 {
            return Err(RgbParseError);
        }
        let mut acc: u32 = 0;
        let mut i: usize = 0;
        while i < n
            invariant
                i <= n,
                n == part@.len(),
                bytes@.len() == n,
                is_ascii(part),
                forall|k: int| 0 <= k < n ==> bytes@[k] == (#[trigger] part@[k]) as u8,
                all_hex(part@.take(i as int)),
                acc == hex_number(part@.take(i as int)),
                acc <= 255,
            decreases n - i,
        {
            let b = bytes[i];
            assert(b == part@[i as int] as u8);
            assert(b as char == part@[i as int]);
            let ghost next = part@.take(i as int + 1);
            proof {
                assert(next.drop_last() =~= part@.take(i as int));
                assert(next.last() == part@[i as int]);
            }
            match hex_digit(b) {
                None => {
                    return Err(RgbParseError);
                },
                Some(d) => {
                    acc = acc * 16 + d as u32;
                    proof {
                        assert forall|k: int| 0 <= k < next.len() implies hex_value(
                            #[trigger] next[k],
                        ) >= 0 by {
                            if k < i {
                                assert(next[k] == part@.take(i as int)[k]);
                            }
                        }
                    }
                    if acc > 255 {
                        proof {
                            if all_hex(part@) {
                                lemma_hex_number_grows(part@, i as int + 1);
                            }
                        }
                        return Err(RgbParseError);
                    }
                },
            }
            i += 1;
        }
        proof {
            assert(part@.take(n as int) =~= part@);
        }
        Ok(acc as u8)
    }

    /// Reads a colour written as `#RRGGBB`, or as `#RGB`, in which each
    /// digit stands for itself twice.
    pub fn from_hex_string(string: &str) -> (r: Result<Rgb, RgbParseError>)
        ensures
            match spec_from_hex_string(string@) {
                Some(rgb) => r == Ok::<Rgb, RgbParseError>(rgb),
                None => r == Err::<Rgb, RgbParseError>(RgbParseError),
            },
    {
        let n = string.unicode_len();
        if n != 7 && n != 4 {
            return Err(RgbParseError);
        }
        if string.get_char(0) != '#' {
            return Err(RgbParseError);
        }
        if n == 7 {
            let r = match Rgb::parse_one(string.substring_char(1, 3)) {
                Ok(v) => v,
                Err(e) => {
                    return Err(e);
                },
            };
            let g = match Rgb::parse_one(string.substring_char(3, 5)) {
                Ok(v) => v,
                Err(e) => {
                    return Err(e);
                },
            };
            let b = match Rgb::parse_one(string.substring_char(5, 7)) {
                Ok(v) => v,
                Err(e) => {
                    return Err(e);
                },
            };
            Ok(Rgb { r, g, b })
        } else {
            let r = match Rgb::parse_one(string.substring_char(1, 2)) {
                Ok(v) => v,
                Err(e) => {
                    return Err(e);
                },
            };
            let g = match Rgb::parse_one(string.substring_char(2, 3)) {
                Ok(v) => v,
                Err(e) => {
                    return Err(e);
                },
            };
            let b = match Rgb::parse_one(string.substring_char(3, 4)) {
                Ok(v) => v,
                Err(e) => {
                    return Err(e);
                },
            };
            proof {
                lemma_one_digit(string@.subrange(1, 2));
                lemma_one_digit(string@.subrange(2, 3));
                lemma_one_digit(string@.subrange(3, 4));
            }
            Ok(Rgb { r: 17 * r, g: 17 * g, b: 17 * b })
        }
    }
}

/// One digit writes its own value.
pub proof fn lemma_one_digit(s: Seq<char>)
    requires
        s.len() == 1,
    ensures
        spec_parse_one(s) matches Some(v) ==> v < 16,
        spec_parse_one(s) == if hex_value(s[0]) >= 0 {
            Some(hex_value(s[0]) as u8)
        } else {
            None
        },
{
    assert(s.drop_last().len() == 0);
    assert(hex_number(s) == 16 * hex_number(s.drop_last()) + hex_value(s.last()));
    assert(hex_number(s.drop_last()) == 0);
    if hex_value(s[0]) >= 0 {
        assert(all_hex(s));
    } else {
        assert(!all_hex(s));
    }
}

/// Two digits write sixteen times the first and once the second.
pub proof fn lemma_two_digits(s: Seq<char>)
    requires
        s.len() == 2,
    ensures
        spec_parse_one(s) == if hex_value(s[0]) >= 0 && hex_value(s[1]) >= 0 {
            Some((16 * hex_value(s[0]) + hex_value(s[1])) as u8)
        } else {
            None
        },
{
    let head = s.drop_last();
    assert(head.len() == 1 && head[0] == s[0]);
    assert(head.drop_last().len() == 0);
    assert(hex_number(head) == 16 * hex_number(head.drop_last()) + hex_value(head.last()));
    assert(hex_number(head.drop_last()) == 0);
    assert(hex_number(s) == 16 * hex_number(head) + hex_value(s.last()));
    if hex_value(s[0]) >= 0 && hex_value(s[1]) >= 0 {
        assert(all_hex(s));
    } else {
        assert(!all_hex(s));
    }
}

/// The whole of colour parsing in one statement: a string is a colour
/// exactly if it is a `#` followed by six digits, which are read two by two,
/// or a `#` followed by three digits, each of which counts seventeen times.
/// A leading character other than `#`, a character that is no digit, a
/// sign, or any other length is no colour.
pub proof fn lemma_colour_is_hash_and_digits(s: Seq<char>)
    ensures
        spec_from_hex_string(s) == if s.len() == 7 && s[0] == '#' && hex_value(s[1]) >= 0
            && hex_value(s[2]) >= 0 && hex_value(s[3]) >= 0 && hex_value(s[4]) >= 0 && hex_value(
            s[5],
        ) >= 0 && hex_value(s[6]) >= 0 {
            Some(
                Rgb {
                    r: (16 * hex_value(s[1]) + hex_value(s[2])) as u8,
                    g: (16 * hex_value(s[3]) + hex_value(s[4])) as u8,
                    b: (16 * hex_value(s[5]) + hex_value(s[6])) as u8,
                },
            )
        } else if s.len() == 4 && s[0] == '#' && hex_value(s[1]) >= 0 && hex_value(s[2]) >= 0
            && hex_value(s[3]) >= 0 {
            Some(
                Rgb {
                    r: (17 * hex_value(s[1])) as u8,
                    g: (17 * hex_value(s[2])) as u8,
                    b: (17 * hex_value(s[3])) as u8,
                },
            )
        } else {
            None
        },
{
    if s.len() == 7 {
        lemma_two_digits(s.subrange(1, 3));
        lemma_two_digits(s.subrange(3, 5));
        lemma_two_digits(s.subrange(5, 7));
    } else if s.len() == 4 {
        lemma_one_digit(s.subrange(1, 2));
        lemma_one_digit(s.subrange(2, 3));
        lemma_one_digit(s.subrange(3, 4));
    }
}

} // verus!
