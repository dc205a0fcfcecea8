//! Universally unique identifiers carried as plain bytes, with their
//! hyphenated wire form.
//!
//! A [`UuidWrapper`] holds the sixteen bytes directly. Its wire form is the
//! hyphenated lower-case hexadecimal string (8-4-4-4-12 digits); parsing
//! also accepts upper-case digits. The host glue converts between this
//! type and whatever identifier type its serializer wants.

use vstd::prelude::*;
use vstd::string::{StrSliceExecFns, StringExecFns};

verus! {

/// The lower-case hexadecimal digit character for `n` in `0..=15`.
pub open spec fn hex_char(n: int) -> char {
    if n == 0 {
        '0'
    } else if n == 1 {
        '1'
    } else if n == 2 {
        '2'
    } else if n == 3 {
        '3'
    } else if n == 4 {
        '4'
    } else if n == 5 {
        '5'
    } else if n == 6 {
        '6'
    } else if n == 7 {
        '7'
    } else if n == 8 {
        '8'
    } else if n == 9 {
        '9'
    } else if n == 10 {
        'a'
    } else if n == 11 {
        'b'
    } else if n == 12 {
        'c'
    } else if n == 13 {
        'd'
    } else if n == 14 {
        'e'
    } else {
        'f'
    }
}

/// The value of a hexadecimal digit character, either case; `16` marks
/// every other character.
pub open spec fn hex_value(c: char) -> int {
    if c == '0' {
        0
    } else if c == '1' {
        1
    } else if c == '2' {
        2
    } else if c == '3' {
        3
    } else if c == '4' {
        4
    } else if c == '5' {
        5
    } else if c == '6' {
        6
    } else if c == '7' {
        7
    } else if c == '8' {
        8
    } else if c == '9' {
        9
    } else if c == 'a' || c == 'A' {
        10
    } else if c == 'b' || c == 'B' {
        11
    } else if c == 'c' || c == 'C' {
        12
    } else if c == 'd' || c == 'D' {
        13
    } else if c == 'e' || c == 'E' {
        14
    } else if c == 'f' || c == 'F' {
        15
    } else {
        16
    }
}

/// The two lower-case hexadecimal digits of a byte.
pub open spec fn hex_byte_seq(b: int) -> Seq<char> {
    seq![hex_char(b / 16), hex_char(b % 16)]
}

/// The hyphenated form of sixteen bytes: 8-4-4-4-12 hexadecimal digits.
pub open spec fn uuid_hyphenated_seq(bs: Seq<u8>) -> Seq<char> {
    hex_byte_seq(bs[0] as int) + hex_byte_seq(bs[1] as int) + hex_byte_seq(bs[2] as int)
        + hex_byte_seq(bs[3] as int) + seq!['-'] + hex_byte_seq(bs[4] as int) + hex_byte_seq(
        bs[5] as int,
    ) + seq!['-'] + hex_byte_seq(bs[6] as int) + hex_byte_seq(bs[7] as int) + seq!['-']
        + hex_byte_seq(bs[8] as int) + hex_byte_seq(bs[9] as int) + seq!['-'] + hex_byte_seq(
        bs[10] as int,
    ) + hex_byte_seq(bs[11] as int) + hex_byte_seq(bs[12] as int) + hex_byte_seq(bs[13] as int)
        + hex_byte_seq(bs[14] as int) + hex_byte_seq(bs[15] as int)
}

/// The character position of byte `j`'s first digit in the hyphenated
/// form.
pub open spec fn byte_pos(j: int) -> int {
    if j < 4 {
        2 * j
    } else if j < 6 {
        2 * j + 1
    } else if j < 8 {
        2 * j + 2
    } else if j < 10 {
        2 * j + 3
    } else {
        2 * j + 4
    }
}

/// What parsing a hyphenated identifier yields: the sixteen bytes, if and
/// only if the text is 36 characters with hyphens at positions 8, 13, 18
/// and 23 and hexadecimal digits (either case) everywhere else.
pub open spec fn parse_hyphenated_spec(s: Seq<char>) -> Option<Seq<u8>> {
    if s.len() == 36 && s[8] == '-' && s[13] == '-' && s[18] == '-' && s[23] == '-' && (forall|
        j: int,
    |
        0 <= j < 16 ==> hex_value(s[#[trigger] byte_pos(j)]) < 16 && hex_value(s[byte_pos(j) + 1])
            < 16) {
        Some(
            Seq::new(
                16,
                |j: int| (hex_value(s[byte_pos(j)]) * 16 + hex_value(s[byte_pos(j) + 1])) as u8,
            ),
        )
    } else {
        None
    }
}

/// The single lower-case hexadecimal digit `n` as a string slice.
fn hex_str(n: u8) -> (r: &'static str)
    requires
        n <= 15,
    ensures
        r@ == seq![hex_char(n as int)],
{
    if n < 10 {
        match n {
            0 => {
                proof {
                    reveal_strlit("0");
                    assert("0"@ =~= seq![hex_char(0)]);
                }
                "0"
            },
            1 => {
                proof {
                    reveal_strlit("1");
                    assert("1"@ =~= seq![hex_char(1)]);
                }
                "1"
            },
            2 => {
                proof {
                    reveal_strlit("2");
                    assert("2"@ =~= seq![hex_char(2)]);
                }
                "2"
            },
            3 => {
                proof {
                    reveal_strlit("3");
                    assert("3"@ =~= seq![hex_char(3)]);
                }
                "3"
            },
            4 => {
                proof {
                    reveal_strlit("4");
                    assert("4"@ =~= seq![hex_char(4)]);
                }
                "4"
            },
            5 => {
                proof {
                    reveal_strlit("5");
                    assert("5"@ =~= seq![hex_char(5)]);
                }
                "5"
            },
            6 => {
                proof {
                    reveal_strlit("6");
                    assert("6"@ =~= seq![hex_char(6)]);
                }
                "6"
            },
            7 => {
                proof {
                    reveal_strlit("7");
                    assert("7"@ =~= seq![hex_char(7)]);
                }
                "7"
            },
            8 => {
                proof {
                    reveal_strlit("8");
                    assert("8"@ =~= seq![hex_char(8)]);
                }
                "8"
            },
            _ => {
                proof {
                    reveal_strlit("9");
                    assert("9"@ =~= seq![hex_char(9)]);
                }
                "9"
            },
        }
    } else {
        match n {
            10 => {
                proof {
                    reveal_strlit("a");
                    assert("a"@ =~= seq![hex_char(10)]);
                }
                "a"
            },
            11 => {
                proof {
                    reveal_strlit("b");
                    assert("b"@ =~= seq![hex_char(11)]);
                }
                "b"
            },
            12 => {
                proof {
                    reveal_strlit("c");
                    assert("c"@ =~= seq![hex_char(12)]);
                }
                "c"
            },
            13 => {
                proof {
                    reveal_strlit("d");
                    assert("d"@ =~= seq![hex_char(13)]);
                }
                "d"
            },
            14 => {
                proof {
                    reveal_strlit("e");
                    assert("e"@ =~= seq![hex_char(14)]);
                }
                "e"
            },
            _ => {
                proof {
                    reveal_strlit("f");
                    assert("f"@ =~= seq![hex_char(15)]);
                }
                "f"
            },
        }
    }
}

/// The value of a hexadecimal digit character; `16` for every other
/// character.
fn hex_of(c: char) -> (r: u8)
    ensures
        r as int == hex_value(c),
{
    match c {
        '0' => 0,
        '1' => 1,
        '2' => 2,
        '3' => 3,
        '4' => 4,
        '5' => 5,
        '6' => 6,
        '7' => 7,
        '8' => 8,
        '9' => 9,
        'a' => 10,
        'A' => 10,
        'b' => 11,
        'B' => 11,
        'c' => 12,
        'C' => 12,
        'd' => 13,
        'D' => 13,
        'e' => 14,
        'E' => 14,
        'f' => 15,
        'F' => 15,
        _ => 16,
    }
}

fn byte_pos_of(j: usize) -> (r: usize)
    requires
        j < 16,
    ensures
        r as int == byte_pos(j as int),
        r + 1 < 36,
{
    if j < 4 {
        2 * j
    } else if j < 6 {
        2 * j + 1
    } else if j < 8 {
        2 * j + 2
    } else if j < 10 {
        2 * j + 3
    } else {
        2 * j + 4
    }
}

/// Append the two hexadecimal digits of one byte.
fn push_hex_byte(s: &mut String, b: u8)
    ensures
        final(s)@ == old(s)@ + hex_byte_seq(b as int),
{
    s.append(hex_str(b / 16));
    s.append(hex_str(b % 16));
    proof {
        assert(s@ =~= old(s)@ + hex_byte_seq(b as int));
    }
}

/// Append one hyphen.
fn push_hyphen(s: &mut String)
    ensures
        final(s)@ == old(s)@ + seq!['-'],
{
    proof {
        reveal_strlit("-");
    }
    s.append("-");
    proof {
        assert(s@ =~= old(s)@ + seq!['-']);
    }
}

/// A universally unique identifier: sixteen plain bytes.
#[derive(Clone, Debug, PartialEq, Eq, Hash)]
pub struct UuidWrapper {
    pub bytes: Vec<u8>,
}

impl UuidWrapper {
    /// Exactly sixteen bytes.
    pub open spec fn valid(self) -> bool {
        self.bytes@.len() == 16
    }

    /// The identifier from sixteen bytes, or nothing when the count is
    /// off.
    pub fn from_bytes(bytes: Vec<u8>) -> (r: Option<UuidWrapper>)
        ensures
            bytes@.len() == 16 ==> r == Some(UuidWrapper { bytes }),
            bytes@.len() != 16 ==> r is None,
    {
        if bytes.len() == 16 {
            Some(UuidWrapper { bytes })
        } else {
            None
        }
    }

    /// The hyphenated lower-case hexadecimal form, 8-4-4-4-12 digits.
    #[verifier::rlimit(100)]
    pub fn to_hyphenated_string(&self) -> (r: String)
        requires
            self.valid(),
        ensures
            r@ == uuid_hyphenated_seq(self.bytes@),
    {
        let b = &self.bytes;
        let mut s = String::new();
        push_hex_byte(&mut s, b[0]);
        proof {
            assert(Seq::<char>::empty() + hex_byte_seq(self.bytes@[0] as int) =~= hex_byte_seq(
                self.bytes@[0] as int,
            ));
        }
        push_hex_byte(&mut s, b[1]);
        push_hex_byte(&mut s, b[2]);
        push_hex_byte(&mut s, b[3]);
        push_hyphen(&mut s);
        push_hex_byte(&mut s, b[4]);
        push_hex_byte(&mut s, b[5]);
        push_hyphen(&mut s);
        push_hex_byte(&mut s, b[6]);
        push_hex_byte(&mut s, b[7]);
        push_hyphen(&mut s);
        push_hex_byte(&mut s, b[8]);
        push_hex_byte(&mut s, b[9]);
        push_hyphen(&mut s);
        push_hex_byte(&mut s, b[10]);
        push_hex_byte(&mut s, b[11]);
        push_hex_byte(&mut s, b[12]);
        push_hex_byte(&mut s, b[13]);
        push_hex_byte(&mut s, b[14]);
        push_hex_byte(&mut s, b[15]);
        assert(s@ == uuid_hyphenated_seq(self.bytes@));
        s
    }

    /// Parse a hyphenated identifier, either digit case. Returns the bytes
    /// exactly when [`parse_hyphenated_spec`] accepts the text.
    pub fn parse_hyphenated(s: &str) -> (r: Option<UuidWrapper>)
        ensures
            (r matches Some(w) ==> w.valid() && parse_hyphenated_spec(s@) == Some(w.bytes@)),
            r is None ==> parse_hyphenated_spec(s@) is None,
    {
        if s.unicode_len() != 36 {
            return None;
        }
        proof {
            reveal_strlit("-");
        }
        if s.get_char(8) != '-' || s.get_char(13) != '-' || s.get_char(18) != '-' || s.get_char(23)
            != '-' {
            return None;
        }
        let mut bytes: Vec<u8> = Vec::new();
        let mut j: usize = 0;
        while j < 16
            invariant
                s@.len() == 36,
                s@[8] == '-',
                s@[13] == '-',
                s@[18] == '-',
                s@[23] == '-',
                0 <= j <= 16,
                bytes@.len() == j,
                forall|t: int|
                    0 <= t < j ==> hex_value(s@[#[trigger] byte_pos(t)]) < 16 && hex_value(
                        s@[byte_pos(t) + 1],
                    ) < 16 && bytes@[t] == (hex_value(s@[byte_pos(t)]) * 16 + hex_value(
                        s@[byte_pos(t) + 1],
                    )) as u8,
            decreases 16 - j,
        {
            let pos = byte_pos_of(j);
            let hi = hex_of(s.get_char(pos));
            let lo = hex_of(s.get_char(pos + 1));
            if hi > 15 || lo > 15 {
                return None;
            }
            bytes.push(hi * 16 + lo);
            j += 1;
        }
        proof {
            assert(bytes@ =~= Seq::new(
                16,
                |t: int| (hex_value(s@[byte_pos(t)]) * 16 + hex_value(s@[byte_pos(t) + 1])) as u8,
            ));
        }
        Some(UuidWrapper { bytes })
    }
}

/// The hexadecimal digit characters decode to the value they encode.
proof fn lemma_hex_char_value(n: int)
    requires
        0 <= n < 16,
    ensures
        hex_value(hex_char(n)) == n,
{
}

/// Where each character of the hyphenated form sits: byte `j` contributes
/// its two digits at [`byte_pos`]`(j)`.
proof fn lemma_uuid_seq_index(bs: Seq<u8>, j: int)
    requires
        bs.len() == 16,
        0 <= j < 16,
    ensures
        uuid_hyphenated_seq(bs).len() == 36,
        uuid_hyphenated_seq(bs)[byte_pos(j)] == hex_char(bs[j] as int / 16),
        uuid_hyphenated_seq(bs)[byte_pos(j) + 1] == hex_char(bs[j] as int % 16),
{
}

/// Formatting sixteen bytes and parsing the text back yields the same
/// bytes: the hyphenated form is a faithful wire format.
#[verifier::rlimit(100)]
#[verifier::spinoff_prover]
pub proof fn lemma_hyphenated_round_trip(bs: Seq<u8>)
    requires
        bs.len() == 16,
    ensures
        parse_hyphenated_spec(uuid_hyphenated_seq(bs)) == Some(bs),
{
    let s = uuid_hyphenated_seq(bs);
    assert forall|j: int| 0 <= j < 16 implies hex_value(s[#[trigger] byte_pos(j)]) < 16
        && hex_value(s[byte_pos(j) + 1]) < 16 by {
        lemma_uuid_seq_index(bs, j);
        lemma_hex_char_value(bs[j] as int / 16);
        lemma_hex_char_value(bs[j] as int % 16);
    }
    lemma_uuid_seq_index(bs, 0);
    assert(s[8] == '-');
    assert(s[13] == '-');
    assert(s[18] == '-');
    assert(s[23] == '-');
    let decoded = Seq::new(
        16,
        |j: int| (hex_value(s[byte_pos(j)]) * 16 + hex_value(s[byte_pos(j) + 1])) as u8,
    );
    assert forall|j: int| 0 <= j < 16 implies decoded[j] == bs[j] by {
        lemma_uuid_seq_index(bs, j);
        lemma_hex_char_value(bs[j] as int / 16);
        lemma_hex_char_value(bs[j] as int % 16);
        assert((bs[j] as int / 16) * 16 + bs[j] as int % 16 == bs[j] as int) by (nonlinear_arith)
            requires
                0 <= (bs[j] as int) < 256,
        ;
    }
    assert(decoded =~= bs);
}

impl Default for UuidWrapper {
    /// The nil identifier: sixteen zero bytes.
    fn default() -> (r: Self)
        ensures
            r.valid(),
            r.bytes@ == Seq::new(16nat, |i: int| 0u8),
    {
        let mut bytes: Vec<u8> = Vec::new();
        let mut i: usize = 0;
        while i < 16
            invariant
                0 <= i <= 16,
                bytes@ =~= Seq::new(i as nat, |k: int| 0u8),
            decreases 16 - i,
        {
            bytes.push(0);
            proof {
                assert(bytes@ =~= Seq::new((i + 1) as nat, |k: int| 0u8));
            }
            i += 1;
        }
        proof {
            assert(bytes@ =~= Seq::new(16nat, |i: int| 0u8));
        }
        UuidWrapper { bytes }
    }
}

} // verus!
