//! The fixed-width token encoding of a handle.
//!
//! A handle serializes as an opaque token of exactly 16 lowercase hex
//! digits: the slot index in the low 32 bits, the generation in the next
//! 16, the type tag in the high 16 of one packed 64-bit word. Decoding
//! validates the format and rejects malformed tokens as data corruption,
//! never by failing loudly; a well-formed token decodes to the
//! bit-identical packed word it was encoded from.

use vstd::prelude::*;

verus! {

/// Why a token was rejected.
#[derive(Clone, Copy, PartialEq, Eq, Structural, Debug)]
pub enum TokenError {
    /// The token is not exactly 16 characters long.
    InvalidLength,
    /// A character of the token is not a lowercase hex digit.
    InvalidDigit,
}

/// The packed word of a handle's fields.
pub open spec fn pack_handle(index: u32, generation: u16, tid: u16) -> u64 {
    (index as u64) | ((generation as u64) << 32) | ((tid as u64) << 48)
}

/// The `i`-th hex digit of `v`, counted from the most significant.
pub open spec fn nibble_of(v: u64, i: int) -> u64 {
    (v >> ((4 * (15 - i)) as u64)) & 0xf
}

/// The lowercase hex character of a digit value below 16.
pub open spec fn hex_char(d: u64) -> char {
    if d == 0 {
        '0'
    } else if d == 1 {
        '1'
    } else if d == 2 {
        '2'
    } else if d == 3 {
        '3'
    } else if d == 4 {
        '4'
    } else if d == 5 {
        '5'
    } else if d == 6 {
        '6'
    } else if d == 7 {
        '7'
    } else if d == 8 {
        '8'
    } else if d == 9 {
        '9'
    } else if d == 10 {
        'a'
    } else if d == 11 {
        'b'
    } else if d == 12 {
        'c'
    } else if d == 13 {
        'd'
    } else if d == 14 {
        'e'
    } else {
        'f'
    }
}

/// The digit value of a lowercase hex character, if it is one.
pub open spec fn hex_val(c: char) -> Option<u64> {
    if c == '0' {
        Some(0u64)
    } else if c == '1' {
        Some(1u64)
    } else if c == '2' {
        Some(2u64)
    } else if c == '3' {
        Some(3u64)
    } else if c == '4' {
        Some(4u64)
    } else if c == '5' {
        Some(5u64)
    } else if c == '6' {
        Some(6u64)
    } else if c == '7' {
        Some(7u64)
    } else if c == '8' {
        Some(8u64)
    } else if c == '9' {
        Some(9u64)
    } else if c == 'a' {
        Some(10u64)
    } else if c == 'b' {
        Some(11u64)
    } else if c == 'c' {
        Some(12u64)
    } else if c == 'd' {
        Some(13u64)
    } else if c == 'e' {
        Some(14u64)
    } else if c == 'f' {
        Some(15u64)
    } else {
        None
    }
}

/// The 16-digit token of a packed word.
pub open spec fn token_of(v: u64) -> Seq<char> {
    Seq::new(16, |i: int| hex_char(nibble_of(v, i)))
}

/// Reading back a written digit gives the digit.
pub proof fn lemma_hex_char_val(d: u64)
    requires
        d < 16,
    ensures
        hex_val(hex_char(d)) == Some(d),
{
}

/// Two packed words with the same token agree on every hex digit, and so
/// on every bit: encoding is injective, which makes the decoder's answer
/// unique.
pub proof fn lemma_token_injective(v1: u64, v2: u64)
    requires
        token_of(v1) == token_of(v2),
    ensures
        v1 == v2,
{
    assert forall|i: int| 0 <= i < 16 implies nibble_of(v1, i) == nibble_of(v2, i) by {
        assert(token_of(v1)[i] == hex_char(nibble_of(v1, i)));
        assert(token_of(v2)[i] == hex_char(nibble_of(v2, i)));
        assert(hex_char(nibble_of(v1, i)) == hex_char(nibble_of(v2, i)));
        assert(nibble_of(v1, i) < 16 && nibble_of(v2, i) < 16) by {
            let s = (4 * (15 - i)) as u64;
            assert((v1 >> s) & 0xf < 16 && (v2 >> s) & 0xf < 16) by (bit_vector);
        }
        lemma_hex_char_val(nibble_of(v1, i));
        lemma_hex_char_val(nibble_of(v2, i));
        assert(hex_val(hex_char(nibble_of(v1, i))) == Some(nibble_of(v1, i)));
        assert(hex_val(hex_char(nibble_of(v2, i))) == Some(nibble_of(v2, i)));
    }
    assert(nibble_of(v1, 0) == nibble_of(v2, 0));
    assert(nibble_of(v1, 1) == nibble_of(v2, 1));
    assert(nibble_of(v1, 2) == nibble_of(v2, 2));
    assert(nibble_of(v1, 3) == nibble_of(v2, 3));
    assert(nibble_of(v1, 4) == nibble_of(v2, 4));
    assert(nibble_of(v1, 5) == nibble_of(v2, 5));
    assert(nibble_of(v1, 6) == nibble_of(v2, 6));
    assert(nibble_of(v1, 7) == nibble_of(v2, 7));
    assert(nibble_of(v1, 8) == nibble_of(v2, 8));
    assert(nibble_of(v1, 9) == nibble_of(v2, 9));
    assert(nibble_of(v1, 10) == nibble_of(v2, 10));
    assert(nibble_of(v1, 11) == nibble_of(v2, 11));
    assert(nibble_of(v1, 12) == nibble_of(v2, 12));
    assert(nibble_of(v1, 13) == nibble_of(v2, 13));
    assert(nibble_of(v1, 14) == nibble_of(v2, 14));
    assert(nibble_of(v1, 15) == nibble_of(v2, 15));
    assert((v1 >> 60u64) & 0xf == (v2 >> 60u64) & 0xf && (v1 >> 56u64) & 0xf == (v2 >> 56u64) & 0xf
        && (v1 >> 52u64) & 0xf == (v2 >> 52u64) & 0xf && (v1 >> 48u64) & 0xf == (v2 >> 48u64) & 0xf
        && (v1 >> 44u64) & 0xf == (v2 >> 44u64) & 0xf && (v1 >> 40u64) & 0xf == (v2 >> 40u64) & 0xf
        && (v1 >> 36u64) & 0xf == (v2 >> 36u64) & 0xf && (v1 >> 32u64) & 0xf == (v2 >> 32u64) & 0xf
        && (v1 >> 28u64) & 0xf == (v2 >> 28u64) & 0xf && (v1 >> 24u64) & 0xf == (v2 >> 24u64) & 0xf
        && (v1 >> 20u64) & 0xf == (v2 >> 20u64) & 0xf && (v1 >> 16u64) & 0xf == (v2 >> 16u64) & 0xf
        && (v1 >> 12u64) & 0xf == (v2 >> 12u64) & 0xf && (v1 >> 8u64) & 0xf == (v2 >> 8u64) & 0xf
        && (v1 >> 4u64) & 0xf == (v2 >> 4u64) & 0xf && (v1 >> 0u64) & 0xf == (v2 >> 0u64) & 0xf
        ==> v1 == v2) by (bit_vector);
}

/// Token round trip at the field level: handles with the same token agree
/// on index, generation and type tag, so decoding a previously encoded
/// token yields the bit-identical handle.
pub proof fn lemma_token_identifies_handle(
    i1: u32,
    g1: u16,
    t1: u16,
    i2: u32,
    g2: u16,
    t2: u16,
)
    requires
        token_of(pack_handle(i1, g1, t1)) == token_of(pack_handle(i2, g2, t2)),
    ensures
        i1 == i2 && g1 == g2 && t1 == t2,
{
    lemma_token_injective(pack_handle(i1, g1, t1), pack_handle(i2, g2, t2));
    let a1 = i1 as u64;
    let b1 = g1 as u64;
    let c1 = t1 as u64;
    let a2 = i2 as u64;
    let b2 = g2 as u64;
    let c2 = t2 as u64;
    assert((a1 < 0x1_0000_0000 && b1 < 0x1_0000 && c1 < 0x1_0000 && a2 < 0x1_0000_0000 && b2
        < 0x1_0000 && c2 < 0x1_0000 && (a1 | (b1 << 32) | (c1 << 48)) == (a2 | (b2 << 32) | (c2
        << 48))) ==> (a1 == a2 && b1 == b2 && c1 == c2)) by (bit_vector);
}

/// One lowercase hex digit as a string slice.
fn hex_digit_str(d: u64) -> (r: &'static str)
    requires
        d < 16,
    ensures
        r@ =~= seq![hex_char(d)],
{
    if d == 0 {
        proof {
            reveal_strlit("0");
        }
        "0"
    } else if d == 1 {
        proof {
            reveal_strlit("1");
        }
        "1"
    } else if d == 2 {
        proof {
            reveal_strlit("2");
        }
        "2"
    } else if d == 3 {
        proof {
            reveal_strlit("3");
        }
        "3"
    } else if d == 4 {
        proof {
            reveal_strlit("4");
        }
        "4"
    } else if d == 5 {
        proof {
            reveal_strlit("5");
        }
        "5"
    } else if d == 6 {
        proof {
            reveal_strlit("6");
        }
        "6"
    } else if d == 7 {
        proof {
            reveal_strlit("7");
        }
        "7"
    } else if d == 8 {
        proof {
            reveal_strlit("8");
        }
        "8"
    } else if d == 9 {
        proof {
            reveal_strlit("9");
        }
        "9"
    } else if d == 10 {
        proof {
            reveal_strlit("a");
        }
        "a"
    } else if d == 11 {
        proof {
            reveal_strlit("b");
        }
        "b"
    } else if d == 12 {
        proof {
            reveal_strlit("c");
        }
        "c"
    } else if d == 13 {
        proof {
            reveal_strlit("d");
        }
        "d"
    } else if d == 14 {
        proof {
            reveal_strlit("e");
        }
        "e"
    } else {
        proof {
            reveal_strlit("f");
        }
        "f"
    }
}

/// Write the 16-digit token of a packed word.
pub fn encode_token(v: u64) -> (r: String)
    ensures
        r@ == token_of(v),
{
    let mut s = String::new();
    let mut i: usize = 0;
    while i < 16
        invariant
            i <= 16,
            s@.len() == i,
            forall|j: int| 0 <= j < i ==> s@[j] == hex_char(nibble_of(v, j)),
        decreases 16 - i,
    {
        let shift: u64 = (4 * (15 - i)) as u64;
        let d: u64 = (v >> shift) & 0xf;
        proof {
            assert((v >> shift) & 0xf < 16) by (bit_vector);
        }
        let digit = hex_digit_str(d);
        s.append(digit);
        i = i + 1;
    }
    proof {
        assert(s@ =~= token_of(v));
    }
    s
}

/// Pieces of bit fiddling behind the decoder: writing a fresh digit into
/// a zeroed 4-bit region neither disturbs the other regions nor misses.
proof fn lemma_set_nibble(a: u64, d: u64, s1: u64, s2: u64)
    requires
        d < 16,
        s1 % 4 == 0,
        s2 % 4 == 0,
        s1 < 64,
        s2 < 64,
    ensures
        s1 != s2 ==> ((a | (d << s2)) >> s1) & 0xf == (a >> s1) & 0xf,
        (a >> s2) & 0xf == 0 ==> ((a | (d << s2)) >> s2) & 0xf == d,
{
    assert((d < 16 && s1 % 4 == 0 && s2 % 4 == 0 && s1 < 64 && s2 < 64 && s1 != s2) ==> ((a | (d
        << s2)) >> s1) & 0xf == (a >> s1) & 0xf) by (bit_vector);
    assert((d < 16 && s2 % 4 == 0 && s2 < 64 && (a >> s2) & 0xf == 0) ==> ((a | (d << s2)) >> s2)
        & 0xf == d) by (bit_vector);
}

/// Read a 16-digit token back into its packed word. A token of the wrong
/// length or with a character that is no lowercase hex digit is rejected
/// as corrupt, saying which of the two is wrong.
pub fn decode_token(s: &str) -> (r: Result<u64, TokenError>)
    ensures
        match r {
            Ok(v) => s@.len() == 16 && s@ == token_of(v),
            Err(e) => match e {
                TokenError::InvalidLength => s@.len() != 16,
                TokenError::InvalidDigit => s@.len() == 16 && exists|j: int|
                    0 <= j < 16 && hex_val(s@[j]) is None,
            },
        },
{
    if s.unicode_len() != 16 {
        return Err(TokenError::InvalidLength);
    }
    let mut v: u64 = 0;
    proof {
        assert forall|j: int| 0 <= j < 16 implies nibble_of(0u64, j) == 0 by {
            let sh = (4 * (15 - j)) as u64;
            assert((0u64 >> sh) & 0xf == 0) by (bit_vector);
        }
    }
    let mut i: usize = 0;
    while i < 16
        invariant
            s@.len() == 16,
            i <= 16,
            forall|j: int| 0 <= j < i ==> (#[trigger] hex_val(s@[j])) is Some,
            forall|j: int| 0 <= j < i ==> #[trigger] nibble_of(v, j) == hex_val(s@[j])->Some_0,
            forall|j: int| i <= j < 16 ==> #[trigger] nibble_of(v, j) == 0,
        decreases 16 - i,
    {
        let c = s.get_char(i);
        let d: u64 = match c {
            '0' => 0,
            '1' => 1,
            '2' => 2,
            '3' => 3,
            '4' => 4,
            '5' => 5,
            '6' => 6,
            '7' => 7,
            '8' => 8,
            '9' => 9,
            'a' => 10,
            'b' => 11,
            'c' => 12,
            'd' => 13,
            'e' => 14,
            'f' => 15,
            _ => {
                return Err(TokenError::InvalidDigit);
            },
        };
        proof {
            assert(hex_val(s@[i as int]) == Some(d));
        }
        let shift: u64 = (4 * (15 - i)) as u64;
        let ghost v_before = v;
        v = v | (d << shift);
        proof {
            assert(shift == (4 * (15 - i as int)) as u64);
            assert(shift % 4 == 0 && shift < 64);
            assert forall|j: int| 0 <= j < 16 && j != i implies nibble_of(v, j) == nibble_of(
                v_before,
                j,
            ) by {
                let sj = (4 * (15 - j)) as u64;
                assert(sj % 4 == 0 && sj < 64 && sj != shift);
                lemma_set_nibble(v_before, d, sj, shift);
            }
            assert(nibble_of(v_before, i as int) == 0);
            assert(d < 16);
            assert(nibble_of(v, i as int) == d) by {
                lemma_set_nibble(v_before, d, shift, shift);
            }
            assert forall|j: int|
                0 <= j <= i implies (#[trigger] hex_val(s@[j])) is Some && #[trigger] nibble_of(
                v,
                j,
            ) == hex_val(s@[j])->Some_0 by {
                if j < i {
                    assert(nibble_of(v, j) == nibble_of(v_before, j));
                } else {
                    assert(hex_val(s@[j]) == Some(d));
                }
            }
        }
        i = i + 1;
    }
    proof {
        assert(s@ =~= token_of(v));
    }
    Ok(v)
}

} // verus!
