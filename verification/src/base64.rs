//! Base64 with the standard alphabet and `=` padding, for image bytes that
//! go into a data URI.

use vstd::prelude::*;

verus! {

/// The sixty-four characters, in the order of their values.
pub open spec fn alphabet() -> Seq<char> {
    "ABCDEFGHIJKLMNOPQRSTUVWXYZabcdefghijklmnopqrstuvwxyz0123456789+/"@
}

/// Byte `i` of `data`, or zero past its end.
pub open spec fn byte_or_zero(data: Seq<u8>, i: int) -> nat {
    if 0 <= i < data.len() {
        data[i] as nat
    } else {
        0
    }
}

/// The three bytes of group `g` read as one number of 24 bits, the first
/// byte highest; bytes past the end of `data` count as zero.
pub open spec fn group_value(data: Seq<u8>, g: int) -> nat {
    byte_or_zero(data, 3 * g) * 65536 + byte_or_zero(data, 3 * g + 1) * 256 + byte_or_zero(
        data,
        3 * g + 2,
    )
}

/// The `k`-th of the four six-bit digits of a 24-bit number, highest first.
pub open spec fn sextet(value: nat, k: int) -> nat {
    if k == 0 {
        value / 262144
    } else if k == 1 {
        (value / 4096) % 64
    } else if k == 2 {
        (value / 64) % 64
    } else {
        value % 64
    }
}

/// Character `j` of the encoding: digit `j % 4` of group `j / 4`, or `=`
/// where that digit holds no bit of the input.
pub open spec fn encoded_char(data: Seq<u8>, j: int) -> char {
    let g = j / 4;
    let k = j % 4;
    if 3 * g + k > data.len() {
        '='
    } else {
        alphabet()[sextet(group_value(data, g), k) as int]
    }
}

/// The Base64 encoding of `data`: four characters for every three bytes,
/// the last group padded.
pub open spec fn base64_text(data: Seq<u8>) -> Seq<char> {
    Seq::new(4 * ((data.len() + 2) / 3), |j: int| encoded_char(data, j))
}

/// The bit operations below pick the four digits of the 24-bit group.
proof fn lemma_sextets(b0: u8, b1: u8, b2: u8)
    ensures
        (b0 >> 2) as nat == sextet((b0 * 65536 + b1 * 256 + b2) as nat, 0),
        (((b0 & 0x03) << 4) | (b1 >> 4)) as nat == sextet(
            (b0 * 65536 + b1 * 256 + b2) as nat,
            1,
        ),
        (((b1 & 0x0f) << 2) | (b2 >> 6)) as nat == sextet(
            (b0 * 65536 + b1 * 256 + b2) as nat,
            2,
        ),
        (b2 & 0x3f) as nat == sextet((b0 * 65536 + b1 * 256 + b2) as nat, 3),
        (b0 >> 2) < 64,
        (((b0 & 0x03) << 4) | (b1 >> 4)) < 64,
        (((b1 & 0x0f) << 2) | (b2 >> 6)) < 64,
        (b2 & 0x3f) < 64,
{
    let n: u32 = (b0 as u32 * 65536 + b1 as u32 * 256 + b2 as u32) as u32;
    assert(n == b0 as u32 * 65536 + b1 as u32 * 256 + b2 as u32);
    assert((b0 >> 2) as u32 == n / 262144 && (b0 >> 2) < 64) by (bit_vector)
        requires
            n == b0 as u32 * 65536 + b1 as u32 * 256 + b2 as u32,
    ;
    assert((((b0 & 0x03) << 4) | (b1 >> 4)) as u32 == (n / 4096) % 64 && (((b0 & 0x03) << 4) | (b1
        >> 4)) < 64) by (bit_vector)
        requires
            n == b0 as u32 * 65536 + b1 as u32 * 256 + b2 as u32,
    ;
    assert((((b1 & 0x0f) << 2) | (b2 >> 6)) as u32 == (n / 64) % 64 && (((b1 & 0x0f) << 2) | (b2
        >> 6)) < 64) by (bit_vector)
        requires
            n == b0 as u32 * 65536 + b1 as u32 * 256 + b2 as u32,
    ;
    assert((b2 & 0x3f) as u32 == n % 64 && (b2 & 0x3f) < 64) by (bit_vector)
        requires
            n == b0 as u32 * 65536 + b1 as u32 * 256 + b2 as u32,
    ;
}

/// The one-character string for the six-bit value `v`.
fn digit(v: u8) -> (s: &'static str)
    requires
        v < 64,
    ensures
        s@ == seq![alphabet()[v as int]],
{
    let table = "ABCDEFGHIJKLMNOPQRSTUVWXYZabcdefghijklmnopqrstuvwxyz0123456789+/";
    proof {
        reveal_strlit("ABCDEFGHIJKLMNOPQRSTUVWXYZabcdefghijklmnopqrstuvwxyz0123456789+/");
    }
    let s = table.substring_char(v as usize, v as usize + 1);
    assert(s@ =~= seq![alphabet()[v as int]]);
    s
}

/// Encodes `data` in Base64 with the standard alphabet and `=` padding.
pub fn base64_encode(data: &[u8]) -> (text: String)
    ensures
        text@ == base64_text(data@),
{
    let mut text = String::new();
    let n = data.len();
    let mut i: usize = 0;
    let ghost mut g: int = 0;
    while i < n
        invariant
            n == data@.len(),
            i <= n,
            i == 3 * g || (i == n && g == (n + 2) / 3),
            text@.len() == 4 * g,
            forall|j: int| 0 <= j < text@.len() ==> text@[j] == encoded_char(data@, j),
        decreases n - i,
    {
        let ghost before = text@;
        let b0 = data[i];
        let b1 = if n - i > 1 {
            data[i + 1]
        } else {
            0
        };
        let b2 = if n - i > 2 {
            data[i + 2]
        } else {
            0
        };
        proof {
            lemma_sextets(b0, b1, b2);
            assert(group_value(data@, g) == b0 * 65536 + b1 * 256 + b2);
            reveal_strlit("=");
        }
        text.append(digit(b0 >> 2));
        text.append(digit(((b0 & 0x03) << 4) | (b1 >> 4)));
        text.append(
            if n - i > 1 {
                digit(((b1 & 0x0f) << 2) | (b2 >> 6))
            } else {
                "="
            },
        );
        text.append(
            if n - i > 2 {
                digit(b2 & 0x3f)
            } else {
                "="
            },
        );
        proof {
            assert(text@.len() == before.len() + 4);
            assert forall|j: int| 0 <= j < text@.len() implies text@[j] == encoded_char(
                data@,
                j,
            ) by {
                if j >= before.len() {
                    assert(j / 4 == g);
                    assert(j % 4 == j - 4 * g);
                } else {
                    assert(text@[j] == before[j]);
                }
            }
            g = g + 1;
        }
        i = if n - i > 2 {
            i + 3
        } else {
            n
        };
    }
    assert(text@ =~= base64_text(data@));
    text
}

} // verus!
