//! Bytes as text: base64 with the standard alphabet and padding.
use base64::Engine;
use vstd::prelude::*;

verus! {

/// The character for a six-bit group: `A`-`Z`, `a`-`z`, `0`-`9`, `+`, `/`.
pub open spec fn base64_char(group: int) -> char {
    if group < 26 {
        ((65 + group) as u8) as char
    } else if group < 52 {
        ((71 + group) as u8) as char
    } else if group < 62 {
        ((group - 4) as u8) as char
    } else if group == 62 {
        '+'
    } else {
        '/'
    }
}

/// The byte at a position, and 0 behind the last one.
pub open spec fn byte_or_zero(bytes: Seq<u8>, at: int) -> int {
    if at < bytes.len() {
        bytes[at] as int
    } else {
        0
    }
}

/// The base64 text of some bytes: each three bytes are one big-endian number
/// of four six-bit groups, and `=` stands for a group that holds no bit of a byte.
pub open spec fn base64_text(bytes: Seq<u8>) -> Seq<char> {
    Seq::new(
        ((bytes.len() + 2) / 3 * 4) as nat,
        |i: int|
            {
                let start = i / 4 * 3;
                let word = byte_or_zero(bytes, start) * 65536 + byte_or_zero(bytes, start + 1) * 256
                    + byte_or_zero(bytes, start + 2);
                if i % 4 == 0 {
                    base64_char(word / 262144)
                } else if i % 4 == 1 {
                    base64_char(word / 4096 % 64)
                } else if start + i % 4 - 1 >= bytes.len() {
                    '='
                } else if i % 4 == 2 {
                    base64_char(word / 64 % 64)
                } else {
                    base64_char(word % 64)
                }
            },
    )
}

/// `base64::Engine::encode` with `general_purpose::STANDARD`: the standard
/// alphabet of RFC 4648, with padding.
#[verifier::external_body]
pub(crate) fn encode_base64(bytes: &[u8]) -> (text: String)
    ensures
        text@ == base64_text(bytes@),
{
    base64::engine::general_purpose::STANDARD.encode(bytes)
}

/// The six bits that a character of the alphabet stands for.
pub open spec fn base64_value(c: char) -> int {
    if 'A' <= c && c <= 'Z' {
        c as int - 'A' as int
    } else if 'a' <= c && c <= 'z' {
        26 + (c as int - 'a' as int)
    } else if '0' <= c && c <= '9' {
        52 + (c as int - '0' as int)
    } else if c == '+' {
        62
    } else {
        63
    }
}

proof fn lemma_char_value(group: int)
    requires
        0 <= group < 64,
    ensures
        base64_value(base64_char(group)) == group,
{
}

/// Each six-bit group has a character of its own from the alphabet, and none of
/// them is the padding.
pub proof fn law_base64_alphabet(group: int)
    requires
        0 <= group < 64,
    ensures
        base64_value(base64_char(group)) == group,
        base64_char(group)
            == "ABCDEFGHIJKLMNOPQRSTUVWXYZabcdefghijklmnopqrstuvwxyz0123456789+/"@[group],
        base64_char(group) != '=',
{
    reveal_strlit("ABCDEFGHIJKLMNOPQRSTUVWXYZabcdefghijklmnopqrstuvwxyz0123456789+/");
}

proof fn lemma_quotient(n: int, d: int, q: int, r: int)
    requires
        0 <= r < d,
        n == q * d + r,
    ensures
        n / d == q,
        n % d == r,
{
    vstd::arithmetic::div_mod::lemma_fundamental_div_mod_converse(n, d, q, r);
}

/// The four six-bit groups of three bytes hold their bits in order.
proof fn lemma_groups(a: int, b: int, c: int)
    requires
        0 <= a < 256,
        0 <= b < 256,
        0 <= c < 256,
    ensures
        ({
            let word = a * 65536 + b * 256 + c;
            &&& 0 <= word / 262144 < 64
            &&& word / 262144 == a / 4
            &&& word / 4096 % 64 == a % 4 * 16 + b / 16
            &&& word / 64 % 64 == b % 16 * 4 + c / 64
            &&& word % 64 == c % 64
        }),
{
    let (a1, a0) = (a / 4, a % 4);
    let (b1, b0) = (b / 16, b % 16);
    let (c1, c0) = (c / 64, c % 64);
    let word = a * 65536 + b * 256 + c;
    assert(a == 4 * a1 + a0 && b == 16 * b1 + b0 && c == 64 * c1 + c0);
    lemma_quotient(word, 262144, a1, a0 * 65536 + b * 256 + c);
    lemma_quotient(word, 4096, a1 * 64 + a0 * 16 + b1, b0 * 256 + c);
    lemma_quotient(word, 64, a1 * 4096 + a0 * 1024 + b * 4 + c1, c0);
    lemma_quotient(a1 * 64 + a0 * 16 + b1, 64, a1, a0 * 16 + b1);
    lemma_quotient(
        a1 * 4096 + a0 * 1024 + b * 4 + c1,
        64,
        a1 * 64 + a0 * 16 + b1,
        b0 * 4 + c1,
    );
}

/// The characters of the four groups of the three bytes at `3 * k`.
proof fn lemma_group_chars(bytes: Seq<u8>, k: int)
    requires
        0 <= k,
        3 * k < bytes.len(),
    ensures
        ({
            let text = base64_text(bytes);
            let word = bytes[3 * k] * 65536 + byte_or_zero(bytes, 3 * k + 1) * 256 + byte_or_zero(
                bytes,
                3 * k + 2,
            );
            &&& 4 * k + 3 < text.len()
            &&& text[4 * k] == base64_char(word / 262144)
            &&& text[4 * k + 1] == base64_char(word / 4096 % 64)
            &&& text[4 * k + 2] == if 3 * k + 1 < bytes.len() {
                base64_char(word / 64 % 64)
            } else {
                '='
            }
            &&& text[4 * k + 3] == if 3 * k + 2 < bytes.len() {
                base64_char(word % 64)
            } else {
                '='
            }
        }),
{
    assert(4 * k / 4 * 3 == 3 * k && (4 * k) % 4 == 0);
    assert((4 * k + 1) / 4 * 3 == 3 * k && (4 * k + 1) % 4 == 1);
    assert((4 * k + 2) / 4 * 3 == 3 * k && (4 * k + 2) % 4 == 2);
    assert((4 * k + 3) / 4 * 3 == 3 * k && (4 * k + 3) % 4 == 3);
}

/// The base64 text of some bytes has four characters for each three bytes, the
/// last of them begun or not.
pub proof fn law_base64_length(bytes: Seq<u8>)
    ensures
        base64_text(bytes).len() % 4 == 0,
        4 * bytes.len() <= 3 * base64_text(bytes).len() < 4 * (bytes.len() + 3),
{
}

/// The base64 text of some bytes gives them back, with `=` in place of the
/// characters that hold no bit of a byte.
pub proof fn law_base64_reads_back(bytes: Seq<u8>, k: int)
    requires
        0 <= k,
        3 * k < bytes.len(),
    ensures
        ({
            let text = base64_text(bytes);
            &&& 4 * k + 3 < text.len()
            &&& bytes[3 * k] == base64_value(text[4 * k]) * 4 + base64_value(text[4 * k + 1]) / 16
            &&& if 3 * k + 1 < bytes.len() {
                bytes[3 * k + 1] == base64_value(text[4 * k + 1]) % 16 * 16 + base64_value(
                    text[4 * k + 2],
                ) / 4
            } else {
                base64_value(text[4 * k + 1]) % 16 == 0 && text[4 * k + 2] == '='
            }
            &&& if 3 * k + 2 < bytes.len() {
                bytes[3 * k + 2] == base64_value(text[4 * k + 2]) % 4 * 64 + base64_value(
                    text[4 * k + 3],
                )
            } else {
                text[4 * k + 3] == '=' && (text[4 * k + 2] == '=' || base64_value(text[4 * k + 2])
                    % 4 == 0)
            }
        }),
{
    let a = bytes[3 * k] as int;
    let b = byte_or_zero(bytes, 3 * k + 1);
    let c = byte_or_zero(bytes, 3 * k + 2);
    let word = a * 65536 + b * 256 + c;
    lemma_group_chars(bytes, k);
    lemma_groups(a, b, c);
    lemma_char_value(word / 262144);
    lemma_char_value(word / 4096 % 64);
    lemma_char_value(word / 64 % 64);
    lemma_char_value(word % 64);
}

} // verus!
