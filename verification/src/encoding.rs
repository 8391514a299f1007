//! Base64, in which file contents travel to the GitHub API.

use base64::Engine;
use vstd::prelude::*;
use vstd::string::*;

verus! {

/// The base64 character for a number below 64.
pub open spec fn base64_digit(n: int) -> char {
    "ABCDEFGHIJKLMNOPQRSTUVWXYZabcdefghijklmnopqrstuvwxyz0123456789+/"@[n]
}

/// Standard base64 with padding: each three bytes are four characters of six bits,
/// most significant first; one or two bytes at the end are padded with zero bits to
/// the next character, and with `=` to four characters.
pub open spec fn base64_text(bytes: Seq<u8>) -> Seq<char>
    decreases bytes.len(),
{
    if bytes.len() == 0 {
        Seq::empty()
    } else {
        let a = bytes[0] as int;
        let b = if bytes.len() > 1 {
            bytes[1] as int
        } else {
            0
        };
        let c = if bytes.len() > 2 {
            bytes[2] as int
        } else {
            0
        };
        let group = seq![
            base64_digit(a / 4),
            base64_digit(a % 4 * 16 + b / 16),
            if bytes.len() > 1 {
                base64_digit(b % 16 * 4 + c / 64)
            } else {
                '='
            },
            if bytes.len() > 2 {
                base64_digit(c % 64)
            } else {
                '='
            },
        ];
        if bytes.len() > 3 {
            group + base64_text(bytes.skip(3))
        } else {
            group
        }
    }
}

/// The base64 text of the bytes of `content` is not longer than a string can be.
pub open spec fn fits_base64(content: Seq<char>) -> bool {
    (vstd::utf8::encode_utf8(content).len() + 2) / 3 * 4 <= isize::MAX
}

/// Whether the base64 text of the bytes of `content` is not longer than a string
/// can be.
pub fn has_base64(content: &str) -> (r: bool)
    ensures
        r == fits_base64(content@),
{
    content.as_bytes().len() <= isize::MAX as usize / 4 * 3
}

/// `base64::Engine::encode` with the engine `STANDARD`: the standard base64, with
/// padding, of the UTF-8 bytes of the text.
#[verifier::external_body]
pub(crate) fn base64_encode(content: &str) -> (r: String)
    requires
        fits_base64(content@),
    ensures
        r@ == base64_text(content.spec_bytes()),
{
    base64::engine::general_purpose::STANDARD.encode(content)
}

proof fn lemma_digits_differ(m: int, n: int)
    requires
        0 <= m < 64,
        0 <= n < 64,
        base64_digit(m) == base64_digit(n),
    ensures
        m == n,
        base64_digit(m) != '=',
{
    reveal_strlit("ABCDEFGHIJKLMNOPQRSTUVWXYZabcdefghijklmnopqrstuvwxyz0123456789+/");
    assert(value_of_digit(base64_digit(m)) == m);
    assert(value_of_digit(base64_digit(n)) == n);
}

/// The number of six bits that a base64 character stands for.
pub open spec fn value_of_digit(c: char) -> int {
    if 'A' <= c && c <= 'Z' {
        c as int - 'A' as int
    } else if 'a' <= c && c <= 'z' {
        c as int - 'a' as int + 26
    } else if '0' <= c && c <= '9' {
        c as int - '0' as int + 52
    } else if c == '+' {
        62
    } else {
        63
    }
}

/// Base64 takes four characters for each three bytes that are begun.
pub proof fn base64_length(bytes: Seq<u8>)
    ensures
        base64_text(bytes).len() == (bytes.len() + 2) / 3 * 4,
    decreases bytes.len(),
{
    if bytes.len() > 3 {
        base64_length(bytes.skip(3));
    }
}

/// What fits is exactly what has a base64 text that is not longer than a string can be.
pub proof fn what_fits_has_a_short_enough_text(content: Seq<char>)
    ensures
        fits_base64(content) <==> base64_text(vstd::utf8::encode_utf8(content)).len()
            <= isize::MAX,
{
    base64_length(vstd::utf8::encode_utf8(content));
}

/// Base64 reads back: each four characters, taken as numbers of six bits, hold three bytes,
/// the most significant bits first; at the end, an equals sign stands for each byte that is
/// missing.
pub proof fn base64_reads_back(bytes: Seq<u8>, k: int)
    requires
        0 <= k,
        3 * k < bytes.len(),
    ensures
        ({
            let t = base64_text(bytes);
            let p = value_of_digit(t[4 * k]);
            let q = value_of_digit(t[4 * k + 1]);
            let r = value_of_digit(t[4 * k + 2]);
            let s = value_of_digit(t[4 * k + 3]);
            &&& bytes[3 * k] == p * 4 + q / 16
            &&& 3 * k + 1 < bytes.len() ==> bytes[3 * k + 1] == q % 16 * 16 + r / 4
            &&& 3 * k + 2 < bytes.len() ==> bytes[3 * k + 2] == r % 4 * 64 + s
            &&& 3 * k + 1 >= bytes.len() ==> t[4 * k + 2] == '='
            &&& 3 * k + 2 >= bytes.len() ==> t[4 * k + 3] == '='
        }),
    decreases bytes.len(),
{
    if k > 0 {
        let rest = bytes.skip(3);
        base64_length(rest);
        base64_reads_back(rest, k - 1);
        let t = base64_text(bytes);
        let u = base64_text(rest);
        assert(t.skip(4) =~= u);
        assert(t[4 * k] == u[4 * (k - 1)]);
        assert(t[4 * k + 1] == u[4 * (k - 1) + 1]);
        assert(t[4 * k + 2] == u[4 * (k - 1) + 2]);
        assert(t[4 * k + 3] == u[4 * (k - 1) + 3]);
        assert(rest[3 * (k - 1)] == bytes[3 * k]);
    } else {
        let (a, b, c) = lemma_group(bytes);
        reveal_strlit("ABCDEFGHIJKLMNOPQRSTUVWXYZabcdefghijklmnopqrstuvwxyz0123456789+/");
        assert(value_of_digit(base64_digit(a / 4)) == a / 4);
        assert(value_of_digit(base64_digit(a % 4 * 16 + b / 16)) == a % 4 * 16 + b / 16);
        assert(value_of_digit(base64_digit(b % 16 * 4 + c / 64)) == b % 16 * 4 + c / 64);
        assert(value_of_digit(base64_digit(c % 64)) == c % 64);
    }
}

/// Different bytes have different base64 texts: nothing is lost on the way.
pub proof fn base64_is_injective(x: Seq<u8>, y: Seq<u8>)
    requires
        base64_text(x) == base64_text(y),
    ensures
        x == y,
    decreases x.len(),
{
    base64_length(x);
    base64_length(y);
    if x.len() > 0 {
        let t = base64_text(x);
        assert(t[0] == base64_text(y)[0]);
        assert(t[1] == base64_text(y)[1]);
        assert(t[2] == base64_text(y)[2]);
        assert(t[3] == base64_text(y)[3]);
        let (a, b, c) = lemma_group(x);
        let (d, e, f) = lemma_group(y);
        assert(x[0] == y[0] && (x.len() > 1) == (y.len() > 1) && (x.len() > 2) == (y.len() > 2)
            && b == e && c == f) by {
            lemma_digits_differ(a / 4, d / 4);
            lemma_digits_differ(a % 4 * 16 + b / 16, d % 4 * 16 + e / 16);
            if x.len() > 1 {
                lemma_digits_differ(b % 16 * 4 + c / 64, b % 16 * 4 + c / 64);
            }
            if y.len() > 1 {
                lemma_digits_differ(e % 16 * 4 + f / 64, e % 16 * 4 + f / 64);
            }
            if x.len() > 2 {
                lemma_digits_differ(c % 64, c % 64);
            }
            if y.len() > 2 {
                lemma_digits_differ(f % 64, f % 64);
            }
            if x.len() > 1 {
                lemma_digits_differ(b % 16 * 4 + c / 64, e % 16 * 4 + f / 64);
            }
            if x.len() > 2 {
                lemma_digits_differ(c % 64, f % 64);
            }
        }
        if x.len() > 3 {
            assert(base64_text(x.skip(3)) == t.skip(4));
            assert(base64_text(y.skip(3)) == t.skip(4));
            base64_is_injective(x.skip(3), y.skip(3));
            assert(x == seq![x[0], x[1], x[2]] + x.skip(3));
            assert(y == seq![y[0], y[1], y[2]] + y.skip(3));
        } else {
            assert(x == y);
        }
    }
}

/// The bytes of the first group, and the characters they become.
proof fn lemma_group(x: Seq<u8>) -> (r: (int, int, int))
    requires
        x.len() > 0,
    ensures
        0 <= r.0 < 256,
        0 <= r.1 < 256,
        0 <= r.2 < 256,
        r.0 == x[0],
        x.len() > 1 ==> r.1 == x[1],
        x.len() > 2 ==> r.2 == x[2],
        x.len() <= 1 ==> r.1 == 0,
        x.len() <= 2 ==> r.2 == 0,
        base64_text(x).len() >= 4,
        base64_text(x)[0] == base64_digit(r.0 / 4),
        base64_text(x)[1] == base64_digit(r.0 % 4 * 16 + r.1 / 16),
        base64_text(x)[2] == (if x.len() > 1 {
            base64_digit(r.1 % 16 * 4 + r.2 / 64)
        } else {
            '='
        }),
        base64_text(x)[3] == (if x.len() > 2 {
            base64_digit(r.2 % 64)
        } else {
            '='
        }),
{
    let b = if x.len() > 1 {
        x[1] as int
    } else {
        0
    };
    let c = if x.len() > 2 {
        x[2] as int
    } else {
        0
    };
    (x[0] as int, b, c)
}

} // verus!
