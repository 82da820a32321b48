//! Content identities: SHA-256 digests in their textual form.
use sha2::Digest;
use vstd::prelude::*;
use vstd::string::*;

use crate::text;

verus! {

/// The SHA-256 hash of bytes.
pub uninterp spec fn sha256(bytes: Seq<u8>) -> Seq<u8>;

/// `sha2::Sha256::digest` gives the 32 bytes of the SHA-256 hash of its input.
#[verifier::external_body]
fn hash(bytes: &[u8]) -> (r: Vec<u8>)
    ensures
        r@ == sha256(bytes@),
        r@.len() == 32,
{
    sha2::Sha256::digest(bytes).to_vec()
}

/// The lower-case hexadecimal digit of a number below sixteen.
pub open spec fn hex_digit(n: u8) -> char {
    if n < 10 {
        ('0' as u8 + n) as char
    } else {
        ('a' as u8 + (n - 10)) as char
    }
}

/// Two lower-case hexadecimal digits for each byte, the high half first.
pub open spec fn hex_text(bytes: Seq<u8>) -> Seq<char> {
    Seq::new(
        2 * bytes.len(),
        |i: int|
            if i % 2 == 0 {
                hex_digit(bytes[i / 2] / 16)
            } else {
                hex_digit(bytes[i / 2] % 16)
            },
    )
}

/// `hex::encode` writes each byte as two lower-case hexadecimal digits.
#[verifier::external_body]
fn hex_encode(bytes: &Vec<u8>) -> (r: String)
    ensures
        r@ == hex_text(bytes@),
{
    hex::encode(bytes)
}

/// The textual digest of bytes.
pub open spec fn digest_of(bytes: Seq<u8>) -> Seq<char> {
    "sha256:"@ + hex_text(sha256(bytes))
}

/// Computes the canonical digest syntax used by all control-plane documents.
pub fn sha256_digest(bytes: &[u8]) -> (r: String)
    ensures
        r@ == digest_of(bytes@),
        digest_syntax(r@),
{
    let hash = hash(bytes);
    let mut r = "sha256:".to_owned();
    r.append(hex_encode(&hash).as_str());
    proof {
        reveal_strlit("sha256:");
        let body = hex_text(hash@);
        assert(r@.take(7) =~= "sha256:"@);
        assert(r@.skip(7) =~= body);
        assert forall|i: int| 0 <= i < body.len() implies lower_hex(#[trigger] body[i]) by {
            let b = hash@[i / 2];
            assert(b / 16 < 16 && b % 16 < 16);
        }
    }
    r
}

/// A digit or a lower-case letter from `a` to `f`.
pub open spec fn lower_hex(c: char) -> bool {
    ('0' <= c && c <= '9') || ('a' <= c && c <= 'f')
}

/// The text is `sha256:` and 64 lower-case hexadecimal digits.
pub open spec fn digest_syntax(s: Seq<char>) -> bool {
    &&& s.len() == 71
    &&& s.take(7) == "sha256:"@
    &&& forall|i: int| 0 <= i < 64 ==> lower_hex(#[trigger] s.skip(7)[i])
}

/// Why a text is no digest: what its reader is told.
pub open spec fn digest_fault(digest: Seq<char>) -> Option<Seq<char>> {
    if !"sha256:"@.is_prefix_of(digest) {
        Some("digest does not use sha256 prefix"@)
    } else if !digest_syntax(digest) {
        Some("digest is not 64 lowercase hexadecimal characters"@)
    } else {
        None
    }
}

/// The hexadecimal part of a digest, or why the text is none.
pub fn hex_component(digest: &str) -> (r: Result<&str, &'static str>)
    ensures
        match r {
            Ok(value) => digest_fault(digest@) is None && digest_syntax(digest@) && value@ == digest@.skip(7),
            Err(detail) => digest_fault(digest@) == Some(detail@),
        },
{
    proof {
        reveal_strlit("sha256:");
    }
    let value = match text::strip_prefix(digest, "sha256:") {
        Some(value) => value,
        None => return Err("digest does not use sha256 prefix"),
    };
    assert(digest@.take(7) =~= "sha256:"@) by {
        assert("sha256:"@ =~= digest@.subrange(0, 7));
    }
    let chars = text::chars_of(value);
    if chars.len() != 64 {
        return Err("digest is not 64 lowercase hexadecimal characters");
    }
    let mut i: usize = 0;
    while i < chars.len()
        invariant
            i <= chars.len() == 64,
            chars@ == digest@.skip(7),
            forall|k: int| 0 <= k < i ==> lower_hex(#[trigger] chars@[k]),
            "sha256:"@.is_prefix_of(digest@),
        decreases chars.len() - i,
    {
        let c = chars[i];
        if !(('0' <= c && c <= '9') || ('a' <= c && c <= 'f')) {
            assert(!lower_hex(digest@.skip(7)[i as int]));
            return Err("digest is not 64 lowercase hexadecimal characters");
        }
        i = i + 1;
    }
    Ok(value)
}

/// Decides whether a text is a digest.
pub fn is_digest(digest: &str) -> (r: bool)
    ensures
        r == digest_syntax(digest@),
{
    match hex_component(digest) {
        Ok(_) => true,
        Err(_) => {
            proof {
                reveal_strlit("sha256:");
                if digest_syntax(digest@) {
                    assert("sha256:"@ =~= digest@.subrange(0, 7)) by {
                        assert(digest@.take(7) =~= digest@.subrange(0, 7));
                    }
                }
            }
            false
        },
    }
}

/// A text is a digest exactly where it is `sha256:` and 64 digits or lower-case letters up to `f`; it is
/// refused otherwise. Different bytes have different hexadecimal texts.
pub proof fn a_digest_is_read_as_it_is_written(s: Seq<char>, a: Seq<u8>, b: Seq<u8>)
    ensures
        digest_fault(s) is None <==> s.len() == 71 && s.take(7) == seq!['s', 'h', 'a', '2', '5', '6', ':'] && forall|i: int|
            7 <= i < 71 ==> ('0' <= #[trigger] s[i] && s[i] <= '9') || ('a' <= s[i] && s[i] <= 'f'),
        hex_text(a).len() == 2 * a.len(),
        hex_text(a) == hex_text(b) ==> a == b,
{
    reveal_strlit("sha256:");
    let prefix = seq!['s', 'h', 'a', '2', '5', '6', ':'];
    assert("sha256:"@ =~= prefix);
    if s.len() == 71 {
        assert(s.take(7) =~= s.subrange(0, 7));
        assert(forall|i: int| 0 <= i < 64 ==> s.skip(7)[i] == s[i + 7]);
        if forall|i: int| 7 <= i < 71 ==> ('0' <= #[trigger] s[i] && s[i] <= '9') || ('a' <= s[i] && s[i] <= 'f') {
            assert forall|i: int| 0 <= i < 64 implies lower_hex(#[trigger] s.skip(7)[i]) by {
                assert(s.skip(7)[i] == s[i + 7]);
            }
        }
        if digest_syntax(s) {
            assert forall|i: int| 7 <= i < 71 implies ('0' <= #[trigger] s[i] && s[i] <= '9') || ('a' <= s[i] && s[i] <= 'f') by {
                assert(lower_hex(s.skip(7)[i - 7]));
            }
        }
    }
    if hex_text(a) == hex_text(b) {
        assert(hex_text(a).len() == hex_text(b).len());
        assert forall|i: int| 0 <= i < a.len() implies a[i] == b[i] by {
            assert(hex_text(a)[2 * i] == hex_text(b)[2 * i]);
            assert(hex_text(a)[2 * i + 1] == hex_text(b)[2 * i + 1]);
            assert((2 * i) / 2 == i && (2 * i + 1) / 2 == i && (2 * i) % 2 == 0 && (2 * i + 1) % 2 == 1);
            hex_digit_tells(a[i] / 16, b[i] / 16);
            hex_digit_tells(a[i] % 16, b[i] % 16);
        }
        assert(a =~= b);
    }
}

proof fn hex_digit_tells(m: u8, n: u8)
    requires
        m < 16,
        n < 16,
        hex_digit(m) == hex_digit(n),
    ensures
        m == n,
{
}

} // verus!
