//! Keys under which answers are cached: a fixed prefix and the lower-case
//! hexadecimal SHA-256 digest of the question's UTF-8 bytes.

use vstd::prelude::*;
use vstd::utf8::encode_utf8;

use crate::text::{digit_char, push_char};

verus! {

/// The SHA-256 digest of `data`.
pub uninterp spec fn sha256(data: Seq<u8>) -> Seq<u8>;

/// Hashes `data` with `sha2::Sha256` (`new`, `update`, `finalize`).
/// Trusted: the result is the digest of `data` and is 32 bytes long, as a
/// SHA-256 digest always is.
#[verifier::external_body]
fn sha256_digest(data: &[u8]) -> (digest: Vec<u8>)
    ensures
        digest@ == sha256(data@),
        digest@.len() == 32,
{
    let mut hasher = <sha2::Sha256 as sha2::Digest>::new();
    sha2::Digest::update(&mut hasher, data);
    sha2::Digest::finalize(hasher).to_vec()
}

/// The lower-case hexadecimal digit for a value below sixteen.
pub open spec fn hex_digit(d: nat) -> char {
    if d < 10 {
        digit_char(d)
    } else {
        ('a' as int + d - 10) as char
    }
}

/// Two lower-case hexadecimal digits per byte, high half first (what
/// `{:x}` prints for a digest).
pub open spec fn lower_hex(bytes: Seq<u8>) -> Seq<char>
    decreases bytes.len(),
{
    if bytes.len() == 0 {
        seq![]
    } else {
        lower_hex(bytes.drop_last()) + seq![
            hex_digit((bytes.last() / 16) as nat),
            hex_digit((bytes.last() % 16) as nat),
        ]
    }
}

/// The prefix of every answer key.
pub const ANSWER_KEY_PREFIX: &'static str = "rag:answer:";

/// The cache key of a question.
pub open spec fn cache_key(question: Seq<char>) -> Seq<char> {
    ANSWER_KEY_PREFIX@ + lower_hex(sha256(encode_utf8(question)))
}

fn hex_char(d: u8) -> (c: char)
    requires
        d < 16,
    ensures
        c == hex_digit(d as nat),
{
    if d < 10 {
        (d + 48u8) as char
    } else {
        (d - 10 + 97u8) as char
    }
}

/// Appends the lower-case hexadecimal notation of `bytes` to `out`.
pub fn push_lower_hex(out: &mut String, bytes: &Vec<u8>)
    ensures
        final(out)@ == old(out)@ + lower_hex(bytes@),
{
    let ghost start = out@;
    let mut i: usize = 0;
    assert(bytes@.subrange(0, 0) =~= Seq::<u8>::empty());
    while i < bytes.len()
        invariant
            i <= bytes.len(),
            out@ == start + lower_hex(bytes@.subrange(0, i as int)),
        decreases bytes.len() - i,
    {
        let b = bytes[i];
        push_char(out, hex_char(b / 16));
        push_char(out, hex_char(b % 16));
        assert(bytes@.subrange(0, i + 1).drop_last() =~= bytes@.subrange(0, i as int));
        assert(out@ =~= start + lower_hex(bytes@.subrange(0, i + 1)));
        i = i + 1;
    }
    assert(bytes@.subrange(0, i as int) =~= bytes@);
}

/// The key under which the answer to `question` is cached.
pub fn make_cache_key(question: &str) -> (key: String)
    ensures
        key@ == cache_key(question@),
        key@ == ANSWER_KEY_PREFIX@ + lower_hex(sha256(encode_utf8(question@))),
        key@.len() == ANSWER_KEY_PREFIX@.len() + 64,
        sha256(encode_utf8(question@)).len() == 32,
        forall|i: int|
            0 <= i < 32 ==> {
                let b = #[trigger] sha256(encode_utf8(question@))[i];
                &&& key@[ANSWER_KEY_PREFIX@.len() + 2 * i] as int == if b / 16 < 10 {
                    b / 16 + 48
                } else {
                    b / 16 + 87
                }
                &&& key@[ANSWER_KEY_PREFIX@.len() + 2 * i + 1] as int == if b % 16 < 10 {
                    b % 16 + 48
                } else {
                    b % 16 + 87
                }
            },
        forall|i: int|
            ANSWER_KEY_PREFIX@.len() <= i < key@.len() ==> {
                let c = #[trigger] key@[i];
                ('0' <= c <= '9') || ('a' <= c <= 'f')
            },
{
    let digest = sha256_digest(question.as_bytes());
    let mut key = ANSWER_KEY_PREFIX.to_owned();
    push_lower_hex(&mut key, &digest);
    proof {
        lemma_lower_hex_shape(digest@);
        lemma_lower_hex_digits(digest@);
        assert forall|i: int| 0 <= i < 32 implies {
            let b = #[trigger] sha256(encode_utf8(question@))[i];
            &&& key@[ANSWER_KEY_PREFIX@.len() + 2 * i] as int == if b / 16 < 10 {
                b / 16 + 48
            } else {
                b / 16 + 87
            }
            &&& key@[ANSWER_KEY_PREFIX@.len() + 2 * i + 1] as int == if b % 16 < 10 {
                b % 16 + 48
            } else {
                b % 16 + 87
            }
        } by {
            let b = digest@[i];
            assert(key@[ANSWER_KEY_PREFIX@.len() + 2 * i] == lower_hex(digest@)[2 * i]);
            assert(key@[ANSWER_KEY_PREFIX@.len() + 2 * i + 1] == lower_hex(digest@)[2 * i + 1]);
        }
        assert forall|i: int| ANSWER_KEY_PREFIX@.len() <= i < key@.len() implies {
            let c = #[trigger] key@[i];
            ('0' <= c <= '9') || ('a' <= c <= 'f')
        } by {
            assert(key@[i] == lower_hex(digest@)[i - ANSWER_KEY_PREFIX@.len()]);
        }
    }
    key
}

/// The hexadecimal notation of `n` bytes is `2 * n` characters, each a
/// digit or a lower-case letter from `a` to `f`.
pub proof fn lemma_lower_hex_shape(bytes: Seq<u8>)
    ensures
        lower_hex(bytes).len() == 2 * bytes.len(),
        forall|i: int|
            0 <= i < lower_hex(bytes).len() ==> {
                let c = #[trigger] lower_hex(bytes)[i];
                ('0' <= c <= '9') || ('a' <= c <= 'f')
            },
    decreases bytes.len(),
{
    if bytes.len() > 0 {
        lemma_lower_hex_shape(bytes.drop_last());
        let b = bytes.last();
        assert(hex_digit((b / 16) as nat) as int == if b / 16 < 10 {
            48 + b / 16
        } else {
            87 + b / 16
        });
        assert(hex_digit((b % 16) as nat) as int == if b % 16 < 10 {
            48 + b % 16
        } else {
            87 + b % 16
        });
    }
}


/// The hexadecimal notation of bytes, digit by digit: the characters at
/// `2 * i` and `2 * i + 1` are the high and the low half of byte `i`, each
/// written `0`-`9` (codes 48 to 57) or `a`-`f` (codes 97 to 102).
pub proof fn lemma_lower_hex_digits(bytes: Seq<u8>)
    ensures
        lower_hex(bytes).len() == 2 * bytes.len(),
        forall|i: int|
            0 <= i < bytes.len() ==> {
                let b = #[trigger] bytes[i];
                &&& lower_hex(bytes)[2 * i] as int == if b / 16 < 10 {
                    b / 16 + 48
                } else {
                    b / 16 + 87
                }
                &&& lower_hex(bytes)[2 * i + 1] as int == if b % 16 < 10 {
                    b % 16 + 48
                } else {
                    b % 16 + 87
                }
            },
    decreases bytes.len(),
{
    if bytes.len() > 0 {
        let prefix = bytes.drop_last();
        lemma_lower_hex_digits(prefix);
        let h = lower_hex(bytes);
        assert(h == lower_hex(prefix) + seq![
            hex_digit((bytes.last() / 16) as nat),
            hex_digit((bytes.last() % 16) as nat),
        ]);
        assert forall|i: int| 0 <= i < bytes.len() implies {
            let b = #[trigger] bytes[i];
            &&& h[2 * i] as int == if b / 16 < 10 {
                b / 16 + 48
            } else {
                b / 16 + 87
            }
            &&& h[2 * i + 1] as int == if b % 16 < 10 {
                b % 16 + 48
            } else {
                b % 16 + 87
            }
        } by {
            if i < bytes.len() - 1 {
                assert(prefix[i] == bytes[i]);
                assert(h[2 * i] == lower_hex(prefix)[2 * i]);
                assert(h[2 * i + 1] == lower_hex(prefix)[2 * i + 1]);
            }
        }
    }
}

/// Different digests never share a cache key: equal keys come only from
/// questions whose whole UTF-8 bytes have the same SHA-256 digest.
pub proof fn lemma_cache_key_injective(q1: Seq<char>, q2: Seq<char>)
    ensures
        cache_key(q1) == cache_key(q2) ==> sha256(encode_utf8(q1)) == sha256(encode_utf8(q2)),
{
    let d1 = sha256(encode_utf8(q1));
    let d2 = sha256(encode_utf8(q2));
    if cache_key(q1) == cache_key(q2) {
        let p = ANSWER_KEY_PREFIX@.len() as int;
        let h1 = lower_hex(d1);
        let h2 = lower_hex(d2);
        assert(h1 =~= cache_key(q1).subrange(p, cache_key(q1).len() as int));
        assert(h2 =~= cache_key(q2).subrange(p, cache_key(q2).len() as int));
        lemma_lower_hex_digits(d1);
        lemma_lower_hex_digits(d2);
        assert(d1.len() == d2.len());
        assert forall|i: int| 0 <= i < d1.len() implies d1[i] == d2[i] by {
            let a = d1[i];
            let b = d2[i];
            assert(h1[2 * i] == h2[2 * i]);
            assert(h1[2 * i + 1] == h2[2 * i + 1]);
            assert(a / 16 == b / 16);
            assert(a % 16 == b % 16);
            assert(a == 16 * (a / 16) + a % 16);
            assert(b == 16 * (b / 16) + b % 16);
        }
        assert(d1 =~= d2);
    }
}

} // verus!
