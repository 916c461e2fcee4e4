//! Cache keys: one name for a model and the beginning of a prompt.
use vstd::prelude::*;
#[allow(unused_imports)]
use vstd::utf8::{
    char_u32_cast, encode_scalar, encode_utf8, encode_utf8_decode_utf8,
};

use crate::text::hex_text;
#[allow(unused_imports)]
use crate::text::{hex_digit, lower_hex};

verus! {

/// The SHA-256 digest of bytes.
pub uninterp spec fn sha256_digest(bytes: Seq<u8>) -> Seq<u8>;

/// `Sha256::digest`: the 32 bytes of the digest, a function of the input.
#[verifier::external_body]
fn sha256(bytes: &[u8]) -> (digest: Vec<u8>)
    ensures
        digest@ == sha256_digest(bytes@),
        digest@.len() == 32,
{
    <sha2::Sha256 as sha2::Digest>::digest(bytes).to_vec()
}

/// What a cache key is the digest of: the model, a zero byte, and the prefix.
pub open spec fn cache_preimage(model: Seq<char>, prefix: Seq<char>) -> Seq<u8> {
    encode_utf8(model).push(0) + encode_utf8(prefix)
}

/// The cache key of a model and the beginning of a prompt.
pub open spec fn cache_name(model: Seq<char>, prefix: Seq<char>) -> Seq<char> {
    "sha256:"@ + lower_hex(sha256_digest(cache_preimage(model, prefix)))
}

/// Appends bytes to bytes.
fn append_bytes(out: &mut Vec<u8>, bytes: &[u8])
    ensures
        final(out)@ == old(out)@ + bytes@,
{
    let mut i: usize = 0;
    let ghost before = out@;
    assert(before + bytes@.take(0) =~= before);
    while i < bytes.len()
        invariant
            i <= bytes@.len(),
            out@ == before + bytes@.take(i as int),
        decreases bytes@.len() - i,
    {
        out.push(bytes[i]);
        i += 1;
        assert(out@ =~= before + bytes@.take(i as int));
    }
    assert(bytes@.take(i as int) =~= bytes@);
}

/// The cache key of a model and the beginning of a prompt.
pub fn cache_key(model: &str, prefix: &str) -> (key: String)
    ensures
        key@ == cache_name(model@, prefix@),
        key@.len() == 7 + 64,
{
    let mut preimage: Vec<u8> = Vec::new();
    append_bytes(&mut preimage, model.as_bytes());
    preimage.push(0);
    append_bytes(&mut preimage, prefix.as_bytes());
    assert(preimage@ =~= cache_preimage(model@, prefix@));
    let digest = sha256(preimage.as_slice());
    proof {
        reveal_strlit("sha256:");
        lemma_hex_len(digest@);
    }
    let mut key = "sha256:".to_string();
    let hex = hex_text(&digest);
    key.append(hex.as_str());
    key
}

/// The digest of an API key in hexadecimal.
pub open spec fn key_digest(api_key: Seq<char>) -> Seq<char> {
    lower_hex(sha256_digest(encode_utf8(api_key)))
}

/// The digest of an API key in hexadecimal.
pub fn key_hash(api_key: &str) -> (hash: String)
    ensures
        hash@ == key_digest(api_key@),
        hash@.len() == 64,
{
    let digest = sha256(api_key.as_bytes());
    proof {
        lemma_hex_len(digest@);
    }
    hex_text(&digest)
}

proof fn lemma_hex_digits_differ(a: u8, b: u8)
    requires
        a < 16,
        b < 16,
        hex_digit(a as nat) == hex_digit(b as nat),
    ensures
        a == b,
{
}

/// Bytes of different content are written differently in hexadecimal.
proof fn lemma_hex_is_faithful(a: Seq<u8>, b: Seq<u8>)
    requires
        lower_hex(a) == lower_hex(b),
    ensures
        a == b,
    decreases a.len(),
{
    lemma_hex_len(a);
    lemma_hex_len(b);
    if a.len() > 0 {
        let ha = lower_hex(a);
        let hb = lower_hex(b);
        let x = a.last();
        let y = b.last();
        assert(ha.last() == hb.last());
        assert(ha.drop_last().last() == hb.drop_last().last());
        assert(ha.last() == hex_digit((x % 16) as nat));
        assert(hb.last() == hex_digit((y % 16) as nat));
        assert(ha.drop_last().last() == hex_digit((x / 16) as nat));
        assert(hb.drop_last().last() == hex_digit((y / 16) as nat));
        lemma_hex_digits_differ((x % 16) as u8, (y % 16) as u8);
        lemma_hex_digits_differ((x / 16) as u8, (y / 16) as u8);
        assert(x == y);
        assert(ha.drop_last().drop_last() =~= lower_hex(a.drop_last()));
        assert(hb.drop_last().drop_last() =~= lower_hex(b.drop_last()));
        lemma_hex_is_faithful(a.drop_last(), b.drop_last());
        assert(a =~= a.drop_last().push(x));
        assert(b =~= b.drop_last().push(y));
    } else {
        assert(a =~= b);
    }
}

proof fn lemma_hex_len(bytes: Seq<u8>)
    ensures
        lower_hex(bytes).len() == 2 * bytes.len(),
    decreases bytes.len(),
{
    if bytes.len() > 0 {
        lemma_hex_len(bytes.drop_last());
    }
}

proof fn lemma_scalar_bytes(c: u32)
    by (bit_vector)
    ensures
        0 < c <= 0x7f ==> (c & 0x7f) as u8 != 0,
        0xC0 | ((c >> 6) & 0x1F) as u8 != 0u8,
        0xE0 | ((c >> 12) & 0x0F) as u8 != 0u8,
        0xF0 | ((c >> 18) & 0x7) as u8 != 0u8,
        0x80 | (c & 0x3F) as u8 != 0u8,
        0x80 | ((c >> 6) & 0x3F) as u8 != 0u8,
        0x80 | ((c >> 12) & 0x3F) as u8 != 0u8,
{
}

/// Text without the zero character is encoded without the zero byte.
proof fn lemma_no_zero_byte(s: Seq<char>)
    requires
        !s.contains('\0'),
    ensures
        forall|i: int| 0 <= i < encode_utf8(s).len() ==> #[trigger] encode_utf8(s)[i] != 0,
    decreases s.len(),
{
    if s.len() > 0 {
        let c = s[0] as u32;
        assert(s.contains(s[0]));
        lemma_scalar_bytes(c);
        let rest = s.drop_first();
        assert(!rest.contains('\0')) by {
            if rest.contains('\0') {
                let k = choose|k: int| 0 <= k < rest.len() && rest[k] == '\0';
                assert(s[k + 1] == '\0');
            }
        }
        lemma_no_zero_byte(rest);
        let head = encode_scalar(c);
        assert(c > 0) by {
            char_u32_cast(s[0], c);
        }
        assert(forall|i: int| 0 <= i < head.len() ==> #[trigger] head[i] != 0);
        assert forall|i: int| 0 <= i < encode_utf8(s).len() implies #[trigger] encode_utf8(s)[i]
            != 0 by {
            if i < head.len() {
                assert(encode_utf8(s)[i] == head[i]);
            } else {
                assert(encode_utf8(s)[i] == encode_utf8(rest)[i - head.len()]);
            }
        }
    }
}

/// Two cache keys are the same exactly when the digests behind them are.
pub proof fn law_cache_keys_follow_digests(
    model: Seq<char>,
    prefix: Seq<char>,
    other_model: Seq<char>,
    other_prefix: Seq<char>,
)
    ensures
        cache_name(model, prefix) == cache_name(other_model, other_prefix) <==> sha256_digest(
            cache_preimage(model, prefix),
        ) == sha256_digest(cache_preimage(other_model, other_prefix)),
{
    let a = sha256_digest(cache_preimage(model, prefix));
    let b = sha256_digest(cache_preimage(other_model, other_prefix));
    let head = "sha256:"@;
    if cache_name(model, prefix) == cache_name(other_model, other_prefix) {
        assert((head + lower_hex(a)).skip(head.len() as int) =~= lower_hex(a));
        assert((head + lower_hex(b)).skip(head.len() as int) =~= lower_hex(b));
        lemma_hex_is_faithful(a, b);
    }
}

/// What is digested tells models and prefixes apart: another model or another
/// prefix is other bytes. Only a model with a zero character in its name could
/// be taken for a shorter model with a longer prefix.
pub proof fn law_preimages_differ(
    model: Seq<char>,
    prefix: Seq<char>,
    other_model: Seq<char>,
    other_prefix: Seq<char>,
)
    requires
        !model.contains('\0'),
        !other_model.contains('\0'),
        cache_preimage(model, prefix) == cache_preimage(other_model, other_prefix),
    ensures
        model == other_model,
        prefix == other_prefix,
{
    let a = encode_utf8(model);
    let b = encode_utf8(other_model);
    let whole = cache_preimage(model, prefix);
    lemma_no_zero_byte(model);
    lemma_no_zero_byte(other_model);
    assert(whole[a.len() as int] == 0);
    assert(cache_preimage(other_model, other_prefix)[b.len() as int] == 0);
    if a.len() < b.len() {
        assert(whole[a.len() as int] == b[a.len() as int]);
    }
    if b.len() < a.len() {
        assert(whole[b.len() as int] == a[b.len() as int]);
    }
    assert(a =~= b) by {
        assert forall|i: int| 0 <= i < a.len() implies a[i] == b[i] by {
            assert(whole[i] == a[i]);
            assert(cache_preimage(other_model, other_prefix)[i] == b[i]);
        }
    }
    assert(whole.skip(a.len() as int + 1) =~= encode_utf8(prefix));
    assert(whole.skip(b.len() as int + 1) =~= encode_utf8(other_prefix));
    encode_utf8_decode_utf8(model);
    encode_utf8_decode_utf8(other_model);
    encode_utf8_decode_utf8(prefix);
    encode_utf8_decode_utf8(other_prefix);
}

/// A cache key is `sha256:` and the digest, in hexadecimal, of the model's bytes,
/// a zero byte and the prefix's bytes, all of them; an API key is known by the
/// digest of its own bytes.
pub proof fn law_cache_keys_digest_model_and_prefix(model: Seq<char>, prefix: Seq<char>)
    ensures
        cache_name(model, prefix) == "sha256:"@ + lower_hex(
            sha256_digest(encode_utf8(model) + seq![0u8] + encode_utf8(prefix)),
        ),
        key_digest(model) == lower_hex(sha256_digest(encode_utf8(model))),
{
    assert(cache_preimage(model, prefix) =~= encode_utf8(model) + seq![0u8] + encode_utf8(prefix));
}

} // verus!
