//! The key under which the chunks of a download are cached.
use vstd::prelude::*;
use vstd::string::*;
use crate::address::ParsedUrl;
use crate::decimal::{
    decimal_digits, lemma_decimal_digits_are_digits, lemma_decimal_digits_injective, u64_to_decimal,
};
use vstd::utf8::encode_utf8;

verus! {

/// Whether `c` can appear in URL-safe base64 with padding: a letter, a
/// digit, `-`, `_`, or the padding `=`.
pub open spec fn is_url_safe_base64_char(c: char) -> bool {
    ('A' <= c && c <= 'Z') || ('a' <= c && c <= 'z') || ('0' <= c && c <= '9') || c == '-' || c
        == '_' || c == '='
}

/// What `base64::engine::general_purpose::URL_SAFE.encode` gives for the
/// UTF-8 bytes of `text`.
pub uninterp spec fn base64_url_safe(text: Seq<char>) -> Seq<char>;

/// The length of the padded base64 encoding of `n` bytes: four characters
/// for each started group of three bytes (`base64::encoded_len` with
/// padding).
pub open spec fn padded_base64_len(n: nat) -> nat {
    4 * ((n + 2) / 3)
}

/// Encodes the UTF-8 bytes of `text` with the `URL_SAFE` engine of the
/// `base64` crate (the RFC 4648 URL-safe alphabet, with `=` padding). The
/// contract names the result and states what the crate's source and RFC 4648
/// give of it: each character is drawn from that alphabet or is the padding,
/// its length is that of a padded encoding of the bytes, and distinct texts
/// are encoded differently (decoding gives the bytes back, and UTF-8 encodes
/// distinct texts into distinct bytes). The encoding itself is not written
/// out. The crate panics only when the encoded length overflows `usize`,
/// for inputs longer than any `str` can be.
#[verifier::external_body]
fn encode_url_safe(text: &str) -> (encoded: String)
    ensures
        encoded@ == base64_url_safe(text@),
        forall|i: int| 0 <= i < encoded@.len() ==> is_url_safe_base64_char(#[trigger] encoded@[i]),
        encoded@.len() == padded_base64_len(encode_utf8(text@).len()),
        forall|other: Seq<char>| #[trigger] base64_url_safe(other) == encoded@ ==> other == text@,
{
    base64::Engine::encode(&base64::engine::general_purpose::URL_SAFE, text)
}

/// The text that is encoded into the cache key of a download: the URL, a
/// dash, and the size in decimal.
pub open spec fn hash_input(file_size: u64, url: Seq<char>) -> Seq<char> {
    url + "-"@ + decimal_digits(file_size as nat)
}

/// The cache key of the download of `url`, whose size is `file_size`: the
/// URL-safe base64 encoding of `{url}-{file_size}`. It holds no `/`, so it
/// names a single directory.
pub fn get_hash(file_size: u64, url: &ParsedUrl) -> (hash: String)
    ensures
        hash@ == base64_url_safe(hash_input(file_size, url.text())),
        forall|i: int| 0 <= i < hash@.len() ==> is_url_safe_base64_char(#[trigger] hash@[i]),
        !hash@.contains('/'),
        forall|size: u64, serialization: Seq<char>|
            #[trigger] base64_url_safe(hash_input(size, serialization)) == hash@ ==> size == file_size
                && serialization == url.text(),
{
    let mut text = String::from_str(url.as_str());
    text.append("-");
    let size = u64_to_decimal(file_size);
    text.append(size.as_str());
    let hash = encode_url_safe(text.as_str());
    assert forall|size: u64, serialization: Seq<char>|
        #[trigger] base64_url_safe(hash_input(size, serialization)) == hash@ implies size == file_size
        && serialization == url.text() by {
        lemma_hash_input_injective(size, serialization, file_size, url.text());
    }
    assert(!hash@.contains('/')) by {
        if hash@.contains('/') {
            let k = choose|k: int| 0 <= k < hash@.len() && hash@[k] == '/';
            assert(is_url_safe_base64_char(hash@[k]));
        }
    }
    hash
}

/// Distinct downloads (size and URL) give distinct texts to encode: the
/// size's digits hold no dash, so the last dash of the text separates the URL
/// from the size.
pub proof fn lemma_hash_input_injective(s1: u64, u1: Seq<char>, s2: u64, u2: Seq<char>)
    requires
        hash_input(s1, u1) == hash_input(s2, u2),
    ensures
        s1 == s2,
        u1 == u2,
{
    let d1 = decimal_digits(s1 as nat);
    let d2 = decimal_digits(s2 as nat);
    let a = hash_input(s1, u1);
    reveal_strlit("-");
    lemma_decimal_digits_are_digits(s1 as nat);
    lemma_decimal_digits_are_digits(s2 as nat);
    assert(a == u1 + "-"@ + d1);
    assert(a == u2 + "-"@ + d2);
    assert(a.len() == u1.len() + 1 + d1.len());
    assert(a.len() == u2.len() + 1 + d2.len());
    if d1.len() < d2.len() {
        let p = a.len() - d1.len() - 1;
        assert(a[p] == '-');
        assert(a[p] == d2[p - (a.len() - d2.len())]);
        assert(false);
    }
    if d2.len() < d1.len() {
        let p = a.len() - d2.len() - 1;
        assert(a[p] == '-');
        assert(a[p] == d1[p - (a.len() - d1.len())]);
        assert(false);
    }
    assert(d1 =~= a.subrange(a.len() - d1.len(), a.len() as int));
    assert(d2 =~= a.subrange(a.len() - d2.len(), a.len() as int));
    lemma_decimal_digits_injective(s1, s2);
    assert(u1 =~= a.subrange(0, u1.len() as int));
    assert(u2 =~= a.subrange(0, u2.len() as int));
}

} // verus!
