//! Message authentication codes and their base64 text. The algorithms are
//! those of the `crypto` and `base64` crates; nothing here is proved of
//! them but what their contracts say.
use vstd::prelude::*;
use crypto::hmac::Hmac;
use crypto::mac::Mac;
use crypto::sha1::Sha1;
use crypto::sha2::Sha256;

verus! {

/// The longest key and the longest message, in bytes, that the
/// authentication codes are computed for: the digests count their input
/// in bits, in 64 bits, after a block of 64 bytes.
pub const MAX_MAC_INPUT: u64 = 0x1FFF_FFFF_FFFF_FFBF;

/// Whether a key or a message is short enough for an authentication code
/// to be computed of it.
pub open spec fn fits_mac(text: Seq<char>) -> bool {
    vstd::utf8::encode_utf8(text).len() <= MAX_MAC_INPUT
}

/// The HMAC-SHA1 authentication code of `message` under `key`.
pub uninterp spec fn hmac_sha1_code(key: Seq<u8>, message: Seq<u8>) -> Seq<u8>;

/// The HMAC-SHA256 authentication code of `message` under `key`.
pub uninterp spec fn hmac_sha256_code(key: Seq<u8>, message: Seq<u8>) -> Seq<u8>;

/// The base64 text of `bytes`, in the standard alphabet and padded.
pub uninterp spec fn base64_text(bytes: Seq<u8>) -> Seq<char>;

/// `crypto::hmac::Hmac` over `crypto::sha1::Sha1`, fed the whole message
/// at once. The code is a function of key and message alone and has the
/// 20 bytes of a SHA-1 digest. The digest refuses input whose length in
/// bits does not fit in 64 bits.
#[verifier::external_body]
pub(crate) fn hmac_sha1(key: &[u8], message: &[u8]) -> (code: Vec<u8>)
    requires
        key@.len() <= MAX_MAC_INPUT,
        message@.len() <= MAX_MAC_INPUT,
    ensures
        code@ == hmac_sha1_code(key@, message@),
        code@.len() == 20,
{
    let mut hmac = Hmac::new(Sha1::new(), key);
    hmac.input(message);
    hmac.result().code().to_vec()
}

/// `crypto::hmac::Hmac` over `crypto::sha2::Sha256`, fed the whole message
/// at once. The code is a function of key and message alone and has the
/// 32 bytes of a SHA-256 digest. The digest refuses input whose length in
/// bits does not fit in 64 bits.
#[verifier::external_body]
pub(crate) fn hmac_sha256(key: &[u8], message: &[u8]) -> (code: Vec<u8>)
    requires
        key@.len() <= MAX_MAC_INPUT,
        message@.len() <= MAX_MAC_INPUT,
    ensures
        code@ == hmac_sha256_code(key@, message@),
        code@.len() == 32,
{
    let mut hmac = Hmac::new(Sha256::new(), key);
    hmac.input(message);
    hmac.result().code().to_vec()
}

/// `base64::encode`: the text is a function of the bytes alone. The
/// encoder refuses input whose encoded length does not fit in `usize`.
#[verifier::external_body]
pub(crate) fn base64_encode(bytes: &[u8]) -> (text: String)
    requires
        (bytes@.len() / 3 + 1) * 4 <= usize::MAX,
    ensures
        text@ == base64_text(bytes@),
{
    base64::encode(bytes)
}

} // verus!
