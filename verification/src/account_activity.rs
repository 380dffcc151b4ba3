//! Account Activity API
use vstd::prelude::*;
use vstd::string::*;
use vstd::utf8::encode_utf8;
use crate::digest::{base64_encode, base64_text, fits_mac, hmac_sha256, hmac_sha256_code};
use crate::text::text_eq;

verus! {

/// The HMAC-SHA256 code of `input` under `key`, as base64 text.
pub open spec fn hmac_text(key: Seq<char>, input: Seq<char>) -> Seq<char> {
    base64_text(hmac_sha256_code(encode_utf8(key), encode_utf8(input)))
}

/// A code as the service sends it with a webhook body: after `sha256=`.
pub open spec fn tagged(code: Seq<char>) -> Seq<char> {
    "sha256="@ + code
}

/// The answer to a challenge-response check for a given code: a JSON
/// object with the member `response_token`.
pub open spec fn response_token(code: Seq<char>) -> Seq<char> {
    "{\"response_token\":\""@ + tagged(code) + "\"}"@
}

/// The signature that the service sends with a webhook body.
pub open spec fn webhook_signature(consumer_secret: Seq<char>, body: Seq<char>) -> Seq<char> {
    tagged(hmac_text(consumer_secret, body))
}

/// The answer to a challenge-response check.
pub open spec fn crc_token_response(consumer_secret: Seq<char>, crc_token: Seq<char>) -> Seq<
    char,
> {
    response_token(hmac_text(consumer_secret, crc_token))
}

pub fn calc_hmac(key: &str, input: &str) -> (code: String)
    requires
        fits_mac(key@),
        fits_mac(input@),
    ensures
        code@ == hmac_text(key@, input@),
{
    let code = hmac_sha256(key.as_bytes(), input.as_bytes());
    base64_encode(code.as_slice())
}

/// Whether `signature` is `code` as the service sends it.
pub fn signature_matches(signature: &str, code: &str) -> (same: bool)
    ensures
        same == (signature@ == tagged(code@)),
{
    let mut expected = String::from_str("sha256=");
    expected.append(code);
    text_eq(signature, expected.as_str())
}

/// Renders the answer to a challenge-response check for a given code.
pub fn make_response_token(code: &str) -> (response: String)
    ensures
        response@ == response_token(code@),
{
    let mut response = String::from_str("{\"response_token\":\"");
    response.append("sha256=");
    response.append(code);
    response.append("\"}");
    response
}

pub fn check_signature(signature: &str, consumer_secret: &str, body: &str) -> (genuine: bool)
    requires
        fits_mac(consumer_secret@),
        fits_mac(body@),
    ensures
        genuine == (signature@ == webhook_signature(consumer_secret@, body@)),
{
    let calced_body = calc_hmac(consumer_secret, body);
    signature_matches(signature, calced_body.as_str())
}

/// The number of an IPv4 address given by its four octets.
pub open spec fn address_number(octets: Seq<u8>) -> int {
    octets[0] * 0x100_0000 + octets[1] * 0x1_0000 + octets[2] * 0x100 + octets[3]
}

/// Whether an address lies in the block of `network` with a prefix of 22
/// bits: the two agree in all but their last 10 bits.
pub open spec fn in_block_22(octets: Seq<u8>, network: Seq<u8>) -> bool {
    address_number(octets) / 0x400 == address_number(network) / 0x400
}

/// Whether an address belongs to the service: to `199.59.148.0/22` or to
/// `199.16.156.0/22`.
pub open spec fn service_address(octets: Seq<u8>) -> bool {
    in_block_22(octets, seq![199u8, 59u8, 148u8, 0u8]) || in_block_22(
        octets,
        seq![199u8, 16u8, 156u8, 0u8],
    )
}

/// Whether the address with the octets `ip` belongs to the service.
pub fn check_ip(ip: [u8; 4]) -> (ours: bool)
    ensures
        ours == service_address(ip@),
{
    let third: u8 = ip[2] / 4;
    assert(address_number(ip@) / 0x400 == ip[0] * 0x4000 + ip[1] * 0x40 + ip[2] / 4) by {
        let n = address_number(ip@);
        let (a, b, c, d) = (ip[0] as int, ip[1] as int, ip[2] as int, ip[3] as int);
        assert(n == (a * 0x4000 + b * 0x40 + c / 4) * 0x400 + ((c % 4) * 0x100 + d));
        assert(n / 0x400 == a * 0x4000 + b * 0x40 + c / 4) by (nonlinear_arith)
            requires
                n == (a * 0x4000 + b * 0x40 + c / 4) * 0x400 + ((c % 4) * 0x100 + d),
                0 <= (c % 4) * 0x100 + d < 0x400,
        ;
    }
    assert(address_number(seq![199u8, 59u8, 148u8, 0u8]) / 0x400 == 199 * 0x4000 + 59 * 0x40
        + 37);
    assert(address_number(seq![199u8, 16u8, 156u8, 0u8]) / 0x400 == 199 * 0x4000 + 16 * 0x40
        + 39);
    (ip[0] == 199 && ip[1] == 59 && third == 37) || (ip[0] == 199 && ip[1] == 16 && third == 39)
}

pub fn make_crc_token_response(consumer_secret: &str, crc_token: &str) -> (response: String)
    requires
        fits_mac(consumer_secret@),
        fits_mac(crc_token@),
    ensures
        response@ == crc_token_response(consumer_secret@, crc_token@),
{
    let calced = calc_hmac(consumer_secret, crc_token);
    make_response_token(calced.as_str())
}

} // verus!
