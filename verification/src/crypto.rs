//! Digests and the signatures that providers ask for.

use crate::decimal::{decimal, digit_char, digit_str, push_decimal};
use vstd::prelude::*;
use vstd::string::*;

verus! {

/// The MD5 digest of the UTF-8 bytes of a text: 16 bytes.
pub uninterp spec fn md5_of(data: Seq<char>) -> Seq<u8>;

/// The character of a hexadecimal digit, in lower case; `'0'` for
/// anything that is none.
pub open spec fn hex_digit(d: int) -> char {
    if d == 10 {
        'a'
    } else if d == 11 {
        'b'
    } else if d == 12 {
        'c'
    } else if d == 13 {
        'd'
    } else if d == 14 {
        'e'
    } else if d == 15 {
        'f'
    } else {
        digit_char(d)
    }
}

/// The hexadecimal notation of some bytes: two digits for every byte, the
/// upper half first, in lower case.
pub open spec fn hex_lower(bytes: Seq<u8>) -> Seq<char>
    decreases bytes.len(),
{
    if bytes.len() == 0 {
        Seq::empty()
    } else {
        hex_lower(bytes.drop_last()) + seq![
            hex_digit(bytes.last() as int / 16),
            hex_digit(bytes.last() as int % 16),
        ]
    }
}

/// Computes the MD5 digest of the UTF-8 bytes of `data` through
/// `md5::Md5::digest`. The digest is a function of the text alone, and it
/// is 16 bytes long.
#[verifier::external_body]
fn md5_digest(data: &str) -> (digest: Vec<u8>)
    ensures
        digest@ == md5_of(data@),
        digest@.len() == 16,
{
    <md5::Md5 as md5::Digest>::digest(data.as_bytes()).to_vec()
}

/// The one-character text of a hexadecimal digit, in lower case.
fn hex_digit_str(d: u8) -> (r: &'static str)
    requires
        d < 16,
    ensures
        r@ == seq![hex_digit(d as int)],
{
    if d < 10 {
        return digit_str(d);
    }
    proof {
        reveal_strlit("a");
        reveal_strlit("b");
        reveal_strlit("c");
        reveal_strlit("d");
        reveal_strlit("e");
        reveal_strlit("f");
    }
    let r = if d == 10 {
        "a"
    } else if d == 11 {
        "b"
    } else if d == 12 {
        "c"
    } else if d == 13 {
        "d"
    } else if d == 14 {
        "e"
    } else {
        "f"
    };
    assert(r@ =~= seq![hex_digit(d as int)]);
    r
}

/// Writes bytes in hexadecimal: two lower-case digits for every byte, in
/// the order of the bytes.
pub fn hex_encode(bytes: &Vec<u8>) -> (text: String)
    ensures
        text@ == hex_lower(bytes@),
{
    let mut text = String::from_str("");
    proof {
        reveal_strlit("");
        assert(text@ =~= hex_lower(bytes@.take(0)));
    }
    let mut i: usize = 0;
    while i < bytes.len()
        invariant
            i <= bytes.len(),
            text@ == hex_lower(bytes@.take(i as int)),
        decreases bytes.len() - i,
    {
        let byte: u8 = bytes[i];
        let ghost before = text@;
        text.append(hex_digit_str(byte / 16));
        text.append(hex_digit_str(byte % 16));
        proof {
            let longer = bytes@.take(i + 1);
            assert(longer.drop_last() =~= bytes@.take(i as int));
            assert(longer.last() == byte);
            assert(text@ =~= before + seq![
                hex_digit(byte as int / 16),
                hex_digit(byte as int % 16),
            ]);
        }
        i += 1;
    }
    assert(bytes@.take(i as int) =~= bytes@);
    text
}

/// The MD5 digest of a text, in hexadecimal.
pub fn md5(data: String) -> (digest: String)
    ensures
        digest@ == hex_lower(md5_of(data@)),
{
    let bytes = md5_digest(data.as_str());
    hex_encode(&bytes)
}

/// The signature that one provider asks for under a request: the digest
/// of the brand, the signed part and the key, in this order.
pub fn generate_sign(brand_id: &str, part: &str, api_key: &str) -> (sign: String)
    ensures
        sign@ == hex_lower(md5_of(brand_id@ + part@ + api_key@)),
{
    let mut text = String::from_str(brand_id);
    text.append(part);
    text.append(api_key);
    md5(text)
}

/// The signature that one provider asks for in a request's headers: the
/// digest of the client's identity and secret, the time of the request in
/// seconds since 1970, and the encrypted payload, in this order.
pub fn generate_signature(
    client_id: &str,
    client_secret: &str,
    unix_timestamp: i64,
    des: &str,
) -> (signature: String)
    ensures
        signature@ == hex_lower(
            md5_of(client_id@ + client_secret@ + decimal(unix_timestamp as int) + des@),
        ),
{
    let mut text = String::from_str(client_id);
    text.append(client_secret);
    push_decimal(unix_timestamp, &mut text);
    text.append(des);
    md5(text)
}

/// The hash that one provider asks for under a form: the digest of the
/// form, as it is sent, and the secret key.
pub fn generate_hash(form: &str, secret_key: &str) -> (hash: String)
    ensures
        hash@ == hex_lower(md5_of(form@ + secret_key@)),
{
    let mut text = String::from_str(form);
    text.append(secret_key);
    md5(text)
}

} // verus!
