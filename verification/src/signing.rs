//! Signed queries for the exchange's REST interface: the parameters with
//! the timestamp last, encoded as a form, followed by the HMAC-SHA256 of
//! that text under the secret key, in hex. Encoding, hashing and hex
//! digits are the work of outside crates; the assembly is verified.

use crate::exchange::pairs_view;
use vstd::prelude::*;
use vstd::string::StringExecFns;

verus! {

/// What can stop a query from being signed.
#[derive(Debug, Clone, Copy, PartialEq, Eq, Structural)]
pub enum SigningError {
    /// The parameters could not be encoded as a form.
    Encoding,
}

/// The character of one decimal digit.
pub open spec fn digit_char(d: nat) -> char {
    if d == 0 {
        '0'
    } else if d == 1 {
        '1'
    } else if d == 2 {
        '2'
    } else if d == 3 {
        '3'
    } else if d == 4 {
        '4'
    } else if d == 5 {
        '5'
    } else if d == 6 {
        '6'
    } else if d == 7 {
        '7'
    } else if d == 8 {
        '8'
    } else {
        '9'
    }
}

/// The decimal digits of `n`, without leading zeros.
pub open spec fn decimal_digits(n: nat) -> Seq<char>
    decreases n,
{
    if n < 10 {
        seq![digit_char(n)]
    } else {
        decimal_digits(n / 10).push(digit_char(n % 10))
    }
}

/// The character of one hex digit, lower case.
pub open spec fn hex_char(d: nat) -> char {
    if d < 10 {
        digit_char(d)
    } else if d == 10 {
        'a'
    } else if d == 11 {
        'b'
    } else if d == 12 {
        'c'
    } else if d == 13 {
        'd'
    } else if d == 14 {
        'e'
    } else {
        'f'
    }
}

/// Two lower-case hex digits for each byte, high digit first.
pub open spec fn hex_lower(bytes: Seq<u8>) -> Seq<char> {
    Seq::new(
        2 * bytes.len(),
        |i: int|
            if i % 2 == 0 {
                hex_char((bytes[i / 2] / 16) as nat)
            } else {
                hex_char((bytes[i / 2] % 16) as nat)
            },
    )
}

/// What `serde_urlencoded` writes for a list of pairs, or `None` where it
/// reports an error.
pub uninterp spec fn urlencoded(pairs: Seq<(Seq<char>, Seq<char>)>) -> Option<Seq<char>>;

/// The HMAC-SHA256 tag of `message` under `key`, both taken as UTF-8.
pub uninterp spec fn mac_sha256(key: Seq<char>, message: Seq<char>) -> Seq<u8>;

/// What `str::to_lowercase` returns.
pub uninterp spec fn lowercased(text: Seq<char>) -> Seq<char>;

/// `u64::to_string`: the number in decimal digits.
#[verifier::external_body]
fn u64_text(n: u64) -> (r: String)
    ensures
        r@ == decimal_digits(n as nat),
{
    n.to_string()
}

/// `serde_urlencoded::to_string` on the pairs. The contract only names the
/// text, and `None` stands for the crate's error.
#[verifier::external_body]
fn urlencode(pairs: &Vec<(String, String)>) -> (r: Option<String>)
    ensures
        r matches Some(text) ==> urlencoded(pairs_view(pairs@)) == Some(text@),
        r is None ==> urlencoded(pairs_view(pairs@)) is None,
{
    serde_urlencoded::to_string(pairs).ok()
}

/// `Hmac<Sha256>`: `new_from_slice` on the key's bytes, `update` with the
/// message's bytes, `finalize`. The contract names the tag, and says that
/// there always is one: HMAC takes a key of any length, so `new_from_slice`
/// returns `Ok` on every key.
#[verifier::external_body]
fn mac_tag(key: &str, message: &str) -> (r: Option<Vec<u8>>)
    ensures
        r is Some,
        r matches Some(tag) ==> tag@ == mac_sha256(key@, message@),
{
    match <hmac::Hmac<sha2::Sha256> as hmac::Mac>::new_from_slice(key.as_bytes()) {
        Ok(mut mac) => {
            hmac::Mac::update(&mut mac, message.as_bytes());
            Some(hmac::Mac::finalize(mac).into_bytes().to_vec())
        },
        Err(_) => None,
    }
}

/// `hex::encode`: two lower-case hex digits for each byte.
#[verifier::external_body]
fn hex_text(bytes: &Vec<u8>) -> (r: String)
    ensures
        r@ == hex_lower(bytes@),
{
    hex::encode(bytes)
}

/// `str::to_lowercase`. The contract only names the text.
#[verifier::external_body]
fn lowercase_text(text: &str) -> (r: String)
    ensures
        r@ == lowercased(text@),
{
    text.to_lowercase()
}

/// A number as text, in decimal digits.
pub fn number_text(n: u64) -> (r: String)
    ensures
        r@ == decimal_digits(n as nat),
{
    u64_text(n)
}

/// The parameters that set a symbol's leverage.
pub fn leverage_params(symbol: &str, leverage: u8) -> (params: Vec<(String, String)>)
    ensures
        pairs_view(params@) == seq![
            ("symbol"@, symbol@),
            ("leverage"@, decimal_digits(leverage as nat)),
        ],
{
    let mut params: Vec<(String, String)> = Vec::new();
    params.push(("symbol".to_owned(), symbol.to_owned()));
    params.push(("leverage".to_owned(), u64_text(leverage as u64)));
    assert(pairs_view(params@) =~= seq![
        ("symbol"@, symbol@),
        ("leverage"@, decimal_digits(leverage as nat)),
    ]);
    params
}

/// The text of a signed query: the encoded parameters, then the signature.
pub open spec fn signed_text(query: Seq<char>, tag: Seq<u8>) -> Seq<char> {
    query + "&signature="@ + hex_lower(tag)
}

/// Appends the signature to an encoded query.
pub fn attach_signature(query: String, tag: &Vec<u8>) -> (r: String)
    ensures
        r@ == signed_text(query@, tag@),
{
    let signature: String = hex_text(tag);
    let mut text: String = query;
    text.append("&signature=");
    text.append(signature.as_str());
    text
}

/// The parameters as they are signed: the caller's, then the timestamp.
pub open spec fn stamped(params: Seq<(Seq<char>, Seq<char>)>, timestamp_ms: u64) -> Seq<
    (Seq<char>, Seq<char>),
> {
    params.push(("timestamp"@, decimal_digits(timestamp_ms as nat)))
}

/// Builds the signed query for `params` at `timestamp_ms`, milliseconds
/// since the epoch. The timestamp goes last among the parameters, and the
/// signature covers the whole encoded text and nothing else. Signing fails
/// only where the parameters cannot be encoded.
pub fn sign_and_build_query(secret_key: &str, params: Vec<(String, String)>, timestamp_ms: u64) -> (r:
    Result<String, SigningError>)
    ensures
        r is Ok <==> urlencoded(stamped(pairs_view(params@), timestamp_ms)) is Some,
        r matches Ok(text) ==> text@ == signed_text(
            urlencoded(stamped(pairs_view(params@), timestamp_ms))->0,
            mac_sha256(secret_key@, urlencoded(stamped(pairs_view(params@), timestamp_ms))->0),
        ),
        r matches Err(e) ==> e == SigningError::Encoding,
{
    let mut all: Vec<(String, String)> = params;
    all.push(("timestamp".to_owned(), u64_text(timestamp_ms)));
    assert(pairs_view(all@) =~= stamped(pairs_view(params@), timestamp_ms));
    match urlencode(&all) {
        Some(query) => {
            let tag: Vec<u8> = mac_tag(secret_key, query.as_str()).unwrap();
            Ok(attach_signature(query, &tag))
        },
        None => Err(SigningError::Encoding),
    }
}

/// The address of the book stream of `symbol`.
pub fn stream_url(symbol: &str) -> (r: String)
    ensures
        r@ == "wss://fstream.binance.com/ws/"@ + lowercased(symbol@) + "@bookTicker"@,
{
    let lower: String = lowercase_text(symbol);
    let mut url: String = "wss://fstream.binance.com/ws/".to_owned();
    url.append(lower.as_str());
    url.append("@bookTicker");
    url
}

/// The full address of a signed request.
pub fn request_url(base: &str, endpoint: &str, signed_query: &str) -> (r: String)
    ensures
        r@ == base@ + endpoint@ + "?"@ + signed_query@,
{
    let mut url: String = base.to_owned();
    url.append(endpoint);
    url.append("?");
    url.append(signed_query);
    url
}

} // verus!
