use scalper::signing::{
    attach_signature, leverage_params, number_text, request_url, sign_and_build_query, stream_url,
};

fn pair(k: &str, v: &str) -> (String, String) {
    (k.to_string(), v.to_string())
}

#[test]
fn numbers_as_text() {
    assert_eq!(number_text(0), "0");
    assert_eq!(number_text(7), "7");
    assert_eq!(number_text(10), "10");
    assert_eq!(number_text(1_700_000_000_000), "1700000000000");
    assert_eq!(number_text(u64::MAX), "18446744073709551615");
}

#[test]
fn leverage_parameters() {
    assert_eq!(leverage_params("BTCUSDT", 5), vec![pair("symbol", "BTCUSDT"), pair("leverage", "5")]);
    assert_eq!(leverage_params("X", 125)[1], pair("leverage", "125"));
}

#[test]
fn signature_is_appended_in_lower_case_hex() {
    let tag: Vec<u8> = vec![0x00, 0x0f, 0xa5, 0xff, 0x10];
    assert_eq!(attach_signature("a=1".to_string(), &tag), "a=1&signature=000fa5ff10");
    assert_eq!(attach_signature(String::new(), &Vec::new()), "&signature=");
}

#[test]
fn timestamp_goes_last_and_the_signature_covers_the_query() {
    let params = vec![pair("symbol", "BTCUSDT"), pair("side", "BUY")];
    let signed = sign_and_build_query("secret", params, 1_700_000_000_000).unwrap();
    assert_eq!(
        signed,
        "symbol=BTCUSDT&side=BUY&timestamp=1700000000000&signature=\
         56c1f232f4f294a883855d759ded8479557b86f8b694533781d92c6151215d4d"
    );
}

#[test]
fn query_without_parameters_and_with_an_empty_key() {
    let signed = sign_and_build_query("", Vec::new(), 1_700_000_000_000).unwrap();
    assert_eq!(
        signed,
        "timestamp=1700000000000&signature=\
         19bd37280a58c0adc2db9cf3640abe5dab0bedf99411be4d5ec694ba1549333c"
    );
}

#[test]
fn values_are_form_encoded_before_signing() {
    let signed = sign_and_build_query("k", vec![pair("note", "a b&c")], 5).unwrap();
    assert_eq!(
        signed,
        "note=a+b%26c&timestamp=5&signature=\
         5d599310c0120116b48e96e163cff400ac7ecfeaba9786191a2127cb2cda91f9"
    );
}

#[test]
fn different_keys_give_different_signatures() {
    let a = sign_and_build_query("one", vec![pair("x", "1")], 9).unwrap();
    let b = sign_and_build_query("two", vec![pair("x", "1")], 9).unwrap();
    assert_ne!(a, b);
    assert!(a.starts_with("x=1&timestamp=9&signature="));
    assert_eq!(a.len(), "x=1&timestamp=9&signature=".len() + 64);
}

#[test]
fn stream_address_is_lower_case() {
    assert_eq!(stream_url("BTCUSDT"), "wss://fstream.binance.com/ws/btcusdt@bookTicker");
    assert_eq!(stream_url("ethUsdt"), "wss://fstream.binance.com/ws/ethusdt@bookTicker");
}

#[test]
fn request_address() {
    assert_eq!(
        request_url("https://fapi.binance.com", "/fapi/v1/order", "a=1&signature=ff"),
        "https://fapi.binance.com/fapi/v1/order?a=1&signature=ff"
    );
}
