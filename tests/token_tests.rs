use sovtoken::address::{
    checksum_text, create_payment_address, decode_payment_address, validate_did_len,
    validate_length,
};
use sovtoken::config::{
    check_no_inputs, parse_fees, parse_inputs, parse_outputs, parse_payment_address_config,
};
use sovtoken::error::TokenError;
use sovtoken::json::Json;
use sovtoken::request::{
    build_get_txn_fees, build_get_utxo_request, build_mint_txn, build_payment_req, build_set_txn_fees,
    MintRequest, PaymentRequest,
};
use sovtoken::response::{parse_get_txn_fees_response, parse_get_utxo_response};
use sovtoken::text::{push_decimal, push_quoted};

const DID: &str = "V4SGRU86Z58d6TV7PBUe6f";
const ZERO_KEY_ADDRESS: &str = "pay:sov:11111111111111111111111111111111dNnB";
const ONES_KEY_ADDRESS: &str = "pay:sov:4vJ9JU1bJJE96FWSJKvHsmmFADCg4gpZQff4P3bkLKigqYf";

fn key(b: u8) -> Vec<u8> {
    vec![b; 32]
}

fn address(b: u8) -> String {
    create_payment_address(&key(b))
}

fn text(s: &str) -> Json {
    Json::Str(s.to_string())
}

fn object(members: Vec<(&str, Json)>) -> Json {
    Json::Object(members.into_iter().map(|(k, v)| (k.to_string(), v)).collect())
}

fn output(addr: &str, amount: i128) -> Json {
    object(vec![("address", text(addr)), ("amount", Json::Integer(amount))])
}

fn input(addr: &str, sequence: i128) -> Json {
    object(vec![("address", text(addr)), ("sequence", Json::Integer(sequence))])
}

fn utxo(addr: &str, sequence: i128, amount: i128) -> Json {
    object(vec![
        ("address", text(addr)),
        ("sequence", Json::Integer(sequence)),
        ("amount", Json::Integer(amount)),
    ])
}

#[test]
fn create_gives_exact_address() {
    assert_eq!(address(0), ZERO_KEY_ADDRESS);
    assert_eq!(address(1), ONES_KEY_ADDRESS);
    let k: Vec<u8> = (0u8..32).collect();
    assert_eq!(
        create_payment_address(&k),
        "pay:sov:1thX6LZfHDZZKUs92febYZhYRcXddmzfzF2NvTkPNEDkaK"
    );
}

#[test]
fn checksum_of_encoded_key() {
    assert_eq!(checksum_text("11111111111111111111111111111111"), "dNnB");
    assert_eq!(checksum_text(""), "1111");
}

#[test]
fn decode_round_trip() {
    for b in [0u8, 1, 7, 128, 255] {
        let k = key(b);
        assert_eq!(decode_payment_address(&create_payment_address(&k)), Ok(k));
    }
    let k: Vec<u8> = (0u8..32).rev().collect();
    assert_eq!(decode_payment_address(&create_payment_address(&k)), Ok(k));
}

#[test]
fn decode_rejects_any_checksum_flip() {
    let a: Vec<char> = address(1).chars().collect();
    let n = a.len();
    for i in n - 4..n {
        for c in ['1', 'z', 'A', 'q'] {
            if a[i] != c {
                let mut b = a.clone();
                b[i] = c;
                let s: String = b.into_iter().collect();
                assert_eq!(decode_payment_address(&s), Err(TokenError::InvalidAddress));
            }
        }
    }
}

#[test]
fn decode_rejects_wrong_checksum() {
    let s = "pay:sov:4vJ9JU1bJJE96FWSJKvHsmmFADCg4gpZQff4P3bkLKi0000";
    assert_eq!(decode_payment_address(s), Err(TokenError::InvalidAddress));
}

#[test]
fn decode_rejects_bad_frames() {
    assert_eq!(decode_payment_address(""), Err(TokenError::InvalidAddress));
    assert_eq!(decode_payment_address("pay:sov:"), Err(TokenError::InvalidAddress));
    let wrong_prefix = ONES_KEY_ADDRESS.replace("pay:sov:", "pay:xyz:");
    assert_eq!(decode_payment_address(&wrong_prefix), Err(TokenError::InvalidAddress));
    // a correct checksum over text that is not base58
    let body = "0OIl";
    let s = format!("pay:sov:{}{}", body, checksum_text(body));
    assert_eq!(decode_payment_address(&s), Err(TokenError::InvalidAddress));
    // a correct checksum over a key of the wrong length
    let short = create_payment_address(&vec![5u8; 31]);
    assert_eq!(decode_payment_address(&short), Err(TokenError::InvalidAddress));
}

#[test]
fn length_guards() {
    assert!(validate_did_len(DID));
    assert!(!validate_did_len(""));
    assert!(validate_did_len(&"x".repeat(64)));
    assert!(!validate_did_len(&"x".repeat(65)));
    assert!(validate_length(ZERO_KEY_ADDRESS, 44));
    assert!(!validate_length(ZERO_KEY_ADDRESS, 45));
}

#[test]
fn text_helpers() {
    let mut s = String::new();
    push_decimal(&mut s, 0);
    push_decimal(&mut s, 18446744073709551615);
    assert_eq!(s, "018446744073709551615");
    let mut q = String::new();
    push_quoted(&mut q, "a\"b\\c\n");
    assert_eq!(q, "\"a\\\"b\\\\c\\u000a\"");
}

#[test]
fn outputs_parse_in_order() {
    let a0 = address(0);
    let a1 = address(1);
    let j = Json::Array(vec![output(&a1, 5), output(&a0, 7)]);
    let v = parse_outputs(&j, false).unwrap();
    assert_eq!(v.len(), 2);
    assert_eq!(v[0].address, a1);
    assert_eq!(v[0].amount, 5);
    assert_eq!(v[1].address, a0);
    assert_eq!(v[1].amount, 7);
}

#[test]
fn outputs_missing_field_is_malformed() {
    let a0 = address(0);
    let j = Json::Array(vec![object(vec![("address", text(&a0))])]);
    assert_eq!(parse_outputs(&j, true).unwrap_err(), TokenError::MalformedConfig);
    let j = Json::Array(vec![object(vec![("amount", Json::Integer(3))])]);
    assert_eq!(parse_outputs(&j, true).unwrap_err(), TokenError::MalformedConfig);
    let j = Json::Array(vec![object(vec![("address", text(&a0)), ("amount", text("3"))])]);
    assert_eq!(parse_outputs(&j, true).unwrap_err(), TokenError::MalformedConfig);
    assert_eq!(parse_outputs(&output(&a0, 3), true).unwrap_err(), TokenError::MalformedConfig);
    // shape is checked before values
    let j = Json::Array(vec![output(&a0, -1), Json::Null]);
    assert_eq!(parse_outputs(&j, true).unwrap_err(), TokenError::MalformedConfig);
}

#[test]
fn outputs_bad_values_are_invalid() {
    let a0 = address(0);
    let neg = Json::Array(vec![output(&a0, -1)]);
    assert_eq!(parse_outputs(&neg, true).unwrap_err(), TokenError::InvalidValue);
    let big = Json::Array(vec![output(&a0, 18446744073709551616)]);
    assert_eq!(parse_outputs(&big, true).unwrap_err(), TokenError::InvalidValue);
    let zero = Json::Array(vec![output(&a0, 0)]);
    assert_eq!(parse_outputs(&zero, false).unwrap_err(), TokenError::InvalidValue);
    assert_eq!(parse_outputs(&zero, true).unwrap()[0].amount, 0);
    let empty = Json::Array(vec![]);
    assert_eq!(parse_outputs(&empty, true).unwrap_err(), TokenError::InvalidValue);
    let bad = Json::Array(vec![output("pay:sov:AAAA1234", 5)]);
    assert_eq!(parse_outputs(&bad, true).unwrap_err(), TokenError::InvalidValue);
}

#[test]
fn inputs_parse_and_reject() {
    let a0 = address(0);
    let a1 = address(1);
    let v = parse_inputs(&Json::Array(vec![input(&a1, 2), input(&a0, 1)])).unwrap();
    assert_eq!(v[0].address, a1);
    assert_eq!(v[0].sequence, 2);
    assert_eq!(v[1].address, a0);
    assert_eq!(v[1].sequence, 1);
    let dup = Json::Array(vec![input(&a1, 2), input(&a0, 1), input(&a1, 2)]);
    assert_eq!(parse_inputs(&dup).unwrap_err(), TokenError::InvalidValue);
    let same_address = Json::Array(vec![input(&a1, 2), input(&a1, 3)]);
    assert_eq!(parse_inputs(&same_address).unwrap().len(), 2);
    let neg = Json::Array(vec![input(&a1, -2)]);
    assert_eq!(parse_inputs(&neg).unwrap_err(), TokenError::InvalidValue);
    assert_eq!(parse_inputs(&Json::Array(vec![])).unwrap_err(), TokenError::InvalidValue);
    let missing = Json::Array(vec![object(vec![("address", text(&a1))])]);
    assert_eq!(parse_inputs(&missing).unwrap_err(), TokenError::MalformedConfig);
    assert_eq!(parse_inputs(&Json::Null).unwrap_err(), TokenError::MalformedConfig);
}

#[test]
fn fees_parse_and_reject() {
    let j = object(vec![("MINT", Json::Integer(10)), ("PAY", Json::Integer(5))]);
    let f = parse_fees(&j).unwrap();
    assert_eq!(f.entries.len(), 2);
    assert_eq!(f.entries[0].txn_type, "MINT");
    assert_eq!(f.entries[0].amount, 10);
    assert_eq!(f.entries[1].txn_type, "PAY");
    assert_eq!(f.entries[1].amount, 5);
    let neg = object(vec![("PAY", Json::Integer(-5))]);
    assert_eq!(parse_fees(&neg).unwrap_err(), TokenError::InvalidValue);
    let not_int = object(vec![("PAY", text("5"))]);
    assert_eq!(parse_fees(&not_int).unwrap_err(), TokenError::MalformedConfig);
    let twice = object(vec![("PAY", Json::Integer(1)), ("PAY", Json::Integer(2))]);
    assert_eq!(parse_fees(&twice).unwrap_err(), TokenError::MalformedConfig);
    assert_eq!(parse_fees(&Json::Array(vec![])).unwrap_err(), TokenError::MalformedConfig);
    assert_eq!(parse_fees(&object(vec![])).unwrap().entries.len(), 0);
}

#[test]
fn payment_address_config() {
    let c = parse_payment_address_config(&object(vec![("seed", text("abc"))])).unwrap();
    assert_eq!(c.seed, Some("abc".to_string()));
    let c = parse_payment_address_config(&object(vec![])).unwrap();
    assert_eq!(c.seed, None);
    let bad = object(vec![("seed", Json::Integer(1))]);
    assert_eq!(parse_payment_address_config(&bad).unwrap_err(), TokenError::MalformedConfig);
    assert_eq!(parse_payment_address_config(&Json::Null).unwrap_err(), TokenError::MalformedConfig);
}

#[test]
fn mint_inputs_check() {
    assert_eq!(check_no_inputs(&Json::Null), Ok(()));
    assert_eq!(check_no_inputs(&Json::Array(vec![])), Ok(()));
    let a = address(0);
    assert_eq!(check_no_inputs(&Json::Array(vec![input(&a, 1)])), Err(TokenError::InvalidValue));
    assert_eq!(check_no_inputs(&Json::Bool(true)), Err(TokenError::MalformedConfig));
}

#[test]
fn payment_request_text_keeps_order() {
    let a0 = address(0);
    let a1 = address(1);
    let ins = Json::Array(vec![input(&a1, 2), input(&a0, 1)]);
    let outs = Json::Array(vec![output(&a0, 10)]);
    let t = build_payment_req(DID, &ins, &outs, false).unwrap();
    let expected = format!(
        "{{\"operation\":\"PAY\",\"protocolVersion\":1,\"identifier\":\"{}\",\"inputs\":[{{\"address\":\"{}\",\"sequence\":2}},{{\"address\":\"{}\",\"sequence\":1}}],\"outputs\":[{{\"address\":\"{}\",\"amount\":10}}]}}",
        DID, a1, a0, a0
    );
    assert_eq!(t, expected);
}

#[test]
fn payment_request_is_deterministic() {
    let a0 = address(0);
    let a1 = address(1);
    let ins = Json::Array(vec![input(&a1, 2)]);
    let outs = Json::Array(vec![output(&a0, 10), output(&a1, 3)]);
    let t1 = build_payment_req(DID, &ins, &outs, false).unwrap();
    let t2 = build_payment_req(DID, &ins, &outs, false).unwrap();
    assert_eq!(t1.as_bytes(), t2.as_bytes());
}

#[test]
fn payment_request_errors() {
    let a0 = address(0);
    let ins = Json::Array(vec![input(&a0, 2)]);
    let outs = Json::Array(vec![output(&a0, 10)]);
    assert_eq!(build_payment_req("", &ins, &outs, false), Err(TokenError::InvalidValue));
    assert_eq!(build_payment_req(DID, &ins, &Json::Null, false), Err(TokenError::MalformedConfig));
    assert_eq!(build_payment_req(DID, &Json::Null, &outs, false), Err(TokenError::MalformedConfig));
    assert_eq!(build_payment_req(DID, &Json::Array(vec![]), &outs, false), Err(TokenError::InvalidValue));
}

#[test]
fn payment_request_struct_serializes() {
    let a0 = address(0);
    let outs = parse_outputs(&Json::Array(vec![output(&a0, 1)]), false).unwrap();
    let ins = parse_inputs(&Json::Array(vec![input(&a0, 9)])).unwrap();
    let r = PaymentRequest::from_config(outs, ins, "d\"x".to_string());
    assert_eq!(
        r.serialize_to_string(),
        format!("{{\"operation\":\"PAY\",\"protocolVersion\":1,\"identifier\":\"d\\\"x\",\"inputs\":[{{\"address\":\"{}\",\"sequence\":9}}],\"outputs\":[{{\"address\":\"{}\",\"amount\":1}}]}}", a0, a0)
    );
}

#[test]
fn mint_request_from_outputs() {
    let a1 = address(1);
    let outs = Json::Array(vec![output(&a1, 100)]);
    let t = build_mint_txn(DID, &outs, &Json::Array(vec![]), false).unwrap();
    let expected = format!(
        "{{\"operation\":\"MINT\",\"protocolVersion\":1,\"identifier\":\"{}\",\"outputs\":[{{\"address\":\"{}\",\"amount\":100}}]}}",
        DID, a1
    );
    assert_eq!(t, expected);
    let r = MintRequest::from_config(parse_outputs(&outs, false).unwrap(), DID.to_string());
    assert_eq!(r.serialize_to_string(), expected);
    let ins = Json::Array(vec![input(&a1, 1)]);
    assert_eq!(build_mint_txn(DID, &outs, &ins, false), Err(TokenError::InvalidValue));
}

#[test]
fn set_fees_then_query_fees() {
    let fees = object(vec![("MINT", Json::Integer(10)), ("PAY", Json::Integer(5))]);
    let t = build_set_txn_fees(DID, &fees).unwrap();
    assert_eq!(
        t,
        format!("{{\"operation\":\"SET_FEES\",\"protocolVersion\":1,\"identifier\":\"{}\",\"fees\":{{\"MINT\":10,\"PAY\":5}}}}", DID)
    );
    let reply = object(vec![("MINT", Json::Integer(10))]);
    let f = parse_get_txn_fees_response(&reply).unwrap();
    assert_eq!(f.entries.len(), 1);
    assert_eq!(f.entries[0].txn_type, "MINT");
    assert_eq!(f.entries[0].amount, 10);
    let bad = object(vec![("MINT", Json::Integer(-10))]);
    assert_eq!(parse_get_txn_fees_response(&bad).unwrap_err(), TokenError::ParseError);
    assert_eq!(build_set_txn_fees(DID, &bad), Err(TokenError::InvalidValue));
}

#[test]
fn utxo_response_two_records_in_order() {
    let a0 = address(0);
    let a1 = address(1);
    let j = Json::Array(vec![utxo(&a1, 3, 30), utxo(&a0, 1, 10)]);
    let v = parse_get_utxo_response(&j).unwrap();
    assert_eq!(v.len(), 2);
    assert_eq!(v[0].payment_address, a1);
    assert_eq!(v[0].sequence, 3);
    assert_eq!(v[0].amount, 30);
    assert_eq!(v[1].payment_address, a0);
    assert_eq!(v[1].sequence, 1);
    assert_eq!(v[1].amount, 10);
}

#[test]
fn utxo_response_one_bad_address_fails_whole() {
    let a0 = address(0);
    let j = Json::Array(vec![utxo(&a0, 1, 10), utxo("pay:sov:AAAA0000", 2, 20)]);
    assert_eq!(parse_get_utxo_response(&j).unwrap_err(), TokenError::ParseError);
    let missing = Json::Array(vec![object(vec![("address", text(&a0))])]);
    assert_eq!(parse_get_utxo_response(&missing).unwrap_err(), TokenError::ParseError);
    assert_eq!(parse_get_utxo_response(&Json::Null).unwrap_err(), TokenError::ParseError);
    assert_eq!(parse_get_utxo_response(&Json::Array(vec![])).unwrap().len(), 0);
}

#[test]
fn get_utxo_request_text() {
    let a0 = address(0);
    assert_eq!(
        build_get_utxo_request(DID, &a0).unwrap(),
        format!("{{\"operation\":\"GET_UTXO\",\"protocolVersion\":1,\"identifier\":\"{}\",\"address\":\"{}\"}}", DID, a0)
    );
    assert_eq!(build_get_utxo_request("", &a0), Err(TokenError::InvalidValue));
    assert_eq!(build_get_utxo_request(DID, "pay:sov:AAAA1234"), Err(TokenError::InvalidAddress));
}

#[test]
fn get_fees_request_text() {
    assert_eq!(
        build_get_txn_fees(DID).unwrap(),
        format!("{{\"operation\":\"GET_FEES\",\"protocolVersion\":1,\"identifier\":\"{}\"}}", DID)
    );
    assert_eq!(build_get_txn_fees(&"x".repeat(65)), Err(TokenError::InvalidValue));
}
