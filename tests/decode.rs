use xdcc::response::{Ipv4Address, Response};

fn decoded(msg: &str) -> Response {
    Response::decode(msg).expect("message should decode")
}

#[test]
fn decode_simple() {
    let res = decoded("DCC SEND \"foo.txt\" 3232235777 5000 1048576");
    assert_eq!(res.filename, "foo.txt");
    assert_eq!(res.port, 5000);
    assert_eq!(res.filesize, 1048576);
}

#[test]
fn decode_with_quotes() {
    let res = decoded("DCC SEND \"hello\\\"world.txt\" 3232235777 5000 1048576");
    assert_eq!(res.filename, "hello\"world.txt");
    assert_eq!(res.port, 5000);
    assert_eq!(res.filesize, 1048576);
}

#[test]
fn decode_filename_with_spaces() {
    let res = decoded("DCC SEND \"foo bar baz.txt\" 3232235777 5000 1048576");
    assert_eq!(res.filename, "foo bar baz.txt");
    assert_eq!(res.port, 5000);
    assert_eq!(res.filesize, 1048576);
}

#[test]
fn decode_address_is_big_endian() {
    let res = decoded("DCC SEND \"foo.txt\" 3232235777 5000 1048576");
    assert_eq!(res.address.octets(), [192, 168, 1, 1]);
    assert_eq!(res.address.to_bits(), 3232235777);
}

#[test]
fn address_octets_from_bits() {
    assert_eq!(Ipv4Address::from_bits(3232235777).octets(), [192, 168, 1, 1]);
    assert_eq!(Ipv4Address::from_bits(0x7f000001).octets(), [127, 0, 0, 1]);
    assert_eq!(Ipv4Address::from_bits(u32::MAX).octets(), [255, 255, 255, 255]);
    assert_eq!(Ipv4Address::from_bits(0).to_bits(), 0);
}

#[test]
fn decode_numeric_fields_round_trip() {
    let res = decoded("DCC SEND \"a b\" 4294967295 65535 18446744073709551615");
    assert_eq!(res.filename, "a b");
    assert_eq!(res.address.to_bits(), 4294967295);
    assert_eq!(res.port, 65535);
    assert_eq!(res.filesize, u64::MAX);
    let res = decoded("DCC SEND \"x\" 0 0 0");
    assert_eq!(res.address.to_bits(), 0);
    assert_eq!(res.port, 0);
    assert_eq!(res.filesize, 0);
}

#[test]
fn decode_trims_surrounding_whitespace() {
    let res = decoded("  DCC SEND \"foo.txt\" 3232235777 5000 1048576\r\n");
    assert_eq!(res.filename, "foo.txt");
    assert_eq!(res.filesize, 1048576);
}

#[test]
fn decode_strips_one_quote_at_each_end() {
    let res = decoded("DCC SEND \"\"a\"\" 1 2 3");
    assert_eq!(res.filename, "\"a\"");
    let res = decoded("DCC SEND plain.bin 1 2 3");
    assert_eq!(res.filename, "plain.bin");
}

#[test]
fn decode_only_unescapes_quotes() {
    let res = decoded("DCC SEND \"a\\\\b\\n\" 1 2 3");
    assert_eq!(res.filename, "a\\\\b\\n");
}

#[test]
fn decode_accepts_plus_sign() {
    let res = decoded("DCC SEND \"f\" +1 +2 +3");
    assert_eq!(res.address.to_bits(), 1);
    assert_eq!(res.port, 2);
    assert_eq!(res.filesize, 3);
}

#[test]
fn decode_rejects_other_prefixes() {
    assert!(Response::decode("hello world").is_none());
    assert!(Response::decode("DCC CHAT \"f\" 1 2 3").is_none());
    assert!(Response::decode("dcc send \"f\" 1 2 3").is_none());
    assert!(Response::decode("").is_none());
    assert!(Response::decode("DCC SEND").is_none());
}

#[test]
fn decode_rejects_missing_fields() {
    assert!(Response::decode("DCC SEND \"f\" 1 2").is_none());
    assert!(Response::decode("DCC SEND 1 2").is_none());
    assert!(Response::decode("DCC SEND 3").is_none());
    assert!(Response::decode("DCC SEND ").is_none());
}

#[test]
fn decode_rejects_bad_numbers() {
    assert!(Response::decode("DCC SEND \"f\" 1 65536 3").is_none());
    assert!(Response::decode("DCC SEND \"f\" 4294967296 2 3").is_none());
    assert!(Response::decode("DCC SEND \"f\" 1 2 18446744073709551616").is_none());
    assert!(Response::decode("DCC SEND \"f\" 1 2 x").is_none());
    assert!(Response::decode("DCC SEND \"f\" 1 -2 3").is_none());
    assert!(Response::decode("DCC SEND \"f\" 1 + 3").is_none());
    assert!(Response::decode("DCC SEND \"f\" 1 2  3").is_none());
}
