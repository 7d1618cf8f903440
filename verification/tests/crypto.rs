use bet_archiver::crypto::{generate_hash, generate_sign, generate_signature, hex_encode, md5};

#[test]
fn md5_of_known_texts() {
    assert_eq!(md5("".to_string()), "d41d8cd98f00b204e9800998ecf8427e");
    assert_eq!(md5("abc".to_string()), "900150983cd24fb0d6963f7d28e17f72");
    assert_eq!(
        md5("The quick brown fox jumps over the lazy dog".to_string()),
        "9e107d9d372bb6826bd81d3542a419d6"
    );
}

#[test]
fn signatures_digest_their_parts_in_order() {
    assert_eq!(generate_sign("a", "b", "c"), md5("abc".to_string()));
    assert_eq!(generate_sign("brand", "round-1", "key"), md5("brandround-1key".to_string()));
    assert_ne!(generate_sign("a", "b", "c"), generate_sign("c", "b", "a"));
    assert_eq!(
        generate_signature("id", "secret", 1700000000, "payload"),
        md5("idsecret1700000000payload".to_string())
    );
    assert_eq!(generate_signature("id", "secret", -5, "x"), md5("idsecret-5x".to_string()));
    assert_eq!(generate_signature("", "", 0, ""), md5("0".to_string()));
    assert_eq!(
        generate_signature("", "", i64::MIN, ""),
        md5("-9223372036854775808".to_string())
    );
    assert_eq!(
        generate_signature("", "", i64::MAX, ""),
        md5("9223372036854775807".to_string())
    );
    assert_eq!(generate_hash("a=1&b=2", "key"), md5("a=1&b=2key".to_string()));
}

#[test]
fn bytes_in_hexadecimal() {
    assert_eq!(hex_encode(&vec![]), "");
    assert_eq!(hex_encode(&vec![0]), "00");
    assert_eq!(hex_encode(&vec![0x0f, 0xf0, 0xff]), "0ff0ff");
    assert_eq!(hex_encode(&vec![0x01, 0x23, 0x45, 0x67, 0x89, 0xab, 0xcd, 0xef]), "0123456789abcdef");
}

#[test]
fn every_byte_is_written_as_the_hex_crate_writes_it() {
    let mut byte: u8 = 0;
    loop {
        assert_eq!(hex_encode(&vec![byte, 255 - byte]), hex::encode(vec![byte, 255 - byte]));
        if byte == 255 {
            break;
        }
        byte += 1;
    }
}
