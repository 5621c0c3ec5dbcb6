use lumina_core::encoding::{
    decode_base64string, decode_base64string_list, decode_hexstring, decode_hexstring_list,
    encode_base64string, encode_base64string_list, encode_hexstring, encode_hexstring_list, DecodeError,
};

#[test]
fn hex_encodes_upper_case() {
    assert_eq!(encode_hexstring(&vec![0xde, 0xad, 0x01]), b"DEAD01".to_vec());
    assert_eq!(encode_hexstring(&vec![]), Vec::<u8>::new());
}

#[test]
fn hex_decodes_either_case() {
    assert_eq!(decode_hexstring(&b"DEAD01".to_vec()), Ok(vec![0xde, 0xad, 0x01]));
    assert_eq!(decode_hexstring(&b"dead01".to_vec()), Ok(vec![0xde, 0xad, 0x01]));
    assert_eq!(decode_hexstring(&b"".to_vec()), Ok(vec![]));
    assert_eq!(decode_hexstring(&b"DeAd".to_vec()), Err(DecodeError));
    assert_eq!(decode_hexstring(&b"ABC".to_vec()), Err(DecodeError));
    assert_eq!(decode_hexstring(&b"zz".to_vec()), Err(DecodeError));
}

#[test]
fn hex_lists() {
    let items = vec![vec![1u8, 2], vec![0xff]];
    let enc = encode_hexstring_list(&items);
    assert_eq!(enc, vec![b"0102".to_vec(), b"FF".to_vec()]);
    assert_eq!(decode_hexstring_list(&enc), Ok(items));
    assert_eq!(decode_hexstring_list(&vec![b"ff".to_vec()]), Err(DecodeError));
}

#[test]
fn base64_round_trip() {
    assert_eq!(encode_base64string(&b"hello".to_vec()), b"aGVsbG8=".to_vec());
    assert_eq!(decode_base64string(&b"aGVsbG8=".to_vec()), Ok(b"hello".to_vec()));
    assert_eq!(decode_base64string(&b"a$==".to_vec()), Err(DecodeError));
    assert_eq!(decode_base64string(&b"====".to_vec()), Err(DecodeError));
    assert_eq!(decode_base64string(&b"AAAA=AAA".to_vec()), Err(DecodeError));
    assert_eq!(decode_base64string(&b"".to_vec()), Ok(vec![]));
}

#[test]
fn base64_lists() {
    let items = vec![b"hi".to_vec(), vec![]];
    let enc = encode_base64string_list(&items);
    assert_eq!(enc, vec![b"aGk=".to_vec(), vec![]]);
    assert_eq!(decode_base64string_list(&enc), Ok(items));
    assert_eq!(decode_base64string_list(&vec![b"!!!!".to_vec()]), Err(DecodeError));
}
