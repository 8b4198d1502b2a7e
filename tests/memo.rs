use zcash_node_client::memo::{decode_memo, memo_from_bytes, remove_trailing_zeroes, MemoError};
use zcash_node_client::model::{RawZTransaction, ZTransaction};

#[test]
fn it_works() {
    assert_eq!(2 + 2, 4);
}

#[test]
fn memo_without_zero_is_whole_text() {
    assert_eq!(decode_memo("68656C6C6F"), Ok(String::from("hello")));
}

#[test]
fn memo_mixed_case_hex() {
    assert_eq!(decode_memo("68656c6C6f"), Ok(String::from("hello")));
}

#[test]
fn memo_padding_is_cut_at_first_zero() {
    assert_eq!(decode_memo("6869000000"), Ok(String::from("hi")));
}

#[test]
fn memo_bytes_after_zero_are_ignored() {
    assert_eq!(decode_memo("686900FFFE41"), Ok(String::from("hi")));
}

#[test]
fn memo_multibyte_utf8() {
    assert_eq!(decode_memo("C3A9000000"), Ok(String::from("\u{e9}")));
}

#[test]
fn memo_empty_mark() {
    assert_eq!(decode_memo("F6"), Ok(String::new()));
    assert_eq!(decode_memo("f6"), Ok(String::new()));
}

#[test]
fn memo_empty_mark_before_padding() {
    let mut hex = String::from("F6");
    for _ in 0..511 {
        hex.push_str("00");
    }
    assert_eq!(decode_memo(&hex), Ok(String::new()));
}

#[test]
fn memo_mark_twice_is_not_utf8() {
    assert_eq!(decode_memo("F6F6"), Err(MemoError::InvalidUtf8));
}

#[test]
fn memo_invalid_utf8() {
    assert_eq!(decode_memo("FF00"), Err(MemoError::InvalidUtf8));
}

#[test]
fn memo_invalid_hex_digit() {
    assert_eq!(decode_memo("6G"), Err(MemoError::InvalidHex));
}

#[test]
fn memo_odd_length() {
    assert_eq!(decode_memo("686"), Err(MemoError::InvalidHex));
}

#[test]
fn memo_empty_and_all_zero() {
    assert_eq!(decode_memo(""), Ok(String::new()));
    assert_eq!(decode_memo("0000"), Ok(String::new()));
}

#[test]
fn memo_decoding_twice_agrees() {
    let hex = "48656C6C6F2C20776F726C6421000000";
    let a = decode_memo(hex);
    let b = decode_memo(hex);
    assert_eq!(a, b);
    assert_eq!(a, Ok(String::from("Hello, world!")));
}

#[test]
fn remove_trailing_zeroes_cuts() {
    assert_eq!(remove_trailing_zeroes(vec![1, 2, 0, 3, 0]), vec![1, 2]);
    assert_eq!(remove_trailing_zeroes(vec![1, 2, 3]), vec![1, 2, 3]);
    assert_eq!(remove_trailing_zeroes(vec![0, 1]), Vec::<u8>::new());
    assert_eq!(remove_trailing_zeroes(vec![]), Vec::<u8>::new());
}

#[test]
fn memo_from_bytes_cases() {
    assert_eq!(memo_from_bytes(vec![0x41, 0x42, 0, 0x43]), Ok(String::from("AB")));
    assert_eq!(memo_from_bytes(vec![0xF6]), Ok(String::new()));
    assert_eq!(memo_from_bytes(vec![0xF6, 0]), Ok(String::new()));
    assert_eq!(memo_from_bytes(vec![0xC3]), Err(MemoError::InvalidUtf8));
}

#[test]
fn ztransaction_new_decodes_memo() {
    let z = ZTransaction::new("abc", "0.5", "746F00").unwrap();
    assert_eq!(z.txid, "abc");
    assert_eq!(z.amount, "0.5");
    assert_eq!(z.memo, "to");
    assert_eq!(ZTransaction::new("abc", "0.5", "zz"), Err(MemoError::InvalidHex));
}

#[test]
fn ztransaction_from_raw() {
    let raw = RawZTransaction {
        txid: String::from("t1"),
        amount: String::from("1.25"),
        memo: String::from("F6000000"),
    };
    let z = ZTransaction::from_raw(&raw).unwrap();
    assert_eq!(z.txid, "t1");
    assert_eq!(z.amount, "1.25");
    assert_eq!(z.memo, "");
}
