use zcash_node_client::client::{
    check_decimal, read_addresses, read_balance_text, read_blockchain_info, read_operation_id,
    read_received, read_total_balance, read_transactions, request_body, RpcCall, ZcashNodeClient,
};
use zcash_node_client::json::RpcError;
use zcash_node_client::memo::MemoError;
use zcash_node_client::model::{Args, Balance, BlockchainInfo};

fn args(network: &str) -> Args {
    Args {
        verbose: false,
        network: String::from(network),
        username: String::from("user"),
        password: String::from("pass"),
    }
}

#[test]
fn client_auth_header() {
    let c = ZcashNodeClient::new(
        String::from("http://127.0.0.1:8232/"),
        String::from("user"),
        String::from("pass"),
    );
    assert_eq!(c.auth(), "Basic dXNlcjpwYXNz");
    assert_eq!(c.uri(), "http://127.0.0.1:8232/");
}

#[test]
fn client_from_args_networks() {
    let t = ZcashNodeClient::from_args(&args("testnet")).unwrap();
    assert_eq!(t.uri(), "http://127.0.0.1:18232/");
    let m = ZcashNodeClient::from_args(&args("mainnet")).unwrap();
    assert_eq!(m.uri(), "http://127.0.0.1:8232/");
    assert_eq!(m.auth(), "Basic dXNlcjpwYXNz");
    assert!(ZcashNodeClient::from_args(&args("regtest")).is_none());
}

#[test]
fn request_without_params() {
    assert_eq!(
        request_body(&RpcCall::GetBlockchainInfo).unwrap(),
        r#"{"jsonrpc":"1.0","id":"test","method":"getblockchaininfo","params":[]}"#
    );
    assert_eq!(
        request_body(&RpcCall::ZListAddresses).unwrap(),
        r#"{"jsonrpc":"1.0","id":"test","method":"z_listaddresses","params":[]}"#
    );
}

#[test]
fn request_with_address() {
    assert_eq!(
        request_body(&RpcCall::ZListReceivedByAddress(String::from("zs1abc"))).unwrap(),
        r#"{"jsonrpc":"1.0","id":"test","method":"z_listreceivedbyaddress","params":["zs1abc"]}"#
    );
    assert_eq!(
        request_body(&RpcCall::ZGetBalance(String::from("a\"b"))).unwrap(),
        r#"{"jsonrpc":"1.0","id":"test","method":"z_getbalance","params":["a\"b"]}"#
    );
}

#[test]
fn request_send_many() {
    let call = RpcCall::ZSendMany {
        from: String::from("zsA"),
        to: String::from("zsB"),
        amount: String::from("0.01"),
    };
    assert_eq!(
        request_body(&call).unwrap(),
        r#"{"jsonrpc":"1.0","id":"test","method":"z_sendmany","params":["zsA",[{"address":"zsB","amount":0.01}]]}"#
    );
    let bad = RpcCall::ZSendMany {
        from: String::from("zsA"),
        to: String::from("zsB"),
        amount: String::from("1e3"),
    };
    assert_eq!(request_body(&bad), None);
}

#[test]
fn decimal_amounts() {
    assert!(check_decimal("0.01"));
    assert!(check_decimal("12"));
    assert!(check_decimal("0"));
    assert!(!check_decimal("012"));
    assert!(!check_decimal(".5"));
    assert!(!check_decimal("5."));
    assert!(!check_decimal("1.2.3"));
    assert!(!check_decimal("-1"));
    assert!(!check_decimal(""));
}

#[test]
fn blockchain_info_envelope() {
    let body = br#"{"result": {"chain":"main","blocks":12,"difficulty":1.5}}"#;
    let info = read_blockchain_info(body).unwrap();
    assert_eq!(
        info,
        BlockchainInfo { chain: String::from("main"), blocks: 12, difficulty: String::from("1.5") }
    );
    let difficulty: f64 = info.difficulty.parse().unwrap();
    assert_eq!(difficulty, 1.5);
}

#[test]
fn missing_result_is_envelope_error() {
    let body = b"{}";
    assert_eq!(read_blockchain_info(body), Err(RpcError::Envelope));
    assert_eq!(read_transactions(body), Err(RpcError::Envelope));
    assert_eq!(read_balance_text(body), Err(RpcError::Envelope));
    assert_eq!(read_total_balance(body), Err(RpcError::Envelope));
    assert_eq!(read_addresses(body), Err(RpcError::Envelope));
    assert_eq!(read_received(body), Err(RpcError::Envelope));
    assert_eq!(read_operation_id(body), Err(RpcError::Envelope));
}

#[test]
fn body_not_json_is_envelope_error() {
    assert_eq!(read_blockchain_info(b"not json"), Err(RpcError::Envelope));
    assert_eq!(read_addresses(b"[1, 2"), Err(RpcError::Envelope));
    assert_eq!(read_addresses(b"[1, 2]"), Err(RpcError::Envelope));
}

#[test]
fn wrong_shape_is_schema_error() {
    assert_eq!(read_blockchain_info(br#"{"result": 5}"#), Err(RpcError::Schema));
    assert_eq!(
        read_blockchain_info(br#"{"result": {"chain":"main","blocks":-1,"difficulty":1}}"#),
        Err(RpcError::Schema)
    );
    assert_eq!(
        read_blockchain_info(br#"{"result": {"chain":"main","blocks":4294967296,"difficulty":1}}"#),
        Err(RpcError::Schema)
    );
    assert_eq!(
        read_blockchain_info(br#"{"result": {"chain":"main","blocks":1.5,"difficulty":1}}"#),
        Err(RpcError::Schema)
    );
    assert_eq!(read_addresses(br#"{"result": ["a", 3]}"#), Err(RpcError::Schema));
    assert_eq!(read_operation_id(br#"{"result": 3}"#), Err(RpcError::Schema));
}

#[test]
fn blocks_at_u32_limit() {
    let body = br#"{"result": {"chain":"test","blocks":4294967295,"difficulty":2}}"#;
    assert_eq!(read_blockchain_info(body).unwrap().blocks, u32::MAX);
}

#[test]
fn total_balance() {
    let body = br#"{"result": {"transparent":"1.5","private":"0.25","total":"1.75"}, "error": null}"#;
    assert_eq!(
        read_total_balance(body).unwrap(),
        Balance {
            transparent: String::from("1.5"),
            private: String::from("0.25"),
            total: String::from("1.75"),
        }
    );
}

#[test]
fn balance_and_addresses() {
    assert_eq!(read_balance_text(br#"{"result": "0.5"}"#), Ok(String::from("0.5")));
    assert_eq!(
        read_addresses(br#"{"result": ["zs1", "zs2"]}"#),
        Ok(vec![String::from("zs1"), String::from("zs2")])
    );
}

#[test]
fn operation_id() {
    assert_eq!(read_operation_id(br#"{"result": "opid-1"}"#), Ok(Some(String::from("opid-1"))));
    assert_eq!(read_operation_id(br#"{"result": null}"#), Ok(None));
}

#[test]
fn transactions_and_dates() {
    let body = br#"{"result": [{"address":"t1x","category":"receive","amount":0.5,"txid":"ab","time":86400,"timereceived":86401},{"address":"t1y","category":"send","amount":-2,"txid":"cd","time":-1,"timereceived":0}]}"#;
    let txs = read_transactions(body).unwrap();
    assert_eq!(txs.len(), 2);
    assert_eq!(txs[0].address, "t1x");
    assert_eq!(txs[0].amount, "0.5");
    assert_eq!(txs[0].time, 86400);
    assert_eq!(txs[0].timereceived, 86401);
    assert_eq!(txs[1].amount, "-2");
    assert_eq!(txs[1].time, -1);
    assert_eq!(txs[0].get_date_time(), Some(String::from("1970-01-02 00:00:00")));
    assert_eq!(txs[0].get_date(), Some(String::from("Jan 02")));
    assert_eq!(txs[1].get_date_time(), Some(String::from("1969-12-31 23:59:59")));
    let mut far = txs[0].clone();
    far.time = i64::MAX;
    assert_eq!(far.get_date_time(), None);
}

#[test]
fn received_decodes_memos() {
    let body = br#"{"result": [{"txid":"a","amount":1,"memo":"68690000"},{"txid":"b","amount":0.01,"memo":"F6"}]}"#;
    let z = read_received(body).unwrap();
    assert_eq!(z.len(), 2);
    assert_eq!(z[0].txid, "a");
    assert_eq!(z[0].memo, "hi");
    assert_eq!(z[1].amount, "0.01");
    assert_eq!(z[1].memo, "");
}

#[test]
fn received_with_bad_memo() {
    let body = br#"{"result": [{"txid":"a","amount":1,"memo":"6869"},{"txid":"b","amount":1,"memo":"XY"}]}"#;
    assert_eq!(read_received(body), Err(RpcError::Memo(MemoError::InvalidHex)));
    let body = br#"{"result": [{"txid":"a","amount":1,"memo":"FF"}]}"#;
    assert_eq!(read_received(body), Err(RpcError::Memo(MemoError::InvalidUtf8)));
    let body = br#"{"result": [{"txid":"a","memo":"00"}]}"#;
    assert_eq!(read_received(body), Err(RpcError::Schema));
}
