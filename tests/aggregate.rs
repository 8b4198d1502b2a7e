use zcash_node_client::clientx::merge_results;
use zcash_node_client::json::RpcError;
use zcash_node_client::model::ZTransaction;

fn tx(id: &str) -> ZTransaction {
    ZTransaction { txid: String::from(id), amount: String::from("1"), memo: String::new() }
}

#[test]
fn merge_keeps_address_and_item_order() {
    let parts: Vec<Result<Vec<ZTransaction>, RpcError>> =
        vec![Ok(vec![tx("t1"), tx("t2")]), Ok(vec![tx("t3")])];
    let merged = merge_results(parts).unwrap();
    let ids: Vec<&str> = merged.iter().map(|z| z.txid.as_str()).collect();
    assert_eq!(ids, vec!["t1", "t2", "t3"]);
}

#[test]
fn merge_fails_as_a_whole() {
    let parts: Vec<Result<Vec<ZTransaction>, RpcError>> =
        vec![Ok(vec![tx("t1"), tx("t2")]), Err(RpcError::Envelope)];
    assert_eq!(merge_results(parts), Err(RpcError::Envelope));
}

#[test]
fn merge_reports_first_failure() {
    let parts: Vec<Result<Vec<u32>, RpcError>> =
        vec![Ok(vec![1]), Err(RpcError::Schema), Err(RpcError::Envelope)];
    assert_eq!(merge_results(parts), Err(RpcError::Schema));
}

#[test]
fn merge_of_nothing_is_empty() {
    let parts: Vec<Result<Vec<u32>, RpcError>> = vec![];
    assert_eq!(merge_results(parts), Ok(vec![]));
    let parts: Vec<Result<Vec<u32>, RpcError>> = vec![Ok(vec![]), Ok(vec![7])];
    assert_eq!(merge_results(parts), Ok(vec![7]));
}
