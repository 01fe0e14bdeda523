use gabriel::address::BtcAddressType;
use gabriel::query::{is_chart_height, LatestQuery};

#[test]
fn address_names() {
    assert_eq!(BtcAddressType::P2PK.as_str(), "p2pk");
    assert_eq!(BtcAddressType::P2TR.as_str(), "p2tr");
    assert_eq!(BtcAddressType::P2TR.to_string(), "p2tr");
}

#[test]
fn address_parse_ignores_case() {
    assert_eq!(BtcAddressType::from_str("P2PK"), Ok(BtcAddressType::P2PK));
    assert_eq!(BtcAddressType::from_str("p2Tr"), Ok(BtcAddressType::P2TR));
    assert_eq!(BtcAddressType::from_str("p2pkh"), Err("Unknown address type: p2pkh".to_string()));
    assert_eq!(BtcAddressType::from_str(""), Err("Unknown address type: ".to_string()));
    assert_eq!(BtcAddressType::from_lowercase_name("P2PK"), None);
}

#[test]
fn table_and_index_names() {
    assert_eq!(BtcAddressType::P2PK.table_name(), "p2pk_utxo_block_aggregates");
    assert_eq!(BtcAddressType::P2TR.height_index_name(), "idx_p2tr_block_height");
}

#[test]
fn latest_query_defaults() {
    let q = LatestQuery::resolve(None, None, None);
    assert_eq!(q, LatestQuery { address_type: BtcAddressType::P2PK, num_latest_blocks: 0, sampling_interval: 10 });
    let q = LatestQuery::resolve(Some(BtcAddressType::P2TR), Some(5), Some(100));
    assert_eq!(q, LatestQuery { address_type: BtcAddressType::P2TR, num_latest_blocks: 5, sampling_interval: 100 });
}

#[test]
fn chart_cadence() {
    assert!(is_chart_height(9, 3));
    assert!(!is_chart_height(10, 3));
    assert!(is_chart_height(0, 3));
    assert!(!is_chart_height(6, 0));
}
