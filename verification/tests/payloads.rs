use event_dispatcher::hex::{bytes_to_hex, with_prefix};
use event_dispatcher::observer::{
    EventObserver, PATH_ATTACHMENT_PROCESSED, PATH_BLOCK_PROCESSED, PATH_MEMPOOL_TX_SUBMIT,
};
use event_dispatcher::types::{
    AttachmentInstance, BlockHeaderHash, BurnchainHeaderHash, ChainTip, ResponseData, StacksBlock,
    StacksBlockHeader, StacksBlockId, StacksHeaderInfo, StacksTransaction,
    StacksTransactionReceipt, TransactionResult, Txid,
};
use serde_json::Value;

fn json(text: &str) -> Value {
    serde_json::from_str(text).unwrap()
}

fn transaction(id: &str, raw: Vec<u8>) -> StacksTransaction {
    StacksTransaction { txid: Txid { text: id.to_string() }, raw }
}

fn receipt(id: &str, aborted: bool, committed: bool) -> StacksTransactionReceipt {
    StacksTransactionReceipt {
        transaction: transaction(id, vec![0x80, 0x00, 0x0f]),
        events: vec![],
        post_condition_aborted: aborted,
        result: TransactionResult::Response(ResponseData { committed, data: vec![0x03] }),
        contract_analysis: None,
    }
}

fn chain_tip(height: u64, receipts: Vec<StacksTransactionReceipt>) -> ChainTip {
    ChainTip {
        metadata: StacksHeaderInfo {
            block_height: height,
            index_block_hash: StacksBlockId { text: "a1".to_string() },
            burn_header_hash: BurnchainHeaderHash { text: "b2".to_string() },
            burn_header_height: 4_000_000_000,
            burn_header_timestamp: 18_446_744_073_709_551_615,
        },
        block: StacksBlock {
            header: StacksBlockHeader {
                parent_block: BlockHeaderHash { text: "c3".to_string() },
                parent_microblock: BlockHeaderHash { text: "d4".to_string() },
            },
            block_hash: BlockHeaderHash { text: "e5".to_string() },
        },
        receipts,
    }
}

fn status_of(value: &Value) -> String {
    value.get("status").unwrap().as_str().unwrap().to_string()
}

#[test]
fn hex_has_two_lower_case_digits_for_each_byte() {
    assert_eq!(bytes_to_hex(&vec![]), "");
    assert_eq!(bytes_to_hex(&vec![0x00, 0x0a, 0x9f, 0xff]), "000a9fff");
    let all: Vec<u8> = (0..=255).collect();
    let expected: String = all.iter().map(|b| format!("{:02x}", b)).collect();
    assert_eq!(bytes_to_hex(&all), expected);
}

#[test]
fn different_bytes_have_different_hex() {
    assert_ne!(bytes_to_hex(&vec![0x01, 0x23]), bytes_to_hex(&vec![0x12, 0x03]));
}

#[test]
fn prefix_stands_before_the_text() {
    assert_eq!(with_prefix(""), "0x");
    assert_eq!(with_prefix("beef"), "0xbeef");
}

#[test]
fn mempool_payload_lists_raw_transactions() {
    let payload = EventObserver::make_new_mempool_txs_payload(vec![
        transaction("01", vec![0xde, 0xad]),
        transaction("02", vec![]),
    ]);
    assert_eq!(payload, json(r#"["0xdead", "0x"]"#));
    assert_eq!(EventObserver::make_new_mempool_txs_payload(vec![]), json("[]"));
}

#[test]
fn transaction_payload_has_six_members() {
    let payload = EventObserver::make_new_block_txs_payload(&receipt("77", false, true), 3);
    assert_eq!(
        payload,
        json(
            r#"{"txid": "0x77", "tx_index": 3, "status": "success", "raw_result": "0x03",
                "raw_tx": "0x80000f", "contract_abi": null}"#
        )
    );
}

#[test]
fn transaction_status_tells_how_it_ended() {
    let success = EventObserver::make_new_block_txs_payload(&receipt("77", false, true), 0);
    assert_eq!(status_of(&success), "success");
    let not_committed = EventObserver::make_new_block_txs_payload(&receipt("77", false, false), 0);
    assert_eq!(status_of(&not_committed), "abort_by_response");
    let aborted = EventObserver::make_new_block_txs_payload(&receipt("77", true, true), 0);
    assert_eq!(status_of(&aborted), "abort_by_post_condition");
    let both = EventObserver::make_new_block_txs_payload(&receipt("77", true, false), 0);
    assert_eq!(status_of(&both), "abort_by_post_condition");
}

#[test]
fn contract_interface_is_passed_on() {
    let mut published = receipt("77", false, true);
    published.contract_analysis = Some(json(r#"{"functions": [1.5, true, {"n": -2}]}"#));
    let payload = EventObserver::make_new_block_txs_payload(&published, 0);
    assert_eq!(
        payload.get("contract_abi").unwrap(),
        &json(r#"{"functions": [1.5, true, {"n": -2}]}"#)
    );
}

#[test]
fn attachment_payload_is_its_json() {
    let attachment = AttachmentInstance { json: json(r#"{"attachment_index": 1}"#) };
    assert_eq!(
        EventObserver::make_new_attachment_payload(&attachment),
        json(r#"{"attachment_index": 1}"#)
    );
}

#[test]
fn block_payload_has_twelve_members() {
    let payload = EventObserver::make_new_block_payload(
        vec![json(r#"{"event": 1}"#), json(r#"{"event": 0}"#)],
        &chain_tip(7, vec![receipt("77", false, true)]),
        &StacksBlockId { text: "f6".to_string() },
        None,
        &Txid { text: "99".to_string() },
    );
    assert_eq!(
        payload,
        json(
            r#"{"block_hash": "0xe5", "block_height": 7, "burn_block_hash": "0xb2",
                "burn_block_height": 4000000000, "miner_txid": "0x99",
                "burn_block_time": 18446744073709551615, "index_block_hash": "0xa1",
                "parent_block_hash": "0xc3", "parent_index_block_hash": "0xf6",
                "parent_microblock": "0xd4", "events": [{"event": 1}, {"event": 0}],
                "transactions": [{"txid": "0x77", "tx_index": 0, "status": "success",
                    "raw_result": "0x03", "raw_tx": "0x80000f", "contract_abi": null}]}"#
        )
    );
}

#[test]
fn boot_receipts_are_numbered_behind_the_block() {
    let boot = vec![receipt("b0", false, true), receipt("b1", false, true)];
    let payload = EventObserver::make_new_block_payload(
        vec![],
        &chain_tip(1, vec![receipt("77", false, true), receipt("78", false, false)]),
        &StacksBlockId { text: "f6".to_string() },
        Some(&boot),
        &Txid { text: "99".to_string() },
    );
    let transactions = payload.get("transactions").unwrap().as_array().unwrap();
    let numbered: Vec<(String, u64)> = transactions
        .iter()
        .map(|t| {
            (
                t.get("txid").unwrap().as_str().unwrap().to_string(),
                t.get("tx_index").unwrap().as_u64().unwrap(),
            )
        })
        .collect();
    assert_eq!(
        numbered,
        vec![
            ("0x77".to_string(), 0),
            ("0x78".to_string(), 1),
            ("0xb0".to_string(), 2),
            ("0xb1".to_string(), 3),
        ]
    );
}

#[test]
fn send_posts_to_the_path_of_each_kind() {
    let observer = EventObserver { endpoint: "localhost:3700".to_string() };
    let payload = json(r#"["0x00"]"#);
    assert_eq!(PATH_MEMPOOL_TX_SUBMIT, "new_mempool_tx");
    assert_eq!(PATH_ATTACHMENT_PROCESSED, "attachments/new");
    assert_eq!(PATH_BLOCK_PROCESSED, "new_block");
    let mempool = observer.send_new_mempool_txs(&payload).unwrap();
    assert_eq!(mempool.url.as_str(), "http://localhost:3700/new_mempool_tx");
    assert_eq!(mempool.body, b"[\"0x00\"]".to_vec());
    let attachments = observer.send_new_attachments(&payload).unwrap();
    assert_eq!(attachments.url.as_str(), "http://localhost:3700/attachments/new");
    let block = observer
        .send(
            vec![],
            &chain_tip(7, vec![]),
            &StacksBlockId { text: "f6".to_string() },
            None,
            &Txid { text: "99".to_string() },
        )
        .unwrap();
    assert_eq!(block.url.as_str(), "http://localhost:3700/new_block");
    let body: Value = serde_json::from_slice(&block.body).unwrap();
    assert_eq!(body.get("block_height").unwrap().as_u64(), Some(7));
}
