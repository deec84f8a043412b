use event_dispatcher::config::{EventKeyType, EventObserverConfig};
use event_dispatcher::dispatcher::{EventDispatcher, EventRecord};
use event_dispatcher::types::{
    AssetEventData, AssetIdentifier, AttachmentInstance, BlockHeaderHash, BurnchainHeaderHash,
    ChainTip, ContractEventKey, FTEventType, NFTEventType, QualifiedContractIdentifier,
    ResponseData, STXEventType, SmartContractEventData, StacksBlock, StacksBlockHeader,
    StacksBlockId, StacksHeaderInfo, StacksTransaction, StacksTransactionEvent,
    StacksTransactionReceipt, TransactionResult, Txid,
};
use serde_json::Value;

fn contract(name: &str) -> QualifiedContractIdentifier {
    QualifiedContractIdentifier { issuer: "ST000".to_string(), name: name.to_string() }
}

fn contract_key(name: &str, event: &str) -> ContractEventKey {
    ContractEventKey { contract_identifier: contract(name), event_name: event.to_string() }
}

fn asset(name: &str) -> AssetIdentifier {
    AssetIdentifier { contract_identifier: contract("tokens"), asset_name: name.to_string() }
}

fn printed(name: &str, event: &str) -> StacksTransactionEvent {
    StacksTransactionEvent::SmartContractEvent(SmartContractEventData {
        key: contract_key(name, event),
    })
}

fn stx(kind: STXEventType) -> StacksTransactionEvent {
    StacksTransactionEvent::STXEvent(kind)
}

fn data(name: &str) -> AssetEventData {
    AssetEventData { asset_identifier: asset(name) }
}

fn receipt(
    id: &str,
    aborted: bool,
    events: Vec<StacksTransactionEvent>,
) -> StacksTransactionReceipt {
    StacksTransactionReceipt {
        transaction: StacksTransaction { txid: Txid { text: id.to_string() }, raw: vec![7] },
        events,
        post_condition_aborted: aborted,
        result: TransactionResult::Response(ResponseData { committed: true, data: vec![3] }),
        contract_analysis: None,
    }
}

fn tip(height: u64, receipts: Vec<StacksTransactionReceipt>) -> ChainTip {
    ChainTip {
        metadata: StacksHeaderInfo {
            block_height: height,
            index_block_hash: StacksBlockId { text: "a1".to_string() },
            burn_header_hash: BurnchainHeaderHash { text: "b2".to_string() },
            burn_header_height: 5,
            burn_header_timestamp: 6,
        },
        block: StacksBlock {
            header: StacksBlockHeader {
                parent_block: BlockHeaderHash { text: "c3".to_string() },
                parent_microblock: BlockHeaderHash { text: "d4".to_string() },
            },
            block_hash: BlockHeaderHash { text: "e5".to_string() },
        },
        receipts,
    }
}

/// The events of this block stand at the positions 0 to 9.
fn busy_tip() -> ChainTip {
    tip(
        2,
        vec![
            receipt(
                "t0",
                false,
                vec![
                    printed("game", "score"),
                    stx(STXEventType::STXTransferEvent),
                    stx(STXEventType::STXMintEvent),
                    stx(STXEventType::STXBurnEvent),
                    stx(STXEventType::STXLockEvent),
                ],
            ),
            receipt("t1", false, vec![]),
            receipt(
                "t2",
                true,
                vec![
                    StacksTransactionEvent::NFTEvent(NFTEventType::NFTTransferEvent(data("cat"))),
                    StacksTransactionEvent::NFTEvent(NFTEventType::NFTMintEvent(data("cat"))),
                    StacksTransactionEvent::FTEvent(FTEventType::FTTransferEvent(data("coin"))),
                    StacksTransactionEvent::FTEvent(FTEventType::FTMintEvent(data("coin"))),
                    printed("game", "over"),
                ],
            ),
        ],
    )
}

fn config(endpoint: &str, events_keys: Vec<EventKeyType>) -> EventObserverConfig {
    EventObserverConfig { endpoint: endpoint.to_string(), events_keys }
}

fn parent() -> StacksBlockId {
    StacksBlockId { text: "f6".to_string() }
}

fn winner() -> Txid {
    Txid { text: "99".to_string() }
}

/// The positions of the events that each observer is told of, sorted.
fn told(dispatcher: &EventDispatcher, chain_tip: &ChainTip) -> Vec<Vec<usize>> {
    let parent = parent();
    dispatcher
        .process_chain_tip(chain_tip, &parent, winner())
        .iter()
        .map(|announcement| {
            let mut ids: Vec<usize> =
                announcement.filtered_events.iter().map(|record| record.index).collect();
            ids.sort();
            ids
        })
        .collect()
}

#[test]
fn new_dispatcher_tells_nobody() {
    let dispatcher = EventDispatcher::new();
    assert!(told(&dispatcher, &busy_tip()).is_empty());
    assert!(dispatcher.process_new_mempool_txs(vec![]).is_empty());
    assert!(dispatcher.process_new_attachments(&vec![]).is_empty());
}

#[test]
fn observers_are_told_of_what_they_subscribed_to() {
    let mut dispatcher = EventDispatcher::new();
    let keys = vec![
        vec![EventKeyType::SmartContractEvent(contract_key("game", "score"))],
        vec![EventKeyType::STXEvent],
        vec![EventKeyType::AssetEvent(asset("cat"))],
        vec![EventKeyType::AssetEvent(asset("coin"))],
        vec![EventKeyType::AnyEvent],
        vec![EventKeyType::MemPoolTransactions],
        vec![],
        vec![
            EventKeyType::SmartContractEvent(contract_key("game", "over")),
            EventKeyType::AssetEvent(asset("cat")),
            EventKeyType::SmartContractEvent(contract_key("game", "over")),
        ],
        vec![EventKeyType::SmartContractEvent(contract_key("other", "score"))],
    ];
    for (i, events_keys) in keys.into_iter().enumerate() {
        dispatcher.register_observer(&config(&format!("observer:{}", i), events_keys));
    }
    assert_eq!(
        told(&dispatcher, &busy_tip()),
        vec![
            vec![0],
            vec![1, 2, 3, 4],
            vec![5, 6],
            vec![7, 8],
            vec![0, 1, 2, 3, 4, 5, 6, 7, 8, 9],
            vec![],
            vec![],
            vec![5, 6, 9],
            vec![],
        ]
    );
}

#[test]
fn subscribers_of_the_same_key_are_all_told() {
    let mut dispatcher = EventDispatcher::new();
    for i in 0..3 {
        dispatcher.register_observer(&config(
            &format!("observer:{}", i),
            vec![EventKeyType::SmartContractEvent(contract_key("game", "score"))],
        ));
    }
    assert_eq!(told(&dispatcher, &busy_tip()), vec![vec![0], vec![0], vec![0]]);
}

#[test]
fn registering_changes_nothing_for_others() {
    let mut dispatcher = EventDispatcher::new();
    dispatcher.register_observer(&config("a:1", vec![EventKeyType::STXEvent]));
    let before = told(&dispatcher, &busy_tip());
    dispatcher.register_observer(&config("b:1", vec![EventKeyType::AnyEvent]));
    let after = told(&dispatcher, &busy_tip());
    assert_eq!(before[0], after[0]);
    assert_eq!(after.len(), 2);
}

#[test]
fn records_name_transaction_and_commitment() {
    let mut dispatcher = EventDispatcher::new();
    dispatcher.register_observer(&config("a:1", vec![EventKeyType::AnyEvent]));
    let chain_tip = busy_tip();
    let parent = parent();
    let announcements = dispatcher.process_chain_tip(&chain_tip, &parent, winner());
    let mut seen: Vec<(usize, bool, String)> = announcements[0]
        .filtered_events
        .iter()
        .map(|record| (record.index, record.committed, record.txid.text.clone()))
        .collect();
    seen.sort();
    assert_eq!(seen.len(), 10);
    assert_eq!(seen[0], (0, true, "t0".to_string()));
    assert_eq!(seen[4], (4, true, "t0".to_string()));
    assert_eq!(seen[5], (5, false, "t2".to_string()));
    assert_eq!(seen[9], (9, false, "t2".to_string()));
    assert_eq!(announcements[0].observer.endpoint, "a:1");
    assert_eq!(announcements[0].winner_txid.text, "99");
    assert_eq!(announcements[0].parent_index_hash.text, "f6");
}

#[test]
fn boot_receipts_go_with_the_first_block_only() {
    let mut dispatcher = EventDispatcher::new();
    dispatcher.register_observer(&config("a:1", vec![]));
    dispatcher.process_boot_receipts(vec![receipt("old", false, vec![])]);
    dispatcher.process_boot_receipts(vec![receipt("b0", false, vec![])]);
    let parent = parent();
    for height in [0, 2, 3] {
        let later = tip(height, vec![]);
        let announcements = dispatcher.process_chain_tip(&later, &parent, winner());
        assert!(announcements[0].boot_receipts.is_none());
    }
    let first = tip(1, vec![receipt("t0", false, vec![])]);
    let announcements = dispatcher.process_chain_tip(&first, &parent, winner());
    let boot = announcements[0].boot_receipts.unwrap();
    assert_eq!(boot.len(), 1);
    assert_eq!(boot[0].transaction.txid.text, "b0");
    let request = announcements[0].send(vec![Value::Null]).unwrap();
    assert_eq!(request.endpoint, "a:1");
    assert_eq!(request.url.as_str(), "http://a:1/new_block");
    let body: Value = serde_json::from_slice(&request.body).unwrap();
    assert_eq!(body.get("transactions").unwrap().as_array().unwrap().len(), 2);
    assert_eq!(body.get("events").unwrap().as_array().unwrap().len(), 1);
    assert_eq!(body.get("miner_txid").unwrap().as_str(), Some("0x99"));
}

#[test]
fn mempool_transactions_go_to_their_subscribers() {
    let mut dispatcher = EventDispatcher::new();
    dispatcher.register_observer(&config("a:1", vec![EventKeyType::STXEvent]));
    dispatcher.register_observer(&config("b:1", vec![EventKeyType::MemPoolTransactions]));
    dispatcher.register_observer(&config("c:1", vec![]));
    dispatcher.register_observer(&config("d:1", vec![EventKeyType::AnyEvent]));
    let txs =
        vec![StacksTransaction { txid: Txid { text: "t".to_string() }, raw: vec![0xab, 0x01] }];
    let requests = dispatcher.process_new_mempool_txs(txs);
    assert_eq!(requests.len(), 2);
    let first = requests[0].as_ref().unwrap();
    let second = requests[1].as_ref().unwrap();
    assert_eq!(first.endpoint, "b:1");
    assert_eq!(first.url.as_str(), "http://b:1/new_mempool_tx");
    assert_eq!(first.body, b"[\"0xab01\"]".to_vec());
    assert_eq!(second.endpoint, "d:1");
    assert_eq!(second.body, first.body);
}

#[test]
fn attachments_go_to_everybody() {
    let mut dispatcher = EventDispatcher::new();
    dispatcher.register_observer(&config("a:1", vec![]));
    dispatcher.register_observer(&config("not an endpoint", vec![]));
    dispatcher.register_observer(&config("c:1", vec![EventKeyType::STXEvent]));
    let attachments = vec![
        AttachmentInstance { json: Value::from(1) },
        AttachmentInstance { json: Value::from("two") },
    ];
    let requests = dispatcher.process_new_attachments(&attachments);
    assert_eq!(requests.len(), 3);
    let first = requests[0].as_ref().unwrap();
    assert_eq!(first.url.as_str(), "http://a:1/attachments/new");
    assert_eq!(first.body, b"[1,\"two\"]".to_vec());
    assert!(requests[1].is_err());
    assert_eq!(requests[2].as_ref().unwrap().endpoint, "c:1");
}

#[test]
fn clone_knows_the_same() {
    let mut dispatcher = EventDispatcher::new();
    dispatcher.register_observer(&config("a:1", vec![EventKeyType::AssetEvent(asset("cat"))]));
    dispatcher.register_observer(&config("b:1", vec![EventKeyType::MemPoolTransactions]));
    dispatcher.process_boot_receipts(vec![receipt("b0", false, vec![printed("game", "over")])]);
    let mut copy = dispatcher.clone();
    assert_eq!(told(&copy, &busy_tip()), told(&dispatcher, &busy_tip()));
    assert_eq!(copy.process_new_mempool_txs(vec![]).len(), 1);
    let first = tip(1, vec![]);
    let parent = parent();
    let announcements = copy.process_chain_tip(&first, &parent, winner());
    assert_eq!(announcements[0].boot_receipts.unwrap()[0].transaction.txid.text, "b0");
    copy.register_observer(&config("c:1", vec![]));
    assert_eq!(told(&copy, &busy_tip()).len(), 3);
    assert_eq!(told(&dispatcher, &busy_tip()).len(), 2);
}

#[test]
fn indexes_start_over_after_sixteen_bits() {
    let mut dispatcher = EventDispatcher::new();
    let silent = config("s:1", vec![]);
    for _ in 0..65536 {
        dispatcher.register_observer(&silent);
    }
    dispatcher.register_observer(&config(
        "late:1",
        vec![EventKeyType::STXEvent, EventKeyType::MemPoolTransactions],
    ));
    let told = told(&dispatcher, &busy_tip());
    assert_eq!(told.len(), 65537);
    assert_eq!(told[0], vec![1, 2, 3, 4]);
    assert!(told[65536].is_empty());
    let requests = dispatcher.process_new_mempool_txs(vec![]);
    let endpoints: Vec<String> =
        requests.iter().map(|request| request.as_ref().unwrap().endpoint.clone()).collect();
    assert_eq!(endpoints, vec!["s:1".to_string(), "late:1".to_string()]);
}

/// The events that a request carries, sorted.
fn carried(body: &[u8]) -> Vec<String> {
    let body: Value = serde_json::from_slice(body).unwrap();
    let events = body.get("events").unwrap().as_array().unwrap();
    let mut texts: Vec<String> =
        events.iter().map(|event| event.as_str().unwrap().to_string()).collect();
    texts.sort();
    texts
}

fn name_record(record: &EventRecord) -> Value {
    Value::from(format!("{} {} {}", record.index, record.txid.text, record.committed))
}

#[test]
fn announcement_serializes_its_events() {
    let mut dispatcher = EventDispatcher::new();
    dispatcher.register_observer(&config("a:1", vec![EventKeyType::AssetEvent(asset("cat"))]));
    let chain_tip = busy_tip();
    let parent = parent();
    let announcements = dispatcher.process_chain_tip(&chain_tip, &parent, winner());
    let request = announcements[0].send_serialized(&name_record).unwrap();
    assert_eq!(request.endpoint, "a:1");
    assert_eq!(request.url.as_str(), "http://a:1/new_block");
    assert_eq!(carried(&request.body), vec!["5 t2 false", "6 t2 false"]);
    let order: Vec<Value> = announcements[0].filtered_events.iter().map(name_record).collect();
    assert_eq!(request.body, announcements[0].send(order).unwrap().body);
}

#[test]
fn blocks_are_sent_with_serialized_events() {
    let mut dispatcher = EventDispatcher::new();
    dispatcher.register_observer(&config("a:1", vec![EventKeyType::STXEvent]));
    dispatcher.register_observer(&config("not an endpoint", vec![]));
    dispatcher.register_observer(&config("c:1", vec![EventKeyType::AssetEvent(asset("coin"))]));
    let ChainTip { metadata, block, receipts } = busy_tip();
    assert!(dispatcher.can_announce(&metadata, &receipts));
    let outcomes =
        dispatcher.announce_block(block, metadata, receipts, &parent(), winner(), name_record);
    assert_eq!(outcomes.len(), 3);
    let first = outcomes[0].as_ref().unwrap();
    assert_eq!(first.endpoint, "a:1");
    assert_eq!(carried(&first.body), vec!["1 t0 true", "2 t0 true", "3 t0 true", "4 t0 true"]);
    assert!(outcomes[1].is_err());
    let third = outcomes[2].as_ref().unwrap();
    assert_eq!(third.url.as_str(), "http://c:1/new_block");
    assert_eq!(carried(&third.body), vec!["7 t2 false", "8 t2 false"]);
    let body: Value = serde_json::from_slice(&third.body).unwrap();
    assert_eq!(body.get("parent_index_block_hash").unwrap().as_str(), Some("0xf6"));
    assert_eq!(body.get("miner_txid").unwrap().as_str(), Some("0x99"));
}

#[test]
fn first_block_is_sent_with_boot_receipts() {
    let mut dispatcher = EventDispatcher::new();
    dispatcher.register_observer(&config("a:1", vec![]));
    dispatcher.dispatch_boot_receipts(vec![receipt("b0", false, vec![])]);
    for (height, expected) in [(1, 2), (2, 1)] {
        let ChainTip { metadata, block, receipts } =
            tip(height, vec![receipt("t0", false, vec![])]);
        let outcomes =
            dispatcher.announce_block(block, metadata, receipts, &parent(), winner(), name_record);
        let body: Value = serde_json::from_slice(&outcomes[0].as_ref().unwrap().body).unwrap();
        assert_eq!(body.get("transactions").unwrap().as_array().unwrap().len(), expected);
    }
}

#[test]
fn blocks_without_responses_cannot_be_announced() {
    let mut without = receipt("t1", false, vec![]);
    without.result = TransactionResult::Other;
    let good = tip(2, vec![receipt("t0", false, vec![])]);
    let bad = tip(2, vec![receipt("t0", false, vec![]), without.clone()]);
    let first = tip(1, vec![receipt("t0", false, vec![])]);
    let mut dispatcher = EventDispatcher::new();
    assert!(dispatcher.can_announce(&bad.metadata, &bad.receipts));
    dispatcher.register_observer(&config("a:1", vec![]));
    assert!(dispatcher.can_announce(&good.metadata, &good.receipts));
    assert!(!dispatcher.can_announce(&bad.metadata, &bad.receipts));
    assert!(dispatcher.can_announce(&first.metadata, &first.receipts));
    dispatcher.dispatch_boot_receipts(vec![without]);
    assert!(!dispatcher.can_announce(&first.metadata, &first.receipts));
    assert!(dispatcher.can_announce(&good.metadata, &good.receipts));
}

#[test]
fn asset_events_are_told_in_either_order() {
    let mut dispatcher = EventDispatcher::new();
    dispatcher.register_observer(&config("a:1", vec![EventKeyType::AssetEvent(asset("cat"))]));
    dispatcher.register_observer(&config("b:1", vec![EventKeyType::AssetEvent(asset("coin"))]));
    let cat = StacksTransactionEvent::NFTEvent(NFTEventType::NFTMintEvent(data("cat")));
    let coin = StacksTransactionEvent::FTEvent(FTEventType::FTMintEvent(data("coin")));
    let one_way = tip(2, vec![receipt("t0", false, vec![cat.clone(), coin.clone()])]);
    let other_way = tip(2, vec![receipt("t0", false, vec![coin, cat])]);
    assert_eq!(told(&dispatcher, &one_way), vec![vec![0], vec![1]]);
    assert_eq!(told(&dispatcher, &other_way), vec![vec![1], vec![0]]);
}

#[test]
fn event_is_told_once_though_asked_for_twice() {
    let mut dispatcher = EventDispatcher::new();
    let key = || EventKeyType::AssetEvent(asset("cat"));
    dispatcher.register_observer(&config("a:1", vec![key(), EventKeyType::AnyEvent, key()]));
    dispatcher.register_observer(&config("b:1", vec![key(), key()]));
    let cat = StacksTransactionEvent::NFTEvent(NFTEventType::NFTTransferEvent(data("cat")));
    let chain_tip = tip(2, vec![receipt("t0", false, vec![cat.clone(), cat])]);
    assert_eq!(told(&dispatcher, &chain_tip), vec![vec![0, 1], vec![0, 1]]);
}
