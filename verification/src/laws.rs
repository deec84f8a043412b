//! What holds of the library as a whole.

use crate::config::{EventKeyView, ObserverConfigView};
use crate::delivery::{AttemptOutcome, PostRequest, SendError};
use crate::dispatcher::{
    all_below, block_events, index_after, marked, record_indexes, selects, serializes,
    BlockAnnouncement, DispatcherView, EmittedEvent, EventRecord,
};
use crate::hex::{hex_digit, hex_text};
use crate::json::{json_seq, Json};
use crate::observer::{
    announced_receipts, block_json, block_members, observer_url, raw_json, sends, status_text,
    transaction_json, transaction_members, transactions_json, PATH_BLOCK_PROCESSED,
};
use crate::types::{
    receipt_views, AssetView, ChainTip, ContractEventView, EventView, ReceiptView, StacksBlockId,
};
use serde_json::Value;
use vstd::prelude::*;

verus! {

/// What a dispatcher knows after observers were registered, in this order.
pub open spec fn register_all(
    start: DispatcherView,
    confs: Seq<ObserverConfigView>,
) -> DispatcherView
    decreases confs.len(),
{
    if confs.len() == 0 {
        start
    } else {
        register_all(start, confs.drop_last()).registered(confs.last())
    }
}

/// Whether a dispatcher is one at which the observers `confs` were registered,
/// in this order, whatever boot receipts it was given.
pub open spec fn reached_by(d: DispatcherView, confs: Seq<ObserverConfigView>) -> bool {
    d == (DispatcherView {
        boot_receipts: d.boot_receipts,
        ..register_all(DispatcherView::empty(), confs)
    })
}

/// A new dispatcher has no observers, registering one adds it to those that
/// were registered before, and boot receipts change nothing of that.
pub proof fn registrations_add_up(
    d: DispatcherView,
    confs: Seq<ObserverConfigView>,
    conf: ObserverConfigView,
    boot_receipts: Seq<ReceiptView>,
)
    requires
        reached_by(d, confs),
    ensures
        reached_by(DispatcherView::empty(), Seq::empty()),
        reached_by(d.registered(conf), confs.push(conf)),
        reached_by((DispatcherView { boot_receipts, ..d }), confs),
{
    assert(confs.push(conf).drop_last() =~= confs);
    let e = register_all(DispatcherView::empty(), confs);
    assert(d.registered(conf).contract_events =~= e.registered(conf).contract_events);
    assert(d.registered(conf).assets =~= e.registered(conf).assets);
}

/// The key that subscribes to an event, other than `AnyEvent`.
pub open spec fn subject_key(event: EventView) -> EventKeyView {
    match event {
        EventView::SmartContractEvent(key) => EventKeyView::SmartContractEvent(key),
        EventView::STXEvent(_) => EventKeyView::STXEvent,
        EventView::NFTTransferEvent(asset) => EventKeyView::AssetEvent(asset),
        EventView::NFTMintEvent(asset) => EventKeyView::AssetEvent(asset),
        EventView::FTTransferEvent(asset) => EventKeyView::AssetEvent(asset),
        EventView::FTMintEvent(asset) => EventKeyView::AssetEvent(asset),
    }
}

/// Whether one of the observers has the index `i` and asked for `key`.
pub open spec fn asked_under(confs: Seq<ObserverConfigView>, i: u16, key: EventKeyView) -> bool {
    exists|p: int|
        0 <= p < confs.len() && index_after(p as nat) == i && (
        #[trigger] confs[p]).keys.contains(key)
}

proof fn lemma_asked_under_last(confs: Seq<ObserverConfigView>, i: u16, key: EventKeyView)
    requires
        confs.len() > 0,
    ensures
        asked_under(confs, i, key) == (asked_under(confs.drop_last(), i, key) || (index_after(
            (confs.len() - 1) as nat,
        ) == i && confs.last().keys.contains(key))),
{
    let init = confs.drop_last();
    if asked_under(confs, i, key) {
        let p = choose|p: int|
            0 <= p < confs.len() && index_after(p as nat) == i && (
            #[trigger] confs[p]).keys.contains(key);
        if p < init.len() {
            assert(init[p].keys.contains(key));
        }
    }
}

proof fn lemma_register_all(confs: Seq<ObserverConfigView>)
    ensures
        ({
            let d = register_all(DispatcherView::empty(), confs);
            &&& d.endpoints == Seq::new(confs.len(), |p: int| confs[p].endpoint)
            &&& forall|event: EventView, i: u16| #[trigger]
                d.subject_indexes(event).contains(i) <==> asked_under(
                    confs,
                    i,
                    subject_key(event),
                )
            &&& forall|i: u16| #[trigger]
                d.any_event.contains(i) <==> asked_under(confs, i, EventKeyView::AnyEvent)
            &&& forall|i: u16| #[trigger]
                d.mempool.contains(i) <==> asked_under(
                    confs,
                    i,
                    EventKeyView::MemPoolTransactions,
                )
        }),
    decreases confs.len(),
{
    let d = register_all(DispatcherView::empty(), confs);
    if confs.len() > 0 {
        let init = confs.drop_last();
        let e = register_all(DispatcherView::empty(), init);
        let last = confs.last();
        lemma_register_all(init);
        let index = index_after(init.len());
        assert forall|event: EventView, i: u16| #[trigger]
            d.subject_indexes(event).contains(i) <==> asked_under(
                confs,
                i,
                subject_key(event),
            ) by {
            lemma_asked_under_last(confs, i, subject_key(event));
            assert(d.subject_indexes(event).contains(i) <==> e.subject_indexes(event).contains(i)
                || (i == index && last.keys.contains(subject_key(event))));
        }
        assert forall|i: u16| #[trigger]
            d.any_event.contains(i) <==> asked_under(confs, i, EventKeyView::AnyEvent) by {
            lemma_asked_under_last(confs, i, EventKeyView::AnyEvent);
        }
        assert forall|i: u16| #[trigger]
            d.mempool.contains(i) <==> asked_under(
                confs,
                i,
                EventKeyView::MemPoolTransactions,
            ) by {
            lemma_asked_under_last(confs, i, EventKeyView::MemPoolTransactions);
        }
    }
}

/// The observers of a dispatcher are those that were registered, in this
/// order, and an index is subscribed to something exactly if an observer that
/// has this index asked for it.
pub proof fn subscriptions_are_what_was_asked_for(
    d: DispatcherView,
    confs: Seq<ObserverConfigView>,
)
    requires
        reached_by(d, confs),
    ensures
        d.endpoints == Seq::new(confs.len(), |p: int| confs[p].endpoint),
        forall|event: EventView, i: u16| #[trigger]
            d.subject_indexes(event).contains(i) <==> asked_under(confs, i, subject_key(event)),
        forall|i: u16| #[trigger]
            d.any_event.contains(i) <==> asked_under(confs, i, EventKeyView::AnyEvent),
        forall|i: u16| #[trigger]
            d.mempool.contains(i) <==> asked_under(confs, i, EventKeyView::MemPoolTransactions),
{
    lemma_register_all(confs);
    let e = register_all(DispatcherView::empty(), confs);
    assert forall|event: EventView, i: u16| #[trigger]
        d.subject_indexes(event).contains(i) <==> asked_under(confs, i, subject_key(event)) by {
        assert(d.subject_indexes(event).contains(i) == e.subject_indexes(event).contains(i));
    }
}

/// As long as no two observers share an index, an observer is told of an event
/// of a block exactly if it asked for what the event is about, or for any
/// event.
pub proof fn observers_are_told_what_they_asked_for(
    d: DispatcherView,
    confs: Seq<ObserverConfigView>,
    o: int,
    event: EventView,
)
    requires
        reached_by(d, confs),
        confs.len() <= 0x1_0000,
        0 <= o < confs.len(),
    ensures
        d.interested(o, event) <==> {
            ||| confs[o].keys.contains(subject_key(event))
            ||| confs[o].keys.contains(EventKeyView::AnyEvent)
        },
{
    subscriptions_are_what_was_asked_for(d, confs);
    lemma_asked_by_one(confs, o, subject_key(event));
    lemma_asked_by_one(confs, o, EventKeyView::AnyEvent);
}

/// As long as no two observers share an index, an observer is told of
/// transactions that entered the mempool exactly if it asked for them, or for
/// any event.
pub proof fn observers_are_told_of_the_mempool_if_they_asked(
    d: DispatcherView,
    confs: Seq<ObserverConfigView>,
    o: int,
)
    requires
        reached_by(d, confs),
        confs.len() <= 0x1_0000,
        0 <= o < confs.len(),
    ensures
        d.wants_mempool(o as nat) <==> {
            ||| confs[o].keys.contains(EventKeyView::MemPoolTransactions)
            ||| confs[o].keys.contains(EventKeyView::AnyEvent)
        },
{
    subscriptions_are_what_was_asked_for(d, confs);
    lemma_asked_by_one(confs, o, EventKeyView::MemPoolTransactions);
    lemma_asked_by_one(confs, o, EventKeyView::AnyEvent);
}

/// As long as no two observers share an index, the announcement of a block to
/// an observer carries an event of the block exactly if the observer asked for
/// what the event is about, or for any event; and it carries no event twice.
pub proof fn announcements_carry_what_was_asked_for(
    announcement: BlockAnnouncement,
    d: DispatcherView,
    confs: Seq<ObserverConfigView>,
    o: int,
    chain_tip: ChainTip,
    parent_index_hash: StacksBlockId,
    winner_txid: Seq<char>,
    i: usize,
)
    requires
        reached_by(d, confs),
        confs.len() <= 0x1_0000,
        0 <= o < confs.len(),
        announcement.announces(d, o, chain_tip, parent_index_hash, winner_txid),
    ensures
        ({
            let events = block_events(receipt_views(chain_tip.receipts@));
            let carried = record_indexes(announcement.filtered_events@);
            &&& announcement.observer.endpoint@ == confs[o].endpoint
            &&& carried.no_duplicates()
            &&& carried.contains(i) <==> i < events.len() && (confs[o].keys.contains(
                subject_key(events[i as int].event),
            ) || confs[o].keys.contains(EventKeyView::AnyEvent))
        }),
{
    let events = block_events(receipt_views(chain_tip.receipts@));
    let carried = record_indexes(announcement.filtered_events@);
    subscriptions_are_what_was_asked_for(d, confs);
    if i < events.len() {
        observers_are_told_what_they_asked_for(d, confs, o, events[i as int].event);
    }
    assert(carried.contains(i) == carried.to_set().contains(i));
}

/// As long as no two observers share an index, an observer is sent a block
/// with the events that it asked for, each of them once and serialized, and
/// with no others.
pub proof fn blocks_are_sent_with_what_was_asked_for<F: Fn(&EventRecord) -> Value>(
    d: DispatcherView,
    confs: Seq<ObserverConfigView>,
    o: int,
    chain_tip: ChainTip,
    parent_index_hash: Seq<char>,
    winner_txid: Seq<char>,
    json_serialize: F,
    outcome: Result<PostRequest, SendError>,
)
    requires
        reached_by(d, confs),
        confs.len() <= 0x1_0000,
        0 <= o < confs.len(),
        d.announces_to(o, chain_tip, parent_index_hash, winner_txid, json_serialize, outcome),
    ensures
        exists|records: Seq<EventRecord>, values: Seq<Value>|
            {
                let events = block_events(receipt_views(chain_tip.receipts@));
                &&& record_indexes(records).no_duplicates()
                &&& forall|i: usize| #[trigger]
                    record_indexes(records).contains(i) <==> i < events.len() && (
                    confs[o].keys.contains(subject_key(events[i as int].event))
                        || confs[o].keys.contains(EventKeyView::AnyEvent))
                &&& forall|k: int|
                    0 <= k < records.len() ==> (#[trigger] records[k]).records(
                        events[records[k].index as int],
                        records[k].index as int,
                    )
                &&& #[trigger] serializes(json_serialize, records, values)
                &&& sends(
                    outcome,
                    confs[o].endpoint,
                    PATH_BLOCK_PROCESSED@,
                    block_json(
                        json_seq(values),
                        chain_tip,
                        parent_index_hash,
                        d.boot_receipts_at(chain_tip.metadata.block_height),
                        winner_txid,
                    ),
                )
            },
{
    let events = block_events(receipt_views(chain_tip.receipts@));
    subscriptions_are_what_was_asked_for(d, confs);
    let (records, values): (Seq<EventRecord>, Seq<Value>) = choose|
        records: Seq<EventRecord>,
        values: Seq<Value>,
    |
        {
            &&& selects(records, d.interesting(o, events), events)
            &&& #[trigger] serializes(json_serialize, records, values)
            &&& sends(
                outcome,
                d.endpoints[o],
                PATH_BLOCK_PROCESSED@,
                block_json(
                    json_seq(values),
                    chain_tip,
                    parent_index_hash,
                    d.boot_receipts_at(chain_tip.metadata.block_height),
                    winner_txid,
                ),
            )
        };
    assert forall|i: usize| #[trigger]
        record_indexes(records).contains(i) <==> i < events.len() && (confs[o].keys.contains(
            subject_key(events[i as int].event),
        ) || confs[o].keys.contains(EventKeyView::AnyEvent)) by {
        if i < events.len() {
            observers_are_told_what_they_asked_for(d, confs, o, events[i as int].event);
        }
        assert(record_indexes(records).contains(i) == record_indexes(records).to_set().contains(i));
    }
}

proof fn lemma_asked_by_one(confs: Seq<ObserverConfigView>, o: int, key: EventKeyView)
    requires
        confs.len() <= 0x1_0000,
        0 <= o < confs.len(),
    ensures
        index_after(o as nat) == o,
        asked_under(confs, o as u16, key) <==> confs[o].keys.contains(key),
{
}

/// Registering an observer keeps every index within the observers, however
/// many there are, and keeps no key to which nobody subscribed.
pub proof fn registration_keeps_validity(d: DispatcherView, conf: ObserverConfigView)
    requires
        d.valid(),
    ensures
        d.registered(conf).valid(),
{
    let index = index_after(d.endpoints.len());
    let r = d.registered(conf);
    assert forall|k: ContractEventView| #[trigger]
        r.contract_events.contains_key(k) implies r.contract_events[k] != Set::<u16>::empty()
        && all_below(r.contract_events[k], r.endpoints.len()) by {
        if conf.keys.contains(EventKeyView::SmartContractEvent(k)) {
            assert(r.contract_events[k].contains(index));
        }
    }
    assert forall|k: AssetView| #[trigger] r.assets.contains_key(k) implies r.assets[k] != Set::<
        u16,
    >::empty() && all_below(r.assets[k], r.endpoints.len()) by {
        if conf.keys.contains(EventKeyView::AssetEvent(k)) {
            assert(r.assets[k].contains(index));
        }
    }
}

/// As long as no two observers share an index, registering an observer changes
/// nothing for those that were there before.
pub proof fn registration_keeps_what_others_are_told(
    d: DispatcherView,
    conf: ObserverConfigView,
    o: int,
    event: EventView,
)
    requires
        d.valid(),
        d.endpoints.len() < 0x1_0000,
        0 <= o < d.endpoints.len(),
    ensures
        d.registered(conf).endpoints[o] == d.endpoints[o],
        d.registered(conf).interested(o, event) == d.interested(o, event),
        d.registered(conf).wants_mempool(o as nat) == d.wants_mempool(o as nat),
{
}

/// An observer that asked for any event is told of all events of a block.
pub proof fn any_event_means_all_events(
    d: DispatcherView,
    o: int,
    events: Seq<EmittedEvent>,
    i: usize,
)
    requires
        0 <= o <= u16::MAX,
        d.any_event.contains(o as u16),
    ensures
        d.interesting(o, events).contains(i) <==> i < events.len(),
{
}

/// Two events that are about assets can be added to the rows of a dispatch
/// matrix in either order.
pub proof fn asset_updates_commute(
    d: DispatcherView,
    rows: Seq<Set<usize>>,
    first: AssetView,
    i: usize,
    second: AssetView,
    j: usize,
)
    ensures
        marked(marked(rows, d.asset_indexes(first), i), d.asset_indexes(second), j) == marked(
            marked(rows, d.asset_indexes(second), j),
            d.asset_indexes(first),
            i,
        ),
{
    assert(marked(marked(rows, d.asset_indexes(first), i), d.asset_indexes(second), j) =~~= marked(
        marked(rows, d.asset_indexes(second), j),
        d.asset_indexes(first),
        i,
    ));
}

/// Adding an event that is about an asset to the rows of a dispatch matrix once
/// more changes nothing.
pub proof fn repeated_asset_update_changes_nothing(
    d: DispatcherView,
    rows: Seq<Set<usize>>,
    asset: AssetView,
    i: usize,
)
    ensures
        marked(marked(rows, d.asset_indexes(asset), i), d.asset_indexes(asset), i) == marked(
            rows,
            d.asset_indexes(asset),
            i,
        ),
{
    assert(marked(marked(rows, d.asset_indexes(asset), i), d.asset_indexes(asset), i) =~~= marked(
        rows,
        d.asset_indexes(asset),
        i,
    ));
}

/// Where the events of transaction number `r` begin among a block's events.
pub open spec fn first_event(receipts: Seq<ReceiptView>, r: int) -> int {
    block_events(receipts.take(r)).len() as int
}

/// Every event of every transaction of a block has its place among the block's
/// events: behind those of the transactions before, in the order in which the
/// transaction emitted them, with the transaction's id, and as committed
/// unless a post condition aborted the transaction.
pub proof fn block_events_follow_the_receipts(receipts: Seq<ReceiptView>, r: int, e: int)
    requires
        0 <= r < receipts.len(),
        0 <= e < receipts[r].events.len(),
    ensures
        0 <= first_event(receipts, r) + e < block_events(receipts).len(),
        block_events(receipts)[first_event(receipts, r) + e] == (EmittedEvent {
            committed: !receipts[r].post_condition_aborted,
            txid: receipts[r].txid,
            event: receipts[r].events[e],
        }),
        first_event(receipts, r + 1) == first_event(receipts, r) + receipts[r].events.len(),
    decreases receipts.len(),
{
    assert(receipts.take(r + 1).drop_last() =~= receipts.take(r));
    let init = receipts.drop_last();
    if r < receipts.len() - 1 {
        block_events_follow_the_receipts(init, r, e);
        assert(init.take(r) =~= receipts.take(r));
    }
}

/// The number of posts that a delivery makes if the attempts end as
/// `outcomes`, one after the other, as far as they are needed.
pub open spec fn posts_made(outcomes: Seq<AttemptOutcome>) -> nat
    decreases outcomes.len(),
{
    if outcomes.len() == 0 {
        0
    } else if outcomes[0].step_after() is Finish {
        1
    } else {
        1 + posts_made(outcomes.drop_first())
    }
}

/// A payload is posted until an attempt succeeds, and not again after that.
pub proof fn delivery_ends_with_the_first_success(outcomes: Seq<AttemptOutcome>, first: int)
    requires
        0 <= first < outcomes.len(),
        outcomes[first].delivered(),
        forall|k: int| 0 <= k < first ==> !(#[trigger] outcomes[k]).delivered(),
    ensures
        posts_made(outcomes) == first + 1,
    decreases first,
{
    if first > 0 {
        delivery_ends_with_the_first_success(outcomes.drop_first(), first - 1);
    }
}

/// As long as no attempt succeeds, a payload is posted again.
pub proof fn delivery_goes_on_without_success(outcomes: Seq<AttemptOutcome>)
    requires
        forall|k: int| 0 <= k < outcomes.len() ==> !(#[trigger] outcomes[k]).delivered(),
    ensures
        posts_made(outcomes) == outcomes.len(),
    decreases outcomes.len(),
{
    if outcomes.len() > 0 {
        delivery_goes_on_without_success(outcomes.drop_first());
    }
}

/// A path has the same URL with a slash before it and without.
pub proof fn leading_slash_makes_no_difference(endpoint: Seq<char>, path: Seq<char>)
    requires
        path.len() == 0 || path[0] != '/',
    ensures
        observer_url(endpoint, "/"@ + path) == observer_url(endpoint, path),
{
    reveal_strlit("/");
}

/// Bytes can be read back from their hexadecimal text.
pub proof fn hex_text_tells_the_bytes(a: Seq<u8>, b: Seq<u8>)
    requires
        hex_text(a) == hex_text(b),
    ensures
        a == b,
{
    assert(hex_text(b).len() == 2 * b.len());
    assert forall|i: int| 0 <= i < a.len() implies a[i] == b[i] by {
        lemma_digits(a, i);
        lemma_digits(b, i);
        lemma_hex_digit_injective(a[i] as int / 16, b[i] as int / 16);
        lemma_hex_digit_injective(a[i] as int % 16, b[i] as int % 16);
    }
}

proof fn lemma_digits(bytes: Seq<u8>, i: int)
    requires
        0 <= i < bytes.len(),
    ensures
        hex_text(bytes)[2 * i] == hex_digit(bytes[i] as int / 16),
        hex_text(bytes)[2 * i + 1] == hex_digit(bytes[i] as int % 16),
{
}

proof fn lemma_hex_digit_injective(m: int, n: int)
    requires
        0 <= m < 16,
        0 <= n < 16,
        hex_digit(m) == hex_digit(n),
    ensures
        m == n,
{
}

/// The transactions that are announced with a block are numbered one after the
/// other: the block's own from 0, those of the boot code behind them.
pub proof fn announced_transactions_are_numbered(
    own: Seq<ReceiptView>,
    boot: Seq<ReceiptView>,
    k: int,
)
    requires
        0 <= k < own.len() + boot.len(),
    ensures
        transactions_json(announced_receipts(own, Some(boot)))[k] == transaction_json(
            if k < own.len() {
                own[k]
            } else {
                boot[k - own.len()]
            },
            k,
        ),
        k < own.len() ==> transactions_json(announced_receipts(own, None))[k] == transaction_json(
            own[k],
            k,
        ),
        transactions_json(announced_receipts(own, None)).len() == own.len(),
        transactions_json(announced_receipts(own, Some(boot))).len() == own.len() + boot.len(),
{
}

/// What an observer is told of a transaction of a block has six members, each
/// with its own value.
pub proof fn transaction_payload_has_all_members(receipt: ReceiptView, tx_index: int)
    requires
        receipt.response is Some,
    ensures
        ({
            let m = transaction_members(receipt, tx_index);
            let (committed, data) = receipt.response->0;
            &&& m.dom() == set![
                "txid"@,
                "tx_index"@,
                "status"@,
                "raw_result"@,
                "raw_tx"@,
                "contract_abi"@,
            ]
            &&& m["txid"@] == Json::Text("0x"@ + receipt.txid)
            &&& m["tx_index"@] == Json::Integer(tx_index)
            &&& m["status"@] == Json::Text(
                status_text(receipt.post_condition_aborted, committed),
            )
            &&& m["raw_result"@] == raw_json(data)
            &&& m["raw_tx"@] == raw_json(receipt.raw_tx)
            &&& m["contract_abi"@] == match receipt.contract_abi {
                Some(interface) => interface,
                None => Json::Null,
            }
        }),
{
    reveal_strlit("txid");
    reveal_strlit("tx_index");
    reveal_strlit("status");
    reveal_strlit("raw_result");
    reveal_strlit("raw_tx");
    reveal_strlit("contract_abi");
    assert("txid"@.len() == 4 && "tx_index"@.len() == 8 && "status"@.len() == 6);
    assert("raw_result"@.len() == 10 && "raw_tx"@.len() == 6 && "contract_abi"@.len() == 12);
    assert("status"@[0] != "raw_tx"@[0]);
}

/// The payload for a processed block has twelve members, each with its own
/// value.
pub proof fn block_payload_has_all_members(
    events: Seq<Json>,
    chain_tip: ChainTip,
    parent_index_hash: Seq<char>,
    boot_receipts: Option<Seq<ReceiptView>>,
    winner_txid: Seq<char>,
)
    ensures
        ({
            let m = block_members(events, chain_tip, parent_index_hash, boot_receipts, winner_txid);
            let metadata = chain_tip.metadata;
            let block = chain_tip.block;
            &&& m.dom() == set![
                "block_hash"@,
                "block_height"@,
                "burn_block_hash"@,
                "burn_block_height"@,
                "miner_txid"@,
                "burn_block_time"@,
                "index_block_hash"@,
                "parent_block_hash"@,
                "parent_index_block_hash"@,
                "parent_microblock"@,
                "events"@,
                "transactions"@,
            ]
            &&& m["block_hash"@] == Json::Text("0x"@ + block.block_hash.text@)
            &&& m["block_height"@] == Json::Integer(metadata.block_height as int)
            &&& m["burn_block_hash"@] == Json::Text("0x"@ + metadata.burn_header_hash.text@)
            &&& m["burn_block_height"@] == Json::Integer(metadata.burn_header_height as int)
            &&& m["miner_txid"@] == Json::Text("0x"@ + winner_txid)
            &&& m["burn_block_time"@] == Json::Integer(metadata.burn_header_timestamp as int)
            &&& m["index_block_hash"@] == Json::Text("0x"@ + metadata.index_block_hash.text@)
            &&& m["parent_block_hash"@] == Json::Text("0x"@ + block.header.parent_block.text@)
            &&& m["parent_index_block_hash"@] == Json::Text("0x"@ + parent_index_hash)
            &&& m["parent_microblock"@] == Json::Text(
                "0x"@ + block.header.parent_microblock.text@,
            )
            &&& m["events"@] == Json::List(events)
            &&& m["transactions"@] == Json::List(
                transactions_json(
                    announced_receipts(receipt_views(chain_tip.receipts@), boot_receipts),
                ),
            )
        }),
{
    reveal_strlit("block_hash");
    reveal_strlit("block_height");
    reveal_strlit("burn_block_hash");
    reveal_strlit("burn_block_height");
    reveal_strlit("miner_txid");
    reveal_strlit("burn_block_time");
    reveal_strlit("index_block_hash");
    reveal_strlit("parent_block_hash");
    reveal_strlit("parent_index_block_hash");
    reveal_strlit("parent_microblock");
    reveal_strlit("events");
    reveal_strlit("transactions");
    assert("block_height"@.len() == 12 && "transactions"@.len() == 12);
    assert("burn_block_hash"@.len() == 15 && "burn_block_time"@.len() == 15);
    assert("burn_block_height"@.len() == 17 && "parent_block_hash"@.len() == 17);
    assert("index_block_hash"@.len() == 16 && "events"@.len() == 6);
    assert("block_hash"@[0] != "miner_txid"@[0]);
    assert("block_height"@[0] != "transactions"@[0]);
    assert("burn_block_hash"@[11] != "burn_block_time"@[11]);
    assert("parent_microblock"@[7] != "parent_block_hash"@[7]);
}

} // verus!
