//! What callers of a dispatcher can rely on: who is sent what, in terms of the
//! observers that were registered and of what happened.

use crate::config::{EventKeyType, EventKeyView, EventObserverConfig, ObserverConfigView};
use crate::delivery::{PostRequest, SendError};
use crate::dispatcher::{
    all_come_from, block_events, index_after, marked, record_indexes, selects, serializes,
    BlockAnnouncement, DispatcherView, EventDispatcher, EventRecord,
};
use crate::guarantees::{
    all_responded, block_posted, can_be_numbered, given, lemma_announceable, lemma_mempool_json,
    lemma_paths, lemma_tells_of_block, lists_transactions, posted,
};
use crate::json::{json_of, json_seq, Json};
use crate::laws::{
    asked_under, block_events_follow_the_receipts, first_event, reached_by, registrations_add_up,
    subject_key, subscriptions_are_what_was_asked_for,
};
use crate::observer::{
    attachments_json, block_json, boot_views, mempool_json, sends, EventObserver,
    PATH_BLOCK_PROCESSED,
};
use crate::subscriptions::{copy_indexes, SubscriptionKey, SubscriptionTable};
use crate::types::{
    receipt_views, AssetIdentifier, AttachmentInstance, ChainTip, ContractEventKey, EventView,
    FTEventType, NFTEventType, STXEventType, StacksBlock, StacksBlockId, StacksHeaderInfo,
    StacksTransaction, StacksTransactionEvent, StacksTransactionReceipt, TransactionResult, Txid,
};
use serde_json::Value;
use std::collections::HashSet;
use vstd::prelude::*;

verus! {

/// What configurations say, in order.
pub open spec fn config_views(confs: Seq<EventObserverConfig>) -> Seq<ObserverConfigView> {
    Seq::new(confs.len(), |p: int| confs[p]@)
}

/// Whether a dispatcher is one at which the observers `confs` were registered,
/// in this order, and which was given the receipts `boot` of the boot code.
pub open spec fn knows(
    dispatcher: EventDispatcher,
    confs: Seq<EventObserverConfig>,
    boot: Seq<StacksTransactionReceipt>,
) -> bool {
    &&& dispatcher.wf()
    &&& reached_by(dispatcher@, config_views(confs))
    &&& dispatcher@.boot_receipts == receipt_views(boot)
}

/// A new dispatcher knows no observers and no boot receipts.
pub proof fn new_dispatcher_knows_nothing(dispatcher: EventDispatcher)
    requires
        call_ensures(EventDispatcher::new, (), dispatcher),
    ensures
        knows(dispatcher, Seq::empty(), Seq::empty()),
{
    assert(config_views(Seq::empty()) =~= Seq::empty());
    assert(receipt_views(Seq::empty()) =~= Seq::empty());
}

/// Registering an observer adds it behind the others, and changes nothing else.
pub proof fn registering_adds_an_observer(
    before: EventDispatcher,
    conf: EventObserverConfig,
    after: EventDispatcher,
    confs: Seq<EventObserverConfig>,
    boot: Seq<StacksTransactionReceipt>,
)
    requires
        knows(before, confs, boot),
        exists|dispatcher: &mut EventDispatcher|
            *dispatcher == before && *final(dispatcher) == after && #[trigger] call_ensures(
                EventDispatcher::register_observer,
                (dispatcher, &conf),
                (),
            ),
    ensures
        knows(after, confs.push(conf), boot),
{
    registrations_add_up(before@, config_views(confs), conf@, before@.boot_receipts);
    assert(config_views(confs.push(conf)) =~= config_views(confs).push(conf@));
}

/// Boot receipts take the place of those that were given before, and change
/// nothing else.
pub proof fn boot_receipts_are_kept(
    before: EventDispatcher,
    receipts: Vec<StacksTransactionReceipt>,
    after: EventDispatcher,
    confs: Seq<EventObserverConfig>,
    boot: Seq<StacksTransactionReceipt>,
)
    requires
        knows(before, confs, boot),
        (exists|dispatcher: &mut EventDispatcher|
            *dispatcher == before && *final(dispatcher) == after && #[trigger] call_ensures(
                EventDispatcher::process_boot_receipts,
                (dispatcher, receipts),
                (),
            )) || (exists|dispatcher: &mut EventDispatcher|
            *dispatcher == before && *final(dispatcher) == after && #[trigger] call_ensures(
                EventDispatcher::dispatch_boot_receipts,
                (dispatcher, receipts),
                (),
            )),
    ensures
        knows(after, confs, receipts@),
{
}

/// A copy of a dispatcher knows the same.
pub proof fn copy_knows_the_same(
    dispatcher: EventDispatcher,
    copy: EventDispatcher,
    confs: Seq<EventObserverConfig>,
    boot: Seq<StacksTransactionReceipt>,
)
    requires
        knows(dispatcher, confs, boot),
        call_ensures(<EventDispatcher as Clone>::clone, (&dispatcher,), copy),
    ensures
        knows(copy, confs, boot),
{
}

/// Whether two identifiers name the same asset.
pub open spec fn same_asset(a: AssetIdentifier, b: AssetIdentifier) -> bool {
    &&& a.contract_identifier.issuer@ == b.contract_identifier.issuer@
    &&& a.contract_identifier.name@ == b.contract_identifier.name@
    &&& a.asset_name@ == b.asset_name@
}

/// Whether a key asks for an event.
pub open spec fn asks_for(key: EventKeyType, event: StacksTransactionEvent) -> bool {
    match key {
        EventKeyType::AnyEvent => true,
        EventKeyType::MemPoolTransactions => false,
        EventKeyType::STXEvent => event is STXEvent,
        EventKeyType::SmartContractEvent(wanted) => {
            &&& event matches StacksTransactionEvent::SmartContractEvent(data)
            &&& wanted.contract_identifier.issuer@ == data.key.contract_identifier.issuer@
            &&& wanted.contract_identifier.name@ == data.key.contract_identifier.name@
            &&& wanted.event_name@ == data.key.event_name@
        },
        EventKeyType::AssetEvent(wanted) => match event {
            StacksTransactionEvent::NFTEvent(NFTEventType::NFTTransferEvent(data)) => same_asset(
                wanted,
                data.asset_identifier,
            ),
            StacksTransactionEvent::NFTEvent(NFTEventType::NFTMintEvent(data)) => same_asset(
                wanted,
                data.asset_identifier,
            ),
            StacksTransactionEvent::FTEvent(FTEventType::FTTransferEvent(data)) => same_asset(
                wanted,
                data.asset_identifier,
            ),
            StacksTransactionEvent::FTEvent(FTEventType::FTMintEvent(data)) => same_asset(
                wanted,
                data.asset_identifier,
            ),
            _ => false,
        },
    }
}

/// Whether an observer asks for an event, with one of its keys.
pub open spec fn observer_asks_for(
    conf: EventObserverConfig,
    event: StacksTransactionEvent,
) -> bool {
    exists|j: int|
        0 <= j < conf.events_keys@.len() && asks_for(#[trigger] conf.events_keys@[j], event)
}

/// Whether an observer asks for transactions that enter the mempool, or for any
/// event.
pub open spec fn observer_asks_for_mempool(conf: EventObserverConfig) -> bool {
    exists|j: int|
        0 <= j < conf.events_keys@.len() && (#[trigger] conf.events_keys@[j] is MemPoolTransactions
            || conf.events_keys@[j] is AnyEvent)
}

/// Whether observer number `o` is to be told of an event: if it is one of the
/// first 2^16, and it asks for the event, or another observer does that has
/// the same number modulo 2^16.
pub open spec fn to_be_told(
    confs: Seq<EventObserverConfig>,
    o: int,
    event: StacksTransactionEvent,
) -> bool {
    &&& o < 0x1_0000
    &&& exists|p: int|
        0 <= p < confs.len() && p % 0x1_0000 == o && observer_asks_for(#[trigger] confs[p], event)
}

/// Whether observer number `o` is to be sent mempool transactions: if it asks
/// for them, or another observer does that has the same number modulo 2^16.
pub open spec fn to_be_sent_mempool(confs: Seq<EventObserverConfig>, o: int) -> bool {
    exists|p: int|
        0 <= p < confs.len() && p % 0x1_0000 == o % 0x1_0000 && observer_asks_for_mempool(
            #[trigger] confs[p],
        )
}

/// As long as no two observers share an index, each is told of exactly what it
/// asks for.
pub proof fn observers_are_to_be_told_what_they_ask_for(
    confs: Seq<EventObserverConfig>,
    o: int,
    event: StacksTransactionEvent,
)
    requires
        0 <= o < confs.len() <= 0x1_0000,
    ensures
        to_be_told(confs, o, event) <==> observer_asks_for(confs[o], event),
        to_be_sent_mempool(confs, o) <==> observer_asks_for_mempool(confs[o]),
{
}

proof fn lemma_asks_for(key: EventKeyType, event: StacksTransactionEvent)
    ensures
        asks_for(key, event) <==> key@ == subject_key(event@) || key@ == EventKeyView::AnyEvent,
{
}

proof fn lemma_observer_asks(conf: EventObserverConfig, event: StacksTransactionEvent)
    ensures
        observer_asks_for(conf, event) <==> conf@.keys.contains(subject_key(event@))
            || conf@.keys.contains(EventKeyView::AnyEvent),
        observer_asks_for_mempool(conf) <==> conf@.keys.contains(EventKeyView::MemPoolTransactions)
            || conf@.keys.contains(EventKeyView::AnyEvent),
{
    let keys = conf.events_keys@;
    if observer_asks_for(conf, event) {
        let j = choose|j: int| 0 <= j < keys.len() && asks_for(#[trigger] keys[j], event);
        lemma_asks_for(keys[j], event);
        assert(conf@.keys.contains(keys[j]@));
    }
    if conf@.keys.contains(subject_key(event@)) {
        let j = choose|j: int| 0 <= j < keys.len() && (#[trigger] keys[j])@ == subject_key(event@);
        lemma_asks_for(keys[j], event);
    }
    if conf@.keys.contains(EventKeyView::AnyEvent) {
        let j = choose|j: int|
            0 <= j < keys.len() && (#[trigger] keys[j])@ == EventKeyView::AnyEvent;
        lemma_asks_for(keys[j], event);
        assert(keys[j] is AnyEvent);
    }
    if observer_asks_for_mempool(conf) {
        let j = choose|j: int|
            0 <= j < keys.len() && (#[trigger] keys[j] is MemPoolTransactions
                || keys[j] is AnyEvent);
        assert(conf@.keys.contains(keys[j]@));
    }
    if conf@.keys.contains(EventKeyView::MemPoolTransactions) {
        let j = choose|j: int|
            0 <= j < keys.len() && (#[trigger] keys[j])@ == EventKeyView::MemPoolTransactions;
        assert(keys[j] is MemPoolTransactions);
    }
}

proof fn lemma_interested(
    dispatcher: EventDispatcher,
    confs: Seq<EventObserverConfig>,
    boot: Seq<StacksTransactionReceipt>,
    o: int,
    event: StacksTransactionEvent,
)
    requires
        knows(dispatcher, confs, boot),
        0 <= o < confs.len(),
    ensures
        dispatcher@.interested(o, event@) <==> to_be_told(confs, o, event),
        dispatcher@.wants_mempool(o as nat) <==> to_be_sent_mempool(confs, o),
{
    let views = config_views(confs);
    let d = dispatcher@;
    subscriptions_are_what_was_asked_for(d, views);
    assert forall|p: int| 0 <= p < confs.len() implies (#[trigger] confs[p])@ == views[p] by {}
    assert forall|p: int| 0 <= p < confs.len() implies {
        &&& observer_asks_for(#[trigger] confs[p], event) <==> views[p].keys.contains(
            subject_key(event@),
        ) || views[p].keys.contains(EventKeyView::AnyEvent)
        &&& observer_asks_for_mempool(confs[p]) <==> views[p].keys.contains(
            EventKeyView::MemPoolTransactions,
        ) || views[p].keys.contains(EventKeyView::AnyEvent)
    } by {
        lemma_observer_asks(confs[p], event);
    }
    assert forall|p: int| 0 <= p < confs.len() implies #[trigger] index_after(p as nat) == p
        % 0x1_0000 by {}
    if to_be_sent_mempool(confs, o) {
        let p = choose|p: int|
            0 <= p < confs.len() && p % 0x1_0000 == o % 0x1_0000 && observer_asks_for_mempool(
                #[trigger] confs[p],
            );
        assert(index_after(p as nat) == index_after(o as nat));
        assert(views[p].keys.contains(EventKeyView::MemPoolTransactions) || views[p].keys.contains(
            EventKeyView::AnyEvent,
        ));
    }
    if to_be_told(confs, o, event) {
        let p = choose|p: int|
            0 <= p < confs.len() && p % 0x1_0000 == o && observer_asks_for(
                #[trigger] confs[p],
                event,
            );
        assert(index_after(p as nat) == o as u16);
        assert(views[p].keys.contains(subject_key(event@)) || views[p].keys.contains(
            EventKeyView::AnyEvent,
        ));
    }
    if d.interested(o, event@) {
        let i = o as u16;
        assert(d.subject_indexes(event@).contains(i) || d.any_event.contains(i));
        let key = if d.subject_indexes(event@).contains(i) {
            subject_key(event@)
        } else {
            EventKeyView::AnyEvent
        };
        assert(asked_under(views, i, key));
        let p = choose|p: int|
            0 <= p < views.len() && index_after(p as nat) == i && (
            #[trigger] views[p]).keys.contains(key);
        assert(observer_asks_for(confs[p], event));
    }
    if d.wants_mempool(o as nat) {
        let i = index_after(o as nat);
        let key = if d.mempool.contains(i) {
            EventKeyView::MemPoolTransactions
        } else {
            EventKeyView::AnyEvent
        };
        assert(asked_under(views, i, key));
        let p = choose|p: int|
            0 <= p < views.len() && index_after(p as nat) == i && (
            #[trigger] views[p]).keys.contains(key);
        assert(observer_asks_for_mempool(confs[p]));
    }
}

/// The number of events that the first `r` transactions of a block emitted.
pub open spec fn events_before(receipts: Seq<StacksTransactionReceipt>, r: int) -> int
    decreases r,
{
    if r <= 0 {
        0
    } else {
        events_before(receipts, r - 1) + receipts[r - 1].events@.len()
    }
}

/// Whether a record stands for event number `e` of transaction number `r`: it
/// has the number of the block's events before this one, the transaction's id,
/// the event itself, and is committed unless a post condition aborted the
/// transaction.
pub open spec fn stands_for(
    record: EventRecord,
    receipts: Seq<StacksTransactionReceipt>,
    r: int,
    e: int,
) -> bool {
    &&& 0 <= r < receipts.len()
    &&& 0 <= e < receipts[r].events@.len()
    &&& record.index == events_before(receipts, r) + e
    &&& record.txid.text@ == receipts[r].transaction.txid.text@
    &&& *record.event == receipts[r].events@[e]
    &&& record.committed == !receipts[r].post_condition_aborted
}

/// Whether a record stands for an event of a block.
pub open spec fn stands_for_an_event(
    record: EventRecord,
    receipts: Seq<StacksTransactionReceipt>,
) -> bool {
    exists|r: int, e: int| stands_for(record, receipts, r, e)
}

/// Whether one of the records stands for event number `e` of transaction number
/// `r`.
pub open spec fn is_recorded(
    records: Seq<EventRecord>,
    receipts: Seq<StacksTransactionReceipt>,
    r: int,
    e: int,
) -> bool {
    exists|k: int| 0 <= k < records.len() && stands_for(#[trigger] records[k], receipts, r, e)
}

/// Whether the records are those of the events of a block that observer number
/// `o` is to be told of: of each of these, once, and of no others.
pub open spec fn are_for_observer(
    records: Seq<EventRecord>,
    confs: Seq<EventObserverConfig>,
    o: int,
    receipts: Seq<StacksTransactionReceipt>,
) -> bool {
    &&& forall|k: int|
        0 <= k < records.len() ==> stands_for_an_event(#[trigger] records[k], receipts)
    &&& forall|j: int, k: int|
        0 <= j < k < records.len() ==> (#[trigger] records[j]).index != (
        #[trigger] records[k]).index
    &&& forall|r: int, e: int|
        0 <= r < receipts.len() && 0 <= e < receipts[r].events@.len() ==> (
        #[trigger] is_recorded(records, receipts, r, e) <==> to_be_told(
            confs,
            o,
            receipts[r].events@[e],
        ))
}

proof fn lemma_events_before(receipts: Seq<StacksTransactionReceipt>, r: int)
    requires
        0 <= r <= receipts.len(),
    ensures
        events_before(receipts, r) == first_event(receipt_views(receipts), r),
    decreases r,
{
    let views = receipt_views(receipts);
    if r > 0 {
        lemma_events_before(receipts, r - 1);
        assert(views.take(r).drop_last() =~= views.take(r - 1));
    }
}

proof fn lemma_events_before_grows(receipts: Seq<StacksTransactionReceipt>, q: int, r: int)
    requires
        0 <= q < r,
    ensures
        events_before(receipts, q) + receipts[q].events@.len() <= events_before(receipts, r),
    decreases r,
{
    if q < r - 1 {
        lemma_events_before_grows(receipts, q, r - 1);
    }
}

proof fn lemma_records(
    dispatcher: EventDispatcher,
    confs: Seq<EventObserverConfig>,
    boot: Seq<StacksTransactionReceipt>,
    o: int,
    receipts: Seq<StacksTransactionReceipt>,
    records: Seq<EventRecord>,
)
    requires
        knows(dispatcher, confs, boot),
        0 <= o < confs.len(),
        block_events(receipt_views(receipts)).len() <= usize::MAX,
        selects(
            records,
            dispatcher@.interesting(o, block_events(receipt_views(receipts))),
            block_events(receipt_views(receipts)),
        ),
        all_come_from(records, receipts),
    ensures
        are_for_observer(records, confs, o, receipts),
{
    let views = receipt_views(receipts);
    let events = block_events(views);
    let ids = dispatcher@.interesting(o, events);
    assert forall|k: int| 0 <= k < records.len() implies stands_for_an_event(
        #[trigger] records[k],
        receipts,
    ) by {
        assert(records[k].comes_from_block(receipts));
        let (r, e) = choose|r: int, e: int| records[k].comes_from(receipts, r, e);
        lemma_events_before(receipts, r);
        assert(stands_for(records[k], receipts, r, e));
    }
    assert forall|j: int, k: int| 0 <= j < k < records.len() implies (#[trigger] records[j]).index
        != (#[trigger] records[k]).index by {
        assert(record_indexes(records)[j] != record_indexes(records)[k]);
    }
    assert forall|r: int, e: int|
        0 <= r < receipts.len() && 0 <= e < receipts[r].events@.len() implies (
    #[trigger] is_recorded(records, receipts, r, e) <==> to_be_told(
        confs,
        o,
        receipts[r].events@[e],
    )) by {
        let event = receipts[r].events@[e];
        lemma_interested(dispatcher, confs, boot, o, event);
        lemma_events_before(receipts, r);
        block_events_follow_the_receipts(views, r, e);
        let index = (events_before(receipts, r) + e) as usize;
        assert(events[index as int].event == event@);
        assert(ids.contains(index) <==> to_be_told(confs, o, event));
        if is_recorded(records, receipts, r, e) {
            let k = choose|k: int|
                0 <= k < records.len() && stands_for(#[trigger] records[k], receipts, r, e);
            assert(record_indexes(records)[k] == index);
            assert(record_indexes(records).to_set().contains(index));
        }
        if ids.contains(index) {
            assert(record_indexes(records).to_set().contains(index));
            let k = choose|k: int|
                0 <= k < record_indexes(records).len() && #[trigger] record_indexes(records)[k]
                    == index;
            assert(stands_for_an_event(records[k], receipts));
            let (q, f) = choose|q: int, f: int| stands_for(records[k], receipts, q, f);
            if q < r {
                lemma_events_before_grows(receipts, q, r);
            }
            if r < q {
                lemma_events_before_grows(receipts, r, q);
            }
            assert(stands_for(records[k], receipts, r, e));
        }
    }
}

/// Whether two events say the same.
pub open spec fn same_event(a: StacksTransactionEvent, b: StacksTransactionEvent) -> bool {
    match (a, b) {
        (
            StacksTransactionEvent::SmartContractEvent(x),
            StacksTransactionEvent::SmartContractEvent(y),
        ) => {
            &&& x.key.contract_identifier.issuer@ == y.key.contract_identifier.issuer@
            &&& x.key.contract_identifier.name@ == y.key.contract_identifier.name@
            &&& x.key.event_name@ == y.key.event_name@
        },
        (StacksTransactionEvent::STXEvent(x), StacksTransactionEvent::STXEvent(y)) => x == y,
        (
            StacksTransactionEvent::NFTEvent(NFTEventType::NFTTransferEvent(x)),
            StacksTransactionEvent::NFTEvent(NFTEventType::NFTTransferEvent(y)),
        ) => same_asset(x.asset_identifier, y.asset_identifier),
        (
            StacksTransactionEvent::NFTEvent(NFTEventType::NFTMintEvent(x)),
            StacksTransactionEvent::NFTEvent(NFTEventType::NFTMintEvent(y)),
        ) => same_asset(x.asset_identifier, y.asset_identifier),
        (
            StacksTransactionEvent::FTEvent(FTEventType::FTTransferEvent(x)),
            StacksTransactionEvent::FTEvent(FTEventType::FTTransferEvent(y)),
        ) => same_asset(x.asset_identifier, y.asset_identifier),
        (
            StacksTransactionEvent::FTEvent(FTEventType::FTMintEvent(x)),
            StacksTransactionEvent::FTEvent(FTEventType::FTMintEvent(y)),
        ) => same_asset(x.asset_identifier, y.asset_identifier),
        _ => false,
    }
}

/// Whether two receipts say the same.
pub open spec fn same_receipt(a: StacksTransactionReceipt, b: StacksTransactionReceipt) -> bool {
    &&& a.transaction.txid.text@ == b.transaction.txid.text@
    &&& a.transaction.raw@ == b.transaction.raw@
    &&& a.events@.len() == b.events@.len()
    &&& forall|i: int|
        0 <= i < a.events@.len() ==> same_event(#[trigger] a.events@[i], b.events@[i])
    &&& a.post_condition_aborted == b.post_condition_aborted
    &&& match (a.result, b.result) {
        (TransactionResult::Response(x), TransactionResult::Response(y)) => x.committed
            == y.committed && x.data@ == y.data@,
        (TransactionResult::Other, TransactionResult::Other) => true,
        _ => false,
    }
    &&& match (a.contract_analysis, b.contract_analysis) {
        (Some(x), Some(y)) => json_of(x) == json_of(y),
        (None, None) => true,
        _ => false,
    }
}

/// Whether two sequences of receipts say the same.
pub open spec fn same_receipts(
    a: Seq<StacksTransactionReceipt>,
    b: Seq<StacksTransactionReceipt>,
) -> bool {
    a.len() == b.len() && forall|i: int| 0 <= i < a.len() ==> same_receipt(#[trigger] a[i], b[i])
}

proof fn lemma_same_receipt(a: StacksTransactionReceipt, b: StacksTransactionReceipt)
    requires
        a@ == b@,
    ensures
        same_receipt(a, b),
{
    assert(a@.events.len() == a.events@.len());
    assert(b@.events.len() == b.events@.len());
    assert forall|i: int| 0 <= i < a.events@.len() implies same_event(
        #[trigger] a.events@[i],
        b.events@[i],
    ) by {
        assert(a@.events[i] == a.events@[i]@);
        assert(b@.events[i] == b.events@[i]@);
    }
}

proof fn lemma_same_receipts(
    a: Seq<StacksTransactionReceipt>,
    b: Seq<StacksTransactionReceipt>,
)
    requires
        receipt_views(a) == receipt_views(b),
    ensures
        same_receipts(a, b),
{
    assert(receipt_views(a).len() == a.len());
    assert(receipt_views(b).len() == b.len());
    assert forall|i: int| 0 <= i < a.len() implies same_receipt(#[trigger] a[i], b[i]) by {
        assert(receipt_views(a)[i] == a[i]@);
        assert(receipt_views(b)[i] == b[i]@);
        lemma_same_receipt(a[i], b[i]);
    }
}

/// A copy of a receipt says the same.
pub proof fn copied_receipt_says_the_same(
    receipt: StacksTransactionReceipt,
    copy: StacksTransactionReceipt,
)
    requires
        call_ensures(<StacksTransactionReceipt as Clone>::clone, (&receipt,), copy),
    ensures
        same_receipt(copy, receipt),
{
    lemma_same_receipt(copy, receipt);
}

/// A block is announced to every observer, in the order of registration: with
/// the events that the observer is to be told of, and with the boot receipts if
/// it is the first block.
pub proof fn blocks_are_announced(
    dispatcher: EventDispatcher,
    confs: Seq<EventObserverConfig>,
    boot: Seq<StacksTransactionReceipt>,
    chain_tip: ChainTip,
    parent_index_hash: StacksBlockId,
    winner_txid: Txid,
    announcements: Vec<BlockAnnouncement>,
)
    requires
        knows(dispatcher, confs, boot),
        call_ensures(
            EventDispatcher::process_chain_tip,
            (&dispatcher, &chain_tip, &parent_index_hash, winner_txid),
            announcements,
        ),
    ensures
        announcements@.len() == confs.len(),
        forall|o: int|
            0 <= o < confs.len() ==> {
                let announcement = #[trigger] announcements@[o];
                &&& announcement.observer.endpoint@ == confs[o].endpoint@
                &&& *announcement.chain_tip == chain_tip
                &&& *announcement.parent_index_hash == parent_index_hash
                &&& announcement.winner_txid.text@ == winner_txid.text@
                &&& announcement.boot_receipts is Some <==> chain_tip.metadata.block_height == 1
                &&& announcement.boot_receipts matches Some(receipts) ==> same_receipts(
                    receipts@,
                    boot,
                )
                &&& are_for_observer(
                    announcement.filtered_events@,
                    confs,
                    o,
                    chain_tip.receipts@,
                )
            },
{
    subscriptions_are_what_was_asked_for(dispatcher@, config_views(confs));
    assert forall|o: int| 0 <= o < confs.len() implies {
        let announcement = #[trigger] announcements@[o];
        &&& announcement.observer.endpoint@ == confs[o].endpoint@
        &&& announcement.boot_receipts matches Some(receipts) ==> same_receipts(receipts@, boot)
        &&& are_for_observer(announcement.filtered_events@, confs, o, chain_tip.receipts@)
    } by {
        let announcement = announcements@[o];
        lemma_records(
            dispatcher,
            confs,
            boot,
            o,
            chain_tip.receipts@,
            announcement.filtered_events@,
        );
        if let Some(receipts) = announcement.boot_receipts {
            lemma_same_receipts(receipts@, boot);
        }
        assert(config_views(confs)[o].endpoint == confs[o].endpoint@);
    }
}

/// An announcement is posted to its observer, with the events as they were
/// serialized.
pub proof fn announcements_are_posted(
    announcement: BlockAnnouncement,
    serialized_events: Vec<Value>,
    outcome: Result<PostRequest, SendError>,
)
    requires
        all_responded(announcement.chain_tip.receipts@),
        all_responded(given(announcement.boot_receipts)),
        call_ensures(BlockAnnouncement::send, (&announcement, serialized_events), outcome),
    ensures
        block_posted(
            outcome,
            announcement.observer.endpoint@,
            serialized_events@,
            *announcement.chain_tip,
            *announcement.parent_index_hash,
            given(announcement.boot_receipts),
            announcement.winner_txid,
        ),
{
    lemma_tells_of_block(
        serialized_events@,
        *announcement.chain_tip,
        *announcement.parent_index_hash,
        given(announcement.boot_receipts),
        boot_views(announcement.boot_receipts),
        announcement.winner_txid,
    );
    lemma_paths(announcement.observer.endpoint@);
}

/// Whether each of `values` is what the serializer gave for the record at the
/// same place.
pub open spec fn written_by<F: Fn(&EventRecord) -> Value>(
    json_serialize: F,
    records: Seq<EventRecord>,
    values: Seq<Value>,
) -> bool {
    &&& values.len() == records.len()
    &&& forall|k: int|
        0 <= k < records.len() ==> call_ensures(
            json_serialize,
            (&records[k],),
            #[trigger] values[k],
        )
}

/// An announcement is posted to its observer, with each of its events as the
/// serializer wrote it, in their order.
pub proof fn announcements_are_serialized_and_posted<F: Fn(&EventRecord) -> Value>(
    announcement: BlockAnnouncement,
    json_serialize: F,
    outcome: Result<PostRequest, SendError>,
)
    requires
        all_responded(announcement.chain_tip.receipts@),
        all_responded(given(announcement.boot_receipts)),
        call_ensures(
            BlockAnnouncement::send_serialized::<F>,
            (&announcement, &json_serialize),
            outcome,
        ),
    ensures
        exists|values: Seq<Value>|
            {
                &&& written_by(json_serialize, announcement.filtered_events@, values)
                &&& #[trigger] block_posted(
                    outcome,
                    announcement.observer.endpoint@,
                    values,
                    *announcement.chain_tip,
                    *announcement.parent_index_hash,
                    given(announcement.boot_receipts),
                    announcement.winner_txid,
                )
            },
{
    let announced = boot_views(announcement.boot_receipts);
    let values = choose|values: Seq<Value>|
        {
            &&& #[trigger] serializes(json_serialize, announcement.filtered_events@, values)
            &&& sends(
                outcome,
                announcement.observer.endpoint@,
                PATH_BLOCK_PROCESSED@,
                block_json(
                    json_seq(values),
                    *announcement.chain_tip,
                    announcement.parent_index_hash.text@,
                    announced,
                    announcement.winner_txid@,
                ),
            )
        };
    lemma_tells_of_block(
        values,
        *announcement.chain_tip,
        *announcement.parent_index_hash,
        given(announcement.boot_receipts),
        announced,
        announcement.winner_txid,
    );
    lemma_paths(announcement.observer.endpoint@);
    assert(block_posted(
        outcome,
        announcement.observer.endpoint@,
        values,
        *announcement.chain_tip,
        *announcement.parent_index_hash,
        given(announcement.boot_receipts),
        announcement.winner_txid,
    ));
}

/// The boot receipts that a block at this height is sent with: all of them with
/// the first block, and none with any other.
pub open spec fn boot_at(
    block_height: u64,
    boot: Seq<StacksTransactionReceipt>,
) -> Seq<StacksTransactionReceipt> {
    if block_height == 1 {
        boot
    } else {
        Seq::empty()
    }
}

/// Whether `outcome` is what comes of sending a block to observer number `o`,
/// with the events that it is to be told of as the serializer wrote them, and
/// with the receipts `boot` behind those of the block.
pub open spec fn sent_to_observer<F: Fn(&EventRecord) -> Value>(
    outcome: Result<PostRequest, SendError>,
    confs: Seq<EventObserverConfig>,
    o: int,
    chain_tip: ChainTip,
    parent_index_hash: StacksBlockId,
    boot: Seq<StacksTransactionReceipt>,
    winner_txid: Txid,
    json_serialize: F,
) -> bool {
    exists|records: Seq<EventRecord>, values: Seq<Value>|
        {
            &&& are_for_observer(records, confs, o, chain_tip.receipts@)
            &&& #[trigger] written_by(json_serialize, records, values)
            &&& block_posted(
                outcome,
                confs[o].endpoint@,
                values,
                chain_tip,
                parent_index_hash,
                boot,
                winner_txid,
            )
        }
}

/// A block is posted to every observer, in the order of registration: with the
/// events that the observer is to be told of, as the serializer wrote them, and
/// with the boot receipts if it is the first block.
pub proof fn blocks_are_posted_to_all<F: Fn(&EventRecord) -> Value>(
    dispatcher: EventDispatcher,
    confs: Seq<EventObserverConfig>,
    boot: Seq<StacksTransactionReceipt>,
    block: StacksBlock,
    metadata: StacksHeaderInfo,
    receipts: Vec<StacksTransactionReceipt>,
    parent: StacksBlockId,
    winner_txid: Txid,
    json_serialize: F,
    outcomes: Vec<Result<PostRequest, SendError>>,
)
    requires
        knows(dispatcher, confs, boot),
        confs.len() > 0 ==> can_be_numbered(receipts@, boot_at(metadata.block_height, boot)),
        call_ensures(
            EventDispatcher::announce_block::<F>,
            (&dispatcher, block, metadata, receipts, &parent, winner_txid, json_serialize),
            outcomes,
        ),
    ensures
        outcomes@.len() == confs.len(),
        forall|o: int|
            0 <= o < confs.len() ==> sent_to_observer(
                #[trigger] outcomes@[o],
                confs,
                o,
                (ChainTip { metadata, block, receipts }),
                parent,
                boot_at(metadata.block_height, boot),
                winner_txid,
                json_serialize,
            ),
{
    let chain_tip = ChainTip { metadata, block, receipts };
    let announced = dispatcher@.boot_receipts_at(metadata.block_height);
    let given_boot = boot_at(metadata.block_height, boot);
    let events = block_events(receipt_views(receipts@));
    subscriptions_are_what_was_asked_for(dispatcher@, config_views(confs));
    assert forall|o: int| 0 <= o < confs.len() implies sent_to_observer(
        #[trigger] outcomes@[o],
        confs,
        o,
        chain_tip,
        parent,
        given_boot,
        winner_txid,
        json_serialize,
    ) by {
        assert(dispatcher@.announces_to(
            o,
            chain_tip,
            parent.text@,
            winner_txid@,
            json_serialize,
            outcomes@[o],
        ));
        let (records, values): (Seq<EventRecord>, Seq<Value>) = choose|
            records: Seq<EventRecord>,
            values: Seq<Value>,
        |
            {
                &&& selects(records, dispatcher@.interesting(o, events), events)
                &&& all_come_from(records, receipts@)
                &&& #[trigger] serializes(json_serialize, records, values)
                &&& sends(
                    outcomes@[o],
                    dispatcher@.endpoints[o],
                    PATH_BLOCK_PROCESSED@,
                    block_json(
                        json_seq(values),
                        chain_tip,
                        parent.text@,
                        announced,
                        winner_txid@,
                    ),
                )
            };
        lemma_records(dispatcher, confs, boot, o, receipts@, records);
        lemma_tells_of_block(values, chain_tip, parent, given_boot, announced, winner_txid);
        lemma_paths(confs[o].endpoint@);
        assert(config_views(confs)[o].endpoint == confs[o].endpoint@);
        assert(written_by(json_serialize, records, values));
    }
}

/// Whether `who` are the numbers of the observers that are to be sent mempool
/// transactions: of all of them, in the order of registration.
pub open spec fn are_recipients(who: Seq<int>, confs: Seq<EventObserverConfig>) -> bool {
    &&& forall|j: int, k: int| 0 <= j < k < who.len() ==> #[trigger] who[j] < #[trigger] who[k]
    &&& forall|k: int| 0 <= k < who.len() ==> 0 <= #[trigger] who[k] < confs.len()
    &&& forall|o: int|
        0 <= o < confs.len() ==> (#[trigger] who.contains(o) <==> to_be_sent_mempool(confs, o))
}

/// The numbers of those of the first `n` observers that want mempool
/// transactions.
spec fn recipients(d: DispatcherView, n: nat) -> Seq<int>
    decreases n,
{
    if n == 0 {
        Seq::empty()
    } else {
        let before = recipients(d, (n - 1) as nat);
        if d.wants_mempool((n - 1) as nat) {
            before.push(n - 1)
        } else {
            before
        }
    }
}

proof fn lemma_recipients(d: DispatcherView, n: nat)
    requires
        n <= d.endpoints.len(),
    ensures
        d.mempool_endpoints(n) == recipients(d, n).map_values(|o: int| d.endpoints[o]),
        forall|j: int, k: int|
            0 <= j < k < recipients(d, n).len() ==> #[trigger] recipients(d, n)[j]
                < #[trigger] recipients(d, n)[k],
        forall|k: int| 0 <= k < recipients(d, n).len() ==> 0 <= #[trigger] recipients(d, n)[k] < n,
        forall|o: int|
            0 <= o < n ==> (#[trigger] recipients(d, n).contains(o) <==> d.wants_mempool(o as nat)),
    decreases n,
{
    if n > 0 {
        let m = (n - 1) as nat;
        lemma_recipients(d, m);
        let before = recipients(d, m);
        let after = recipients(d, n);
        assert(d.mempool_endpoints(n) =~= after.map_values(|o: int| d.endpoints[o]));
        assert forall|o: int| 0 <= o < n implies (#[trigger] after.contains(o) <==> d.wants_mempool(
            o as nat,
        )) by {
            if d.wants_mempool(m) {
                assert(after[before.len() as int] == m);
            }
            if o < m {
                assert(before.contains(o) <==> d.wants_mempool(o as nat));
                if before.contains(o) {
                    let k = choose|k: int| 0 <= k < before.len() && before[k] == o;
                    assert(after[k] == o);
                }
                if after.contains(o) {
                    let k = choose|k: int| 0 <= k < after.len() && after[k] == o;
                    assert(before[k] == o);
                }
            } else if after.contains(o) && !d.wants_mempool(m) {
                let k = choose|k: int| 0 <= k < after.len() && after[k] == o;
                assert(before[k] < m);
            }
        }
    }
}

/// Transactions that entered the mempool are posted to every observer that is
/// to be sent them, to each once and in the order of registration, and to no
/// other; and every transaction is sent.
pub proof fn mempool_transactions_are_posted(
    dispatcher: EventDispatcher,
    confs: Seq<EventObserverConfig>,
    boot: Seq<StacksTransactionReceipt>,
    txs: Vec<StacksTransaction>,
    outcomes: Vec<Result<PostRequest, SendError>>,
)
    requires
        knows(dispatcher, confs, boot),
        call_ensures(EventDispatcher::process_new_mempool_txs, (&dispatcher, txs), outcomes),
    ensures
        exists|who: Seq<int>, json: Json|
            {
                &&& #[trigger] are_recipients(who, confs)
                &&& #[trigger] lists_transactions(json, txs@)
                &&& outcomes@.len() == who.len()
                &&& forall|k: int|
                    0 <= k < who.len() ==> posted(
                        #[trigger] outcomes@[k],
                        confs[who[k]].endpoint@,
                        "http://"@ + confs[who[k]].endpoint@ + "/new_mempool_tx"@,
                        json,
                    )
            },
{
    let d = dispatcher@;
    let json = mempool_json(txs@);
    let who = recipients(d, d.endpoints.len());
    subscriptions_are_what_was_asked_for(d, config_views(confs));
    lemma_recipients(d, d.endpoints.len());
    lemma_mempool_json(txs@);
    assert forall|o: int| 0 <= o < confs.len() implies (#[trigger] who.contains(o)
        <==> to_be_sent_mempool(confs, o)) by {
        lemma_interested(
            dispatcher,
            confs,
            boot,
            o,
            StacksTransactionEvent::STXEvent(STXEventType::STXMintEvent),
        );
    }
    assert(are_recipients(who, confs));
    assert forall|k: int| 0 <= k < who.len() implies posted(
        #[trigger] outcomes@[k],
        confs[who[k]].endpoint@,
        "http://"@ + confs[who[k]].endpoint@ + "/new_mempool_tx"@,
        json,
    ) by {
        lemma_paths(confs[who[k]].endpoint@);
        assert(config_views(confs)[who[k]].endpoint == confs[who[k]].endpoint@);
        assert(d.mempool_endpoints(d.endpoints.len())[k] == confs[who[k]].endpoint@);
    }
}

/// Whether a JSON value is the list of some attachments, in order.
pub open spec fn lists_attachments(json: Json, attachments: Seq<AttachmentInstance>) -> bool {
    &&& json matches Json::List(items)
    &&& items.len() == attachments.len()
    &&& forall|i: int|
        0 <= i < items.len() ==> #[trigger] items[i] == json_of(attachments[i].json)
}

/// Attachments are posted to every observer, in the order of registration, and
/// every attachment is sent.
pub proof fn attachments_are_posted(
    dispatcher: EventDispatcher,
    confs: Seq<EventObserverConfig>,
    boot: Seq<StacksTransactionReceipt>,
    attachments: Vec<AttachmentInstance>,
    outcomes: Vec<Result<PostRequest, SendError>>,
)
    requires
        knows(dispatcher, confs, boot),
        call_ensures(
            EventDispatcher::process_new_attachments,
            (&dispatcher, &attachments),
            outcomes,
        ),
    ensures
        exists|json: Json|
            {
                &&& #[trigger] lists_attachments(json, attachments@)
                &&& outcomes@.len() == confs.len()
                &&& forall|o: int|
                    0 <= o < confs.len() ==> posted(
                        #[trigger] outcomes@[o],
                        confs[o].endpoint@,
                        "http://"@ + confs[o].endpoint@ + "/attachments/new"@,
                        json,
                    )
            },
{
    let json = attachments_json(attachments@);
    subscriptions_are_what_was_asked_for(dispatcher@, config_views(confs));
    assert(lists_attachments(json, attachments@));
    assert forall|o: int| 0 <= o < confs.len() implies posted(
        #[trigger] outcomes@[o],
        confs[o].endpoint@,
        "http://"@ + confs[o].endpoint@ + "/attachments/new"@,
        json,
    ) by {
        lemma_paths(confs[o].endpoint@);
        assert(config_views(confs)[o].endpoint == confs[o].endpoint@);
    }
}

/// A block can be announced exactly if there is nobody to announce it to, or
/// all its transactions, with those of the boot code if it is the first block,
/// ended in a response and can be numbered with 32 bits.
pub proof fn announceable_blocks_have_responses(
    dispatcher: EventDispatcher,
    confs: Seq<EventObserverConfig>,
    boot: Seq<StacksTransactionReceipt>,
    metadata: StacksHeaderInfo,
    receipts: Vec<StacksTransactionReceipt>,
    result: bool,
)
    requires
        knows(dispatcher, confs, boot),
        call_ensures(EventDispatcher::can_announce, (&dispatcher, &metadata, &receipts), result),
    ensures
        result == (confs.len() == 0 || can_be_numbered(
            receipts@,
            boot_at(metadata.block_height, boot),
        )),
{
    subscriptions_are_what_was_asked_for(dispatcher@, config_views(confs));
    lemma_announceable(
        receipts@,
        boot_at(metadata.block_height, boot),
        dispatcher@.boot_receipts_at(metadata.block_height),
    );
}

/// A dispatcher takes every observer, every block that can be announced, all
/// mempool transactions and all attachments.
pub proof fn dispatcher_takes_what_comes<F: Fn(&EventRecord) -> Value>(
    dispatcher: EventDispatcher,
    confs: Seq<EventObserverConfig>,
    boot: Seq<StacksTransactionReceipt>,
    conf: EventObserverConfig,
    block: StacksBlock,
    metadata: StacksHeaderInfo,
    receipts: Vec<StacksTransactionReceipt>,
    chain_tip: ChainTip,
    parent: StacksBlockId,
    winner_txid: Txid,
    json_serialize: F,
    txs: Vec<StacksTransaction>,
    attachments: Vec<AttachmentInstance>,
)
    requires
        knows(dispatcher, confs, boot),
        forall|record: EventRecord| call_requires(json_serialize, (&record,)),
    ensures
        forall|changed: &mut EventDispatcher|
            *changed == dispatcher ==> #[trigger] call_requires(
                EventDispatcher::register_observer,
                (changed, &conf),
            ),
        forall|changed: &mut EventDispatcher|
            *changed == dispatcher ==> #[trigger] call_requires(
                EventDispatcher::process_boot_receipts,
                (changed, receipts),
            ),
        forall|changed: &mut EventDispatcher|
            *changed == dispatcher ==> #[trigger] call_requires(
                EventDispatcher::dispatch_boot_receipts,
                (changed, receipts),
            ),
        call_requires(
            EventDispatcher::process_chain_tip,
            (&dispatcher, &chain_tip, &parent, winner_txid),
        ),
        call_requires(EventDispatcher::can_announce, (&dispatcher, &metadata, &receipts)),
        confs.len() == 0 || can_be_numbered(receipts@, boot_at(metadata.block_height, boot))
            ==> call_requires(
            EventDispatcher::announce_block::<F>,
            (&dispatcher, block, metadata, receipts, &parent, winner_txid, json_serialize),
        ),
        call_requires(EventDispatcher::process_new_mempool_txs, (&dispatcher, txs)),
        call_requires(EventDispatcher::process_new_attachments, (&dispatcher, &attachments)),
{
    subscriptions_are_what_was_asked_for(dispatcher@, config_views(confs));
    lemma_announceable(
        receipts@,
        boot_at(metadata.block_height, boot),
        dispatcher@.boot_receipts_at(metadata.block_height),
    );
}

/// An announcement of a block that can be announced can be sent, whatever the
/// events were serialized to.
pub proof fn announcements_can_be_sent<F: Fn(&EventRecord) -> Value>(
    announcement: BlockAnnouncement,
    serialized_events: Vec<Value>,
    json_serialize: F,
)
    requires
        can_be_numbered(announcement.chain_tip.receipts@, given(announcement.boot_receipts)),
    ensures
        call_requires(BlockAnnouncement::send, (&announcement, serialized_events)),
        (forall|k: int|
            0 <= k < announcement.filtered_events@.len() ==> call_requires(
                json_serialize,
                (&#[trigger] announcement.filtered_events@[k],),
            )) ==> call_requires(
            BlockAnnouncement::send_serialized::<F>,
            (&announcement, &json_serialize),
        ),
{
    lemma_announceable(
        announcement.chain_tip.receipts@,
        given(announcement.boot_receipts),
        boot_views(announcement.boot_receipts),
    );
}

/// Adding an event that is about an asset to the rows of a dispatch matrix adds
/// it to those of the observers that asked for the asset, and changes nothing
/// else.
pub proof fn asset_updates_reach_who_asked(
    dispatcher: EventDispatcher,
    confs: Seq<EventObserverConfig>,
    boot: Seq<StacksTransactionReceipt>,
    rows: Seq<Set<usize>>,
    asset: AssetIdentifier,
    event_index: usize,
)
    requires
        knows(dispatcher, confs, boot),
    ensures
        ({
            let after = marked(rows, dispatcher@.asset_indexes(asset@), event_index);
            &&& after.len() == rows.len()
            &&& forall|o: int, i: usize|
                0 <= o < rows.len() ==> (#[trigger] after[o].contains(i) <==> rows[o].contains(i)
                    || (i == event_index && o < 0x1_0000 && exists|p: int, j: int|
                    {
                        &&& 0 <= p < confs.len()
                        &&& p % 0x1_0000 == o
                        &&& 0 <= j < confs[p].events_keys@.len()
                        &&& #[trigger] confs[p].events_keys@[j] matches EventKeyType::AssetEvent(
                            wanted,
                        )
                        &&& same_asset(wanted, asset)
                    }))
        }),
{
    let views = config_views(confs);
    let d = dispatcher@;
    let event = EventView::FTMintEvent(asset@);
    let key = EventKeyView::AssetEvent(asset@);
    let after = marked(rows, d.asset_indexes(asset@), event_index);
    subscriptions_are_what_was_asked_for(d, views);
    assert(d.subject_indexes(event) == d.asset_indexes(asset@));
    assert forall|o: int, i: usize| 0 <= o < rows.len() implies (#[trigger] after[o].contains(i)
        <==> rows[o].contains(i) || (i == event_index && o < 0x1_0000 && exists|p: int, j: int|
        {
            &&& 0 <= p < confs.len()
            &&& p % 0x1_0000 == o
            &&& 0 <= j < confs[p].events_keys@.len()
            &&& #[trigger] confs[p].events_keys@[j] matches EventKeyType::AssetEvent(wanted)
            &&& same_asset(wanted, asset)
        })) by {
        if o < 0x1_0000 {
            assert(d.subject_indexes(event).contains(o as u16) <==> asked_under(
                views,
                o as u16,
                key,
            ));
            if asked_under(views, o as u16, key) {
                let p = choose|p: int|
                    0 <= p < views.len() && index_after(p as nat) == o as u16 && (
                    #[trigger] views[p]).keys.contains(key);
                let keys = confs[p].events_keys@;
                let j = choose|j: int| 0 <= j < keys.len() && (#[trigger] keys[j])@ == key;
                assert(confs[p].events_keys@[j] matches EventKeyType::AssetEvent(wanted)
                    && same_asset(wanted, asset));
            }
            if exists|p: int, j: int|
                {
                    &&& 0 <= p < confs.len()
                    &&& p % 0x1_0000 == o
                    &&& 0 <= j < confs[p].events_keys@.len()
                    &&& #[trigger] confs[p].events_keys@[j] matches EventKeyType::AssetEvent(wanted)
                    &&& same_asset(wanted, asset)
                } {
                let (p, j) = choose|p: int, j: int|
                    {
                        &&& 0 <= p < confs.len()
                        &&& p % 0x1_0000 == o
                        &&& 0 <= j < confs[p].events_keys@.len()
                        &&& #[trigger] confs[p].events_keys@[j] matches EventKeyType::AssetEvent(
                            wanted,
                        )
                        &&& same_asset(wanted, asset)
                    };
                assert(confs[p].events_keys@[j]@ == key);
                assert(views[p].keys.contains(key));
                assert(index_after(p as nat) == o as u16);
            }
        }
    }
}

/// Two keys are the same exactly if all their texts are.
pub proof fn keys_are_told_apart_by_their_texts(
    a: ContractEventKey,
    b: ContractEventKey,
    same_keys: bool,
    x: AssetIdentifier,
    y: AssetIdentifier,
    same_assets: bool,
)
    requires
        call_ensures(<ContractEventKey as SubscriptionKey>::same, (&a, &b), same_keys),
        call_ensures(<AssetIdentifier as SubscriptionKey>::same, (&x, &y), same_assets),
    ensures
        same_keys == (a.contract_identifier.issuer@ == b.contract_identifier.issuer@
            && a.contract_identifier.name@ == b.contract_identifier.name@ && a.event_name@
            == b.event_name@),
        same_assets == same_asset(x, y),
        same_keys == (a@ == b@),
        same_assets == (x@ == y@),
{
}

/// Copies have the same texts.
pub proof fn copies_have_the_same_texts(
    key: ContractEventKey,
    key_copy: ContractEventKey,
    asset: AssetIdentifier,
    asset_copy: AssetIdentifier,
    txid: Txid,
    txid_copy: Txid,
    observer: EventObserver,
    observer_copy: EventObserver,
    event: StacksTransactionEvent,
    event_copy: StacksTransactionEvent,
)
    requires
        call_ensures(<ContractEventKey as SubscriptionKey>::duplicate, (&key,), key_copy),
        call_ensures(<AssetIdentifier as SubscriptionKey>::duplicate, (&asset,), asset_copy),
        call_ensures(<Txid as Clone>::clone, (&txid,), txid_copy),
        call_ensures(<EventObserver as Clone>::clone, (&observer,), observer_copy),
        call_ensures(<StacksTransactionEvent as Clone>::clone, (&event,), event_copy),
    ensures
        key_copy.contract_identifier.issuer@ == key.contract_identifier.issuer@,
        key_copy.contract_identifier.name@ == key.contract_identifier.name@,
        key_copy.event_name@ == key.event_name@,
        same_asset(asset_copy, asset),
        txid_copy.text@ == txid.text@,
        observer_copy.endpoint@ == observer.endpoint@,
        same_event(event_copy, event),
{
}

/// A copy of a set of indexes holds the same indexes.
pub proof fn copied_indexes_are_the_same(indexes: HashSet<u16>, copy: HashSet<u16>, i: u16)
    requires
        call_ensures(copy_indexes, (&indexes,), copy),
    ensures
        copy@.contains(i) <==> indexes@.contains(i),
{
}

/// Nobody subscribed to anything in a new table.
pub proof fn new_table_holds_nothing<K: SubscriptionKey>(
    table: SubscriptionTable<K>,
    key: K,
    found: Option<&HashSet<u16>>,
)
    requires
        call_ensures(SubscriptionTable::<K>::new, (), table),
        call_ensures(SubscriptionTable::<K>::get, (&table, &key), found),
    ensures
        table.wf(),
        found is None,
{
}

/// Subscribing an index to a key adds it to those that subscribed to this key
/// before, and changes nothing for other keys.
pub proof fn table_finds_what_was_inserted<K: SubscriptionKey>(
    before: SubscriptionTable<K>,
    key: K,
    index: u16,
    after: SubscriptionTable<K>,
    asked: K,
    found_before: Option<&HashSet<u16>>,
    found: Option<&HashSet<u16>>,
)
    requires
        before.wf(),
        exists|table: &mut SubscriptionTable<K>|
            *table == before && *final(table) == after && #[trigger] call_ensures(
                SubscriptionTable::<K>::insert,
                (table, &key, index),
                (),
            ),
        call_ensures(SubscriptionTable::<K>::get, (&before, &asked), found_before),
        call_ensures(SubscriptionTable::<K>::get, (&after, &asked), found),
    ensures
        after.wf(),
        asked@ == key@ ==> found is Some && forall|i: u16| #[trigger]
            found->0@.contains(i) <==> i == index || (found_before is Some
                && found_before->0@.contains(i)),
        asked@ != key@ ==> (found is Some <==> found_before is Some),
        asked@ != key@ && found is Some ==> found->0@ == found_before->0@,
{
}

/// A copy of a table holds the same subscriptions.
pub proof fn copied_table_holds_the_same<K: SubscriptionKey>(
    table: SubscriptionTable<K>,
    copy: SubscriptionTable<K>,
    key: K,
    found: Option<&HashSet<u16>>,
    found_in_copy: Option<&HashSet<u16>>,
)
    requires
        table.wf(),
        call_ensures(SubscriptionTable::<K>::duplicate, (&table,), copy),
        call_ensures(SubscriptionTable::<K>::get, (&table, &key), found),
        call_ensures(SubscriptionTable::<K>::get, (&copy, &key), found_in_copy),
    ensures
        copy.wf(),
        found is Some <==> found_in_copy is Some,
        found is Some ==> found->0@ == found_in_copy->0@,
{
}

} // verus!
