//! The dispatcher: who observes what, and who is told of what happened.

use crate::config::{key_set, EventKeyType, EventKeyView, EventObserverConfig, ObserverConfigView};
use crate::delivery::{PostRequest, SendError};
use crate::json::{json_array, json_of, json_seq};
use crate::laws::registration_keeps_validity;
use crate::observer::{
    announceable, announced_receipts, attachments_json, block_json, boot_views, is_announceable,
    mempool_json, sends, EventObserver, PATH_ATTACHMENT_PROCESSED, PATH_BLOCK_PROCESSED,
    PATH_MEMPOOL_TX_SUBMIT,
};
use crate::subscriptions::{copy_indexes, indexes_at, SubscriptionTable};
use crate::types::{
    receipt_views, AssetIdentifier, AssetView, AttachmentInstance, ChainTip, ContractEventKey,
    ContractEventView, EventView, FTEventType, NFTEventType, ReceiptView, StacksBlock,
    StacksBlockId, StacksHeaderInfo, StacksTransaction, StacksTransactionEvent,
    StacksTransactionReceipt, Txid,
};
use serde_json::Value;
use std::collections::HashSet;
use vstd::prelude::*;

verus! {

broadcast use vstd::std_specs::hash::group_hash_axioms;

/// The event observers, and what each of them subscribed to.
///
/// Observers are known by a 16-bit index: the number of observers that were
/// registered before, modulo 2^16.
pub struct EventDispatcher {
    registered_observers: Vec<EventObserver>,
    contract_events_observers_lookup: SubscriptionTable<ContractEventKey>,
    assets_observers_lookup: SubscriptionTable<AssetIdentifier>,
    mempool_observers_lookup: HashSet<u16>,
    stx_observers_lookup: HashSet<u16>,
    any_event_observers_lookup: HashSet<u16>,
    boot_receipts: Vec<StacksTransactionReceipt>,
}

/// What a dispatcher knows: the endpoints of its observers in the order of
/// their registration, the indexes that subscribed to each kind of event, and
/// the receipts of the boot code.
#[verifier::ext_equal]
pub struct DispatcherView {
    pub endpoints: Seq<Seq<char>>,
    pub contract_events: Map<ContractEventView, Set<u16>>,
    pub assets: Map<AssetView, Set<u16>>,
    pub mempool: Set<u16>,
    pub stx: Set<u16>,
    pub any_event: Set<u16>,
    pub boot_receipts: Seq<ReceiptView>,
}

/// The endpoints of a sequence of observers.
pub open spec fn endpoints_of(observers: Seq<EventObserver>) -> Seq<Seq<char>> {
    Seq::new(observers.len(), |i: int| observers[i].endpoint@)
}

impl View for EventDispatcher {
    type V = DispatcherView;

    closed spec fn view(&self) -> DispatcherView {
        DispatcherView {
            endpoints: endpoints_of(self.registered_observers@),
            contract_events: self.contract_events_observers_lookup@,
            assets: self.assets_observers_lookup@,
            mempool: self.mempool_observers_lookup@,
            stx: self.stx_observers_lookup@,
            any_event: self.any_event_observers_lookup@,
            boot_receipts: receipt_views(self.boot_receipts@),
        }
    }
}

/// The index that the observer gets that is registered after `n` others.
pub open spec fn index_after(n: nat) -> u16 {
    (n % 0x1_0000) as u16
}

/// An event that a transaction of a block emitted: whether the transaction's
/// effects were kept, the transaction's id, and the event.
pub struct EmittedEvent {
    pub committed: bool,
    pub txid: Seq<char>,
    pub event: EventView,
}

/// The events of one transaction, in order.
pub open spec fn receipt_events(receipt: ReceiptView) -> Seq<EmittedEvent> {
    Seq::new(
        receipt.events.len(),
        |j: int|
            EmittedEvent {
                committed: !receipt.post_condition_aborted,
                txid: receipt.txid,
                event: receipt.events[j],
            },
    )
}

/// The events of a block: those of its transactions, one after the other.
pub open spec fn block_events(receipts: Seq<ReceiptView>) -> Seq<EmittedEvent>
    decreases receipts.len(),
{
    if receipts.len() == 0 {
        Seq::empty()
    } else {
        block_events(receipts.drop_last()) + receipt_events(receipts.last())
    }
}

/// Whether the observer that was registered as number `o` (from 0) is among
/// the subscribed indexes. Only the first 2^16 observers are reached.
pub open spec fn subscribed(indexes: Set<u16>, o: int) -> bool {
    0 <= o <= u16::MAX && indexes.contains(o as u16)
}

/// Whether all indexes are below `n`.
pub open spec fn all_below(indexes: Set<u16>, n: nat) -> bool {
    forall|o: u16| #[trigger] indexes.contains(o) ==> o < n
}

impl DispatcherView {
    /// What a dispatcher knows at first: nothing.
    pub open spec fn empty() -> DispatcherView {
        DispatcherView {
            endpoints: Seq::empty(),
            contract_events: Map::empty(),
            assets: Map::empty(),
            mempool: Set::empty(),
            stx: Set::empty(),
            any_event: Set::empty(),
            boot_receipts: Seq::empty(),
        }
    }

    /// Every index that subscribed to something belongs to an observer, and no
    /// key is kept to which nobody subscribed.
    pub open spec fn valid(self) -> bool {
        let n = self.endpoints.len();
        &&& forall|k: ContractEventView| #[trigger]
            self.contract_events.contains_key(k) ==> self.contract_events[k] != Set::<u16>::empty()
                && all_below(self.contract_events[k], n)
        &&& forall|k: AssetView| #[trigger]
            self.assets.contains_key(k) ==> self.assets[k] != Set::<u16>::empty() && all_below(
                self.assets[k],
                n,
            )
        &&& all_below(self.mempool, n)
        &&& all_below(self.stx, n)
        &&& all_below(self.any_event, n)
    }

    /// The indexes that subscribed to a contract's event.
    pub open spec fn contract_event_indexes(self, key: ContractEventView) -> Set<u16> {
        indexes_at(self.contract_events, key)
    }

    /// The indexes that subscribed to an asset.
    pub open spec fn asset_indexes(self, asset: AssetView) -> Set<u16> {
        indexes_at(self.assets, asset)
    }

    /// The indexes that subscribed to what an event is about, other than those
    /// that subscribed to any event.
    pub open spec fn subject_indexes(self, event: EventView) -> Set<u16> {
        match event {
            EventView::SmartContractEvent(key) => self.contract_event_indexes(key),
            EventView::STXEvent(_) => self.stx,
            EventView::NFTTransferEvent(asset) => self.asset_indexes(asset),
            EventView::NFTMintEvent(asset) => self.asset_indexes(asset),
            EventView::FTTransferEvent(asset) => self.asset_indexes(asset),
            EventView::FTMintEvent(asset) => self.asset_indexes(asset),
        }
    }

    /// The indexes that are told of an event.
    pub open spec fn told_indexes(self, event: EventView) -> Set<u16> {
        self.subject_indexes(event).union(self.any_event)
    }

    /// Whether observer number `o` is told of an event of a block.
    pub open spec fn interested(self, o: int, event: EventView) -> bool {
        subscribed(self.told_indexes(event), o)
    }

    /// The positions of the events that observer number `o` is told of.
    pub open spec fn interesting(self, o: int, events: Seq<EmittedEvent>) -> Set<usize> {
        Set::new(|i: usize| i < events.len() && self.interested(o, events[i as int].event))
    }

    /// What the dispatcher knows after an index subscribed to some keys.
    pub open spec fn subscribe(self, index: u16, keys: Set<EventKeyView>) -> DispatcherView {
        DispatcherView {
            contract_events: Map::new(
                |k: ContractEventView|
                    self.contract_events.contains_key(k) || keys.contains(
                        EventKeyView::SmartContractEvent(k),
                    ),
                |k: ContractEventView|
                    if keys.contains(EventKeyView::SmartContractEvent(k)) {
                        self.contract_event_indexes(k).insert(index)
                    } else {
                        self.contract_events[k]
                    },
            ),
            assets: Map::new(
                |k: AssetView|
                    self.assets.contains_key(k) || keys.contains(EventKeyView::AssetEvent(k)),
                |k: AssetView|
                    if keys.contains(EventKeyView::AssetEvent(k)) {
                        self.asset_indexes(k).insert(index)
                    } else {
                        self.assets[k]
                    },
            ),
            mempool: if keys.contains(EventKeyView::MemPoolTransactions) {
                self.mempool.insert(index)
            } else {
                self.mempool
            },
            stx: if keys.contains(EventKeyView::STXEvent) {
                self.stx.insert(index)
            } else {
                self.stx
            },
            any_event: if keys.contains(EventKeyView::AnyEvent) {
                self.any_event.insert(index)
            } else {
                self.any_event
            },
            ..self
        }
    }

    /// What the dispatcher knows after an index subscribed to one key.
    spec fn with_key(self, index: u16, key: EventKeyView) -> DispatcherView {
        match key {
            EventKeyView::SmartContractEvent(k) => DispatcherView {
                contract_events: self.contract_events.insert(
                    k,
                    self.contract_event_indexes(k).insert(index),
                ),
                ..self
            },
            EventKeyView::AssetEvent(k) => DispatcherView {
                assets: self.assets.insert(k, self.asset_indexes(k).insert(index)),
                ..self
            },
            EventKeyView::STXEvent => DispatcherView { stx: self.stx.insert(index), ..self },
            EventKeyView::MemPoolTransactions => DispatcherView {
                mempool: self.mempool.insert(index),
                ..self
            },
            EventKeyView::AnyEvent => DispatcherView {
                any_event: self.any_event.insert(index),
                ..self
            },
        }
    }

    /// What the dispatcher knows after an observer was registered.
    pub open spec fn registered(self, conf: ObserverConfigView) -> DispatcherView {
        DispatcherView {
            endpoints: self.endpoints.push(conf.endpoint),
            ..self.subscribe(index_after(self.endpoints.len()), conf.keys)
        }
    }
}

impl DispatcherView {
    /// What one more key adds to the subscriptions of an index.
    proof fn lemma_subscribe_one(self, index: u16, keys: Set<EventKeyView>, key: EventKeyView)
        ensures
            self.subscribe(index, keys.insert(key)) == self.subscribe(index, keys).with_key(
                index,
                key,
            ),
    {
        let more = self.subscribe(index, keys.insert(key));
        let one = self.subscribe(index, keys).with_key(index, key);
        assert(more.contract_events =~~= one.contract_events);
        assert(more.assets =~~= one.assets);
    }

    proof fn lemma_told_indexes(self, event: EventView)
        ensures
            forall|o: u16| #[trigger]
                self.told_indexes(event).contains(o) <==> self.subject_indexes(event).contains(o)
                    || self.any_event.contains(o),
            self.valid() ==> all_below(self.told_indexes(event), self.endpoints.len()),
    {
    }

    proof fn lemma_interesting_push(
        self,
        o: int,
        known: Seq<EmittedEvent>,
        emitted: EmittedEvent,
        index: usize,
    )
        requires
            index == known.len(),
        ensures
            self.interesting(o, known.push(emitted)) == if self.interested(o, emitted.event) {
                self.interesting(o, known).insert(index)
            } else {
                self.interesting(o, known)
            },
    {
    }
}

proof fn lemma_key_set_extends(keys: Seq<EventKeyType>, i: int)
    requires
        0 <= i < keys.len(),
    ensures
        key_set(keys.take(i + 1)) == key_set(keys.take(i)).insert(keys[i]@),
{
    assert forall|k: EventKeyView|
        key_set(keys.take(i + 1)).contains(k) == key_set(keys.take(i)).insert(keys[i]@).contains(
            k,
        ) by {
        assert(keys.take(i + 1)[i]@ == keys[i]@);
        if key_set(keys.take(i)).contains(k) {
            let j = choose|j: int| 0 <= j < i && (#[trigger] keys.take(i)[j])@ == k;
            assert(keys.take(i + 1)[j]@ == k);
        }
    }
}

impl DispatcherView {
    /// Whether observer number `o` is told of transactions that entered the
    /// mempool.
    pub open spec fn wants_mempool(self, o: nat) -> bool {
        self.mempool.contains(index_after(o)) || self.any_event.contains(index_after(o))
    }

    /// The endpoints of those of the first `n` observers that are told of
    /// transactions that entered the mempool, in order.
    pub open spec fn mempool_endpoints(self, n: nat) -> Seq<Seq<char>>
        decreases n,
    {
        if n == 0 {
            Seq::empty()
        } else {
            let before = self.mempool_endpoints((n - 1) as nat);
            if self.wants_mempool((n - 1) as nat) {
                before.push(self.endpoints[n - 1])
            } else {
                before
            }
        }
    }
}

impl DispatcherView {
    /// The receipts of the boot code, if the block at this height is announced
    /// with them: only the first is.
    pub open spec fn boot_receipts_at(self, block_height: u64) -> Option<Seq<ReceiptView>> {
        if block_height == 1 {
            Some(self.boot_receipts)
        } else {
            None
        }
    }

    /// Whether a block at this height, with these receipts, can be announced to
    /// all observers.
    pub open spec fn can_announce(self, block_height: u64, receipts: Seq<ReceiptView>) -> bool {
        self.endpoints.len() > 0 ==> announceable(
            announced_receipts(receipts, self.boot_receipts_at(block_height)),
        )
    }

    /// Whether `outcome` is what comes of announcing a block to observer number
    /// `o`: of sending it the block with the events that this observer is told
    /// of, each of them once, as `json_serialize` writes them.
    pub open spec fn announces_to<F: Fn(&EventRecord) -> Value>(
        self,
        o: int,
        chain_tip: ChainTip,
        parent_index_hash: Seq<char>,
        winner_txid: Seq<char>,
        json_serialize: F,
        outcome: Result<PostRequest, SendError>,
    ) -> bool {
        let events = block_events(receipt_views(chain_tip.receipts@));
        exists|records: Seq<EventRecord>, values: Seq<Value>|
            {
                &&& selects(records, self.interesting(o, events), events)
                &&& all_come_from(records, chain_tip.receipts@)
                &&& #[trigger] serializes(json_serialize, records, values)
                &&& sends(
                    outcome,
                    self.endpoints[o],
                    PATH_BLOCK_PROCESSED@,
                    block_json(
                        json_seq(values),
                        chain_tip,
                        parent_index_hash,
                        self.boot_receipts_at(chain_tip.metadata.block_height),
                        winner_txid,
                    ),
                )
            }
    }
}

/// The endpoints of a sequence of borrowed observers.
spec fn endpoints_of_refs(observers: Seq<&EventObserver>) -> Seq<Seq<char>> {
    Seq::new(observers.len(), |i: int| observers[i].endpoint@)
}

/// An event of a block, with its position among the block's events.
///
/// The event says only what subscriptions go by: its kind, and the contract
/// event or asset that it is about. A serializer finds the rest of what
/// happened, such as an amount, a sender or a printed value, by `index`: the
/// number of the block's events before this one.
#[derive(Debug, Clone, Copy)]
pub struct EventRecord<'a> {
    pub index: usize,
    pub committed: bool,
    pub txid: &'a Txid,
    pub event: &'a StacksTransactionEvent,
}

impl<'a> EventRecord<'a> {
    /// Whether this is the record of `emitted`, at position `index`.
    pub open spec fn records(self, emitted: EmittedEvent, index: int) -> bool {
        &&& self.index == index
        &&& self.committed == emitted.committed
        &&& self.txid@ == emitted.txid
        &&& self.event@ == emitted.event
    }

    /// Whether this is the record of event number `e` of transaction number
    /// `r` of a block.
    pub open spec fn comes_from(
        self,
        receipts: Seq<StacksTransactionReceipt>,
        r: int,
        e: int,
    ) -> bool {
        &&& 0 <= r < receipts.len()
        &&& 0 <= e < receipts[r].events@.len()
        &&& self.index == block_events(receipt_views(receipts).take(r)).len() + e
        &&& self.committed == !receipts[r].post_condition_aborted
        &&& *self.txid == receipts[r].transaction.txid
        &&& *self.event == receipts[r].events@[e]
    }

    /// Whether this is the record of an event of a block.
    pub open spec fn comes_from_block(self, receipts: Seq<StacksTransactionReceipt>) -> bool {
        exists|r: int, e: int| self.comes_from(receipts, r, e)
    }
}

/// Whether each of the records is that of an event of the block.
pub open spec fn all_come_from(
    records: Seq<EventRecord>,
    receipts: Seq<StacksTransactionReceipt>,
) -> bool {
    forall|k: int|
        0 <= k < records.len() ==> (#[trigger] records[k]).comes_from_block(receipts)
}

/// The rows of a dispatch matrix: for each observer, the positions of the
/// events that it is told of.
pub open spec fn rows(matrix: Seq<HashSet<usize>>) -> Seq<Set<usize>> {
    Seq::new(matrix.len(), |o: int| matrix[o]@)
}

/// The rows after an event was added to those of some observers.
pub open spec fn marked(rows: Seq<Set<usize>>, indexes: Set<u16>, event_index: usize) -> Seq<
    Set<usize>,
> {
    Seq::new(
        rows.len(),
        |o: int|
            if subscribed(indexes, o) {
                rows[o].insert(event_index)
            } else {
                rows[o]
            },
    )
}

/// Adds an event to the rows of some observers.
fn mark_observers(indexes: &HashSet<u16>, event_index: usize, matrix: &mut Vec<HashSet<usize>>)
    requires
        all_below(indexes@, old(matrix)@.len()),
    ensures
        rows(final(matrix)@) == marked(rows(old(matrix)@), indexes@, event_index),
{
    let ghost before = matrix@;
    for o_i in it: indexes.iter()
        invariant
            matrix@.len() == before.len(),
            all_below(indexes@, before.len()),
            it.seq().unref().to_set() == indexes@,
            forall|o: int|
                0 <= o < matrix@.len() ==> (#[trigger] matrix@[o])@ == if exists|k: int|
                    0 <= k < it.index() && #[trigger] it.seq().unref()[k] == o {
                    before[o]@.insert(event_index)
                } else {
                    before[o]@
                },
    {
        let row: usize = *o_i as usize;
        assert(indexes@.contains(*o_i));
        matrix[row].insert(event_index);
        assert forall|o: int| 0 <= o < matrix@.len() implies (#[trigger] matrix@[o])@ == if exists|
            k: int,
        |
            0 <= k < it.index() + 1 && #[trigger] it.seq().unref()[k] == o {
            before[o]@.insert(event_index)
        } else {
            before[o]@
        } by {}
    }
}

/// The positions that some records have, in the order of the records.
pub open spec fn record_indexes(records: Seq<EventRecord>) -> Seq<usize> {
    Seq::new(records.len(), |k: int| records[k].index)
}

/// Whether `records` are the events at the positions `ids`, each of them once,
/// in whatever order.
pub open spec fn selects(
    records: Seq<EventRecord>,
    ids: Set<usize>,
    events: Seq<EmittedEvent>,
) -> bool {
    &&& record_indexes(records).no_duplicates()
    &&& record_indexes(records).to_set() == ids
    &&& forall|k: int|
        0 <= k < records.len() ==> {
            &&& (#[trigger] records[k]).index < events.len()
            &&& records[k].records(events[records[k].index as int], records[k].index as int)
        }
}

/// Whether each of `values` is what `json_serialize` gave for the record at the
/// same place.
pub open spec fn serializes<'a, F: Fn(&EventRecord<'a>) -> Value>(
    json_serialize: F,
    records: Seq<EventRecord<'a>>,
    values: Seq<Value>,
) -> bool {
    &&& values.len() == records.len()
    &&& forall|i: int|
        0 <= i < values.len() ==> call_ensures(
            json_serialize,
            (&records[i],),
            #[trigger] values[i],
        )
}

/// What one observer is told of a block: the arguments with which its
/// `EventObserver::send` is called, once the events are serialized.
pub struct BlockAnnouncement<'a> {
    pub observer: &'a EventObserver,
    pub filtered_events: Vec<EventRecord<'a>>,
    pub chain_tip: &'a ChainTip,
    pub parent_index_hash: &'a StacksBlockId,
    pub boot_receipts: Option<&'a Vec<StacksTransactionReceipt>>,
    pub winner_txid: Txid,
}

impl<'a> BlockAnnouncement<'a> {
    /// Whether this announces a block to observer number `o`: with the events
    /// that this observer is told of, and, for the first block only, with the
    /// receipts of the boot code.
    pub open spec fn announces(
        self,
        dispatcher: DispatcherView,
        o: int,
        chain_tip: ChainTip,
        parent_index_hash: StacksBlockId,
        winner_txid: Seq<char>,
    ) -> bool {
        let events = block_events(receipt_views(chain_tip.receipts@));
        &&& self.observer.endpoint@ == dispatcher.endpoints[o]
        &&& selects(self.filtered_events@, dispatcher.interesting(o, events), events)
        &&& all_come_from(self.filtered_events@, chain_tip.receipts@)
        &&& *self.chain_tip == chain_tip
        &&& *self.parent_index_hash == parent_index_hash
        &&& self.winner_txid@ == winner_txid
        &&& match self.boot_receipts {
            Some(receipts) => chain_tip.metadata.block_height == 1 && receipt_views(receipts@)
                == dispatcher.boot_receipts,
            None => chain_tip.metadata.block_height != 1,
        }
    }

    /// Makes the request that announces the block to the observer, from the
    /// filtered events as they were serialized.
    pub fn send(&self, serialized_events: Vec<Value>) -> (outcome: Result<PostRequest, SendError>)
        requires
            announceable(
                announced_receipts(
                    receipt_views(self.chain_tip.receipts@),
                    boot_views(self.boot_receipts),
                ),
            ),
        ensures
            sends(
                outcome,
                self.observer.endpoint@,
                PATH_BLOCK_PROCESSED@,
                block_json(
                    json_seq(serialized_events@),
                    *self.chain_tip,
                    self.parent_index_hash.text@,
                    boot_views(self.boot_receipts),
                    self.winner_txid@,
                ),
            ),
    {
        self.observer.send(
            serialized_events,
            self.chain_tip,
            self.parent_index_hash,
            self.boot_receipts,
            &self.winner_txid,
        )
    }

    /// Serializes the filtered events, in their order, and makes the request
    /// that announces the block to the observer with them.
    pub fn send_serialized<F: Fn(&EventRecord<'a>) -> Value>(&self, json_serialize: &F) -> (outcome:
        Result<PostRequest, SendError>)
        requires
            announceable(
                announced_receipts(
                    receipt_views(self.chain_tip.receipts@),
                    boot_views(self.boot_receipts),
                ),
            ),
            forall|i: int|
                0 <= i < self.filtered_events@.len() ==> call_requires(
                    *json_serialize,
                    (&#[trigger] self.filtered_events@[i],),
                ),
        ensures
            exists|events: Seq<Value>|
                {
                    &&& #[trigger] serializes(*json_serialize, self.filtered_events@, events)
                    &&& sends(
                        outcome,
                        self.observer.endpoint@,
                        PATH_BLOCK_PROCESSED@,
                        block_json(
                            json_seq(events),
                            *self.chain_tip,
                            self.parent_index_hash.text@,
                            boot_views(self.boot_receipts),
                            self.winner_txid@,
                        ),
                    )
                },
    {
        let mut serialized_events: Vec<Value> = Vec::new();
        for i in 0..self.filtered_events.len()
            invariant
                forall|k: int|
                    0 <= k < self.filtered_events@.len() ==> call_requires(
                        *json_serialize,
                        (&#[trigger] self.filtered_events@[k],),
                    ),
                serializes(
                    *json_serialize,
                    self.filtered_events@.take(i as int),
                    serialized_events@,
                ),
        {
            let record = &self.filtered_events[i];
            serialized_events.push(json_serialize(record));
        }
        assert(self.filtered_events@.take(self.filtered_events@.len() as int)
            =~= self.filtered_events@);
        self.send(serialized_events)
    }
}

/// Picks the events of a row of the dispatch matrix, in the order in which the
/// row's set is walked.
fn filter_events<'a>(row: &HashSet<usize>, events: &Vec<EventRecord<'a>>) -> (filtered: Vec<
    EventRecord<'a>,
>)
    requires
        forall|id: usize| #[trigger] row@.contains(id) ==> id < events@.len(),
        forall|i: int| 0 <= i < events@.len() ==> (#[trigger] events@[i]).index == i,
    ensures
        record_indexes(filtered@).no_duplicates(),
        record_indexes(filtered@).to_set() == row@,
        forall|k: int|
            0 <= k < filtered@.len() ==> (#[trigger] filtered@[k]).index < events@.len()
                && filtered@[k] == events@[filtered@[k].index as int],
{
    let mut filtered: Vec<EventRecord<'a>> = Vec::new();
    for event_id in it: row.iter()
        invariant
            it.seq().unref().to_set() == row@,
            it.seq().no_duplicates(),
            forall|id: usize| #[trigger] row@.contains(id) ==> id < events@.len(),
            forall|i: int| 0 <= i < events@.len() ==> (#[trigger] events@[i]).index == i,
            filtered@.len() == it.index(),
            forall|k: int|
                0 <= k < it.index() ==> (#[trigger] filtered@[k]).index < events@.len()
                    && filtered@[k].index == it.seq().unref()[k] && filtered@[k]
                    == events@[filtered@[k].index as int],
            forall|k: int|
                0 <= k < it.index() ==> record_indexes(filtered@)[k]
                    == #[trigger] it.seq().unref()[k],
    {
        assert(row@.contains(*event_id));
        filtered.push(events[*event_id]);
    }
    filtered
}

impl Clone for EventDispatcher {
    fn clone(&self) -> (copy: Self)
        ensures
            self.wf() ==> copy.wf() && copy@ == self@,
    {
        let copy = EventDispatcher {
            registered_observers: self.registered_observers.clone(),
            contract_events_observers_lookup: self.contract_events_observers_lookup.duplicate(),
            assets_observers_lookup: self.assets_observers_lookup.duplicate(),
            mempool_observers_lookup: copy_indexes(&self.mempool_observers_lookup),
            stx_observers_lookup: copy_indexes(&self.stx_observers_lookup),
            any_event_observers_lookup: copy_indexes(&self.any_event_observers_lookup),
            boot_receipts: self.boot_receipts.clone(),
        };
        assert(self.wf() ==> copy@ =~= self@);
        copy
    }
}

impl EventDispatcher {
    /// Every key has one entry, with an index at least, and every index belongs
    /// to an observer.
    pub closed spec fn wf(&self) -> bool {
        &&& self.contract_events_observers_lookup.wf()
        &&& self.assets_observers_lookup.wf()
        &&& self@.valid()
    }

    /// Every index that subscribed to something belongs to an observer, and no
    /// key is kept to which nobody subscribed.
    pub proof fn lemma_indexes_belong_to_observers(&self)
        requires
            self.wf(),
        ensures
            self@.valid(),
    {
    }

    fn update_dispatch_matrix_if_observer_subscribed(
        &self,
        asset_identifier: &AssetIdentifier,
        event_index: usize,
        dispatch_matrix: &mut Vec<HashSet<usize>>,
    )
        requires
            self.wf(),
            all_below(self@.asset_indexes(asset_identifier@), old(dispatch_matrix)@.len()),
        ensures
            rows(final(dispatch_matrix)@) == marked(
                rows(old(dispatch_matrix)@),
                self@.asset_indexes(asset_identifier@),
                event_index,
            ),
    {
        if let Some(observer_indexes) = self.assets_observers_lookup.get(asset_identifier) {
            mark_observers(observer_indexes, event_index, dispatch_matrix);
        }
    }

    /// Adds an event to the rows of the observers that are told of it.
    fn update_dispatch_matrix(
        &self,
        event: &StacksTransactionEvent,
        event_index: usize,
        dispatch_matrix: &mut Vec<HashSet<usize>>,
    )
        requires
            self.wf(),
            all_below(self@.told_indexes(event@), old(dispatch_matrix)@.len()),
        ensures
            rows(final(dispatch_matrix)@) == marked(
                rows(old(dispatch_matrix)@),
                self@.told_indexes(event@),
                event_index,
            ),
    {
        proof {
            self@.lemma_told_indexes(event@);
            assert forall|o: u16| #[trigger] self@.subject_indexes(event@).contains(o) implies o
                < dispatch_matrix@.len() by {
                assert(self@.told_indexes(event@).contains(o));
            }
            assert forall|o: u16| #[trigger] self@.any_event.contains(o) implies o
                < dispatch_matrix@.len() by {
                assert(self@.told_indexes(event@).contains(o));
            }
        }
        let ghost before = rows(dispatch_matrix@);
        match event {
            StacksTransactionEvent::SmartContractEvent(event_data) => {
                if let Some(observer_indexes) = self.contract_events_observers_lookup.get(
                    &event_data.key,
                ) {
                    mark_observers(observer_indexes, event_index, dispatch_matrix);
                }
            },
            StacksTransactionEvent::STXEvent(_) => {
                mark_observers(&self.stx_observers_lookup, event_index, dispatch_matrix);
            },
            StacksTransactionEvent::NFTEvent(NFTEventType::NFTTransferEvent(event_data)) => {
                self.update_dispatch_matrix_if_observer_subscribed(
                    &event_data.asset_identifier,
                    event_index,
                    dispatch_matrix,
                );
            },
            StacksTransactionEvent::NFTEvent(NFTEventType::NFTMintEvent(event_data)) => {
                self.update_dispatch_matrix_if_observer_subscribed(
                    &event_data.asset_identifier,
                    event_index,
                    dispatch_matrix,
                );
            },
            StacksTransactionEvent::FTEvent(FTEventType::FTTransferEvent(event_data)) => {
                self.update_dispatch_matrix_if_observer_subscribed(
                    &event_data.asset_identifier,
                    event_index,
                    dispatch_matrix,
                );
            },
            StacksTransactionEvent::FTEvent(FTEventType::FTMintEvent(event_data)) => {
                self.update_dispatch_matrix_if_observer_subscribed(
                    &event_data.asset_identifier,
                    event_index,
                    dispatch_matrix,
                );
            },
        }
        assert(dispatch_matrix@.len() == rows(dispatch_matrix@).len());
        mark_observers(&self.any_event_observers_lookup, event_index, dispatch_matrix);
        assert(rows(dispatch_matrix@) =~~= marked(before, self@.told_indexes(event@), event_index));
    }

    /// A dispatcher without observers.
    pub fn new() -> (dispatcher: EventDispatcher)
        ensures
            dispatcher.wf(),
            dispatcher@ == DispatcherView::empty(),
    {
        EventDispatcher {
            registered_observers: Vec::new(),
            contract_events_observers_lookup: SubscriptionTable::new(),
            assets_observers_lookup: SubscriptionTable::new(),
            mempool_observers_lookup: HashSet::new(),
            stx_observers_lookup: HashSet::new(),
            any_event_observers_lookup: HashSet::new(),
            boot_receipts: Vec::new(),
        }
    }

    /// Registers an observer, and subscribes it to the events it asks for.
    pub fn register_observer(&mut self, conf: &EventObserverConfig)
        requires
            old(self).wf(),
        ensures
            final(self).wf(),
            final(self)@ == old(self)@.registered(conf@),
    {
        let event_observer = EventObserver { endpoint: conf.endpoint.clone() };
        let count: usize = self.registered_observers.len();
        let observer_index: u16 = count as u16;
        assert(count as u16 == (count % 0x1_0000usize) as u16) by (bit_vector);
        let ghost before = self@;
        for i in 0..conf.events_keys.len()
            invariant
                self.contract_events_observers_lookup.wf(),
                self.assets_observers_lookup.wf(),
                self@ == before.subscribe(
                    observer_index,
                    key_set(conf.events_keys@.take(i as int)),
                ),
        {
            let event_key_type = &conf.events_keys[i];
            match event_key_type {
                EventKeyType::SmartContractEvent(event_key) => {
                    self.contract_events_observers_lookup.insert(event_key, observer_index);
                },
                EventKeyType::MemPoolTransactions => {
                    self.mempool_observers_lookup.insert(observer_index);
                },
                EventKeyType::STXEvent => {
                    self.stx_observers_lookup.insert(observer_index);
                },
                EventKeyType::AssetEvent(event_key) => {
                    self.assets_observers_lookup.insert(event_key, observer_index);
                },
                EventKeyType::AnyEvent => {
                    self.any_event_observers_lookup.insert(observer_index);
                },
            }
            proof {
                let keys = key_set(conf.events_keys@.take(i as int));
                lemma_key_set_extends(conf.events_keys@, i as int);
                before.lemma_subscribe_one(observer_index, keys, event_key_type@);
            }
        }
        self.registered_observers.push(event_observer);
        proof {
            assert(conf.events_keys@.take(conf.events_keys@.len() as int) =~= conf.events_keys@);
            assert(self@ =~= before.registered(conf@));
            registration_keeps_validity(before, conf@);
        }
    }

    /// Keeps the receipts of the boot code, which observers are sent with the
    /// first block.
    pub fn process_boot_receipts(&mut self, receipts: Vec<StacksTransactionReceipt>)
        requires
            old(self).wf(),
        ensures
            final(self).wf(),
            final(self)@ == (DispatcherView {
                boot_receipts: receipt_views(receipts@),
                ..old(self)@
            }),
    {
        self.boot_receipts = receipts;
    }

    /// Decides which observer is told of which of a block's events.
    ///
    /// Every observer gets one announcement, in the order of their
    /// registration. The first block is announced with the receipts of the
    /// boot code.
    pub fn process_chain_tip<'a>(
        &'a self,
        chain_tip: &'a ChainTip,
        parent_index_hash: &'a StacksBlockId,
        winner_txid: Txid,
    ) -> (announcements: Vec<BlockAnnouncement<'a>>)
        requires
            self.wf(),
        ensures
            announcements@.len() == self@.endpoints.len(),
            block_events(receipt_views(chain_tip.receipts@)).len() <= usize::MAX,
            forall|o: int|
                0 <= o < announcements@.len() ==> (#[trigger] announcements@[o]).announces(
                    self@,
                    o,
                    *chain_tip,
                    *parent_index_hash,
                    winner_txid@,
                ),
    {
        let ghost receipts = receipt_views(chain_tip.receipts@);
        let ghost all_events = block_events(receipts);
        let observer_count: usize = self.registered_observers.len();
        let mut dispatch_matrix: Vec<HashSet<usize>> = Vec::new();
        for o in 0..observer_count
            invariant
                dispatch_matrix@.len() == o,
                forall|k: int|
                    0 <= k < o ==> (#[trigger] dispatch_matrix@[k])@ == Set::<usize>::empty(),
        {
            dispatch_matrix.push(HashSet::new());
        }
        let mut events: Vec<EventRecord<'a>> = Vec::new();
        let boot_receipts = if chain_tip.metadata.block_height == 1 {
            Some(&self.boot_receipts)
        } else {
            None
        };
        assert forall|k: int| 0 <= k < dispatch_matrix@.len() implies (
        #[trigger] dispatch_matrix@[k])@ == self@.interesting(k, Seq::empty()) by {}
        for r in 0..chain_tip.receipts.len()
            invariant
                self.wf(),
                receipts == receipt_views(chain_tip.receipts@),
                self.matrix_covers(
                    dispatch_matrix@,
                    events@,
                    block_events(receipts.take(r as int)),
                ),
                all_come_from(events@, chain_tip.receipts@),
        {
            let receipt = &chain_tip.receipts[r];
            let ghost done = block_events(receipts.take(r as int));
            let ghost current = receipt_events(receipt@);
            for e in 0..receipt.events.len()
                invariant
                    self.wf(),
                    current == receipt_events(receipt@),
                    self.matrix_covers(dispatch_matrix@, events@, done + current.take(e as int)),
                    all_come_from(events@, chain_tip.receipts@),
                    r < chain_tip.receipts@.len(),
                    *receipt == chain_tip.receipts@[r as int],
                    done == block_events(receipts.take(r as int)),
                    receipts == receipt_views(chain_tip.receipts@),
            {
                let event = &receipt.events[e];
                let event_index: usize = events.len();
                let ghost known = done + current.take(e as int);
                let ghost emitted = current[e as int];
                let ghost before = rows(dispatch_matrix@);
                let ghost recorded = events@;
                proof {
                    self@.lemma_told_indexes(event@);
                }
                self.update_dispatch_matrix(event, event_index, &mut dispatch_matrix);
                events.push(
                    EventRecord {
                        index: event_index,
                        committed: !receipt.post_condition_aborted,
                        txid: &receipt.transaction.txid,
                        event,
                    },
                );
                proof {
                    assert(events@.last().comes_from(
                        chain_tip.receipts@,
                        r as int,
                        e as int,
                    ));
                    assert forall|k: int| 0 <= k < events@.len() implies (
                    #[trigger] events@[k]).comes_from_block(chain_tip.receipts@) by {
                        if k < recorded.len() {
                            assert(events@[k] == recorded[k]);
                        }
                    }
                    assert(done + current.take(e + 1) =~= known.push(emitted));
                    assert(dispatch_matrix@.len() == rows(dispatch_matrix@).len());
                    assert forall|o: int| 0 <= o < dispatch_matrix@.len() implies (
                    #[trigger] dispatch_matrix@[o])@ == self@.interesting(
                        o,
                        known.push(emitted),
                    ) by {
                        assert(dispatch_matrix@[o]@ == rows(dispatch_matrix@)[o]);
                        self@.lemma_interesting_push(o, known, emitted, event_index);
                    }
                }
            }
            proof {
                assert(current.take(receipt.events@.len() as int) =~= current);
                assert(receipts.take(r + 1).drop_last() =~= receipts.take(r as int));
            }
        }
        assert(receipts.take(receipts.len() as int) =~= receipts);
        assert(all_events.len() == events.len());
        let mut announcements: Vec<BlockAnnouncement<'a>> = Vec::new();
        for observer_id in 0..observer_count
            invariant
                self.wf(),
                observer_count == self.registered_observers@.len(),
                self.matrix_covers(dispatch_matrix@, events@, all_events),
                all_come_from(events@, chain_tip.receipts@),
                all_events == block_events(receipt_views(chain_tip.receipts@)),
                boot_receipts == if chain_tip.metadata.block_height == 1 {
                    Some(&self.boot_receipts)
                } else {
                    None
                },
                announcements@.len() == observer_id,
                forall|o: int|
                    0 <= o < announcements@.len() ==> (#[trigger] announcements@[o]).announces(
                        self@,
                        o,
                        *chain_tip,
                        *parent_index_hash,
                        winner_txid@,
                    ),
        {
            let filtered_events = filter_events(&dispatch_matrix[observer_id], &events);
            assert forall|k: int| 0 <= k < filtered_events@.len() implies (
            #[trigger] filtered_events@[k]).comes_from_block(chain_tip.receipts@) by {
                assert(filtered_events@[k] == events@[filtered_events@[k].index as int]);
            }
            let announcement = BlockAnnouncement {
                observer: &self.registered_observers[observer_id],
                filtered_events,
                chain_tip,
                parent_index_hash,
                boot_receipts,
                winner_txid: winner_txid.clone(),
            };
            announcements.push(announcement);
        }
        announcements
    }

    /// Whether a block with this metadata and these receipts can be announced.
    pub fn can_announce(
        &self,
        metadata: &StacksHeaderInfo,
        receipts: &Vec<StacksTransactionReceipt>,
    ) -> (result: bool)
        requires
            self.wf(),
        ensures
            result == self@.can_announce(metadata.block_height, receipt_views(receipts@)),
    {
        if self.registered_observers.len() == 0 {
            return true;
        }
        let boot_receipts = if metadata.block_height == 1 {
            Some(&self.boot_receipts)
        } else {
            None
        };
        is_announceable(receipts, boot_receipts)
    }

    /// Makes the requests that announce a block to all observers, in the order
    /// of their registration. `json_serialize` writes an event as JSON.
    pub fn announce_block<F: Fn(&EventRecord) -> Value>(
        &self,
        block: StacksBlock,
        metadata: StacksHeaderInfo,
        receipts: Vec<StacksTransactionReceipt>,
        parent: &StacksBlockId,
        winner_txid: Txid,
        json_serialize: F,
    ) -> (outcomes: Vec<Result<PostRequest, SendError>>)
        requires
            self.wf(),
            self@.can_announce(metadata.block_height, receipt_views(receipts@)),
            forall|record: EventRecord, i: int|
                0 <= i < block_events(receipt_views(receipts@)).len() && #[trigger] record.records(
                    block_events(receipt_views(receipts@))[i],
                    i,
                ) ==> call_requires(json_serialize, (&record,)),
        ensures
            outcomes@.len() == self@.endpoints.len(),
            block_events(receipt_views(receipts@)).len() <= usize::MAX,
            forall|o: int|
                0 <= o < outcomes@.len() ==> self@.announces_to(
                    o,
                    (ChainTip { metadata, block, receipts }),
                    parent.text@,
                    winner_txid@,
                    json_serialize,
                    #[trigger] outcomes@[o],
                ),
    {
        let chain_tip = ChainTip { metadata, block, receipts };
        let ghost events = block_events(receipt_views(receipts@));
        let ghost winner = winner_txid@;
        let announcements = self.process_chain_tip(&chain_tip, parent, winner_txid);
        let mut outcomes: Vec<Result<PostRequest, SendError>> = Vec::new();
        for k in 0..announcements.len()
            invariant
                self@.can_announce(
                    chain_tip.metadata.block_height,
                    receipt_views(chain_tip.receipts@),
                ),
                events == block_events(receipt_views(chain_tip.receipts@)),
                forall|record: EventRecord, i: int|
                    0 <= i < events.len() && #[trigger] record.records(events[i], i)
                        ==> call_requires(json_serialize, (&record,)),
                announcements@.len() == self@.endpoints.len(),
                forall|o: int|
                    0 <= o < announcements@.len() ==> (#[trigger] announcements@[o]).announces(
                        self@,
                        o,
                        chain_tip,
                        *parent,
                        winner,
                    ),
                outcomes@.len() == k,
                forall|o: int|
                    0 <= o < k ==> self@.announces_to(
                        o,
                        chain_tip,
                        parent.text@,
                        winner,
                        json_serialize,
                        #[trigger] outcomes@[o],
                    ),
        {
            let announcement = &announcements[k];
            outcomes.push(announcement.send_serialized(&json_serialize));
        }
        outcomes
    }

    /// Keeps the receipts of the boot code.
    pub fn dispatch_boot_receipts(&mut self, receipts: Vec<StacksTransactionReceipt>)
        requires
            old(self).wf(),
        ensures
            final(self).wf(),
            final(self)@ == (DispatcherView {
                boot_receipts: receipt_views(receipts@),
                ..old(self)@
            }),
    {
        self.process_boot_receipts(receipts)
    }

    /// Makes the requests that send transactions that entered the mempool to
    /// the observers that are told of them, in the order of their
    /// registration.
    pub fn process_new_mempool_txs(&self, txs: Vec<StacksTransaction>) -> (outcomes: Vec<
        Result<PostRequest, SendError>,
    >)
        requires
            self.wf(),
        ensures
            outcomes@.len() == self@.mempool_endpoints(self@.endpoints.len()).len(),
            forall|k: int|
                0 <= k < outcomes@.len() ==> sends(
                    #[trigger] outcomes@[k],
                    self@.mempool_endpoints(self@.endpoints.len())[k],
                    PATH_MEMPOOL_TX_SUBMIT@,
                    mempool_json(txs@),
                ),
    {
        // The payload is assembled only if somebody is to get it.
        let mut interested_observers: Vec<&EventObserver> = Vec::new();
        for obs_id in 0..self.registered_observers.len()
            invariant
                endpoints_of_refs(interested_observers@) == self@.mempool_endpoints(obs_id as nat),
        {
            let observer_index: u16 = obs_id as u16;
            assert(obs_id as u16 == (obs_id % 0x1_0000usize) as u16) by (bit_vector);
            if self.mempool_observers_lookup.contains(&observer_index)
                || self.any_event_observers_lookup.contains(&observer_index) {
                interested_observers.push(&self.registered_observers[obs_id]);
            }
        }
        let ghost targets = self@.mempool_endpoints(self@.endpoints.len());
        let mut outcomes: Vec<Result<PostRequest, SendError>> = Vec::new();
        if interested_observers.len() < 1 {
            return outcomes;
        }
        let payload = EventObserver::make_new_mempool_txs_payload(txs);
        for k in 0..interested_observers.len()
            invariant
                endpoints_of_refs(interested_observers@) == targets,
                json_of(payload) == mempool_json(txs@),
                outcomes@.len() == k,
                forall|j: int|
                    0 <= j < k ==> sends(
                        #[trigger] outcomes@[j],
                        targets[j],
                        PATH_MEMPOOL_TX_SUBMIT@,
                        mempool_json(txs@),
                    ),
        {
            outcomes.push(interested_observers[k].send_new_mempool_txs(&payload));
        }
        outcomes
    }

    /// Makes the requests that send attachments to all observers, in the order
    /// of their registration.
    pub fn process_new_attachments(&self, attachments: &Vec<AttachmentInstance>) -> (outcomes: Vec<
        Result<PostRequest, SendError>,
    >)
        requires
            self.wf(),
        ensures
            outcomes@.len() == self@.endpoints.len(),
            forall|k: int|
                0 <= k < outcomes@.len() ==> sends(
                    #[trigger] outcomes@[k],
                    self@.endpoints[k],
                    PATH_ATTACHMENT_PROCESSED@,
                    attachments_json(attachments@),
                ),
    {
        let mut outcomes: Vec<Result<PostRequest, SendError>> = Vec::new();
        if self.registered_observers.len() < 1 {
            return outcomes;
        }
        let mut serialized_attachments: Vec<Value> = Vec::new();
        for i in 0..attachments.len()
            invariant
                serialized_attachments@.len() == i,
                forall|j: int|
                    0 <= j < i ==> json_of(#[trigger] serialized_attachments@[j]) == json_of(
                        attachments@[j].json,
                    ),
        {
            let payload = EventObserver::make_new_attachment_payload(&attachments[i]);
            serialized_attachments.push(payload);
        }
        assert(json_seq(serialized_attachments@) =~= Seq::new(
            attachments@.len(),
            |i: int| json_of(attachments@[i].json),
        ));
        let payload = json_array(serialized_attachments);
        for k in 0..self.registered_observers.len()
            invariant
                json_of(payload) == attachments_json(attachments@),
                outcomes@.len() == k,
                forall|j: int|
                    0 <= j < k ==> sends(
                        #[trigger] outcomes@[j],
                        self@.endpoints[j],
                        PATH_ATTACHMENT_PROCESSED@,
                        attachments_json(attachments@),
                    ),
        {
            outcomes.push(self.registered_observers[k].send_new_attachments(&payload));
        }
        outcomes
    }

    /// Whether the records are those of `known`, and each observer's row of
    /// the matrix holds the positions of the events that it is told of.
    closed spec fn matrix_covers(
        &self,
        matrix: Seq<HashSet<usize>>,
        records: Seq<EventRecord>,
        known: Seq<EmittedEvent>,
    ) -> bool {
        &&& matrix.len() == self@.endpoints.len()
        &&& records.len() == known.len()
        &&& forall|i: int|
            0 <= i < records.len() ==> (#[trigger] records[i]).records(known[i], i)
        &&& forall|o: int|
            0 <= o < matrix.len() ==> (#[trigger] matrix[o])@ == self@.interesting(o, known)
    }
}

} // verus!
