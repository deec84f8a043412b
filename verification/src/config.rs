//! What an observer asks for when it is registered.

use crate::types::{AssetIdentifier, AssetView, ContractEventKey, ContractEventView};
use vstd::prelude::*;

verus! {

/// A kind of event that an observer subscribes to.
#[derive(Debug)]
pub enum EventKeyType {
    SmartContractEvent(ContractEventKey),
    AssetEvent(AssetIdentifier),
    STXEvent,
    MemPoolTransactions,
    AnyEvent,
}

/// An observer: where it listens, and what it subscribes to.
#[derive(Debug)]
pub struct EventObserverConfig {
    pub endpoint: String,
    pub events_keys: Vec<EventKeyType>,
}

/// What an event key says.
#[verifier::ext_equal]
pub enum EventKeyView {
    SmartContractEvent(ContractEventView),
    AssetEvent(AssetView),
    STXEvent,
    MemPoolTransactions,
    AnyEvent,
}

/// What an observer's configuration says: its endpoint, and the set of its
/// event keys.
#[verifier::ext_equal]
pub struct ObserverConfigView {
    pub endpoint: Seq<char>,
    pub keys: Set<EventKeyView>,
}

impl View for EventKeyType {
    type V = EventKeyView;

    open spec fn view(&self) -> EventKeyView {
        match self {
            EventKeyType::SmartContractEvent(key) => EventKeyView::SmartContractEvent(key@),
            EventKeyType::AssetEvent(asset) => EventKeyView::AssetEvent(asset@),
            EventKeyType::STXEvent => EventKeyView::STXEvent,
            EventKeyType::MemPoolTransactions => EventKeyView::MemPoolTransactions,
            EventKeyType::AnyEvent => EventKeyView::AnyEvent,
        }
    }
}

/// The set of the keys of a list.
pub open spec fn key_set(keys: Seq<EventKeyType>) -> Set<EventKeyView> {
    Set::new(|k: EventKeyView| exists|i: int| 0 <= i < keys.len() && (#[trigger] keys[i])@ == k)
}

impl View for EventObserverConfig {
    type V = ObserverConfigView;

    open spec fn view(&self) -> ObserverConfigView {
        ObserverConfigView { endpoint: self.endpoint@, keys: key_set(self.events_keys@) }
    }
}

} // verus!
