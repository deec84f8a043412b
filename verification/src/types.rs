//! The parts of the chain's data that observers are told about.
//!
//! Identifiers are kept as the text that they are shown as; transactions and
//! their results as the bytes that they are serialized to.

use crate::json::{json_of, Json};
use serde_json::Value;
use vstd::prelude::*;

verus! {

/// The id of a transaction.
#[derive(Debug)]
pub struct Txid {
    pub text: String,
}

impl View for Txid {
    type V = Seq<char>;

    open spec fn view(&self) -> Seq<char> {
        self.text@
    }
}

impl Clone for Txid {
    fn clone(&self) -> (copy: Self)
        ensures
            copy@ == self@,
    {
        Txid { text: self.text.clone() }
    }
}

/// The hash by which a block is indexed.
#[derive(Debug)]
pub struct StacksBlockId {
    pub text: String,
}

/// The hash of a block or microblock header.
#[derive(Debug)]
pub struct BlockHeaderHash {
    pub text: String,
}

/// The hash of a burn chain block header.
#[derive(Debug)]
pub struct BurnchainHeaderHash {
    pub text: String,
}

/// A contract: who published it, and its name.
#[derive(Debug)]
pub struct QualifiedContractIdentifier {
    pub issuer: String,
    pub name: String,
}

/// An asset: the contract that defines it, and its name there.
#[derive(Debug)]
pub struct AssetIdentifier {
    pub contract_identifier: QualifiedContractIdentifier,
    pub asset_name: String,
}

/// An event of a contract: the contract, and the name of the event.
#[derive(Debug)]
pub struct ContractEventKey {
    pub contract_identifier: QualifiedContractIdentifier,
    pub event_name: String,
}

/// What a contract identifier says: issuer and name.
#[verifier::ext_equal]
pub struct ContractView {
    pub issuer: Seq<char>,
    pub name: Seq<char>,
}

/// What an asset identifier says: contract and name.
#[verifier::ext_equal]
pub struct AssetView {
    pub contract: ContractView,
    pub asset_name: Seq<char>,
}

/// What the key of a contract's event says: contract and name.
#[verifier::ext_equal]
pub struct ContractEventView {
    pub contract: ContractView,
    pub event_name: Seq<char>,
}

impl View for QualifiedContractIdentifier {
    type V = ContractView;

    open spec fn view(&self) -> ContractView {
        ContractView { issuer: self.issuer@, name: self.name@ }
    }
}

impl Clone for QualifiedContractIdentifier {
    fn clone(&self) -> (copy: Self)
        ensures
            copy@ == self@,
    {
        QualifiedContractIdentifier { issuer: self.issuer.clone(), name: self.name.clone() }
    }
}

impl View for AssetIdentifier {
    type V = AssetView;

    open spec fn view(&self) -> AssetView {
        AssetView { contract: self.contract_identifier@, asset_name: self.asset_name@ }
    }
}

impl Clone for AssetIdentifier {
    fn clone(&self) -> (copy: Self)
        ensures
            copy@ == self@,
    {
        AssetIdentifier {
            contract_identifier: self.contract_identifier.clone(),
            asset_name: self.asset_name.clone(),
        }
    }
}

impl View for ContractEventKey {
    type V = ContractEventView;

    open spec fn view(&self) -> ContractEventView {
        ContractEventView { contract: self.contract_identifier@, event_name: self.event_name@ }
    }
}

impl Clone for ContractEventKey {
    fn clone(&self) -> (copy: Self)
        ensures
            copy@ == self@,
    {
        ContractEventKey {
            contract_identifier: self.contract_identifier.clone(),
            event_name: self.event_name.clone(),
        }
    }
}

/// An event that a contract printed, under the key that observers subscribe
/// to.
#[derive(Debug)]
pub struct SmartContractEventData {
    pub key: ContractEventKey,
}

/// What happened to the chain's own token.
#[derive(Debug, Clone, Copy)]
pub enum STXEventType {
    STXTransferEvent,
    STXMintEvent,
    STXBurnEvent,
    STXLockEvent,
}

/// An asset that was moved or made.
#[derive(Debug)]
pub struct AssetEventData {
    pub asset_identifier: AssetIdentifier,
}

/// What happened to a non-fungible token.
#[derive(Debug)]
pub enum NFTEventType {
    NFTTransferEvent(AssetEventData),
    NFTMintEvent(AssetEventData),
}

/// What happened to a fungible token.
#[derive(Debug)]
pub enum FTEventType {
    FTTransferEvent(AssetEventData),
    FTMintEvent(AssetEventData),
}

/// An event that a transaction emitted.
#[derive(Debug)]
pub enum StacksTransactionEvent {
    SmartContractEvent(SmartContractEventData),
    STXEvent(STXEventType),
    NFTEvent(NFTEventType),
    FTEvent(FTEventType),
}

/// What an event says: what happened, and to what.
#[verifier::ext_equal]
pub enum EventView {
    SmartContractEvent(ContractEventView),
    STXEvent(STXEventType),
    NFTTransferEvent(AssetView),
    NFTMintEvent(AssetView),
    FTTransferEvent(AssetView),
    FTMintEvent(AssetView),
}

impl View for StacksTransactionEvent {
    type V = EventView;

    open spec fn view(&self) -> EventView {
        match self {
            StacksTransactionEvent::SmartContractEvent(data) => EventView::SmartContractEvent(
                data.key@,
            ),
            StacksTransactionEvent::STXEvent(kind) => EventView::STXEvent(*kind),
            StacksTransactionEvent::NFTEvent(NFTEventType::NFTTransferEvent(data)) => {
                EventView::NFTTransferEvent(data.asset_identifier@)
            },
            StacksTransactionEvent::NFTEvent(NFTEventType::NFTMintEvent(data)) => {
                EventView::NFTMintEvent(data.asset_identifier@)
            },
            StacksTransactionEvent::FTEvent(FTEventType::FTTransferEvent(data)) => {
                EventView::FTTransferEvent(data.asset_identifier@)
            },
            StacksTransactionEvent::FTEvent(FTEventType::FTMintEvent(data)) => {
                EventView::FTMintEvent(data.asset_identifier@)
            },
        }
    }
}

impl Clone for AssetEventData {
    fn clone(&self) -> (copy: Self)
        ensures
            copy.asset_identifier@ == self.asset_identifier@,
    {
        AssetEventData { asset_identifier: self.asset_identifier.clone() }
    }
}

impl Clone for StacksTransactionEvent {
    fn clone(&self) -> (copy: Self)
        ensures
            copy@ == self@,
    {
        match self {
            StacksTransactionEvent::SmartContractEvent(data) => {
                StacksTransactionEvent::SmartContractEvent(
                    SmartContractEventData { key: data.key.clone() },
                )
            },
            StacksTransactionEvent::STXEvent(kind) => StacksTransactionEvent::STXEvent(*kind),
            StacksTransactionEvent::NFTEvent(NFTEventType::NFTTransferEvent(data)) => {
                StacksTransactionEvent::NFTEvent(NFTEventType::NFTTransferEvent(data.clone()))
            },
            StacksTransactionEvent::NFTEvent(NFTEventType::NFTMintEvent(data)) => {
                StacksTransactionEvent::NFTEvent(NFTEventType::NFTMintEvent(data.clone()))
            },
            StacksTransactionEvent::FTEvent(FTEventType::FTTransferEvent(data)) => {
                StacksTransactionEvent::FTEvent(FTEventType::FTTransferEvent(data.clone()))
            },
            StacksTransactionEvent::FTEvent(FTEventType::FTMintEvent(data)) => {
                StacksTransactionEvent::FTEvent(FTEventType::FTMintEvent(data.clone()))
            },
        }
    }
}

/// A transaction: its id, and its serialized bytes.
#[derive(Debug)]
pub struct StacksTransaction {
    pub txid: Txid,
    pub raw: Vec<u8>,
}

/// A response that a transaction ended in: whether it was committed, and the
/// serialized bytes of what it carries.
#[derive(Debug)]
pub struct ResponseData {
    pub committed: bool,
    pub data: Vec<u8>,
}

/// The value that a transaction resulted in.
#[derive(Debug)]
pub enum TransactionResult {
    Response(ResponseData),
    Other,
}

/// What became of a transaction. `contract_analysis` is the interface of the
/// contract that the transaction published, as JSON, if it published one.
#[derive(Debug)]
pub struct StacksTransactionReceipt {
    pub transaction: StacksTransaction,
    pub events: Vec<StacksTransactionEvent>,
    pub post_condition_aborted: bool,
    pub result: TransactionResult,
    pub contract_analysis: Option<Value>,
}

/// What a receipt says. `response` is whether the response was committed, and
/// the bytes it carries, or `None` if the result is no response.
#[verifier::ext_equal]
pub struct ReceiptView {
    pub txid: Seq<char>,
    pub raw_tx: Seq<u8>,
    pub events: Seq<EventView>,
    pub post_condition_aborted: bool,
    pub response: Option<(bool, Seq<u8>)>,
    pub contract_abi: Option<Json>,
}

/// What the events of a sequence say, in order.
pub open spec fn event_views(events: Seq<StacksTransactionEvent>) -> Seq<EventView> {
    Seq::new(events.len(), |i: int| events[i]@)
}

/// What the receipts of a sequence say, in order.
pub open spec fn receipt_views(receipts: Seq<StacksTransactionReceipt>) -> Seq<ReceiptView> {
    Seq::new(receipts.len(), |i: int| receipts[i]@)
}

impl View for StacksTransactionReceipt {
    type V = ReceiptView;

    open spec fn view(&self) -> ReceiptView {
        ReceiptView {
            txid: self.transaction.txid@,
            raw_tx: self.transaction.raw@,
            events: event_views(self.events@),
            post_condition_aborted: self.post_condition_aborted,
            response: match self.result {
                TransactionResult::Response(response) => Some(
                    (response.committed, response.data@),
                ),
                TransactionResult::Other => None,
            },
            contract_abi: match self.contract_analysis {
                Some(interface) => Some(json_of(interface)),
                None => None,
            },
        }
    }
}

impl Clone for StacksTransactionReceipt {
    fn clone(&self) -> (copy: Self)
        ensures
            copy@ == self@,
    {
        let copy = StacksTransactionReceipt {
            transaction: StacksTransaction {
                txid: self.transaction.txid.clone(),
                raw: self.transaction.raw.clone(),
            },
            events: self.events.clone(),
            post_condition_aborted: self.post_condition_aborted,
            result: match &self.result {
                TransactionResult::Response(response) => TransactionResult::Response(
                    ResponseData { committed: response.committed, data: response.data.clone() },
                ),
                TransactionResult::Other => TransactionResult::Other,
            },
            contract_analysis: match &self.contract_analysis {
                Some(interface) => Some(interface.clone()),
                None => None,
            },
        };
        copy
    }
}

/// The parts of a block's header that observers are told.
#[derive(Debug)]
pub struct StacksBlockHeader {
    pub parent_block: BlockHeaderHash,
    pub parent_microblock: BlockHeaderHash,
}

/// A block: its header, and the hash of it.
#[derive(Debug)]
pub struct StacksBlock {
    pub header: StacksBlockHeader,
    pub block_hash: BlockHeaderHash,
}

/// Where a block stands in its chain and in the burn chain.
#[derive(Debug)]
pub struct StacksHeaderInfo {
    pub block_height: u64,
    pub index_block_hash: StacksBlockId,
    pub burn_header_hash: BurnchainHeaderHash,
    pub burn_header_height: u32,
    pub burn_header_timestamp: u64,
}

/// A processed block with the receipts of its transactions.
#[derive(Debug)]
pub struct ChainTip {
    pub metadata: StacksHeaderInfo,
    pub block: StacksBlock,
    pub receipts: Vec<StacksTransactionReceipt>,
}

/// An attachment, in the JSON form in which observers are sent it.
#[derive(Debug)]
pub struct AttachmentInstance {
    pub json: Value,
}

} // verus!
