//! Event observers, and the payloads that they are sent.

use crate::delivery::{parse_url, parsed_url, PostRequest, SendError};
use crate::hex::{bytes_to_hex, hex_text, prefixed, with_prefix};
use crate::json::{
    json_array, json_integer, json_null, json_object, json_of, json_seq, json_string, json_text,
    json_to_vec, members_insert, members_new, members_of, no_members, Json,
};
use crate::types::{
    receipt_views, AttachmentInstance, ChainTip, ReceiptView, StacksBlockId, StacksTransaction,
    StacksTransactionReceipt, TransactionResult, Txid,
};
use serde_json::Value;
use vstd::prelude::*;

verus! {

pub const STATUS_RESP_TRUE: &'static str = "success";

pub const STATUS_RESP_NOT_COMMITTED: &'static str = "abort_by_response";

pub const STATUS_RESP_POST_CONDITION: &'static str = "abort_by_post_condition";

/// Where observers are sent transactions that entered the mempool.
pub const PATH_MEMPOOL_TX_SUBMIT: &'static str = "new_mempool_tx";

/// Where observers are sent processed blocks.
pub const PATH_BLOCK_PROCESSED: &'static str = "new_block";

/// Where observers are sent attachments.
pub const PATH_ATTACHMENT_PROCESSED: &'static str = "attachments/new";

/// An observer, known by the address that it listens at.
#[derive(Debug)]
pub struct EventObserver {
    pub endpoint: String,
}

impl Clone for EventObserver {
    fn clone(&self) -> (copy: Self)
        ensures
            copy.endpoint@ == self.endpoint@,
    {
        EventObserver { endpoint: self.endpoint.clone() }
    }
}

/// The URL of a path at an endpoint. There is one slash at least between the
/// two.
pub open spec fn observer_url(endpoint: Seq<char>, path: Seq<char>) -> Seq<char> {
    if path.len() > 0 && path[0] == '/' {
        "http://"@ + endpoint + path
    } else {
        "http://"@ + endpoint + "/"@ + path
    }
}

/// Whether `outcome` is what comes of sending `payload` to `path` at
/// `endpoint`: a request that posts the payload's JSON text, or the reason why
/// there is none.
pub open spec fn sends(
    outcome: Result<PostRequest, SendError>,
    endpoint: Seq<char>,
    path: Seq<char>,
    payload: Json,
) -> bool {
    let body = json_text(payload);
    let url = parsed_url(observer_url(endpoint, path));
    match outcome {
        Ok(post) => body is Some && url is Some && post.posts(endpoint, url->0, body->0),
        Err(SendError::Serialization) => body is None,
        Err(SendError::InvalidUrl(text)) => body is Some && url is None && text@ == observer_url(
            endpoint,
            path,
        ),
    }
}

/// A transaction as observers see it: `0x` and the hexadecimal digits of its
/// bytes.
pub open spec fn raw_json(bytes: Seq<u8>) -> Json {
    Json::Text(prefixed(hex_text(bytes)))
}

/// The payload for transactions that entered the mempool: the list of them.
pub open spec fn mempool_json(transactions: Seq<StacksTransaction>) -> Json {
    Json::List(Seq::new(transactions.len(), |i: int| raw_json(transactions[i].raw@)))
}

/// The payload for attachments: the list of them.
pub open spec fn attachments_json(attachments: Seq<AttachmentInstance>) -> Json {
    Json::List(Seq::new(attachments.len(), |i: int| json_of(attachments[i].json)))
}

/// What an observer is told of how a transaction ended.
pub open spec fn status_text(post_condition_aborted: bool, committed: bool) -> Seq<char> {
    if post_condition_aborted {
        STATUS_RESP_POST_CONDITION@
    } else if committed {
        STATUS_RESP_TRUE@
    } else {
        STATUS_RESP_NOT_COMMITTED@
    }
}

/// The members of what an observer is told of a transaction of a block that
/// ended in a response.
pub open spec fn transaction_members(receipt: ReceiptView, tx_index: int) -> Map<Seq<char>, Json> {
    let (committed, data) = receipt.response->0;
    no_members().insert("txid"@, Json::Text(prefixed(receipt.txid))).insert(
        "tx_index"@,
        Json::Integer(tx_index),
    ).insert(
        "status"@,
        Json::Text(status_text(receipt.post_condition_aborted, committed)),
    ).insert("raw_result"@, raw_json(data)).insert("raw_tx"@, raw_json(receipt.raw_tx)).insert(
        "contract_abi"@,
        match receipt.contract_abi {
            Some(interface) => interface,
            None => Json::Null,
        },
    )
}

/// What an observer is told of a transaction of a block.
pub open spec fn transaction_json(receipt: ReceiptView, tx_index: int) -> Json {
    Json::Object(transaction_members(receipt, tx_index))
}

/// What an observer is told of the transactions of a block, numbered from 0.
pub open spec fn transactions_json(receipts: Seq<ReceiptView>) -> Seq<Json> {
    Seq::new(receipts.len(), |i: int| transaction_json(receipts[i], i))
}

/// The transactions that are announced with a block: its own, then those of
/// the boot code, if they are given.
pub open spec fn announced_receipts(
    receipts: Seq<ReceiptView>,
    boot_receipts: Option<Seq<ReceiptView>>,
) -> Seq<ReceiptView> {
    match boot_receipts {
        Some(boot) => receipts + boot,
        None => receipts,
    }
}

/// What the boot receipts say, if they are given.
pub open spec fn boot_views(boot_receipts: Option<&Vec<StacksTransactionReceipt>>) -> Option<
    Seq<ReceiptView>,
> {
    match boot_receipts {
        Some(boot) => Some(receipt_views(boot@)),
        None => None,
    }
}

/// Whether a block can be announced: all transactions ended in a response, and
/// they can be numbered with 32 bits.
pub open spec fn announceable(receipts: Seq<ReceiptView>) -> bool {
    &&& receipts.len() <= u32::MAX
    &&& forall|i: int| 0 <= i < receipts.len() ==> (#[trigger] receipts[i]).response is Some
}

/// Whether all transactions ended in a response.
fn all_responses(receipts: &Vec<StacksTransactionReceipt>) -> (result: bool)
    ensures
        result == forall|i: int|
            0 <= i < receipts@.len() ==> (#[trigger] receipt_views(receipts@)[i]).response is Some,
{
    for i in 0..receipts.len()
        invariant
            forall|k: int|
                0 <= k < i ==> (#[trigger] receipt_views(receipts@)[k]).response is Some,
    {
        if let TransactionResult::Other = receipts[i].result {
            assert(receipt_views(receipts@)[i as int].response is None);
            return false;
        }
    }
    true
}

/// Whether a block with these receipts can be announced, with the receipts of
/// the boot code if they are given.
pub fn is_announceable(
    receipts: &Vec<StacksTransactionReceipt>,
    boot_receipts: Option<&Vec<StacksTransactionReceipt>>,
) -> (result: bool)
    ensures
        result == announceable(
            announced_receipts(receipt_views(receipts@), boot_views(boot_receipts)),
        ),
{
    let ghost own = receipt_views(receipts@);
    let limit: usize = u32::MAX as usize;
    match boot_receipts {
        Some(boot) => {
            let ghost all = own + receipt_views(boot@);
            assert forall|i: int| 0 <= i < own.len() implies #[trigger] own[i] == all[i] by {}
            assert forall|i: int| 0 <= i < boot@.len() implies #[trigger] receipt_views(boot@)[i]
                == all[own.len() + i] by {}
            boot.len() <= limit && receipts.len() <= limit - boot.len() && all_responses(receipts)
                && all_responses(boot)
        },
        None => receipts.len() <= limit && all_responses(receipts),
    }
}

/// The members of the payload for a processed block.
pub open spec fn block_members(
    events: Seq<Json>,
    chain_tip: ChainTip,
    parent_index_hash: Seq<char>,
    boot_receipts: Option<Seq<ReceiptView>>,
    winner_txid: Seq<char>,
) -> Map<Seq<char>, Json> {
    let metadata = chain_tip.metadata;
    let block = chain_tip.block;
    no_members().insert("block_hash"@, Json::Text(prefixed(block.block_hash.text@))).insert(
        "block_height"@,
        Json::Integer(metadata.block_height as int),
    ).insert("burn_block_hash"@, Json::Text(prefixed(metadata.burn_header_hash.text@))).insert(
        "burn_block_height"@,
        Json::Integer(metadata.burn_header_height as int),
    ).insert("miner_txid"@, Json::Text(prefixed(winner_txid))).insert(
        "burn_block_time"@,
        Json::Integer(metadata.burn_header_timestamp as int),
    ).insert("index_block_hash"@, Json::Text(prefixed(metadata.index_block_hash.text@))).insert(
        "parent_block_hash"@,
        Json::Text(prefixed(block.header.parent_block.text@)),
    ).insert("parent_index_block_hash"@, Json::Text(prefixed(parent_index_hash))).insert(
        "parent_microblock"@,
        Json::Text(prefixed(block.header.parent_microblock.text@)),
    ).insert("events"@, Json::List(events)).insert(
        "transactions"@,
        Json::List(
            transactions_json(
                announced_receipts(receipt_views(chain_tip.receipts@), boot_receipts),
            ),
        ),
    )
}

/// The payload for a processed block.
pub open spec fn block_json(
    events: Seq<Json>,
    chain_tip: ChainTip,
    parent_index_hash: Seq<char>,
    boot_receipts: Option<Seq<ReceiptView>>,
    winner_txid: Seq<char>,
) -> Json {
    Json::Object(
        block_members(events, chain_tip, parent_index_hash, boot_receipts, winner_txid),
    )
}

/// Makes the JSON string of `0x` and a text.
fn prefixed_string(text: &str) -> (value: Value)
    ensures
        json_of(value) == Json::Text(prefixed(text@)),
{
    json_string(with_prefix(text))
}

/// Makes the JSON string of `0x` and the hexadecimal digits of some bytes.
fn raw_string(bytes: &Vec<u8>) -> (value: Value)
    ensures
        json_of(value) == raw_json(bytes@),
{
    let digits = bytes_to_hex(bytes);
    prefixed_string(digits.as_str())
}

impl EventObserver {
    /// The URL of a path at this observer.
    pub fn url_for(&self, path: &str) -> (url: String)
        ensures
            url@ == observer_url(self.endpoint@, path@),
    {
        let mut url = String::new();
        url.append("http://");
        url.append(self.endpoint.as_str());
        if path.is_empty() || path.get_char(0) != '/' {
            url.append("/");
        }
        url.append(path);
        url
    }

    /// Makes the request that sends a payload to a path of this observer.
    pub fn send_payload(&self, payload: &Value, path: &str) -> (outcome: Result<
        PostRequest,
        SendError,
    >)
        ensures
            sends(outcome, self.endpoint@, path@, json_of(*payload)),
    {
        let body = match json_to_vec(payload) {
            Ok(body) => Some(body),
            Err(_) => None,
        };
        let requested_url = self.url_for(path);
        let url = match parse_url(requested_url.as_str()) {
            Ok(url) => Some(url),
            Err(_) => None,
        };
        PostRequest::assemble(self.endpoint.as_str(), body, requested_url, url)
    }

    /// Makes the payload for transactions that entered the mempool.
    pub fn make_new_mempool_txs_payload(transactions: Vec<StacksTransaction>) -> (payload: Value)
        ensures
            json_of(payload) == mempool_json(transactions@),
    {
        let mut raw_txs: Vec<Value> = Vec::new();
        for i in 0..transactions.len()
            invariant
                raw_txs@.len() == i,
                forall|k: int|
                    0 <= k < i ==> json_of(#[trigger] raw_txs@[k]) == raw_json(
                        transactions@[k].raw@,
                    ),
        {
            raw_txs.push(raw_string(&transactions[i].raw));
        }
        assert(json_seq(raw_txs@) =~= Seq::new(
            transactions@.len(),
            |i: int| raw_json(transactions@[i].raw@),
        ));
        json_array(raw_txs)
    }

    /// Makes what an observer is told of a transaction of a block. The
    /// transaction must have ended in a response.
    pub fn make_new_block_txs_payload(receipt: &StacksTransactionReceipt, tx_index: u32) -> (payload:
        Value)
        requires
            receipt@.response is Some,
        ensures
            json_of(payload) == transaction_json(receipt@, tx_index as int),
    {
        let tx = &receipt.transaction;
        let response_data = match &receipt.result {
            TransactionResult::Response(response_data) => response_data,
            TransactionResult::Other => vstd::pervasive::unreached(),
        };
        let success = if receipt.post_condition_aborted {
            STATUS_RESP_POST_CONDITION
        } else if response_data.committed {
            STATUS_RESP_TRUE
        } else {
            STATUS_RESP_NOT_COMMITTED
        };
        let contract_interface_json = match &receipt.contract_analysis {
            Some(interface) => interface.clone(),
            None => json_null(),
        };
        let mut members = members_new();
        members_insert(&mut members, "txid", prefixed_string(tx.txid.text.as_str()));
        members_insert(&mut members, "tx_index", json_integer(tx_index as u64));
        members_insert(&mut members, "status", json_string(success.to_string()));
        members_insert(&mut members, "raw_result", raw_string(&response_data.data));
        members_insert(&mut members, "raw_tx", raw_string(&tx.raw));
        members_insert(&mut members, "contract_abi", contract_interface_json);
        json_object(members)
    }

    /// Makes what an observer is told of an attachment.
    pub fn make_new_attachment_payload(attachment: &AttachmentInstance) -> (payload: Value)
        ensures
            json_of(payload) == json_of(attachment.json),
    {
        attachment.json.clone()
    }

    /// Makes the request that sends attachments to this observer.
    pub fn send_new_attachments(&self, payload: &Value) -> (outcome: Result<PostRequest, SendError>)
        ensures
            sends(outcome, self.endpoint@, PATH_ATTACHMENT_PROCESSED@, json_of(*payload)),
    {
        self.send_payload(payload, PATH_ATTACHMENT_PROCESSED)
    }

    /// Makes the request that sends mempool transactions to this observer.
    pub fn send_new_mempool_txs(&self, payload: &Value) -> (outcome: Result<PostRequest, SendError>)
        ensures
            sends(outcome, self.endpoint@, PATH_MEMPOOL_TX_SUBMIT@, json_of(*payload)),
    {
        self.send_payload(payload, PATH_MEMPOOL_TX_SUBMIT)
    }

    /// Makes the payload for a processed block, from its events as they were
    /// serialized.
    pub fn make_new_block_payload(
        serialized_events: Vec<Value>,
        chain_tip: &ChainTip,
        parent_index_hash: &StacksBlockId,
        boot_receipts: Option<&Vec<StacksTransactionReceipt>>,
        winner_txid: &Txid,
    ) -> (payload: Value)
        requires
            announceable(
                announced_receipts(receipt_views(chain_tip.receipts@), boot_views(boot_receipts)),
            ),
        ensures
            json_of(payload) == block_json(
                json_seq(serialized_events@),
                *chain_tip,
                parent_index_hash.text@,
                boot_views(boot_receipts),
                winner_txid@,
            ),
    {
        let ghost own = receipt_views(chain_tip.receipts@);
        let ghost announced = announced_receipts(own, boot_views(boot_receipts));
        let mut tx_index: u32 = 0;
        let mut serialized_txs: Vec<Value> = Vec::new();
        for r in 0..chain_tip.receipts.len()
            invariant
                announceable(announced),
                own == receipt_views(chain_tip.receipts@),
                own.len() <= announced.len(),
                forall|k: int| 0 <= k < own.len() ==> own[k] == announced[k],
                tx_index == r,
                serialized_txs@.len() == r,
                forall|k: int|
                    0 <= k < r ==> json_of(#[trigger] serialized_txs@[k]) == transaction_json(
                        announced[k],
                        k,
                    ),
        {
            let receipt = &chain_tip.receipts[r];
            assert(announced[r as int].response is Some);
            let payload = EventObserver::make_new_block_txs_payload(receipt, tx_index);
            serialized_txs.push(payload);
            tx_index = tx_index + 1;
        }
        if let Some(boot_receipts) = boot_receipts {
            let ghost boot = receipt_views(boot_receipts@);
            for r in 0..boot_receipts.len()
                invariant
                    announceable(announced),
                    announced == own + boot,
                    boot == receipt_views(boot_receipts@),
                    tx_index == own.len() + r,
                    serialized_txs@.len() == own.len() + r,
                    forall|k: int|
                        0 <= k < own.len() + r ==> json_of(#[trigger] serialized_txs@[k])
                            == transaction_json(announced[k], k),
            {
                let receipt = &boot_receipts[r];
                assert(announced[own.len() + r].response is Some);
                let payload = EventObserver::make_new_block_txs_payload(receipt, tx_index);
                serialized_txs.push(payload);
                tx_index = tx_index + 1;
            }
        }
        assert(json_seq(serialized_txs@) =~= transactions_json(announced));
        let metadata = &chain_tip.metadata;
        let block = &chain_tip.block;
        let mut members = members_new();
        members_insert(
            &mut members,
            "block_hash",
            prefixed_string(block.block_hash.text.as_str()),
        );
        members_insert(&mut members, "block_height", json_integer(metadata.block_height));
        members_insert(
            &mut members,
            "burn_block_hash",
            prefixed_string(metadata.burn_header_hash.text.as_str()),
        );
        members_insert(
            &mut members,
            "burn_block_height",
            json_integer(metadata.burn_header_height as u64),
        );
        members_insert(&mut members, "miner_txid", prefixed_string(winner_txid.text.as_str()));
        members_insert(
            &mut members,
            "burn_block_time",
            json_integer(metadata.burn_header_timestamp),
        );
        members_insert(
            &mut members,
            "index_block_hash",
            prefixed_string(metadata.index_block_hash.text.as_str()),
        );
        members_insert(
            &mut members,
            "parent_block_hash",
            prefixed_string(block.header.parent_block.text.as_str()),
        );
        members_insert(
            &mut members,
            "parent_index_block_hash",
            prefixed_string(parent_index_hash.text.as_str()),
        );
        members_insert(
            &mut members,
            "parent_microblock",
            prefixed_string(block.header.parent_microblock.text.as_str()),
        );
        members_insert(&mut members, "events", json_array(serialized_events));
        members_insert(&mut members, "transactions", json_array(serialized_txs));
        json_object(members)
    }

    /// Makes the request that announces a processed block to this observer.
    pub fn send(
        &self,
        serialized_events: Vec<Value>,
        chain_tip: &ChainTip,
        parent_index_hash: &StacksBlockId,
        boot_receipts: Option<&Vec<StacksTransactionReceipt>>,
        winner_txid: &Txid,
    ) -> (outcome: Result<PostRequest, SendError>)
        requires
            announceable(
                announced_receipts(receipt_views(chain_tip.receipts@), boot_views(boot_receipts)),
            ),
        ensures
            sends(
                outcome,
                self.endpoint@,
                PATH_BLOCK_PROCESSED@,
                block_json(
                    json_seq(serialized_events@),
                    *chain_tip,
                    parent_index_hash.text@,
                    boot_views(boot_receipts),
                    winner_txid@,
                ),
            ),
    {
        let payload = EventObserver::make_new_block_payload(
            serialized_events,
            chain_tip,
            parent_index_hash,
            boot_receipts,
            winner_txid,
        );
        self.send_payload(&payload, PATH_BLOCK_PROCESSED)
    }
}

} // verus!
