//! What callers can rely on: what comes out of each call, in terms of what went
//! into it.

use crate::delivery::{parsed_url, AttemptOutcome, NextStep, PostRequest, SendError};
use crate::hex::{bytes_to_hex, hex_digit, hex_text, with_prefix};
use crate::json::{json_of, json_seq, json_text, Json};
use crate::laws::{block_payload_has_all_members, transaction_payload_has_all_members};
use crate::observer::{
    announceable, announced_receipts, block_json, boot_views, is_announceable, mempool_json,
    observer_url, transaction_json, transactions_json, EventObserver,
};
use crate::types::{
    receipt_views, AttachmentInstance, ChainTip, ReceiptView, StacksBlockId, StacksTransaction,
    StacksTransactionReceipt, TransactionResult, Txid,
};
use http_types::Url;
use serde_json::Value;
use vstd::prelude::*;

verus! {

/// Whether the characters of `text` from position `start` on are two lower-case
/// hexadecimal digits for each byte, the higher digit first.
pub open spec fn digits_from(text: Seq<char>, start: int, bytes: Seq<u8>) -> bool {
    &&& text.len() == start + 2 * bytes.len()
    &&& forall|i: int|
        0 <= i < bytes.len() ==> text[start + 2 * i] == "0123456789abcdef"@[(#[trigger] bytes[i])
            as int / 16] && text[start + 2 * i + 1] == "0123456789abcdef"@[bytes[i] as int % 16]
}

/// Whether a JSON value is the text of `0x` and the hexadecimal digits of some
/// bytes.
pub open spec fn shows_bytes(json: Json, bytes: Seq<u8>) -> bool {
    json matches Json::Text(text) && digits_from(text, 2, bytes) && text[0] == '0' && text[1]
        == 'x'
}

proof fn lemma_hex_digit(n: int)
    requires
        0 <= n < 16,
    ensures
        hex_digit(n) == "0123456789abcdef"@[n],
{
    reveal_strlit("0123456789abcdef");
}

proof fn lemma_hex_text(bytes: Seq<u8>)
    ensures
        digits_from(hex_text(bytes), 0, bytes),
        digits_from("0x"@ + hex_text(bytes), 2, bytes),
        ("0x"@ + hex_text(bytes))[0] == '0',
        ("0x"@ + hex_text(bytes))[1] == 'x',
{
    reveal_strlit("0x");
    let text = hex_text(bytes);
    assert forall|i: int| 0 <= i < bytes.len() implies text[2 * i]
        == "0123456789abcdef"@[(#[trigger] bytes[i]) as int / 16] && text[2 * i + 1]
        == "0123456789abcdef"@[bytes[i] as int % 16] by {
        lemma_hex_digit(bytes[i] as int / 16);
        lemma_hex_digit(bytes[i] as int % 16);
    }
}

/// Every byte is written as two hexadecimal digits, in the order of the bytes.
pub proof fn hex_shows_every_byte(bytes: Vec<u8>, text: String)
    requires
        call_ensures(bytes_to_hex, (&bytes,), text),
    ensures
        digits_from(text@, 0, bytes@),
{
    lemma_hex_text(bytes@);
}

/// A prefix is put before a text, and the text is kept.
pub proof fn prefix_keeps_the_text(text: &str, result: String)
    requires
        call_ensures(with_prefix, (text,), result),
    ensures
        result@.len() == text@.len() + 2,
        result@[0] == '0',
        result@[1] == 'x',
        result@.skip(2) == text@,
{
    reveal_strlit("0x");
}

/// Whether `outcome` is what comes of posting `json` to the URL `url` at
/// `endpoint`: a request with the JSON text as its body, or, where there is no
/// such text or no such URL, the reason.
pub open spec fn posted(
    outcome: Result<PostRequest, SendError>,
    endpoint: Seq<char>,
    url: Seq<char>,
    json: Json,
) -> bool {
    match (json_text(json), parsed_url(url)) {
        (None, _) => outcome matches Err(SendError::Serialization),
        (Some(_), None) => outcome matches Err(SendError::InvalidUrl(text)) && text@ == url,
        (Some(body), Some(target)) => {
            &&& outcome matches Ok(post)
            &&& post.endpoint@ == endpoint
            &&& post.url == target
            &&& post.header_name@ == "Content-Type"@
            &&& post.header_value@ == "application/json"@
            &&& post.body@ == body
        },
    }
}

/// The URL of a path is `http://`, the endpoint and the path, with a slash
/// before the path if it has none.
pub proof fn urls_name_endpoint_and_path(observer: EventObserver, path: &str, url: String)
    requires
        call_ensures(EventObserver::url_for, (&observer, path), url),
    ensures
        path@.len() > 0 && path@[0] == '/' ==> url@ == "http://"@ + observer.endpoint@ + path@,
        path@.len() == 0 || path@[0] != '/' ==> url@ == "http://"@ + observer.endpoint@ + "/"@
            + path@,
{
}

/// A payload is posted to the path at the endpoint.
pub proof fn payloads_are_posted(
    observer: EventObserver,
    payload: Value,
    path: &str,
    outcome: Result<PostRequest, SendError>,
)
    requires
        call_ensures(EventObserver::send_payload, (&observer, &payload, path), outcome),
    ensures
        posted(
            outcome,
            observer.endpoint@,
            "http://"@ + observer.endpoint@ + (if path@.len() > 0 && path@[0] == '/' {
                ""@
            } else {
                "/"@
            }) + path@,
            json_of(payload),
        ),
{
    reveal_strlit("");
}

/// A request is put together from its parts, and the parts that are missing
/// are reported, the body first.
pub proof fn requests_are_put_together(
    endpoint: &str,
    body: Option<Vec<u8>>,
    requested_url: String,
    url: Option<Url>,
    request: Result<PostRequest, SendError>,
)
    requires
        call_ensures(PostRequest::assemble, (endpoint, body, requested_url, url), request),
    ensures
        body is None ==> request matches Err(SendError::Serialization),
        body is Some && url is None ==> (request matches Err(SendError::InvalidUrl(text)) && text@
            == requested_url@),
        body is Some && url is Some ==> {
            &&& request matches Ok(post)
            &&& post.endpoint@ == endpoint@
            &&& post.url == url->0
            &&& post.header_name@ == "Content-Type"@
            &&& post.header_value@ == "application/json"@
            &&& post.body@ == body->0@
        },
{
}

/// A delivery ends exactly if the observer answered with a status code from
/// 200 to 299. Otherwise the request is posted again, a second later.
pub proof fn deliveries_end_with_success(outcome: AttemptOutcome, step: NextStep)
    requires
        call_ensures(AttemptOutcome::next_step, (&outcome,), step),
    ensures
        (outcome matches AttemptOutcome::Response(status) && 200 <= status <= 299) ==> step
            == NextStep::Finish,
        !(outcome matches AttemptOutcome::Response(status) && 200 <= status <= 299) ==> step
            == NextStep::RetryAfter(1000),
{
}

/// Whether a JSON value is the list of some transactions, each as `0x` and the
/// hexadecimal digits of its bytes.
pub open spec fn lists_transactions(json: Json, transactions: Seq<StacksTransaction>) -> bool {
    &&& json matches Json::List(items)
    &&& items.len() == transactions.len()
    &&& forall|i: int|
        0 <= i < items.len() ==> shows_bytes(#[trigger] items[i], transactions[i].raw@)
}

pub(crate) proof fn lemma_mempool_json(transactions: Seq<StacksTransaction>)
    ensures
        lists_transactions(mempool_json(transactions), transactions),
{
    let items = mempool_json(transactions)->List_0;
    assert forall|i: int| 0 <= i < items.len() implies shows_bytes(
        #[trigger] items[i],
        transactions[i].raw@,
    ) by {
        lemma_hex_text(transactions[i].raw@);
    }
}

/// The payload for the mempool lists every transaction, in order.
pub proof fn mempool_payload_lists_every_transaction(
    transactions: Vec<StacksTransaction>,
    payload: Value,
)
    requires
        call_ensures(EventObserver::make_new_mempool_txs_payload, (transactions,), payload),
    ensures
        lists_transactions(json_of(payload), transactions@),
{
    lemma_mempool_json(transactions@);
}

/// Whether a JSON value tells of a transaction of a block, under the number
/// `n`: all of its receipt but the events, whatever the status.
pub open spec fn tells_of_transaction(
    json: Json,
    receipt: StacksTransactionReceipt,
    n: int,
) -> bool {
    &&& json matches Json::Object(m)
    &&& receipt.result matches TransactionResult::Response(response)
    &&& m.dom() == set![
        "txid"@,
        "tx_index"@,
        "status"@,
        "raw_result"@,
        "raw_tx"@,
        "contract_abi"@,
    ]
    &&& m["txid"@] == Json::Text("0x"@ + receipt.transaction.txid.text@)
    &&& m["tx_index"@] == Json::Integer(n)
    &&& m["status"@] == Json::Text(
        if receipt.post_condition_aborted {
            "abort_by_post_condition"@
        } else if response.committed {
            "success"@
        } else {
            "abort_by_response"@
        },
    )
    &&& shows_bytes(m["raw_result"@], response.data@)
    &&& shows_bytes(m["raw_tx"@], receipt.transaction.raw@)
    &&& m["contract_abi"@] == match receipt.contract_analysis {
        Some(interface) => json_of(interface),
        None => Json::Null,
    }
}

proof fn lemma_transaction_json(receipt: StacksTransactionReceipt, n: int)
    requires
        receipt.result is Response,
    ensures
        tells_of_transaction(transaction_json(receipt@, n), receipt, n),
{
    transaction_payload_has_all_members(receipt@, n);
    lemma_hex_text(receipt.transaction.raw@);
    lemma_hex_text(receipt.result->Response_0.data@);
}

/// The payload for a transaction of a block tells all of its receipt but the
/// events.
pub proof fn transaction_payload_tells_the_receipt(
    receipt: StacksTransactionReceipt,
    tx_index: u32,
    payload: Value,
)
    requires
        receipt.result is Response,
        call_ensures(EventObserver::make_new_block_txs_payload, (&receipt, tx_index), payload),
    ensures
        tells_of_transaction(json_of(payload), receipt, tx_index as int),
{
    lemma_transaction_json(receipt, tx_index as int);
}

/// What is made of an attachment is its JSON.
pub proof fn attachment_payload_is_the_attachment(attachment: AttachmentInstance, payload: Value)
    requires
        call_ensures(EventObserver::make_new_attachment_payload, (&attachment,), payload),
    ensures
        json_of(payload) == json_of(attachment.json),
{
}

/// Whether a JSON value is the list of what some values hold, in order.
pub open spec fn lists_values(json: Json, values: Seq<Value>) -> bool {
    &&& json matches Json::List(items)
    &&& items.len() == values.len()
    &&& forall|i: int| 0 <= i < items.len() ==> #[trigger] items[i] == json_of(values[i])
}

/// Whether a JSON value is the list of the transactions of a block, and of
/// those of the boot code behind them, numbered one after the other from 0.
pub open spec fn lists_receipts(
    json: Json,
    own: Seq<StacksTransactionReceipt>,
    boot: Seq<StacksTransactionReceipt>,
) -> bool {
    &&& json matches Json::List(items)
    &&& items.len() == own.len() + boot.len()
    &&& forall|k: int|
        0 <= k < own.len() ==> tells_of_transaction(#[trigger] items[k], own[k], k)
    &&& forall|k: int|
        own.len() <= k < items.len() ==> tells_of_transaction(
            #[trigger] items[k],
            boot[k - own.len()],
            k,
        )
}

/// Whether a JSON value tells of a block: where it stands in its chain and in
/// the burn chain, the serialized events, and the transactions with those of
/// the boot code behind them.
pub open spec fn tells_of_block(
    json: Json,
    events: Seq<Value>,
    chain_tip: ChainTip,
    parent_index_hash: StacksBlockId,
    boot: Seq<StacksTransactionReceipt>,
    winner_txid: Txid,
) -> bool {
    let metadata = chain_tip.metadata;
    let block = chain_tip.block;
    &&& json matches Json::Object(m)
    &&& m.dom() == set![
        "block_hash"@,
        "block_height"@,
        "burn_block_hash"@,
        "burn_block_height"@,
        "miner_txid"@,
        "burn_block_time"@,
        "index_block_hash"@,
        "parent_block_hash"@,
        "parent_index_block_hash"@,
        "parent_microblock"@,
        "events"@,
        "transactions"@,
    ]
    &&& m["block_hash"@] == Json::Text("0x"@ + block.block_hash.text@)
    &&& m["block_height"@] == Json::Integer(metadata.block_height as int)
    &&& m["burn_block_hash"@] == Json::Text("0x"@ + metadata.burn_header_hash.text@)
    &&& m["burn_block_height"@] == Json::Integer(metadata.burn_header_height as int)
    &&& m["miner_txid"@] == Json::Text("0x"@ + winner_txid.text@)
    &&& m["burn_block_time"@] == Json::Integer(metadata.burn_header_timestamp as int)
    &&& m["index_block_hash"@] == Json::Text("0x"@ + metadata.index_block_hash.text@)
    &&& m["parent_block_hash"@] == Json::Text("0x"@ + block.header.parent_block.text@)
    &&& m["parent_index_block_hash"@] == Json::Text("0x"@ + parent_index_hash.text@)
    &&& m["parent_microblock"@] == Json::Text("0x"@ + block.header.parent_microblock.text@)
    &&& lists_values(m["events"@], events)
    &&& lists_receipts(m["transactions"@], chain_tip.receipts@, boot)
}

/// The boot receipts, or none if they are not given.
pub open spec fn given(boot_receipts: Option<&Vec<StacksTransactionReceipt>>) -> Seq<
    StacksTransactionReceipt,
> {
    match boot_receipts {
        Some(boot) => boot@,
        None => Seq::empty(),
    }
}

/// Whether all transactions ended in a response.
pub open spec fn all_responded(receipts: Seq<StacksTransactionReceipt>) -> bool {
    forall|i: int| 0 <= i < receipts.len() ==> (#[trigger] receipts[i]).result is Response
}

proof fn lemma_lists_receipts(
    own: Seq<StacksTransactionReceipt>,
    boot: Seq<StacksTransactionReceipt>,
    announced: Option<Seq<ReceiptView>>,
)
    requires
        all_responded(own),
        all_responded(boot),
        announced matches Some(views) ==> views == receipt_views(boot),
        announced is None ==> boot.len() == 0,
    ensures
        lists_receipts(
            Json::List(transactions_json(announced_receipts(receipt_views(own), announced))),
            own,
            boot,
        ),
{
    let items = transactions_json(announced_receipts(receipt_views(own), announced));
    assert forall|k: int| 0 <= k < own.len() implies tells_of_transaction(
        #[trigger] items[k],
        own[k],
        k,
    ) by {
        lemma_transaction_json(own[k], k);
    }
    assert forall|k: int| own.len() <= k < items.len() implies tells_of_transaction(
        #[trigger] items[k],
        boot[k - own.len()],
        k,
    ) by {
        lemma_transaction_json(boot[k - own.len()], k);
    }
}

pub(crate) proof fn lemma_tells_of_block(
    events: Seq<Value>,
    chain_tip: ChainTip,
    parent_index_hash: StacksBlockId,
    boot: Seq<StacksTransactionReceipt>,
    announced: Option<Seq<ReceiptView>>,
    winner_txid: Txid,
)
    requires
        all_responded(chain_tip.receipts@),
        all_responded(boot),
        announced matches Some(views) ==> views == receipt_views(boot),
        announced is None ==> boot.len() == 0,
    ensures
        tells_of_block(
            block_json(
                json_seq(events),
                chain_tip,
                parent_index_hash.text@,
                announced,
                winner_txid@,
            ),
            events,
            chain_tip,
            parent_index_hash,
            boot,
            winner_txid,
        ),
{
    lemma_lists_receipts(chain_tip.receipts@, boot, announced);
    block_payload_has_all_members(
        json_seq(events),
        chain_tip,
        parent_index_hash.text@,
        announced,
        winner_txid@,
    );
}

/// The payload for a block tells all of the block, and lists every transaction
/// and every event.
pub proof fn block_payload_tells_the_block(
    serialized_events: Vec<Value>,
    chain_tip: ChainTip,
    parent_index_hash: StacksBlockId,
    boot_receipts: Option<&Vec<StacksTransactionReceipt>>,
    winner_txid: Txid,
    payload: Value,
)
    requires
        all_responded(chain_tip.receipts@),
        all_responded(given(boot_receipts)),
        call_ensures(
            EventObserver::make_new_block_payload,
            (serialized_events, &chain_tip, &parent_index_hash, boot_receipts, &winner_txid),
            payload,
        ),
    ensures
        tells_of_block(
            json_of(payload),
            serialized_events@,
            chain_tip,
            parent_index_hash,
            given(boot_receipts),
            winner_txid,
        ),
{
    lemma_tells_of_block(
        serialized_events@,
        chain_tip,
        parent_index_hash,
        given(boot_receipts),
        boot_views(boot_receipts),
        winner_txid,
    );
}

/// Whether `outcome` is what comes of sending a block to an endpoint.
pub open spec fn block_posted(
    outcome: Result<PostRequest, SendError>,
    endpoint: Seq<char>,
    events: Seq<Value>,
    chain_tip: ChainTip,
    parent_index_hash: StacksBlockId,
    boot: Seq<StacksTransactionReceipt>,
    winner_txid: Txid,
) -> bool {
    exists|json: Json|
        {
            &&& #[trigger] tells_of_block(
                json,
                events,
                chain_tip,
                parent_index_hash,
                boot,
                winner_txid,
            )
            &&& posted(outcome, endpoint, "http://"@ + endpoint + "/new_block"@, json)
        }
}

pub(crate) proof fn lemma_paths(endpoint: Seq<char>)
    ensures
        observer_url(endpoint, "new_block"@) == "http://"@ + endpoint + "/new_block"@,
        observer_url(endpoint, "new_mempool_tx"@) == "http://"@ + endpoint + "/new_mempool_tx"@,
        observer_url(endpoint, "attachments/new"@) == "http://"@ + endpoint + "/attachments/new"@,
{
    reveal_strlit("/");
    reveal_strlit("new_block");
    reveal_strlit("/new_block");
    reveal_strlit("new_mempool_tx");
    reveal_strlit("/new_mempool_tx");
    reveal_strlit("attachments/new");
    reveal_strlit("/attachments/new");
}

/// A block is posted to the path for blocks, and all of it is told.
pub proof fn blocks_are_posted(
    observer: EventObserver,
    serialized_events: Vec<Value>,
    chain_tip: ChainTip,
    parent_index_hash: StacksBlockId,
    boot_receipts: Option<&Vec<StacksTransactionReceipt>>,
    winner_txid: Txid,
    outcome: Result<PostRequest, SendError>,
)
    requires
        all_responded(chain_tip.receipts@),
        all_responded(given(boot_receipts)),
        call_ensures(
            EventObserver::send,
            (
                &observer,
                serialized_events,
                &chain_tip,
                &parent_index_hash,
                boot_receipts,
                &winner_txid,
            ),
            outcome,
        ),
    ensures
        block_posted(
            outcome,
            observer.endpoint@,
            serialized_events@,
            chain_tip,
            parent_index_hash,
            given(boot_receipts),
            winner_txid,
        ),
{
    lemma_tells_of_block(
        serialized_events@,
        chain_tip,
        parent_index_hash,
        given(boot_receipts),
        boot_views(boot_receipts),
        winner_txid,
    );
    lemma_paths(observer.endpoint@);
}

/// Mempool transactions and attachments are posted to their paths.
pub proof fn lists_are_posted_to_their_paths(
    observer: EventObserver,
    payload: Value,
    mempool: Result<PostRequest, SendError>,
    attachments: Result<PostRequest, SendError>,
)
    requires
        call_ensures(EventObserver::send_new_mempool_txs, (&observer, &payload), mempool),
        call_ensures(EventObserver::send_new_attachments, (&observer, &payload), attachments),
    ensures
        posted(
            mempool,
            observer.endpoint@,
            "http://"@ + observer.endpoint@ + "/new_mempool_tx"@,
            json_of(payload),
        ),
        posted(
            attachments,
            observer.endpoint@,
            "http://"@ + observer.endpoint@ + "/attachments/new"@,
            json_of(payload),
        ),
{
    lemma_paths(observer.endpoint@);
}

/// Whether receipts can be announced together: all transactions ended in a
/// response, and they can be numbered with 32 bits.
pub open spec fn can_be_numbered(
    own: Seq<StacksTransactionReceipt>,
    boot: Seq<StacksTransactionReceipt>,
) -> bool {
    all_responded(own) && all_responded(boot) && own.len() + boot.len() <= 0xffff_ffff
}

pub(crate) proof fn lemma_announceable(
    own: Seq<StacksTransactionReceipt>,
    boot: Seq<StacksTransactionReceipt>,
    announced: Option<Seq<ReceiptView>>,
)
    requires
        announced matches Some(views) ==> views == receipt_views(boot),
        announced is None ==> boot.len() == 0,
    ensures
        announceable(announced_receipts(receipt_views(own), announced)) == can_be_numbered(
            own,
            boot,
        ),
{
    let all = announced_receipts(receipt_views(own), announced);
    if announceable(all) {
        assert forall|i: int| 0 <= i < own.len() implies (#[trigger] own[i]).result is Response by {
            assert(all[i].response is Some);
        }
        assert forall|i: int| 0 <= i < boot.len() implies (
        #[trigger] boot[i]).result is Response by {
            assert(all[own.len() + i].response is Some);
        }
    }
}

/// Receipts can be announced exactly if all transactions ended in a response
/// and can be numbered with 32 bits.
pub proof fn announceable_receipts_have_responses(
    receipts: Vec<StacksTransactionReceipt>,
    boot_receipts: Option<&Vec<StacksTransactionReceipt>>,
    result: bool,
)
    requires
        call_ensures(is_announceable, (&receipts, boot_receipts), result),
    ensures
        result == can_be_numbered(receipts@, given(boot_receipts)),
{
    lemma_announceable(receipts@, given(boot_receipts), boot_views(boot_receipts));
}

/// All bytes can be written, all texts prefixed, all requests put together, all
/// outcomes followed, and all receipts tried.
pub proof fn small_calls_take_everything(
    bytes: Vec<u8>,
    text: &str,
    body: Option<Vec<u8>>,
    requested_url: String,
    url: Option<Url>,
    outcome: AttemptOutcome,
    receipts: Vec<StacksTransactionReceipt>,
    boot_receipts: Option<&Vec<StacksTransactionReceipt>>,
)
    ensures
        call_requires(bytes_to_hex, (&bytes,)),
        call_requires(with_prefix, (text,)),
        call_requires(PostRequest::assemble, (text, body, requested_url, url)),
        call_requires(AttemptOutcome::next_step, (&outcome,)),
        call_requires(is_announceable, (&receipts, boot_receipts)),
{
}

/// A payload can be made and sent of every value, and of every block that can
/// be announced.
pub proof fn payloads_can_be_made(
    observer: EventObserver,
    payload: Value,
    path: &str,
    transactions: Vec<StacksTransaction>,
    attachment: AttachmentInstance,
    receipt: StacksTransactionReceipt,
    tx_index: u32,
    serialized_events: Vec<Value>,
    chain_tip: ChainTip,
    parent_index_hash: StacksBlockId,
    boot_receipts: Option<&Vec<StacksTransactionReceipt>>,
    winner_txid: Txid,
)
    ensures
        call_requires(EventObserver::url_for, (&observer, path)),
        call_requires(EventObserver::send_payload, (&observer, &payload, path)),
        call_requires(EventObserver::send_new_mempool_txs, (&observer, &payload)),
        call_requires(EventObserver::send_new_attachments, (&observer, &payload)),
        call_requires(EventObserver::make_new_mempool_txs_payload, (transactions,)),
        call_requires(EventObserver::make_new_attachment_payload, (&attachment,)),
        receipt.result is Response ==> call_requires(
            EventObserver::make_new_block_txs_payload,
            (&receipt, tx_index),
        ),
        can_be_numbered(chain_tip.receipts@, given(boot_receipts)) ==> call_requires(
            EventObserver::make_new_block_payload,
            (serialized_events, &chain_tip, &parent_index_hash, boot_receipts, &winner_txid),
        ) && call_requires(
            EventObserver::send,
            (
                &observer,
                serialized_events,
                &chain_tip,
                &parent_index_hash,
                boot_receipts,
                &winner_txid,
            ),
        ),
{
    lemma_announceable(chain_tip.receipts@, given(boot_receipts), boot_views(boot_receipts));
}

} // verus!
