//! The `CommitteeCreated` event: its subscription filter, its log schema, and
//! the decoding that validates each raw entry and drops the ones that do not
//! match, without disturbing the rest of the stream.

use vstd::prelude::*;
use crate::abi::{u64_from_be, word_u64, lemma_be_round_trip, lemma_be_bytes_of_read};
use crate::error::ContractError;
use crate::hashing::{keccak256, keccak256_of};
use crate::types::Address;

verus! {

/// Which block a subscription starts from.
#[derive(Debug, Clone, Copy, PartialEq, Eq, Structural)]
pub enum BlockRef {
    /// A concrete block number.
    Number(u64),
    /// The head of the chain at subscription time.
    Latest,
}

/// A raw, undecoded log entry as the transport delivers it.
#[derive(Debug, Clone, PartialEq, Eq)]
pub struct RawLog {
    /// The contract that emitted the entry.
    pub address: Address,
    /// The indexed topics; the first one names the event.
    pub topics: Vec<Vec<u8>>,
    /// The ABI-encoded non-indexed fields.
    pub data: Vec<u8>,
    /// The block the emitting transaction landed in.
    pub block_number: u64,
}

/// A decoded `CommitteeCreated` event: the id of the committee the contract
/// just registered.
#[derive(Debug, Clone, Copy, PartialEq, Eq, Structural)]
pub struct CommitteeCreated {
    pub id: u64,
}

/// The ASCII bytes of the event signature `CommitteeCreated(uint64)`.
pub open spec fn committee_created_sig_bytes() -> Seq<u8> {
    seq![
        67u8, 111u8, 109u8, 109u8, 105u8, 116u8, 116u8, 101u8, 101u8, 67u8, 114u8, 101u8,
        97u8, 116u8, 101u8, 100u8, 40u8, 117u8, 105u8, 110u8, 116u8, 54u8, 52u8, 41u8,
    ]
}

/// The topic that identifies `CommitteeCreated` entries: the Keccak-256
/// digest of the event signature.
pub open spec fn committee_created_topic_bytes() -> Seq<u8> {
    keccak256_of(committee_created_sig_bytes())
}

fn committee_created_sig() -> (r: Vec<u8>)
    ensures
        r@ == committee_created_sig_bytes(),
{
    let mut v: Vec<u8> = Vec::new();
    v.push(67u8);
    v.push(111u8);
    v.push(109u8);
    v.push(109u8);
    v.push(105u8);
    v.push(116u8);
    v.push(116u8);
    v.push(101u8);
    v.push(101u8);
    v.push(67u8);
    v.push(114u8);
    v.push(101u8);
    v.push(97u8);
    v.push(116u8);
    v.push(101u8);
    v.push(100u8);
    v.push(40u8);
    v.push(117u8);
    v.push(105u8);
    v.push(110u8);
    v.push(116u8);
    v.push(54u8);
    v.push(52u8);
    v.push(41u8);
    proof {
        assert(v@ =~= committee_created_sig_bytes());
    }
    v
}

/// The 32-byte `CommitteeCreated` topic.
pub fn committee_created_topic() -> (r: Vec<u8>)
    ensures
        r@ == committee_created_topic_bytes(),
        r@.len() == 32,
{
    let sig = committee_created_sig();
    keccak256(sig.as_slice())
}

/// The filter an event subscription registers: one contract address, one
/// event topic, a starting block.
#[derive(Debug, Clone, PartialEq, Eq)]
pub struct EventFilter {
    pub address: Address,
    pub topic: Vec<u8>,
    pub from_block: BlockRef,
}

/// The filter that scopes a subscription to `CommitteeCreated` entries of
/// `contract`, starting at `from_block`.
pub fn committee_created_filter(contract: Address, from_block: BlockRef) -> (r: EventFilter)
    ensures
        r.address@ == contract@,
        r.topic@ == committee_created_topic_bytes(),
        r.from_block == from_block,
{
    EventFilter { address: contract, topic: committee_created_topic(), from_block }
}

/// The data of a `CommitteeCreated` entry is one ABI word: 24 zero bytes of
/// padding, then the id.
pub open spec fn valid_event_data(data: Seq<u8>) -> bool {
    &&& data.len() == 32
    &&& forall|i: int| 0 <= i < 24 ==> data[i] == 0u8
}

/// The id held in a valid data word.
pub open spec fn word_id(data: Seq<u8>) -> u64 {
    u64_from_be(data.subrange(24, 32))
}

/// The word of an id is valid data and reads back as the id.
pub proof fn lemma_word_id_of_word(v: u64)
    ensures
        valid_event_data(word_u64(v)),
        word_id(word_u64(v)) == v,
{
    assert(word_u64(v).subrange(24, 32) =~= crate::abi::be_bytes_u64(v));
    lemma_be_round_trip(v);
}

/// Valid data is the word of the id it holds.
pub proof fn lemma_word_of_valid_data(data: Seq<u8>)
    requires
        valid_event_data(data),
    ensures
        word_u64(word_id(data)) =~= data,
{
    lemma_be_bytes_of_read(data.subrange(24, 32));
}

/// A raw entry matches the `CommitteeCreated` schema: exactly the signature
/// topic, and one well-formed data word.
pub open spec fn is_committee_created(log: RawLog) -> bool {
    &&& log.topics@.len() == 1
    &&& log.topics@[0]@ == committee_created_topic_bytes()
    &&& valid_event_data(log.data@)
}

/// Whether two byte vectors hold the same bytes.
pub fn eq_bytes(a: &Vec<u8>, b: &Vec<u8>) -> (r: bool)
    ensures
        r <==> a@ == b@,
{
    if a.len() != b.len() {
        return false;
    }
    let mut i: usize = 0;
    while i < a.len()
        invariant
            i <= a.len(),
            a@.len() == b@.len(),
            forall|j: int| 0 <= j < i ==> a@[j] == b@[j],
        decreases a.len() - i,
    {
        if a[i] != b[i] {
            return false;
        }
        i += 1;
    }
    proof {
        assert(a@ =~= b@);
    }
    true
}

/// Decode one raw entry against the `CommitteeCreated` schema. Fails with
/// `DecodeValidationFailed` exactly when the entry does not match.
pub fn decode_committee_created(log: &RawLog) -> (r: Result<CommitteeCreated, ContractError>)
    ensures
        match r {
            Ok(ev) => is_committee_created(*log) && ev.id == word_id(log.data@),
            Err(e) => e == ContractError::DecodeValidationFailed && !is_committee_created(*log),
        },
{
    if log.topics.len() != 1 {
        return Err(ContractError::DecodeValidationFailed);
    }
    let topic = committee_created_topic();
    if !eq_bytes(&log.topics[0], &topic) {
        return Err(ContractError::DecodeValidationFailed);
    }
    match crate::abi::decode_word_u64(&log.data) {
        Some(id) => {
            proof {
                lemma_word_id_of_word(id);
            }
            Ok(CommitteeCreated { id })
        },
        None => {
            proof {
                if valid_event_data(log.data@) {
                    lemma_word_of_valid_data(log.data@);
                    assert(log.data@ == word_u64(word_id(log.data@)));
                }
            }
            Err(ContractError::DecodeValidationFailed)
        },
    }
}

/// The events decoded from a stream of raw entries, in delivery order:
/// entries that match the schema are decoded, the rest are dropped.
pub open spec fn decoded_events(logs: Seq<RawLog>) -> Seq<CommitteeCreated>
    decreases logs.len(),
{
    if logs.len() == 0 {
        Seq::empty()
    } else {
        let rest = decoded_events(logs.drop_last());
        if is_committee_created(logs.last()) {
            rest.push(CommitteeCreated { id: word_id(logs.last().data@) })
        } else {
            rest
        }
    }
}

/// Decode a delivered batch of raw entries: schema failures are dropped, the
/// decoded events keep their delivery order.
pub fn decode_committee_created_batch(logs: &Vec<RawLog>) -> (r: Vec<CommitteeCreated>)
    ensures
        r@ == decoded_events(logs@),
{
    let mut out: Vec<CommitteeCreated> = Vec::new();
    let mut i: usize = 0;
    while i < logs.len()
        invariant
            i <= logs.len(),
            out@ =~= decoded_events(logs@.take(i as int)),
        decreases logs.len() - i,
    {
        proof {
            assert(logs@.take(i + 1).drop_last() =~= logs@.take(i as int));
            assert(logs@.take(i + 1).last() == logs@[i as int]);
        }
        match decode_committee_created(&logs[i]) {
            Ok(ev) => {
                out.push(ev);
            },
            Err(_) => {},
        }
        i += 1;
    }
    proof {
        assert(logs@.take(logs@.len() as int) =~= logs@);
        assert(out@ =~= decoded_events(logs@));
    }
    out
}

/// An entry that fails schema validation contributes nothing to the stream.
pub proof fn lemma_invalid_entry_dropped(logs: Seq<RawLog>, bad: RawLog)
    requires
        !is_committee_created(bad),
    ensures
        decoded_events(logs.push(bad)) == decoded_events(logs),
{
    assert(logs.push(bad).drop_last() =~= logs);
    assert(logs.push(bad).last() == bad);
}

/// An entry that matches the schema is delivered, after everything already
/// delivered.
pub proof fn lemma_valid_entry_delivered(logs: Seq<RawLog>, good: RawLog)
    requires
        is_committee_created(good),
    ensures
        decoded_events(logs.push(good)) == decoded_events(logs).push(
            (CommitteeCreated { id: word_id(good.data@) }),
        ),
{
    assert(logs.push(good).drop_last() =~= logs);
    assert(logs.push(good).last() == good);
}

/// A failing entry does not terminate the subscription: the next valid entry
/// is still delivered.
pub proof fn lemma_bad_entry_does_not_break_stream(
    prefix: Seq<RawLog>,
    bad: RawLog,
    good: RawLog,
)
    requires
        !is_committee_created(bad),
        is_committee_created(good),
    ensures
        decoded_events(prefix.push(bad).push(good)) == decoded_events(prefix).push(
            (CommitteeCreated { id: word_id(good.data@) }),
        ),
{
    lemma_invalid_entry_dropped(prefix, bad);
    lemma_valid_entry_delivered(prefix.push(bad), good);
}

/// Decoding distributes over concatenation of delivered batches.
pub proof fn lemma_decoded_events_concat(a: Seq<RawLog>, b: Seq<RawLog>)
    ensures
        decoded_events(a + b) == decoded_events(a) + decoded_events(b),
    decreases b.len(),
{
    if b.len() == 0 {
        assert(a + b =~= a);
        assert(decoded_events(b) =~= Seq::<CommitteeCreated>::empty());
        assert(decoded_events(a) + decoded_events(b) =~= decoded_events(a));
    } else {
        let b0 = b.drop_last();
        lemma_decoded_events_concat(a, b0);
        assert((a + b).drop_last() =~= a + b0);
        assert((a + b).last() == b.last());
        assert(decoded_events(a) + decoded_events(b0).push(
            (CommitteeCreated { id: word_id(b.last().data@) }),
        ) =~= (decoded_events(a) + decoded_events(b0)).push(
            (CommitteeCreated { id: word_id(b.last().data@) }),
        ));
    }
}

/// What the transport's address filter keeps of a log stream: the entries
/// emitted by `addr`, in delivery order.
pub open spec fn logs_for(logs: Seq<RawLog>, addr: Seq<u8>) -> Seq<RawLog>
    decreases logs.len(),
{
    if logs.len() == 0 {
        Seq::empty()
    } else {
        let rest = logs_for(logs.drop_last(), addr);
        if logs.last().address@ == addr {
            rest.push(logs.last())
        } else {
            rest
        }
    }
}

/// An entry of the filtered address is kept, at the end.
pub proof fn lemma_logs_for_push_match(logs: Seq<RawLog>, l: RawLog, addr: Seq<u8>)
    requires
        l.address@ == addr,
    ensures
        logs_for(logs.push(l), addr) == logs_for(logs, addr).push(l),
{
    assert(logs.push(l).drop_last() =~= logs);
    assert(logs.push(l).last() == l);
}

/// An entry of another address changes nothing.
pub proof fn lemma_logs_for_push_other(logs: Seq<RawLog>, l: RawLog, addr: Seq<u8>)
    requires
        l.address@ != addr,
    ensures
        logs_for(logs.push(l), addr) == logs_for(logs, addr),
{
    assert(logs.push(l).drop_last() =~= logs);
    assert(logs.push(l).last() == l);
}

/// A stream with no entry of the address filters to nothing.
pub proof fn lemma_logs_for_empty(logs: Seq<RawLog>, addr: Seq<u8>)
    requires
        forall|i: int| 0 <= i < logs.len() ==> (#[trigger] logs[i]).address@ != addr,
    ensures
        logs_for(logs, addr) == Seq::<RawLog>::empty(),
    decreases logs.len(),
{
    if logs.len() > 0 {
        assert(logs.drop_last() =~= logs.take(logs.len() - 1));
        lemma_logs_for_empty(logs.drop_last(), addr);
    }
}

/// Address filtering distributes over concatenation.
pub proof fn lemma_logs_for_concat(a: Seq<RawLog>, b: Seq<RawLog>, addr: Seq<u8>)
    ensures
        logs_for(a + b, addr) == logs_for(a, addr) + logs_for(b, addr),
    decreases b.len(),
{
    if b.len() == 0 {
        assert(a + b =~= a);
        assert(logs_for(b, addr) =~= Seq::<RawLog>::empty());
        assert(logs_for(a, addr) + logs_for(b, addr) =~= logs_for(a, addr));
    } else {
        let b0 = b.drop_last();
        lemma_logs_for_concat(a, b0, addr);
        assert((a + b).drop_last() =~= a + b0);
        assert((a + b).last() == b.last());
        if b.last().address@ == addr {
            assert(logs_for(a, addr) + logs_for(b0, addr).push(b.last()) =~= (logs_for(a, addr)
                + logs_for(b0, addr)).push(b.last()));
        }
    }
}

/// When every entry matches the schema, the stream decodes one to one, in
/// order.
pub proof fn lemma_decoded_events_all_valid(logs: Seq<RawLog>)
    requires
        forall|i: int| 0 <= i < logs.len() ==> is_committee_created(#[trigger] logs[i]),
    ensures
        decoded_events(logs).len() == logs.len(),
        forall|i: int|
            0 <= i < logs.len() ==> decoded_events(logs)[i] == (CommitteeCreated {
                id: word_id(logs[i].data@),
            }),
    decreases logs.len(),
{
    if logs.len() > 0 {
        lemma_decoded_events_all_valid(logs.drop_last());
    }
}

} // verus!
