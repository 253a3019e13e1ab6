//! An in-process model of a fresh single-threaded test chain running the
//! KeyManager contracts: every transaction lands alone in the next block,
//! created contracts get distinct addresses in creation order, and each
//! successful registration appends one committee and emits one
//! `CommitteeCreated` log entry. The deployment and subscription logic runs
//! against this model exactly as it runs against a live connection.

use vstd::prelude::*;
use crate::abi::{
    be_bytes_u64, decode_initialize_manager, encode_word_u64, lemma_word_u64_injective, word_u64,
    zeros,
};
use crate::deployer::{DeployAction, DeployFlow, Receipt, TxOutcome};
use crate::error::ContractError;
use crate::events::{
    committee_created_topic, decode_committee_created, decoded_events, is_committee_created,
    lemma_decoded_events_all_valid, lemma_logs_for_concat, lemma_logs_for_empty,
    lemma_logs_for_push_match, lemma_logs_for_push_other, lemma_word_id_of_word, logs_for,
    word_id, CommitteeCreated, RawLog,
};
use crate::types::{Address, Committee, CommitteeMember};

verus! {

/// The address the model assigns to the `n`th created contract: 12 zero
/// bytes, then `n` in big-endian form.
pub open spec fn sim_address_bytes(n: u64) -> Seq<u8> {
    zeros(12) + be_bytes_u64(n)
}

/// Distinct creations get distinct addresses.
pub proof fn lemma_sim_address_injective(i: u64, j: u64)
    requires
        i != j,
    ensures
        sim_address_bytes(i) != sim_address_bytes(j),
{
    if sim_address_bytes(i) == sim_address_bytes(j) {
        assert(word_u64(i) =~= zeros(12) + sim_address_bytes(i));
        assert(word_u64(j) =~= zeros(12) + sim_address_bytes(j));
        lemma_word_u64_injective(i, j);
    }
}

fn make_sim_address(n: u64) -> (r: Address)
    ensures
        r.wf(),
        r@ == sim_address_bytes(n),
{
    let mut bytes: Vec<u8> = Vec::new();
    crate::abi::push_zeros(&mut bytes, 12);
    crate::abi::push_be_u64(&mut bytes, n);
    proof {
        assert(bytes@ =~= sim_address_bytes(n));
    }
    Address { bytes }
}

/// One KeyManager instance the model chain runs (through its proxy): the
/// manager set at initialization and the committees registered so far.
#[derive(Debug, Clone, PartialEq, Eq)]
pub struct SimContract {
    /// The proxy address callers use.
    pub address: Address,
    /// Which creation produced that address.
    pub addr_index: u64,
    /// The manager handed to `initialize`.
    pub manager: Address,
    /// Registered committees, in registration order.
    pub committees: Vec<Committee>,
}

impl SimContract {
    /// Committee ids are dense and increasing from 0: the nth registered
    /// committee has id n-1.
    pub open spec fn wf(&self) -> bool {
        &&& self.address.wf()
        &&& self.manager.wf()
        &&& forall|i: int|
            0 <= i < self.committees@.len() ==> (#[trigger] self.committees@[i]).id == i
    }
}

/// One log entry of the model corresponds to one registered committee.
pub open spec fn log_matches_committee(l: RawLog, addr: Seq<u8>, c: Committee) -> bool {
    &&& l.address@ == addr
    &&& is_committee_created(l)
    &&& word_id(l.data@) == c.id
    &&& l.block_number == c.registered_block_number
}

/// The model chain.
#[derive(Debug, Clone, PartialEq, Eq)]
pub struct SimChain {
    /// The block the next transaction will land in; a fresh chain starts at 1.
    pub next_block: u64,
    /// How many contract addresses were created so far.
    pub created: u64,
    /// Deployed implementation contracts.
    pub implementations: Vec<Address>,
    /// Deployed, initialized proxies.
    pub contracts: Vec<SimContract>,
    /// Every log entry ever emitted, in emission order.
    pub logs: Vec<RawLog>,
}

impl SimChain {
    /// The entry at `li` was emitted by some created address.
    pub open spec fn log_addr_known(&self, li: int) -> bool {
        exists|k: u64| k < self.created && self.logs@[li].address@ == sim_address_bytes(k)
    }

    /// The log entries of contract `ci` record exactly its committees, in
    /// order.
    pub open spec fn contract_events_wf(&self, ci: int) -> bool {
        let c = self.contracts@[ci];
        let f = logs_for(self.logs@, c.address@);
        &&& f.len() == c.committees@.len()
        &&& forall|i: int|
            0 <= i < f.len() ==> log_matches_committee(
                #[trigger] f[i],
                c.address@,
                c.committees@[i],
            )
    }

    pub open spec fn wf(&self) -> bool {
        &&& 1 <= self.next_block
        &&& forall|ci: int| 0 <= ci < self.contracts@.len() ==> (#[trigger] self.contracts@[ci]).wf()
        &&& forall|ci: int|
            0 <= ci < self.contracts@.len() ==> (#[trigger] self.contracts@[ci]).addr_index
                < self.created
        &&& forall|ci: int|
            0 <= ci < self.contracts@.len() ==> (#[trigger] self.contracts@[ci]).address@
                == sim_address_bytes(self.contracts@[ci].addr_index)
        &&& forall|i: int, j: int|
            0 <= i < j < self.contracts@.len() ==> (#[trigger] self.contracts@[i]).addr_index < (
            #[trigger] self.contracts@[j]).addr_index
        &&& forall|li: int| 0 <= li < self.logs@.len() ==> self.log_addr_known(li)
        &&& forall|ci: int| 0 <= ci < self.contracts@.len() ==> self.contract_events_wf(ci)
    }

    /// A fresh chain: nothing deployed, nothing logged, next block 1.
    pub fn new() -> (r: SimChain)
        ensures
            r.wf(),
            r.next_block == 1,
            r.created == 0,
            r.contracts@.len() == 0,
            r.implementations@.len() == 0,
            r.logs@.len() == 0,
    {
        SimChain {
            next_block: 1,
            created: 0,
            implementations: Vec::new(),
            contracts: Vec::new(),
            logs: Vec::new(),
        }
    }

    /// How many contracts the chain runs.
    pub fn contract_count(&self) -> (r: usize)
        ensures
            r == self.contracts@.len(),
    {
        self.contracts.len()
    }

    /// How many log entries were emitted so far; a subscription opened "from
    /// latest" starts reading here.
    pub fn log_count(&self) -> (r: usize)
        ensures
            r == self.logs@.len(),
    {
        self.logs.len()
    }

    /// The `manager()` read on contract `ci`.
    pub fn manager(&self, ci: usize) -> (r: &Address)
        requires
            ci < self.contracts@.len(),
        ensures
            *r == self.contracts@[ci as int].manager,
    {
        &self.contracts[ci].manager
    }

    /// The proxy address of contract `ci`.
    pub fn contract_address(&self, ci: usize) -> (r: &Address)
        requires
            ci < self.contracts@.len(),
        ensures
            *r == self.contracts@[ci as int].address,
    {
        &self.contracts[ci].address
    }

    /// The `getCommitteeById` read on contract `ci`: the committee with that
    /// id exactly when one was registered under it.
    pub fn get_committee_by_id(&self, ci: usize, id: u64) -> (r: Option<&Committee>)
        requires
            ci < self.contracts@.len(),
        ensures
            match r {
                Some(c) => id < self.contracts@[ci as int].committees@.len() && *c
                    == self.contracts@[ci as int].committees@[id as int] && (self.wf() ==> c.id
                    == id),
                None => id >= self.contracts@[ci as int].committees@.len(),
            },
    {
        let n = self.contracts[ci].committees.len();
        if id < n as u64 {
            Some(&self.contracts[ci].committees[id as usize])
        } else {
            None
        }
    }

    /// The `setNextCommittee` write on contract `ci`: registers the next
    /// committee under the next dense id and emits its `CommitteeCreated`
    /// entry, in a block of its own.
    pub fn set_next_committee(
        &mut self,
        ci: usize,
        effective_timestamp: u64,
        members: Vec<CommitteeMember>,
    ) -> (r: Receipt)
        requires
            old(self).wf(),
            ci < old(self).contracts@.len(),
            old(self).next_block < u64::MAX,
        ensures
            final(self).wf(),
            final(self).created == old(self).created,
            final(self).next_block == old(self).next_block + 1,
            final(self).implementations == old(self).implementations,
            final(self).contracts@.len() == old(self).contracts@.len(),
            forall|j: int|
                0 <= j < old(self).contracts@.len() && j != ci ==> final(self).contracts@[j]
                    == old(self).contracts@[j],
            ({
                let oc = old(self).contracts@[ci as int];
                let nc = final(self).contracts@[ci as int];
                &&& nc.address == oc.address
                &&& nc.addr_index == oc.addr_index
                &&& nc.manager == oc.manager
                &&& nc.committees@.len() == oc.committees@.len() + 1
                &&& forall|k: int|
                    0 <= k < oc.committees@.len() ==> nc.committees@[k] == oc.committees@[k]
                &&& nc.committees@.last().id == oc.committees@.len()
                &&& nc.committees@.last().registered_block_number == old(self).next_block
                &&& nc.committees@.last().effective_timestamp == effective_timestamp
                &&& nc.committees@.last().members == members
            }),
            final(self).logs@.len() == old(self).logs@.len() + 1,
            forall|k: int|
                0 <= k < old(self).logs@.len() ==> final(self).logs@[k] == old(self).logs@[k],
            ({
                let l = final(self).logs@.last();
                &&& l.address@ == old(self).contracts@[ci as int].address@
                &&& is_committee_created(l)
                &&& word_id(l.data@) == old(self).contracts@[ci as int].committees@.len()
                &&& l.block_number == old(self).next_block
            }),
            r.status,
            r.block_number == old(self).next_block,
            r.contract_address is None,
    {
        let id: u64 = self.contracts[ci].committees.len() as u64;
        let addr = self.contracts[ci].address.dup();
        let mut topics: Vec<Vec<u8>> = Vec::new();
        topics.push(committee_created_topic());
        let data = encode_word_u64(id);
        let block = self.next_block;
        let log = RawLog { address: addr, topics, data, block_number: block };
        proof {
            lemma_word_id_of_word(id);
            assert(is_committee_created(log));
        }
        let committee = Committee {
            id,
            registered_block_number: block,
            effective_timestamp,
            members,
        };
        let target = &mut self.contracts[ci];
        target.committees.push(committee);
        self.logs.push(log);
        self.next_block = self.next_block + 1;
        proof {
            let olog = old(self).logs@;
            let oc = old(self).contracts@[ci as int];
            assert(self.logs@ =~= olog.push(log));
            assert forall|j: int|
                0 <= j < self.contracts@.len() implies self.contract_events_wf(j) by {
                assert(old(self).contract_events_wf(j));
                let cj = self.contracts@[j];
                if j == ci {
                    assert(cj.address@ == oc.address@);
                    lemma_logs_for_push_match(olog, log, cj.address@);
                    let f_old = logs_for(olog, cj.address@);
                    let f_new = logs_for(self.logs@, cj.address@);
                    assert(f_new == f_old.push(log));
                    assert(log_matches_committee(log, cj.address@, committee));
                    assert(forall|i: int|
                        0 <= i < f_old.len() ==> log_matches_committee(
                            #[trigger] f_new[i],
                            cj.address@,
                            cj.committees@[i],
                        ));
                } else {
                    let cj_old = old(self).contracts@[j];
                    assert(cj == cj_old);
                    if j < ci {
                        assert(cj.addr_index < oc.addr_index);
                    } else {
                        assert(oc.addr_index < cj.addr_index);
                    }
                    lemma_sim_address_injective(cj.addr_index, oc.addr_index);
                    assert(log.address@ == sim_address_bytes(oc.addr_index));
                    lemma_logs_for_push_other(olog, log, cj.address@);
                }
            }
            assert forall|li: int| 0 <= li < self.logs@.len() implies self.log_addr_known(li) by {
                if li < olog.len() {
                    assert(old(self).log_addr_known(li));
                    let k = choose|k: u64|
                        k < old(self).created && old(self).logs@[li].address@
                            == sim_address_bytes(k);
                    assert(k < self.created && self.logs@[li].address@ == sim_address_bytes(k));
                } else {
                    let k = oc.addr_index;
                    assert(k < self.created && self.logs@[li].address@ == sim_address_bytes(k));
                }
            }
        }
        Receipt { status: true, gas_used: 0, block_number: block, contract_address: None }
    }

    /// Execute one deployment transaction the flow requests. Creation
    /// transactions always mine; a proxy creation whose initializer calldata
    /// does not decode reverts, which surfaces as a receipt without a
    /// created-contract address.
    pub fn execute_deploy(&mut self, action: DeployAction) -> (r: TxOutcome)
        requires
            old(self).wf(),
            old(self).next_block < u64::MAX,
            old(self).created < u64::MAX,
        ensures
            final(self).wf(),
            final(self).logs == old(self).logs,
            final(self).next_block == old(self).next_block + 1,
            match action {
                DeployAction::SubmitImplementation => {
                    &&& final(self).created == old(self).created + 1
                    &&& final(self).contracts == old(self).contracts
                    &&& final(self).implementations@.len() == old(self).implementations@.len()
                        + 1
                    &&& r matches TxOutcome::Mined(rec) && rec.status && rec.block_number == old(
                        self,
                    ).next_block && (rec.contract_address matches Some(a) && a@
                        == sim_address_bytes(old(self).created) && a.wf())
                },
                DeployAction::SubmitProxy { implementation, init_data } => {
                    if init_data@.len() == 36 && init_data@.subrange(4, 16) =~= zeros(12) {
                        &&& final(self).created == old(self).created + 1
                        &&& final(self).implementations == old(self).implementations
                        &&& final(self).contracts@.len() == old(self).contracts@.len() + 1
                        &&& forall|j: int|
                            0 <= j < old(self).contracts@.len() ==> final(self).contracts@[j]
                                == old(self).contracts@[j]
                        &&& ({
                            let nc = final(self).contracts@.last();
                            &&& nc.address@ == sim_address_bytes(old(self).created)
                            &&& nc.addr_index == old(self).created
                            &&& nc.manager@ == init_data@.subrange(16, 36)
                            &&& nc.committees@.len() == 0
                        })
                        &&& r matches TxOutcome::Mined(rec) && rec.status && rec.block_number
                            == old(self).next_block && (rec.contract_address matches Some(a) && a@
                            == sim_address_bytes(old(self).created) && a.wf())
                    } else {
                        &&& final(self).created == old(self).created
                        &&& final(self).contracts == old(self).contracts
                        &&& final(self).implementations == old(self).implementations
                        &&& r matches TxOutcome::Mined(rec) && !rec.status && rec.block_number
                            == old(self).next_block && rec.contract_address is None
                    }
                },
            },
    {
        match action {
            DeployAction::SubmitImplementation => {
                let a = make_sim_address(self.created);
                self.implementations.push(a.dup());
                let rec = Receipt {
                    status: true,
                    gas_used: 0,
                    block_number: self.next_block,
                    contract_address: Some(a),
                };
                self.created = self.created + 1;
                self.next_block = self.next_block + 1;
                proof {
                    self.lemma_wf_after_counter_bump(*old(self));
                }
                TxOutcome::Mined(rec)
            },
            DeployAction::SubmitProxy { implementation: _implementation, init_data } => {
                match decode_initialize_manager(&init_data) {
                    Some(m) => {
                        let a = make_sim_address(self.created);
                        let c = SimContract {
                            address: a.dup(),
                            addr_index: self.created,
                            manager: m,
                            committees: Vec::new(),
                        };
                        self.contracts.push(c);
                        let rec = Receipt {
                            status: true,
                            gas_used: 0,
                            block_number: self.next_block,
                            contract_address: Some(a),
                        };
                        self.created = self.created + 1;
                        self.next_block = self.next_block + 1;
                        proof {
                            self.lemma_wf_after_proxy_creation(*old(self), c);
                        }
                        TxOutcome::Mined(rec)
                    },
                    None => {
                        let rec = Receipt {
                            status: false,
                            gas_used: 0,
                            block_number: self.next_block,
                            contract_address: None,
                        };
                        self.next_block = self.next_block + 1;
                        proof {
                            assert forall|li: int|
                                0 <= li < self.logs@.len() implies self.log_addr_known(li) by {
                                assert(old(self).log_addr_known(li));
                                let k = choose|k: u64|
                                    k < old(self).created && old(self).logs@[li].address@
                                        == sim_address_bytes(k);
                                assert(k < self.created && self.logs@[li].address@
                                    == sim_address_bytes(k));
                            }
                            assert forall|j: int|
                                0 <= j < self.contracts@.len() implies self.contract_events_wf(
                                j,
                            ) by {
                                assert(old(self).contract_events_wf(j));
                            }
                        }
                        TxOutcome::Mined(rec)
                    },
                }
            },
        }
    }

    /// Raising `created` and `next_block` while leaving contracts and logs
    /// alone keeps the chain well formed.
    proof fn lemma_wf_after_counter_bump(&self, pre: SimChain)
        requires
            pre.wf(),
            pre.created < u64::MAX,
            pre.next_block < u64::MAX,
            self.contracts == pre.contracts,
            self.logs == pre.logs,
            self.created == pre.created + 1,
            self.next_block == pre.next_block + 1,
        ensures
            self.wf(),
    {
        assert forall|li: int| 0 <= li < self.logs@.len() implies self.log_addr_known(li) by {
            assert(pre.log_addr_known(li));
            let k = choose|k: u64|
                k < pre.created && pre.logs@[li].address@ == sim_address_bytes(k);
            assert(k < self.created && self.logs@[li].address@ == sim_address_bytes(k));
        }
        assert forall|j: int| 0 <= j < self.contracts@.len() implies self.contract_events_wf(
            j,
        ) by {
            assert(pre.contract_events_wf(j));
        }
    }

    /// Appending a fresh, committee-less contract with the next address keeps
    /// the chain well formed.
    proof fn lemma_wf_after_proxy_creation(&self, pre: SimChain, c: SimContract)
        requires
            pre.wf(),
            pre.created < u64::MAX,
            pre.next_block < u64::MAX,
            c.address.wf(),
            c.manager.wf(),
            c.address@ == sim_address_bytes(pre.created),
            c.addr_index == pre.created,
            c.committees@.len() == 0,
            self.contracts@ == pre.contracts@.push(c),
            self.logs == pre.logs,
            self.created == pre.created + 1,
            self.next_block == pre.next_block + 1,
        ensures
            self.wf(),
    {
        assert forall|li: int| 0 <= li < self.logs@.len() implies self.log_addr_known(li) by {
            assert(pre.log_addr_known(li));
            let k = choose|k: u64|
                k < pre.created && pre.logs@[li].address@ == sim_address_bytes(k);
            assert(k < self.created && self.logs@[li].address@ == sim_address_bytes(k));
        }
        assert forall|li: int|
            0 <= li < self.logs@.len() implies self.logs@[li].address@ != c.address@ by {
            assert(pre.log_addr_known(li));
            let k = choose|k: u64|
                k < pre.created && pre.logs@[li].address@ == sim_address_bytes(k);
            lemma_sim_address_injective(k, pre.created);
        }
        lemma_logs_for_empty(self.logs@, c.address@);
        assert forall|j: int| 0 <= j < self.contracts@.len() implies self.contract_events_wf(
            j,
        ) by {
            if j < pre.contracts@.len() {
                assert(pre.contract_events_wf(j));
                assert(self.contracts@[j] == pre.contracts@[j]);
            } else {
                assert(self.contracts@[j] == c);
                assert(logs_for(self.logs@, c.address@).len() == 0);
            }
        }
    }

    /// The events a subscription scoped to `addr` delivers if it was opened
    /// when the chain had `start` log entries: every later entry of that
    /// address, validated and decoded in delivery order, schema failures
    /// dropped.
    pub fn events_since(&self, start: usize, addr: &Address) -> (r: Vec<CommitteeCreated>)
        requires
            start <= self.logs@.len(),
        ensures
            r@ == decoded_events(logs_for(self.logs@.skip(start as int), addr@)),
    {
        let mut out: Vec<CommitteeCreated> = Vec::new();
        let mut i: usize = start;
        while i < self.logs.len()
            invariant
                start <= i <= self.logs@.len(),
                out@ =~= decoded_events(
                    logs_for(self.logs@.subrange(start as int, i as int), addr@),
                ),
            decreases self.logs@.len() - i,
        {
            let ghost sub = self.logs@.subrange(start as int, i as int);
            let ghost l = self.logs@[i as int];
            proof {
                assert(self.logs@.subrange(start as int, i + 1).drop_last() =~= sub);
                assert(self.logs@.subrange(start as int, i + 1).last() == l);
                assert(self.logs@.subrange(start as int, i + 1) =~= sub.push(l));
            }
            if crate::events::eq_bytes(&self.logs[i].address.bytes, &addr.bytes) {
                proof {
                    lemma_logs_for_push_match(sub, l, addr@);
                }
                match decode_committee_created(&self.logs[i]) {
                    Ok(ev) => {
                        proof {
                            crate::events::lemma_valid_entry_delivered(logs_for(sub, addr@), l);
                        }
                        out.push(ev);
                    },
                    Err(_) => {
                        proof {
                            crate::events::lemma_invalid_entry_dropped(logs_for(sub, addr@), l);
                        }
                    },
                }
            } else {
                proof {
                    lemma_logs_for_push_other(sub, l, addr@);
                }
            }
            i += 1;
        }
        proof {
            assert(self.logs@.subrange(start as int, self.logs@.len() as int) =~= self.logs@.skip(
                start as int,
            ));
        }
        out
    }
}

/// Drive the full two-step deployment against the model chain, exactly as a
/// caller with a live connection drives it: ask the flow for the next
/// transaction, execute it, feed the outcome back. Returns the proxy address,
/// the stable entry point for all later interaction.
pub fn deploy_key_manager(chain: &mut SimChain, manager: &Address) -> (r: Result<
    Address,
    ContractError,
>)
    requires
        old(chain).wf(),
        manager.wf(),
        old(chain).next_block + 2 <= u64::MAX,
        old(chain).created + 2 <= u64::MAX,
    ensures
        final(chain).wf(),
        final(chain).logs == old(chain).logs,
        final(chain).next_block == old(chain).next_block + 2,
        final(chain).created == old(chain).created + 2,
        final(chain).contracts@.len() == old(chain).contracts@.len() + 1,
        forall|j: int|
            0 <= j < old(chain).contracts@.len() ==> final(chain).contracts@[j] == old(
                chain,
            ).contracts@[j],
        ({
            let nc = final(chain).contracts@.last();
            &&& r matches Ok(a) && a.wf() && a@ == sim_address_bytes(
                (old(chain).created + 1) as u64,
            ) && nc.address@ == a@
            &&& nc.manager@ == manager@
            &&& nc.committees@.len() == 0
            &&& nc.addr_index == old(chain).created + 1
        }),
{
    let mut flow = DeployFlow::new(manager.dup());
    let o1 = match flow.next_action() {
        Some(a) => chain.execute_deploy(a),
        None => {
            proof {
                assert(false);
            }
            TxOutcome::NotMined
        },
    };
    flow.advance(o1);
    let o2 = match flow.next_action() {
        Some(a) => chain.execute_deploy(a),
        None => {
            proof {
                assert(false);
            }
            TxOutcome::NotMined
        },
    };
    flow.advance(o2);
    match flow.result() {
        Some(res) => res,
        None => {
            proof {
                assert(false);
            }
            Err(ContractError::NotMined)
        },
    }
}

/// On a well-formed chain distinct contracts have distinct addresses: in
/// particular, deploying twice from the same signer yields two distinct,
/// valid proxy addresses.
pub proof fn lemma_contract_addresses_distinct(c: SimChain, i: int, j: int)
    requires
        c.wf(),
        0 <= i < j < c.contracts@.len(),
    ensures
        c.contracts@[i].address@ != c.contracts@[j].address@,
{
    assert(c.contracts@[i].addr_index < c.contracts@[j].addr_index);
    lemma_sim_address_injective(c.contracts@[i].addr_index, c.contracts@[j].addr_index);
}

/// Committee ids are dense in submission order: the nth registration of a
/// well-formed contract carries id n-1, and each committee is retrievable
/// under its own id.
pub proof fn lemma_ids_dense_in_submission_order(c: SimContract)
    requires
        c.wf(),
    ensures
        forall|i: int| 0 <= i < c.committees@.len() ==> (#[trigger] c.committees@[i]).id == i,
{
}

/// A subscription on one contract sees exactly the committees registered
/// after it was opened, as decoded events in registration order: if the
/// contract had `k` committees at the subscription point and has `n` now,
/// the delivered stream decodes to ids `k..n`.
pub proof fn lemma_subscription_sees_registrations(c0: SimChain, c1: SimChain, ci: int)
    requires
        c0.wf(),
        c1.wf(),
        0 <= ci < c0.contracts@.len(),
        c0.contracts@.len() <= c1.contracts@.len(),
        c1.contracts@[ci].address@ == c0.contracts@[ci].address@,
        c0.logs@.len() <= c1.logs@.len(),
        c1.logs@.take(c0.logs@.len() as int) == c0.logs@,
    ensures
        ({
            let addr = c1.contracts@[ci].address@;
            let k = c0.contracts@[ci].committees@.len() as int;
            let n = c1.contracts@[ci].committees@.len() as int;
            let ev = decoded_events(logs_for(c1.logs@.skip(c0.logs@.len() as int), addr));
            &&& k <= n
            &&& ev.len() == n - k
            &&& forall|i: int| 0 <= i < n - k ==> (#[trigger] ev[i]).id == k + i
        }),
{
    let addr = c1.contracts@[ci].address@;
    let k = c0.contracts@[ci].committees@.len() as int;
    let n = c1.contracts@[ci].committees@.len() as int;
    let pre = c0.logs@;
    let full = c1.logs@;
    let suf = full.skip(pre.len() as int);
    assert(full =~= pre + suf);
    lemma_logs_for_concat(pre, suf, addr);
    let f0 = logs_for(pre, addr);
    let f1 = logs_for(full, addr);
    let fs = logs_for(suf, addr);
    assert(f1 == f0 + fs);
    assert(c1.contract_events_wf(ci));
    assert(c0.contract_events_wf(ci));
    assert(f1.len() == n);
    assert(f0.len() == k);
    assert(fs.len() == n - k);
    assert forall|i: int|
        0 <= i < fs.len() implies is_committee_created(#[trigger] fs[i]) && word_id(fs[i].data@)
            == k + i by {
        assert(fs[i] == f1[k + i]);
        assert(log_matches_committee(f1[k + i], addr, c1.contracts@[ci].committees@[k + i]));
        assert(c1.contracts@[ci].committees@[k + i].id == k + i);
    }
    lemma_decoded_events_all_valid(fs);
}

} // verus!
