//! The two-transaction deployment sequence: first the implementation
//! contract, then the proxy pointing at it, initialized with the manager
//! address. The decisions live here as a state machine over plain values; the
//! caller performs each requested transaction and reports its outcome.

use vstd::prelude::*;
use crate::abi::{initialize_calldata, initialize_calldata_bytes};
use crate::error::ContractError;
use crate::types::Address;

verus! {

/// The confirmation record of a mined transaction.
#[derive(Debug, Clone, PartialEq, Eq)]
pub struct Receipt {
    /// Whether the transaction succeeded.
    pub status: bool,
    /// Gas the transaction consumed.
    pub gas_used: u64,
    /// The block the transaction landed in.
    pub block_number: u64,
    /// The created contract's address, for creation transactions that
    /// succeeded; absent otherwise.
    pub contract_address: Option<Address>,
}

/// What the connection reports for one submitted transaction.
#[derive(Debug, Clone, PartialEq, Eq)]
pub enum TxOutcome {
    /// The transaction was included; here is its receipt.
    Mined(Receipt),
    /// The transaction could not be sent.
    SubmissionFailed,
    /// The transaction was sent but never included.
    NotMined,
}

/// The created contract's address out of a deployment receipt; fails with
/// `NoContractAddress` exactly when the receipt carries none.
pub fn extract_contract_address(receipt: Receipt) -> (r: Result<Address, ContractError>)
    ensures
        match r {
            Ok(a) => receipt.contract_address == Some(a),
            Err(e) => receipt.contract_address is None && e == ContractError::NoContractAddress,
        },
{
    match receipt.contract_address {
        Some(a) => Ok(a),
        None => Err(ContractError::NoContractAddress),
    }
}

/// What a single deployment transaction yields once its outcome is known:
/// the created address, or the error for the way it failed.
pub fn complete_deployment(outcome: TxOutcome) -> (r: Result<Address, ContractError>)
    ensures
        match outcome {
            TxOutcome::Mined(rec) => match rec.contract_address {
                Some(a) => r == Ok::<Address, ContractError>(a),
                None => r == Err::<Address, ContractError>(ContractError::NoContractAddress),
            },
            TxOutcome::SubmissionFailed => r == Err::<Address, ContractError>(
                ContractError::SubmissionFailed,
            ),
            TxOutcome::NotMined => r == Err::<Address, ContractError>(ContractError::NotMined),
        },
{
    match outcome {
        TxOutcome::Mined(receipt) => extract_contract_address(receipt),
        TxOutcome::SubmissionFailed => Err(ContractError::SubmissionFailed),
        TxOutcome::NotMined => Err(ContractError::NotMined),
    }
}

/// Where the deployment sequence stands.
#[derive(Debug, Clone, PartialEq, Eq)]
pub enum DeployPhase {
    /// The implementation contract's creation transaction is outstanding.
    Implementation,
    /// The implementation landed at this address; the proxy's creation
    /// transaction is outstanding.
    Proxy { implementation: Address },
    /// The proxy landed; its address is the one callers must use.
    Done { proxy: Address },
    /// The sequence failed; no further transaction is requested.
    Failed { error: ContractError },
}

/// The next transaction the connection must perform.
#[derive(Debug, Clone, PartialEq, Eq)]
pub enum DeployAction {
    /// Submit the implementation contract's creation transaction.
    SubmitImplementation,
    /// Submit the proxy's creation transaction, constructed against this
    /// implementation address and carrying this initializer calldata.
    SubmitProxy { implementation: Address, init_data: Vec<u8> },
}

/// How one reported outcome advances the sequence. Terminal phases absorb
/// every outcome.
pub open spec fn step_phase(phase: DeployPhase, outcome: TxOutcome) -> DeployPhase {
    match phase {
        DeployPhase::Implementation => match outcome {
            TxOutcome::Mined(rec) => match rec.contract_address {
                Some(a) => DeployPhase::Proxy { implementation: a },
                None => DeployPhase::Failed { error: ContractError::NoContractAddress },
            },
            TxOutcome::SubmissionFailed => DeployPhase::Failed {
                error: ContractError::SubmissionFailed,
            },
            TxOutcome::NotMined => DeployPhase::Failed { error: ContractError::NotMined },
        },
        DeployPhase::Proxy { implementation } => match outcome {
            TxOutcome::Mined(rec) => match rec.contract_address {
                Some(a) => DeployPhase::Done { proxy: a },
                None => DeployPhase::Failed { error: ContractError::NoContractAddress },
            },
            TxOutcome::SubmissionFailed => DeployPhase::Failed {
                error: ContractError::SubmissionFailed,
            },
            TxOutcome::NotMined => DeployPhase::Failed { error: ContractError::NotMined },
        },
        _ => phase,
    }
}

/// The deployment sequence for one manager address.
#[derive(Debug, Clone, PartialEq, Eq)]
pub struct DeployFlow {
    /// The manager handed to `initialize` on the proxy.
    pub manager: Address,
    /// Where the sequence stands.
    pub phase: DeployPhase,
}

impl DeployFlow {
    pub open spec fn wf(&self) -> bool {
        self.manager.wf()
    }

    /// A fresh sequence: the implementation transaction comes first.
    pub fn new(manager: Address) -> (r: DeployFlow)
        requires
            manager.wf(),
        ensures
            r.wf(),
            r.manager == manager,
            r.phase == DeployPhase::Implementation,
    {
        DeployFlow { manager, phase: DeployPhase::Implementation }
    }

    /// The transaction to perform next, or nothing once the sequence is
    /// settled. The proxy transaction targets the implementation address and
    /// carries the `initialize(manager)` calldata.
    pub fn next_action(&self) -> (r: Option<DeployAction>)
        requires
            self.wf(),
        ensures
            match r {
                Some(a) => match self.phase {
                    DeployPhase::Implementation => a == DeployAction::SubmitImplementation,
                    DeployPhase::Proxy { implementation } => {
                        &&& a matches DeployAction::SubmitProxy {
                            implementation: i,
                            init_data,
                        } && i@ == implementation@ && init_data@ == initialize_calldata_bytes(
                            self.manager@,
                        ) && init_data@.len() == 36 && init_data@.subrange(4, 16)
                            =~= crate::abi::zeros(12) && init_data@.subrange(16, 36)
                            =~= self.manager@
                    },
                    _ => false,
                },
                None => self.phase is Done || self.phase is Failed,
            },
    {
        match &self.phase {
            DeployPhase::Implementation => Some(DeployAction::SubmitImplementation),
            DeployPhase::Proxy { implementation } => {
                let init_data = initialize_calldata(&self.manager);
                Some(
                    DeployAction::SubmitProxy { implementation: implementation.dup(), init_data },
                )
            },
            DeployPhase::Done { .. } => None,
            DeployPhase::Failed { .. } => None,
        }
    }

    /// Feed back the outcome of the transaction that was requested.
    pub fn advance(&mut self, outcome: TxOutcome)
        ensures
            final(self).manager == old(self).manager,
            final(self).phase == step_phase(old(self).phase, outcome),
    {
        let at_proxy_step = match &self.phase {
            DeployPhase::Implementation => false,
            DeployPhase::Proxy { .. } => true,
            DeployPhase::Done { .. } => {
                return;
            },
            DeployPhase::Failed { .. } => {
                return;
            },
        };
        let next = match outcome {
            TxOutcome::Mined(rec) => match rec.contract_address {
                Some(a) => {
                    if at_proxy_step {
                        DeployPhase::Done { proxy: a }
                    } else {
                        DeployPhase::Proxy { implementation: a }
                    }
                },
                None => DeployPhase::Failed { error: ContractError::NoContractAddress },
            },
            TxOutcome::SubmissionFailed => DeployPhase::Failed {
                error: ContractError::SubmissionFailed,
            },
            TxOutcome::NotMined => DeployPhase::Failed { error: ContractError::NotMined },
        };
        self.phase = next;
    }

    /// The settled result: the proxy address on success, the error on
    /// failure, nothing while transactions are still outstanding.
    pub fn result(&self) -> (r: Option<Result<Address, ContractError>>)
        ensures
            match self.phase {
                DeployPhase::Done { proxy } => r matches Some(res) && res matches Ok(a) && a@
                    == proxy@,
                DeployPhase::Failed { error } => r == Some(
                    Err::<Address, ContractError>(error),
                ),
                _ => r is None,
            },
    {
        match &self.phase {
            DeployPhase::Done { proxy } => Some(Ok(proxy.dup())),
            DeployPhase::Failed { error } => Some(Err(*error)),
            _ => None,
        }
    }
}

/// A mined implementation receipt with a created address moves a fresh flow
/// to the proxy step against exactly that address; a second such receipt
/// settles the flow on the proxy's address.
pub proof fn lemma_deploy_sequence(r1: Receipt, r2: Receipt, a: Address, b: Address)
    requires
        r1.contract_address == Some(a),
        r2.contract_address == Some(b),
    ensures
        step_phase(DeployPhase::Implementation, TxOutcome::Mined(r1)) == (DeployPhase::Proxy {
            implementation: a,
        }),
        step_phase(
            step_phase(DeployPhase::Implementation, TxOutcome::Mined(r1)),
            TxOutcome::Mined(r2),
        ) == (DeployPhase::Done { proxy: b }),
{
}

/// A creation receipt without a created-contract address fails the sequence
/// with `NoContractAddress`, at either step.
pub proof fn lemma_no_contract_address(phase: DeployPhase, r: Receipt)
    requires
        r.contract_address is None,
        phase is Implementation || phase is Proxy,
    ensures
        step_phase(phase, TxOutcome::Mined(r)) == (DeployPhase::Failed {
            error: ContractError::NoContractAddress,
        }),
{
}

/// Once settled, the sequence never moves again.
pub proof fn lemma_terminal_phases(phase: DeployPhase, outcome: TxOutcome)
    requires
        phase is Done || phase is Failed,
    ensures
        step_phase(phase, outcome) == phase,
{
}

} // verus!
