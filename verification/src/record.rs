//! Records: log entries for operations the emulated environment cannot
//! perform for real.
//!
//! Contract calls, instantiations, runtime invocations, event emissions
//! and contract restorations cannot be executed off-chain; the
//! environment stores a record of each instead, so a test can inspect
//! what a contract asked for.

use vstd::prelude::*;
use crate::env::{CallParams, InstantiateParams};
use crate::host::dup_bytes;
use crate::key::Key;
use crate::types::AccountId;

verus! {

/// A contract call record.
///
/// Covers both invocations (no return value) and evaluations (with
/// return value) of a contract call.
#[derive(Debug)]
pub struct CallContractRecord {
    /// Recorded callee of the contract call.
    pub callee: AccountId,
    /// Recorded gas limit for the call.
    pub gas_limit: u64,
    /// Recorded endowment.
    pub endowment: u64,
    /// Recorded input data of the call.
    pub input_data: crate::env::CallData,
}

impl CallContractRecord {
    /// Creates a new record for a contract call.
    pub fn new(call_params: &CallParams) -> (r: CallContractRecord)
        ensures
            r.callee == call_params.callee,
            r.gas_limit == call_params.gas_limit,
            r.endowment == call_params.endowment,
            r.input_data.bytes@ == call_params.input_data.bytes@,
    {
        CallContractRecord {
            callee: call_params.callee,
            gas_limit: call_params.gas_limit,
            endowment: call_params.endowment,
            input_data: call_params.input_data.duplicate(),
        }
    }
}

/// A contract instantiation record.
#[derive(Debug)]
pub struct CreateContractRecord {
    /// Recorded code hash for the created contract.
    pub code_hash: crate::types::Hash,
    /// Recorded gas limit for the contract creation.
    pub gas_limit: u64,
    /// Recorded endowment.
    pub endowment: u64,
    /// Recorded input data for contract creation.
    pub input_data: crate::env::CallData,
}

impl CreateContractRecord {
    /// Creates a new record for a contract instantiation.
    pub fn new(create_params: &InstantiateParams) -> (r: CreateContractRecord)
        ensures
            r.code_hash == create_params.code_hash,
            r.gas_limit == create_params.gas_limit,
            r.endowment == create_params.endowment,
            r.input_data.bytes@ == create_params.input_data.bytes@,
    {
        CreateContractRecord {
            code_hash: create_params.code_hash,
            gas_limit: create_params.gas_limit,
            endowment: create_params.endowment,
            input_data: create_params.input_data.duplicate(),
        }
    }
}

/// Record for an emitted event.
#[derive(Debug)]
pub struct EmitEventRecord {
    /// Recorded topics of the emitted event.
    pub topics: Vec<crate::types::Hash>,
    /// Recorded encoding of the emitted event.
    pub data: Vec<u8>,
}

impl EmitEventRecord {
    /// Creates a new record for an emitted event.
    pub fn new(topics: Vec<crate::types::Hash>, data: Vec<u8>) -> (r: EmitEventRecord)
        ensures
            r.topics@ == topics@,
            r.data@ == data@,
    {
        EmitEventRecord { topics, data }
    }
}

/// Record of a runtime invocation.
#[derive(Debug)]
pub struct InvokeRuntimeRecord {
    /// The runtime call, in its completely generic encoded raw bytes:
    /// records stay agnostic over runtimes.
    pub encoded: Vec<u8>,
}

impl InvokeRuntimeRecord {
    /// Creates a new record for a runtime invocation.
    pub fn new(data: Vec<u8>) -> (r: InvokeRuntimeRecord)
        ensures
            r.encoded@ == data@,
    {
        InvokeRuntimeRecord { encoded: data }
    }
}

/// Record of a contract restoration.
#[derive(Debug)]
pub struct RestoreContractRecord {
    /// The destination account ID.
    pub dest: AccountId,
    /// The original code hash of the contract.
    pub code_hash: crate::types::Hash,
    /// The initial rent allowance for the restored contract.
    pub rent_allowance: u64,
    /// The filtered keys for the restoration process.
    pub filtered_keys: Vec<Key>,
}

impl RestoreContractRecord {
    /// Creates a new record for a contract restoration.
    pub fn new(
        dest: &AccountId,
        code_hash: &crate::types::Hash,
        rent_allowance: &u64,
        filtered_keys: &Vec<Key>,
    ) -> (r: RestoreContractRecord)
        ensures
            r.dest == *dest,
            r.code_hash == *code_hash,
            r.rent_allowance == *rent_allowance,
            r.filtered_keys@ == filtered_keys@,
    {
        let mut keys: Vec<Key> = Vec::new();
        let n = filtered_keys.len();
        let mut i: usize = 0;
        while i < n
            invariant
                n == filtered_keys@.len(),
                i <= n,
                keys@ == filtered_keys@.take(i as int),
            decreases n - i,
        {
            keys.push(filtered_keys[i]);
            proof {
                assert(filtered_keys@.take(i as int) + seq![filtered_keys@[i as int]]
                    =~= filtered_keys@.take(i as int + 1));
            }
            i += 1;
        }
        proof {
            assert(filtered_keys@.take(n as int) =~= filtered_keys@);
        }
        RestoreContractRecord {
            dest: *dest,
            code_hash: *code_hash,
            rent_allowance: *rent_allowance,
            filtered_keys: keys,
        }
    }
}

/// A record of an event happening on the emulated environment.
///
/// This is useful for inspection of a contract execution.
#[derive(Debug)]
pub enum Record {
    /// Calls (invoke or evaluate) of contracts.
    Call(CallContractRecord),
    /// Instantiations of contracts.
    Create(CreateContractRecord),
    /// Emitted events.
    EmitEvent(EmitEventRecord),
    /// Invocations of the runtime.
    InvokeRuntime(InvokeRuntimeRecord),
    /// Restorations of contracts.
    RestoreContract(RestoreContractRecord),
}

impl Record {
    /// Returns the contract call record if `self` is one and otherwise `None`.
    pub fn contract_call(&self) -> (r: Option<&CallContractRecord>)
        ensures
            match r {
                Some(c) => *self is Call && *c == self->Call_0,
                None => !(*self is Call),
            },
    {
        match self {
            Record::Call(call_record) => Some(call_record),
            _ => None,
        }
    }

    /// Returns the contract instantiation record if `self` is one and otherwise `None`.
    pub fn contract_instantiation(&self) -> (r: Option<&CreateContractRecord>)
        ensures
            match r {
                Some(c) => *self is Create && *c == self->Create_0,
                None => !(*self is Create),
            },
    {
        match self {
            Record::Create(create_record) => Some(create_record),
            _ => None,
        }
    }

    /// Returns the emitted event record if `self` is one and otherwise `None`.
    pub fn emitted_event(&self) -> (r: Option<&EmitEventRecord>)
        ensures
            match r {
                Some(c) => *self is EmitEvent && *c == self->EmitEvent_0,
                None => !(*self is EmitEvent),
            },
    {
        match self {
            Record::EmitEvent(emitted_event) => Some(emitted_event),
            _ => None,
        }
    }

    /// Returns the runtime invocation record if `self` is one and otherwise `None`.
    pub fn runtime_invokation(&self) -> (r: Option<&InvokeRuntimeRecord>)
        ensures
            match r {
                Some(c) => *self is InvokeRuntime && *c == self->InvokeRuntime_0,
                None => !(*self is InvokeRuntime),
            },
    {
        match self {
            Record::InvokeRuntime(runtime_invokation) => Some(runtime_invokation),
            _ => None,
        }
    }
}

} // verus!
