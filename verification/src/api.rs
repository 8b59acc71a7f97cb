//! The public interface a contract has towards its execution environment.
//!
//! Each function takes the [`EnvInstance`] it acts on explicitly; the
//! functions observe or change exactly what their contracts state.

use vstd::prelude::*;
use crate::calls::{call_enc, Call};
use crate::env::{
    same_except_accounts, same_except_console, same_except_instantiation, same_except_records,
    Account, CallData, CallParams, ContractData, EnvInstance, InstantiateParams,
};
use crate::error::EnvError;
use crate::host::Host;
use crate::key::Key;
use crate::record::{
    CallContractRecord, CreateContractRecord, InvokeRuntimeRecord, Record,
    RestoreContractRecord,
};
use crate::types::AccountId;

verus! {

/// The account ID the environment assigns to the `n`-th instantiated
/// contract: the counter in the first limb, tagged by an all-ones last
/// limb.
pub open spec fn contract_account_id(n: u64) -> AccountId {
    AccountId { l0: n, l1: 0u64, l2: 0u64, l3: u64::MAX as u64 }
}

/// Returns the address of the caller of the executed contract.
///
/// Fails when no execution context has been pushed.
pub fn caller(env: &EnvInstance) -> (r: Result<AccountId, EnvError>)
    ensures
        r == if env.has_context() {
            Ok::<AccountId, EnvError>(env.current().caller)
        } else {
            Err(EnvError::UninitializedExecContext)
        },
{
    match env.exec_stack.last() {
        Some(ctx) => Ok(ctx.caller),
        None => Err(EnvError::UninitializedExecContext),
    }
}

/// Returns the balance transferred with the current contract execution.
///
/// Fails when no execution context has been pushed.
pub fn transferred_balance(env: &EnvInstance) -> (r: Result<u64, EnvError>)
    ensures
        r == if env.has_context() {
            Ok::<u64, EnvError>(env.current().transferred)
        } else {
            Err(EnvError::UninitializedExecContext)
        },
{
    match env.exec_stack.last() {
        Some(ctx) => Ok(ctx.transferred),
        None => Err(EnvError::UninitializedExecContext),
    }
}

/// Returns the current price for gas, a chain constant.
pub fn gas_price(env: &EnvInstance) -> (r: Result<u64, EnvError>)
    ensures
        r == Ok::<u64, EnvError>(env.config.gas_price),
{
    Ok(env.config.gas_price)
}

/// Returns the amount of gas left for the contract execution. The model
/// meters no gas, so the whole limit of the current context remains.
///
/// Fails when no execution context has been pushed.
pub fn gas_left(env: &EnvInstance) -> (r: Result<u64, EnvError>)
    ensures
        r == if env.has_context() {
            Ok::<u64, EnvError>(env.current().gas_limit)
        } else {
            Err(EnvError::UninitializedExecContext)
        },
{
    match env.exec_stack.last() {
        Some(ctx) => Ok(ctx.gas_limit),
        None => Err(EnvError::UninitializedExecContext),
    }
}

/// Returns the current block timestamp.
pub fn block_timestamp(env: &EnvInstance) -> (r: Result<u64, EnvError>)
    ensures
        r == Ok::<u64, EnvError>(env.block.timestamp),
{
    Ok(env.block.timestamp)
}

/// Returns the account ID of the executed contract.
///
/// Fails when no execution context has been pushed.
pub fn account_id(env: &EnvInstance) -> (r: Result<AccountId, EnvError>)
    ensures
        r == if env.has_context() {
            Ok::<AccountId, EnvError>(env.current().callee)
        } else {
            Err(EnvError::UninitializedExecContext)
        },
{
    match env.exec_stack.last() {
        Some(ctx) => Ok(ctx.callee),
        None => Err(EnvError::UninitializedExecContext),
    }
}

/// Returns the balance of the executed contract.
///
/// Fails when no execution context has been pushed or the executed
/// account does not exist.
pub fn balance(env: &EnvInstance) -> (r: Result<u64, EnvError>)
    requires
        env.wf(),
    ensures
        r == if !env.has_context() {
            Err::<u64, EnvError>(EnvError::UninitializedExecContext)
        } else if env.accounts.view().contains_key(env.current().callee) {
            Ok(env.accounts.view()[env.current().callee].balance)
        } else {
            Err(EnvError::UnknownAccount)
        },
{
    let callee = match env.exec_stack.last() {
        Some(ctx) => ctx.callee,
        None => {
            return Err(EnvError::UninitializedExecContext);
        }
    };
    match env.accounts.get(&callee) {
        Some(account) => Ok(account.balance),
        None => Err(EnvError::UnknownAccount),
    }
}

/// Returns the rent allowance of the executed contract.
///
/// Fails when no execution context has been pushed, the executed account
/// does not exist, or it is no contract account.
pub fn rent_allowance(env: &EnvInstance) -> (r: Result<u64, EnvError>)
    requires
        env.wf(),
    ensures
        r == if !env.has_context() {
            Err::<u64, EnvError>(EnvError::UninitializedExecContext)
        } else if !env.accounts.view().contains_key(env.current().callee) {
            Err(EnvError::UnknownAccount)
        } else {
            match env.accounts.view()[env.current().callee].contract {
                Some(c) => Ok(c.rent_allowance),
                None => Err(EnvError::NotAContract),
            }
        },
{
    let callee = match env.exec_stack.last() {
        Some(ctx) => ctx.callee,
        None => {
            return Err(EnvError::UninitializedExecContext);
        }
    };
    match env.accounts.get(&callee) {
        Some(account) => match &account.contract {
            Some(c) => Ok(c.rent_allowance),
            None => Err(EnvError::NotAContract),
        },
        None => Err(EnvError::UnknownAccount),
    }
}

/// Returns the current block number.
pub fn block_number(env: &EnvInstance) -> (r: Result<u64, EnvError>)
    ensures
        r == Ok::<u64, EnvError>(env.block.number),
{
    Ok(env.block.number)
}

/// Returns the minimum balance of the contracts chain, a chain constant.
pub fn minimum_balance(env: &EnvInstance) -> (r: Result<u64, EnvError>)
    ensures
        r == Ok::<u64, EnvError>(env.config.minimum_balance),
{
    Ok(env.config.minimum_balance)
}

/// Returns the tombstone deposit of the contracts chain, a chain constant.
pub fn tombstone_deposit(env: &EnvInstance) -> (r: Result<u64, EnvError>)
    ensures
        r == Ok::<u64, EnvError>(env.config.tombstone_deposit),
{
    Ok(env.config.tombstone_deposit)
}

/// Sets the rent allowance of the executed contract to the new value.
/// Without a context, an executed account, and contract data on it,
/// nothing changes.
pub fn set_rent_allowance(env: &mut EnvInstance, new_value: u64)
    requires
        old(env).wf(),
    ensures
        final(env).wf(),
        same_except_accounts(*old(env), *final(env)),
        ({
            let pre = *old(env);
            if pre.has_context() && pre.accounts.view().contains_key(pre.current().callee)
                && pre.accounts.view()[pre.current().callee].contract is Some {
                final(env).accounts.view() == pre.accounts.view().insert(
                    pre.current().callee,
                    Account {
                        balance: pre.accounts.view()[pre.current().callee].balance,
                        contract: Some(ContractData {
                            rent_allowance: new_value,
                            ..pre.accounts.view()[pre.current().callee].contract->Some_0
                        }),
                    },
                )
            } else {
                final(env).accounts.view() == pre.accounts.view()
            }
        }),
{
    let callee = match env.exec_stack.last() {
        Some(ctx) => ctx.callee,
        None => {
            return;
        }
    };
    match env.accounts.take(&callee) {
        Some(account) => {
            match account.contract {
                Some(c) => {
                    env.accounts.put(callee, Account {
                        balance: account.balance,
                        contract: Some(ContractData { rent_allowance: new_value, ..c }),
                    });
                    proof {
                        assert(final(env).accounts.view() =~= old(env).accounts.view().insert(
                            callee,
                            final(env).accounts.view()[callee],
                        ));
                    }
                }
                None => {
                    env.accounts.put(callee, account);
                    proof {
                        assert(final(env).accounts.view() =~= old(env).accounts.view());
                    }
                }
            }
        }
        None => {
            proof {
                assert(final(env).accounts.view() =~= old(env).accounts.view());
            }
        }
    }
}

/// Invokes a call to the runtime. The model cannot dispatch it; the call
/// is recorded, in its encoded form, for later inspection.
pub fn invoke_runtime(env: &mut EnvInstance, params: &Call) -> (r: Result<(), EnvError>)
    ensures
        r is Ok,
        final(env).wf() == old(env).wf(),
        same_except_records(*old(env), *final(env)),
        final(env).records@.len() == old(env).records@.len() + 1,
        forall|i: int| 0 <= i < old(env).records@.len()
            ==> final(env).records@[i] == old(env).records@[i],
        final(env).records@.last() matches Record::InvokeRuntime(rec)
            && rec.encoded@ == call_enc(*params),
{
    let encoded = params.encode();
    env.records.push(Record::InvokeRuntime(InvokeRuntimeRecord::new(encoded)));
    Ok(())
}

/// Invokes a contract message. The model cannot execute contracts; the
/// call is recorded for later inspection.
pub fn invoke_contract(env: &mut EnvInstance, params: &CallParams) -> (r: Result<(), EnvError>)
    ensures
        r is Ok,
        final(env).wf() == old(env).wf(),
        same_except_records(*old(env), *final(env)),
        final(env).records@.len() == old(env).records@.len() + 1,
        forall|i: int| 0 <= i < old(env).records@.len()
            ==> final(env).records@[i] == old(env).records@[i],
        final(env).records@.last() matches Record::Call(rec)
            && rec.callee == params.callee
            && rec.gas_limit == params.gas_limit
            && rec.endowment == params.endowment
            && rec.input_data.bytes@ == params.input_data.bytes@,
{
    env.records.push(Record::Call(CallContractRecord::new(params)));
    Ok(())
}

/// Instantiates another contract: a fresh contract account is created
/// with the endowment as its balance and an empty storage, and the
/// instantiation is recorded.
pub fn instantiate_contract(
    env: &mut EnvInstance,
    params: &InstantiateParams,
) -> (r: Result<AccountId, EnvError>)
    requires
        old(env).wf(),
        old(env).instantiate_count < u64::MAX,
    ensures
        final(env).wf(),
        same_except_instantiation(*old(env), *final(env)),
        final(env).instantiate_count == old(env).instantiate_count + 1,
        ({
            let id = contract_account_id(old(env).instantiate_count);
            let created = final(env).accounts.view()[id];
            &&& r == Ok::<AccountId, EnvError>(id)
            &&& final(env).accounts.view() == old(env).accounts.view().insert(id, created)
            &&& created.balance == params.endowment
            &&& created.contract matches Some(c) && c.rent_allowance == 0
                && c.code_hash == params.code_hash
                && c.storage.wf()
                && c.storage.contents() == Map::<Key, Seq<u8>>::empty()
                && c.storage.reads() == 0 && c.storage.writes() == 0
        }),
        final(env).records@.len() == old(env).records@.len() + 1,
        forall|i: int| 0 <= i < old(env).records@.len()
            ==> final(env).records@[i] == old(env).records@[i],
        final(env).records@.last() matches Record::Create(rec)
            && rec.code_hash == params.code_hash
            && rec.gas_limit == params.gas_limit
            && rec.endowment == params.endowment
            && rec.input_data.bytes@ == params.input_data.bytes@,
{
    let count = env.instantiate_count;
    let id = AccountId { l0: count, l1: 0, l2: 0, l3: u64::MAX };
    env.records.push(Record::Create(CreateContractRecord::new(params)));
    env.accounts.put(id, Account {
        balance: params.endowment,
        contract: Some(ContractData {
            rent_allowance: 0,
            code_hash: params.code_hash,
            storage: Host::new(),
        }),
    });
    env.instantiate_count = count + 1;
    Ok(id)
}

/// Restores a smart contract in tombstone state. Restoration is deferred
/// to the end of the execution on a real chain; the model records the
/// request for later inspection.
pub fn restore_contract(
    env: &mut EnvInstance,
    account_id: AccountId,
    code_hash: crate::types::Hash,
    rent_allowance: u64,
    filtered_keys: &Vec<Key>,
)
    ensures
        final(env).wf() == old(env).wf(),
        same_except_records(*old(env), *final(env)),
        final(env).records@.len() == old(env).records@.len() + 1,
        forall|i: int| 0 <= i < old(env).records@.len()
            ==> final(env).records@[i] == old(env).records@[i],
        final(env).records@.last() matches Record::RestoreContract(rec)
            && rec.dest == account_id
            && rec.code_hash == code_hash
            && rec.rent_allowance == rent_allowance
            && rec.filtered_keys@ == filtered_keys@,
{
    env.records.push(Record::RestoreContract(RestoreContractRecord::new(
        &account_id,
        &code_hash,
        &rent_allowance,
        filtered_keys,
    )));
}

/// Terminates the existence of the currently executed smart contract:
/// the executed account is removed and its whole balance moves to the
/// beneficiary. The caller is expected to end the execution afterwards.
///
/// Fails when no execution context has been pushed, the executed account
/// does not exist, or the beneficiary's balance cannot take the amount.
pub fn terminate_contract(
    env: &mut EnvInstance,
    beneficiary: AccountId,
) -> (r: Result<(), EnvError>)
    requires
        old(env).wf(),
    ensures
        final(env).wf(),
        same_except_accounts(*old(env), *final(env)),
        ({
            let pre = *old(env);
            let accounts = pre.accounts.view();
            if !pre.has_context() {
                r == Err::<(), EnvError>(EnvError::UninitializedExecContext)
                    && final(env).accounts.view() == accounts
            } else {
                let callee = pre.current().callee;
                if !accounts.contains_key(callee) {
                    r == Err::<(), EnvError>(EnvError::UnknownAccount)
                        && final(env).accounts.view() == accounts
                } else if beneficiary == callee {
                    r == Ok::<(), EnvError>(())
                        && final(env).accounts.view() == accounts.remove(callee)
                } else if accounts.contains_key(beneficiary)
                    && accounts[beneficiary].balance + accounts[callee].balance > u64::MAX {
                    r == Err::<(), EnvError>(EnvError::TransferCallFailed)
                        && final(env).accounts.view() == accounts
                } else {
                    r == Ok::<(), EnvError>(()) && final(env).accounts.view()
                        == accounts.remove(callee).insert(
                        beneficiary,
                        Account {
                            balance: (accounts[callee].balance + if accounts.contains_key(
                                beneficiary,
                            ) {
                                accounts[beneficiary].balance
                            } else {
                                0
                            }) as u64,
                            contract: if accounts.contains_key(beneficiary) {
                                accounts[beneficiary].contract
                            } else {
                                None
                            },
                        },
                    )
                }
            }
        }),
{
    let callee = match env.exec_stack.last() {
        Some(ctx) => ctx.callee,
        None => {
            return Err(EnvError::UninitializedExecContext);
        }
    };
    let callee_balance = match env.accounts.get(&callee) {
        Some(a) => a.balance,
        None => {
            return Err(EnvError::UnknownAccount);
        }
    };
    if beneficiary == callee {
        env.accounts.take(&callee);
        return Ok(());
    }
    match env.accounts.get(&beneficiary) {
        Some(b) => {
            if b.balance > u64::MAX - callee_balance {
                return Err(EnvError::TransferCallFailed);
            }
        }
        None => {}
    }
    env.accounts.take(&callee);
    match env.accounts.take(&beneficiary) {
        Some(b) => {
            env.accounts.put(beneficiary, Account {
                balance: b.balance + callee_balance,
                contract: b.contract,
            });
            proof {
                assert(final(env).accounts.view() =~= old(env).accounts.view().remove(
                    callee,
                ).insert(beneficiary, final(env).accounts.view()[beneficiary]));
            }
        }
        None => {
            env.accounts.put(beneficiary, Account { balance: callee_balance, contract: None });
            proof {
                assert(final(env).accounts.view() =~= old(env).accounts.view().remove(
                    callee,
                ).insert(beneficiary, final(env).accounts.view()[beneficiary]));
            }
        }
    }
    Ok(())
}

/// Transfers value from the executed contract to the destination account,
/// creating the destination when it does not exist yet.
///
/// Fails when no execution context has been pushed, the executed account
/// does not exist, its balance cannot cover the value, or the
/// destination's balance cannot take it.
pub fn transfer(
    env: &mut EnvInstance,
    destination: AccountId,
    value: u64,
) -> (r: Result<(), EnvError>)
    requires
        old(env).wf(),
    ensures
        final(env).wf(),
        same_except_accounts(*old(env), *final(env)),
        ({
            let pre = *old(env);
            let accounts = pre.accounts.view();
            if !pre.has_context() {
                r == Err::<(), EnvError>(EnvError::UninitializedExecContext)
                    && final(env).accounts.view() == accounts
            } else {
                let src = pre.current().callee;
                if !accounts.contains_key(src) {
                    r == Err::<(), EnvError>(EnvError::UnknownAccount)
                        && final(env).accounts.view() == accounts
                } else if accounts[src].balance < value {
                    r == Err::<(), EnvError>(EnvError::TransferCallFailed)
                        && final(env).accounts.view() == accounts
                } else if destination == src {
                    r == Ok::<(), EnvError>(()) && final(env).accounts.view() == accounts
                } else if accounts.contains_key(destination)
                    && accounts[destination].balance + value > u64::MAX {
                    r == Err::<(), EnvError>(EnvError::TransferCallFailed)
                        && final(env).accounts.view() == accounts
                } else {
                    r == Ok::<(), EnvError>(()) && final(env).accounts.view() == accounts.insert(
                        src,
                        Account {
                            balance: (accounts[src].balance - value) as u64,
                            contract: accounts[src].contract,
                        },
                    ).insert(
                        destination,
                        Account {
                            balance: (value + if accounts.contains_key(destination) {
                                accounts[destination].balance
                            } else {
                                0
                            }) as u64,
                            contract: if accounts.contains_key(destination) {
                                accounts[destination].contract
                            } else {
                                None
                            },
                        },
                    )
                }
            }
        }),
{
    let src = match env.exec_stack.last() {
        Some(ctx) => ctx.callee,
        None => {
            return Err(EnvError::UninitializedExecContext);
        }
    };
    let src_balance = match env.accounts.get(&src) {
        Some(a) => a.balance,
        None => {
            return Err(EnvError::UnknownAccount);
        }
    };
    if src_balance < value {
        return Err(EnvError::TransferCallFailed);
    }
    if destination == src {
        return Ok(());
    }
    match env.accounts.get(&destination) {
        Some(d) => {
            if d.balance > u64::MAX - value {
                return Err(EnvError::TransferCallFailed);
            }
        }
        None => {}
    }
    let src_account = match env.accounts.take(&src) {
        Some(a) => a,
        None => {
            proof {
                assert(false);
            }
            return Err(EnvError::UnknownAccount);
        }
    };
    env.accounts.put(src, Account {
        balance: src_balance - value,
        contract: src_account.contract,
    });
    match env.accounts.take(&destination) {
        Some(d) => {
            env.accounts.put(destination, Account {
                balance: d.balance + value,
                contract: d.contract,
            });
        }
        None => {
            env.accounts.put(destination, Account { balance: value, contract: None });
        }
    }
    proof {
        assert(final(env).accounts.view() =~= old(env).accounts.view().insert(
            src,
            final(env).accounts.view()[src],
        ).insert(destination, final(env).accounts.view()[destination]));
    }
    Ok(())
}

/// Returns the input to the executed contract: the selector and the
/// arguments of the called message.
///
/// Fails when no execution context has been pushed.
pub fn input(env: &EnvInstance) -> (r: Result<CallData, EnvError>)
    ensures
        match r {
            Ok(data) => env.has_context() && data.bytes@ == env.current().call_data.bytes@,
            Err(e) => !env.has_context() && e == EnvError::UninitializedExecContext,
        },
{
    match env.exec_stack.last() {
        Some(ctx) => Ok(ctx.call_data.duplicate()),
        None => Err(EnvError::UninitializedExecContext),
    }
}

/// Returns a random hash seed. The model draws no randomness: it returns
/// the current block's entropy whatever the subject, so within one block
/// the same subject always sees the same seed.
pub fn random(env: &EnvInstance, subject: &[u8]) -> (r: Result<crate::types::Hash, EnvError>)
    ensures
        r == Ok::<crate::types::Hash, EnvError>(env.block.entropy),
{
    let _ = subject;
    Ok(env.block.entropy)
}

/// Prints the given contents to the environmental log.
pub fn println(env: &mut EnvInstance, content: &str)
    ensures
        same_except_console(*old(env), *final(env)),
        final(env).wf() == old(env).wf(),
        final(env).console@.len() == old(env).console@.len() + 1,
        forall|i: int| 0 <= i < old(env).console@.len()
            ==> final(env).console@[i] == old(env).console@[i],
        final(env).console@.last()@ == content@,
{
    env.console.push(content.to_owned());
}

/// Emits an event with the given topics and data.
pub fn emit_event(env: &mut EnvInstance, topics: Vec<crate::types::Hash>, data: Vec<u8>)
    ensures
        crate::env::same_except_events(*old(env), *final(env)),
        final(env).wf() == old(env).wf(),
        final(env).emitted_events@.len() == old(env).emitted_events@.len() + 1,
        forall|i: int| 0 <= i < old(env).emitted_events@.len()
            ==> final(env).emitted_events@[i] == old(env).emitted_events@[i],
        final(env).emitted_events@.last().topics@ == topics@,
        final(env).emitted_events@.last().data@ == data@,
{
    env.emitted_events.push(crate::env::EmittedEvent { topics, data });
}


/// Whether the executed contract's storage can currently be addressed:
/// an execution context exists and its callee is a contract account.
pub open spec fn storage_addressable(env: EnvInstance) -> bool {
    &&& env.has_context()
    &&& env.accounts.view().contains_key(env.current().callee)
    &&& env.accounts.view()[env.current().callee].contract is Some
}

/// The executed contract's storage.
pub open spec fn callee_storage(env: EnvInstance) -> Host
    recommends
        storage_addressable(env),
{
    env.accounts.view()[env.current().callee].contract->Some_0.storage
}

/// The callee's account after its storage changed to `s`; everything
/// else about the account stays.
pub open spec fn with_callee_storage(env: EnvInstance, s: Host) -> Account
    recommends
        storage_addressable(env),
{
    Account {
        balance: env.accounts.view()[env.current().callee].balance,
        contract: Some(ContractData {
            storage: s,
            ..env.accounts.view()[env.current().callee].contract->Some_0
        }),
    }
}

/// Writes the value to the executed contract's storage under the given
/// key: one metered host write. Without an addressable storage, nothing
/// changes.
pub fn set_contract_storage<V: crate::codec::Codec>(env: &mut EnvInstance, key: Key, value: &V)
    requires
        old(env).wf(),
        storage_addressable(*old(env)) ==> callee_storage(*old(env)).wf()
            && callee_storage(*old(env)).writes() < u64::MAX,
    ensures
        final(env).wf(),
        same_except_accounts(*old(env), *final(env)),
        ({
            let pre = *old(env);
            if storage_addressable(pre) {
                let s0 = callee_storage(pre);
                let s1 = callee_storage(*final(env));
                &&& final(env).accounts.view() == pre.accounts.view().insert(
                    pre.current().callee,
                    with_callee_storage(pre, s1),
                )
                &&& s1.wf()
                &&& s1.contents() == s0.contents().insert(key, value.encoding())
                &&& s1.reads() == s0.reads()
                &&& s1.writes() == s0.writes() + 1
            } else {
                final(env).accounts.view() == pre.accounts.view()
            }
        }),
{
    let callee = match env.exec_stack.last() {
        Some(ctx) => ctx.callee,
        None => {
            return;
        }
    };
    match env.accounts.take(&callee) {
        Some(account) => match account.contract {
            Some(mut c) => {
                let bytes = value.encode();
                c.storage.write(&key, bytes);
                env.accounts.put(callee, Account {
                    balance: account.balance,
                    contract: Some(c),
                });
                proof {
                    assert(final(env).accounts.view() =~= old(env).accounts.view().insert(
                        callee,
                        final(env).accounts.view()[callee],
                    ));
                }
            }
            None => {
                env.accounts.put(callee, account);
                proof {
                    assert(final(env).accounts.view() =~= old(env).accounts.view());
                }
            }
        },
        None => {
            proof {
                assert(final(env).accounts.view() =~= old(env).accounts.view());
            }
        }
    }
}

/// Returns the value stored under the given key in the executed
/// contract's storage, if any: one metered host read. `Some(Err(..))`
/// reports bytes that do not decode as an `R`; without an addressable
/// storage the result is `None` and nothing changes.
pub fn get_contract_storage<R: crate::codec::Codec>(env: &mut EnvInstance, key: Key) -> (r:
    Option<Result<R, EnvError>>)
    requires
        old(env).wf(),
        storage_addressable(*old(env)) ==> callee_storage(*old(env)).wf()
            && callee_storage(*old(env)).reads() < u64::MAX,
    ensures
        final(env).wf(),
        same_except_accounts(*old(env), *final(env)),
        ({
            let pre = *old(env);
            if storage_addressable(pre) {
                let s0 = callee_storage(pre);
                let s1 = callee_storage(*final(env));
                &&& final(env).accounts.view() == pre.accounts.view().insert(
                    pre.current().callee,
                    with_callee_storage(pre, s1),
                )
                &&& s1.wf()
                &&& s1.contents() == s0.contents()
                &&& s1.reads() == s0.reads() + 1
                &&& s1.writes() == s0.writes()
                &&& r == if s0.contents().contains_key(key) {
                    match R::decoded(s0.contents()[key]) {
                        Some(v) => Some(Ok::<R, EnvError>(v)),
                        None => Some(Err(EnvError::Decode)),
                    }
                } else {
                    None
                }
            } else {
                final(env).accounts.view() == pre.accounts.view() && r is None
            }
        }),
{
    let callee = match env.exec_stack.last() {
        Some(ctx) => ctx.callee,
        None => {
            return None;
        }
    };
    match env.accounts.take(&callee) {
        Some(account) => match account.contract {
            Some(mut c) => {
                let loaded = c.storage.read(&key);
                env.accounts.put(callee, Account {
                    balance: account.balance,
                    contract: Some(c),
                });
                proof {
                    assert(final(env).accounts.view() =~= old(env).accounts.view().insert(
                        callee,
                        final(env).accounts.view()[callee],
                    ));
                }
                match loaded {
                    Some(bytes) => match R::decode(&bytes) {
                        Some(v) => Some(Ok(v)),
                        None => Some(Err(EnvError::Decode)),
                    },
                    None => None,
                }
            }
            None => {
                env.accounts.put(callee, account);
                proof {
                    assert(final(env).accounts.view() =~= old(env).accounts.view());
                }
                None
            }
        },
        None => {
            proof {
                assert(final(env).accounts.view() =~= old(env).accounts.view());
            }
            None
        }
    }
}

/// Clears the executed contract's storage entry under the given key: one
/// metered host clear. Without an addressable storage, nothing changes.
pub fn clear_contract_storage(env: &mut EnvInstance, key: Key)
    requires
        old(env).wf(),
        storage_addressable(*old(env)) ==> callee_storage(*old(env)).wf()
            && callee_storage(*old(env)).writes() < u64::MAX,
    ensures
        final(env).wf(),
        same_except_accounts(*old(env), *final(env)),
        ({
            let pre = *old(env);
            if storage_addressable(pre) {
                let s0 = callee_storage(pre);
                let s1 = callee_storage(*final(env));
                &&& final(env).accounts.view() == pre.accounts.view().insert(
                    pre.current().callee,
                    with_callee_storage(pre, s1),
                )
                &&& s1.wf()
                &&& s1.contents() == s0.contents().remove(key)
                &&& s1.reads() == s0.reads()
                &&& s1.writes() == s0.writes() + 1
            } else {
                final(env).accounts.view() == pre.accounts.view()
            }
        }),
{
    let callee = match env.exec_stack.last() {
        Some(ctx) => ctx.callee,
        None => {
            return;
        }
    };
    match env.accounts.take(&callee) {
        Some(account) => match account.contract {
            Some(mut c) => {
                c.storage.clear(&key);
                env.accounts.put(callee, Account {
                    balance: account.balance,
                    contract: Some(c),
                });
                proof {
                    assert(final(env).accounts.view() =~= old(env).accounts.view().insert(
                        callee,
                        final(env).accounts.view()[callee],
                    ));
                }
            }
            None => {
                env.accounts.put(callee, account);
                proof {
                    assert(final(env).accounts.view() =~= old(env).accounts.view());
                }
            }
        },
        None => {
            proof {
                assert(final(env).accounts.view() =~= old(env).accounts.view());
            }
        }
    }
}

} // verus!
