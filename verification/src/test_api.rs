//! Operations on the environment that only tests and harnesses use:
//! arranging contexts, accounts and blocks, and inspecting what an
//! execution did.

use vstd::prelude::*;
use crate::env::{
    same_except_accounts, same_except_block, same_except_stack, Account, CallData, ContractData,
    EmittedEvent, EnvInstance, ExecContext,
};
use crate::error::EnvError;
use crate::types::{uniform_account, uniform_account_spec, AccountId};

verus! {

/// The initial balance every default account starts with.
pub const DEFAULT_BALANCE: u64 = 1_000_000;

/// Pushes a contract execution context: the data behind a single
/// instance of a contract call. Together with [`pop_execution_context`]
/// this can be used to emulate nested calls.
pub fn push_execution_context(
    env: &mut EnvInstance,
    caller: AccountId,
    callee: AccountId,
    gas_limit: u64,
    endowment: u64,
    call_data: CallData,
)
    ensures
        final(env).wf() == old(env).wf(),
        same_except_stack(*old(env), *final(env)),
        final(env).exec_stack@.len() == old(env).exec_stack@.len() + 1,
        forall|i: int| 0 <= i < old(env).exec_stack@.len()
            ==> final(env).exec_stack@[i] == old(env).exec_stack@[i],
        final(env).current().caller == caller,
        final(env).current().callee == callee,
        final(env).current().gas_limit == gas_limit,
        final(env).current().transferred == endowment,
        final(env).current().call_data.bytes@ == call_data.bytes@,
{
    env.exec_stack.push(ExecContext {
        caller,
        callee,
        gas_limit,
        transferred: endowment,
        call_data,
    });
}

/// Pops the top contract execution context; without one, nothing
/// changes. Together with [`push_execution_context`] this can be used to
/// emulate nested calls.
pub fn pop_execution_context(env: &mut EnvInstance)
    ensures
        final(env).wf() == old(env).wf(),
        same_except_stack(*old(env), *final(env)),
        final(env).exec_stack@ == if old(env).has_context() {
            old(env).exec_stack@.drop_last()
        } else {
            old(env).exec_stack@
        },
{
    env.exec_stack.pop();
}

/// Sets the balance of the account to the given balance. The account may
/// be a user account or a contract account.
///
/// Fails when the account does not exist.
pub fn set_account_balance(
    env: &mut EnvInstance,
    account_id: AccountId,
    new_balance: u64,
) -> (r: Result<(), EnvError>)
    requires
        old(env).wf(),
    ensures
        final(env).wf(),
        same_except_accounts(*old(env), *final(env)),
        ({
            let accounts = old(env).accounts.view();
            if accounts.contains_key(account_id) {
                r == Ok::<(), EnvError>(()) && final(env).accounts.view() == accounts.insert(
                    account_id,
                    Account {
                        balance: new_balance,
                        contract: accounts[account_id].contract,
                    },
                )
            } else {
                r == Err::<(), EnvError>(EnvError::UnknownAccount)
                    && final(env).accounts.view() == accounts
            }
        }),
{
    match env.accounts.take(&account_id) {
        Some(account) => {
            env.accounts.put(account_id, Account {
                balance: new_balance,
                contract: account.contract,
            });
            proof {
                assert(final(env).accounts.view() =~= old(env).accounts.view().insert(
                    account_id,
                    final(env).accounts.view()[account_id],
                ));
            }
            Ok(())
        }
        None => Err(EnvError::UnknownAccount),
    }
}

/// Returns the balance of the account. For the executed contract's own
/// account this agrees with [`crate::api::balance`].
///
/// Fails when the account does not exist.
pub fn get_account_balance(env: &EnvInstance, account_id: AccountId) -> (r: Result<
    u64,
    EnvError,
>)
    requires
        env.wf(),
    ensures
        r == if env.accounts.view().contains_key(account_id) {
            Ok::<u64, EnvError>(env.accounts.view()[account_id].balance)
        } else {
            Err(EnvError::UnknownAccount)
        },
{
    match env.accounts.get(&account_id) {
        Some(account) => Ok(account.balance),
        None => Err(EnvError::UnknownAccount),
    }
}

/// Sets the rent allowance of the contract account to the given value.
///
/// Fails when the account does not exist or is no contract account.
pub fn set_contract_rent_allowance(
    env: &mut EnvInstance,
    account_id: AccountId,
    new_rent_allowance: u64,
) -> (r: Result<(), EnvError>)
    requires
        old(env).wf(),
    ensures
        final(env).wf(),
        same_except_accounts(*old(env), *final(env)),
        ({
            let accounts = old(env).accounts.view();
            if !accounts.contains_key(account_id) {
                r == Err::<(), EnvError>(EnvError::UnknownAccount)
                    && final(env).accounts.view() == accounts
            } else {
                match accounts[account_id].contract {
                    Some(c) => r == Ok::<(), EnvError>(()) && final(env).accounts.view()
                        == accounts.insert(
                        account_id,
                        Account {
                            balance: accounts[account_id].balance,
                            contract: Some(ContractData {
                                rent_allowance: new_rent_allowance,
                                ..c
                            }),
                        },
                    ),
                    None => r == Err::<(), EnvError>(EnvError::NotAContract)
                        && final(env).accounts.view() == accounts,
                }
            }
        }),
{
    match env.accounts.take(&account_id) {
        Some(account) => match account.contract {
            Some(c) => {
                env.accounts.put(account_id, Account {
                    balance: account.balance,
                    contract: Some(ContractData {
                        rent_allowance: new_rent_allowance,
                        ..c
                    }),
                });
                proof {
                    assert(final(env).accounts.view() =~= old(env).accounts.view().insert(
                        account_id,
                        final(env).accounts.view()[account_id],
                    ));
                }
                Ok(())
            }
            None => {
                env.accounts.put(account_id, account);
                proof {
                    assert(final(env).accounts.view() =~= old(env).accounts.view());
                }
                Err(EnvError::NotAContract)
            }
        },
        None => Err(EnvError::UnknownAccount),
    }
}

/// Returns the rent allowance of the contract account.
///
/// Fails when the account does not exist or is no contract account.
pub fn get_contract_rent_allowance(env: &EnvInstance, account_id: AccountId) -> (r: Result<
    u64,
    EnvError,
>)
    requires
        env.wf(),
    ensures
        r == if !env.accounts.view().contains_key(account_id) {
            Err::<u64, EnvError>(EnvError::UnknownAccount)
        } else {
            match env.accounts.view()[account_id].contract {
                Some(c) => Ok::<u64, EnvError>(c.rent_allowance),
                None => Err(EnvError::NotAContract),
            }
        },
{
    match env.accounts.get(&account_id) {
        Some(account) => match &account.contract {
            Some(c) => Ok(c.rent_allowance),
            None => Err(EnvError::NotAContract),
        },
        None => Err(EnvError::UnknownAccount),
    }
}

/// Sets the entropy hash of the current block, which controls what
/// [`crate::api::random`] returns.
pub fn set_block_entropy(env: &mut EnvInstance, entropy: crate::types::Hash) -> (r: Result<
    (),
    EnvError,
>)
    ensures
        r is Ok,
        final(env).wf() == old(env).wf(),
        same_except_block(*old(env), *final(env)),
        final(env).block.number == old(env).block.number,
        final(env).block.timestamp == old(env).block.timestamp,
        final(env).block.entropy == entropy,
{
    env.block.entropy = entropy;
    Ok(())
}

/// Returns the recorded emitted events in order.
pub fn recorded_events(env: &EnvInstance) -> (r: &Vec<EmittedEvent>)
    ensures
        r == &env.emitted_events,
{
    &env.emitted_events
}

/// Returns the contents of the past performed environmental prints in
/// order.
pub fn recorded_printlns(env: &EnvInstance) -> (r: &Vec<String>)
    ensures
        r == &env.console,
{
    &env.console
}

/// Advances the chain by a single block: the block number grows by one
/// and the timestamp by the chain's block time.
pub fn advance_block(env: &mut EnvInstance) -> (r: Result<(), EnvError>)
    requires
        old(env).block.number < u64::MAX,
        old(env).block.timestamp + old(env).config.block_time <= u64::MAX,
    ensures
        r is Ok,
        final(env).wf() == old(env).wf(),
        same_except_block(*old(env), *final(env)),
        final(env).block.number == old(env).block.number + 1,
        final(env).block.timestamp == old(env).block.timestamp + old(env).config.block_time,
        final(env).block.entropy == old(env).block.entropy,
{
    env.block.number = env.block.number + 1;
    env.block.timestamp = env.block.timestamp + env.config.block_time;
    Ok(())
}

/// The default accounts.
pub struct DefaultAccounts {
    pub alice: AccountId,
    pub bob: AccountId,
    pub charlie: AccountId,
    pub django: AccountId,
    pub eve: AccountId,
    pub frank: AccountId,
}

/// Returns the default accounts for testing purposes: Alice, Bob,
/// Charlie, Django, Eve and Frank, whose 32 address bytes all equal 1
/// through 6 respectively.
pub fn default_accounts() -> (r: Result<DefaultAccounts, EnvError>)
    ensures
        r matches Ok(a) && a.alice == uniform_account_spec(1)
            && a.bob == uniform_account_spec(2)
            && a.charlie == uniform_account_spec(3)
            && a.django == uniform_account_spec(4)
            && a.eve == uniform_account_spec(5)
            && a.frank == uniform_account_spec(6),
{
    Ok(DefaultAccounts {
        alice: uniform_account(1),
        bob: uniform_account(2),
        charlie: uniform_account(3),
        django: uniform_account(4),
        eve: uniform_account(5),
        frank: uniform_account(6),
    })
}

/// The account database holding exactly the six default accounts, each
/// with the default balance and no contract data.
pub open spec fn default_accounts_view() -> Map<AccountId, Account> {
    Map::<AccountId, Account>::empty().insert(
        uniform_account_spec(1),
        Account { balance: DEFAULT_BALANCE, contract: None },
    ).insert(
        uniform_account_spec(2),
        Account { balance: DEFAULT_BALANCE, contract: None },
    ).insert(
        uniform_account_spec(3),
        Account { balance: DEFAULT_BALANCE, contract: None },
    ).insert(
        uniform_account_spec(4),
        Account { balance: DEFAULT_BALANCE, contract: None },
    ).insert(
        uniform_account_spec(5),
        Account { balance: DEFAULT_BALANCE, contract: None },
    ).insert(
        uniform_account_spec(6),
        Account { balance: DEFAULT_BALANCE, contract: None },
    )
}

/// Initializes or resets the whole environment to its default state: a
/// fresh environment holding the six default accounts, each with the
/// default balance.
pub fn initialize_or_reset_as_default(env: &mut EnvInstance) -> (r: Result<(), EnvError>)
    ensures
        r is Ok,
        final(env).wf(),
        !final(env).has_context(),
        final(env).accounts.view() == default_accounts_view(),
        final(env).block == crate::env::initial_block(),
        final(env).config == crate::env::initial_config(),
        final(env).records@.len() == 0,
        final(env).emitted_events@.len() == 0,
        final(env).console@.len() == 0,
        final(env).instantiate_count == 0,
{
    let mut fresh = EnvInstance::new();
    fresh.accounts.put(uniform_account(1), Account {
        balance: DEFAULT_BALANCE,
        contract: None,
    });
    fresh.accounts.put(uniform_account(2), Account {
        balance: DEFAULT_BALANCE,
        contract: None,
    });
    fresh.accounts.put(uniform_account(3), Account {
        balance: DEFAULT_BALANCE,
        contract: None,
    });
    fresh.accounts.put(uniform_account(4), Account {
        balance: DEFAULT_BALANCE,
        contract: None,
    });
    fresh.accounts.put(uniform_account(5), Account {
        balance: DEFAULT_BALANCE,
        contract: None,
    });
    fresh.accounts.put(uniform_account(6), Account {
        balance: DEFAULT_BALANCE,
        contract: None,
    });
    *env = fresh;
    Ok(())
}

/// Returns the total number of reads and writes of the contract
/// account's storage.
///
/// Fails when the account does not exist or is no contract account.
pub fn get_contract_storage_rw(env: &EnvInstance, account_id: &AccountId) -> (r: Result<
    (u64, u64),
    EnvError,
>)
    requires
        env.wf(),
    ensures
        r == if !env.accounts.view().contains_key(*account_id) {
            Err::<(u64, u64), EnvError>(EnvError::UnknownAccount)
        } else {
            match env.accounts.view()[*account_id].contract {
                Some(c) => Ok::<(u64, u64), EnvError>((c.storage.reads(), c.storage.writes())),
                None => Err(EnvError::NotAContract),
            }
        },
{
    match env.accounts.get(account_id) {
        Some(account) => match &account.contract {
            Some(c) => Ok((c.storage.total_reads(), c.storage.total_writes())),
            None => Err(EnvError::NotAContract),
        },
        None => Err(EnvError::UnknownAccount),
    }
}

} // verus!
