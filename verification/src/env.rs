//! The in-memory model of the execution environment: accounts, blocks,
//! execution contexts, and everything a single contract execution can
//! observe of the chain.
//!
//! The environment is an explicit value handed to the API functions of
//! [`crate::api`] and [`crate::test_api`]; nothing here is global state.

use vstd::prelude::*;
use crate::host::{dup_bytes, Host};
use crate::record::Record;
use crate::types::AccountId;

verus! {

/// The input an executed contract receives: the four-byte selector of the
/// called message followed by its SCALE-encoded arguments.
#[derive(Debug)]
pub struct CallData {
    /// The raw input bytes; the first four are the selector.
    pub bytes: Vec<u8>,
}

impl CallData {
    /// Wraps raw input bytes.
    pub fn new(bytes: Vec<u8>) -> (r: CallData)
        ensures
            r.bytes@ == bytes@,
    {
        CallData { bytes }
    }

    /// A byte-for-byte copy of this input.
    pub fn duplicate(&self) -> (r: CallData)
        ensures
            r.bytes@ == self.bytes@,
    {
        CallData { bytes: dup_bytes(&self.bytes) }
    }
}

/// The parameters of a call to another contract.
#[derive(Debug)]
pub struct CallParams {
    /// The called contract.
    pub callee: AccountId,
    /// The gas limit for the call.
    pub gas_limit: u64,
    /// The endowment transferred with the call.
    pub endowment: u64,
    /// The input handed to the called contract.
    pub input_data: CallData,
}

/// The parameters of a contract instantiation.
#[derive(Debug)]
pub struct InstantiateParams {
    /// The code hash of the instantiated contract.
    pub code_hash: crate::types::Hash,
    /// The gas limit for the instantiation.
    pub gas_limit: u64,
    /// The endowment of the new contract.
    pub endowment: u64,
    /// The constructor input.
    pub input_data: CallData,
}

/// The data behind a single instance of a contract call.
#[derive(Debug)]
pub struct ExecContext {
    /// The account that called the executed contract.
    pub caller: AccountId,
    /// The executed contract itself.
    pub callee: AccountId,
    /// The gas limit of this execution.
    pub gas_limit: u64,
    /// The balance transferred with the call.
    pub transferred: u64,
    /// The input of the call.
    pub call_data: CallData,
}

/// The contract-specific half of an account.
#[derive(Debug)]
pub struct ContractData {
    /// The rent allowance of the contract.
    pub rent_allowance: u64,
    /// The hash of the contract's code.
    pub code_hash: crate::types::Hash,
    /// The contract's own storage space, with its access meters.
    pub storage: Host,
}

/// One account of the chain: a plain user account, or a contract account
/// when `contract` is present.
#[derive(Debug)]
pub struct Account {
    /// The balance of the account.
    pub balance: u64,
    /// The contract data, for contract accounts.
    pub contract: Option<ContractData>,
}

/// An event emitted during an execution.
#[derive(Debug)]
pub struct EmittedEvent {
    /// The topics the event was published under.
    pub topics: Vec<crate::types::Hash>,
    /// The event's encoded data.
    pub data: Vec<u8>,
}

/// The current block.
#[derive(Debug)]
pub struct Block {
    /// The block number.
    pub number: u64,
    /// The block timestamp.
    pub timestamp: u64,
    /// The block's entropy, which seeds [`crate::api::random`].
    pub entropy: crate::types::Hash,
}

/// The chain-wide constants of the emulated chain.
#[derive(Debug, Clone, Copy, PartialEq, Eq, Structural)]
pub struct ChainSpec {
    /// The price of one unit of gas.
    pub gas_price: u64,
    /// The balance every account must keep to stay alive.
    pub minimum_balance: u64,
    /// The deposit a tombstone holds.
    pub tombstone_deposit: u64,
    /// How far `advance_block` moves the timestamp.
    pub block_time: u64,
}

pub(crate) open spec fn accounts_has(s: Seq<(AccountId, Account)>, id: AccountId) -> bool {
    exists|i: int| 0 <= i < s.len() && s[i].0 == id
}

pub(crate) open spec fn accounts_at(s: Seq<(AccountId, Account)>, id: AccountId) -> Account {
    s[choose|i: int| 0 <= i < s.len() && s[i].0 == id].1
}

/// The account database: each existing account under its ID.
#[derive(Debug)]
pub struct AccountsDb {
    items: Vec<(AccountId, Account)>,
}

impl AccountsDb {
    /// Each account ID occupies at most one entry.
    pub closed spec fn wf(self) -> bool {
        forall|i: int, j: int|
            0 <= i < j < self.items@.len() ==> self.items@[i].0 != self.items@[j].0
    }

    /// The accounts by ID.
    pub closed spec fn view(self) -> Map<AccountId, Account> {
        Map::new(
            |id: AccountId| accounts_has(self.items@, id),
            |id: AccountId| accounts_at(self.items@, id),
        )
    }

    /// An empty database.
    pub fn new() -> (r: AccountsDb)
        ensures
            r.wf(),
            r.view() == Map::<AccountId, Account>::empty(),
    {
        let r = AccountsDb { items: Vec::new() };
        proof {
            assert(r.view() =~= Map::<AccountId, Account>::empty());
        }
        r
    }

    fn find(&self, id: &AccountId) -> (r: Option<usize>)
        requires
            self.wf(),
        ensures
            match r {
                Some(i) => i < self.items@.len() && self.items@[i as int].0 == *id
                    && self.view().contains_key(*id)
                    && self.view()[*id] == self.items@[i as int].1,
                None => !self.view().contains_key(*id),
            },
    {
        let n = self.items.len();
        let mut i: usize = 0;
        while i < n
            invariant
                n == self.items@.len(),
                i <= n,
                self.wf(),
                forall|j: int| 0 <= j < i ==> self.items@[j].0 != *id,
            decreases n - i,
        {
            if self.items[i].0 == *id {
                proof {
                    let w = choose|w: int| 0 <= w < self.items@.len()
                        && self.items@[w].0 == *id;
                    assert(w == i);
                }
                return Some(i);
            }
            i += 1;
        }
        None
    }

    /// Borrows the account under `id`, if it exists.
    pub fn get(&self, id: &AccountId) -> (r: Option<&Account>)
        requires
            self.wf(),
        ensures
            match r {
                Some(a) => self.view().contains_key(*id) && *a == self.view()[*id],
                None => !self.view().contains_key(*id),
            },
    {
        match self.find(id) {
            Some(i) => Some(&self.items[i].1),
            None => None,
        }
    }

    /// Removes and returns the account under `id`, if it exists.
    pub fn take(&mut self, id: &AccountId) -> (r: Option<Account>)
        requires
            old(self).wf(),
        ensures
            final(self).wf(),
            final(self).view() == old(self).view().remove(*id),
            match r {
                Some(a) => old(self).view().contains_key(*id) && a == old(self).view()[*id],
                None => !old(self).view().contains_key(*id),
            },
    {
        let ghost pre = self.items@;
        match self.find(id) {
            Some(i) => {
                let pair = self.items.swap_remove(i);
                proof {
                    let post = self.items@;
                    assert forall|k: AccountId| accounts_has(post, k)
                        <==> (accounts_has(pre, k) && k != *id) by {
                        if accounts_has(post, k) {
                            let w = choose|w: int| 0 <= w < post.len() && post[w].0 == k;
                            if w == i {
                                assert(pre[pre.len() - 1].0 == k);
                            } else {
                                assert(pre[w].0 == k);
                            }
                        }
                        if accounts_has(pre, k) && k != *id {
                            let w = choose|w: int| 0 <= w < pre.len() && pre[w].0 == k;
                            if w < post.len() {
                                if w == i {
                                    assert(post[i as int] == pre[pre.len() - 1]);
                                    assert(false);
                                } else {
                                    assert(post[w].0 == k);
                                }
                            } else {
                                assert(w == pre.len() - 1);
                                if i < post.len() {
                                    assert(post[i as int].0 == k);
                                } else {
                                    assert(i == w);
                                    assert(false);
                                }
                            }
                        }
                    }
                    assert forall|k: AccountId| #[trigger] accounts_has(post, k)
                        implies accounts_at(post, k) == accounts_at(pre, k) by {
                        let w = choose|w: int| 0 <= w < post.len() && post[w].0 == k;
                        let w2 = choose|w2: int| 0 <= w2 < pre.len() && pre[w2].0 == k;
                        if w == i {
                            assert(pre[pre.len() - 1].0 == k);
                            assert(w2 == pre.len() - 1);
                        } else {
                            assert(pre[w].0 == k);
                            assert(w2 == w);
                        }
                    }
                    assert(self.view() =~= old(self).view().remove(*id));
                }
                Some(pair.1)
            }
            None => {
                proof {
                    assert(self.view() =~= old(self).view().remove(*id));
                }
                None
            }
        }
    }

    /// Stores `account` under `id`, replacing what was there.
    pub fn put(&mut self, id: AccountId, account: Account)
        requires
            old(self).wf(),
        ensures
            final(self).wf(),
            final(self).view() == old(self).view().insert(id, account),
    {
        let ghost pre = self.items@;
        match self.find(&id) {
            Some(i) => {
                let mut pair = (id, account);
                vstd::pervasive::VecAdditionalExecFns::set_and_swap(
                    &mut self.items,
                    i,
                    &mut pair,
                );
                proof {
                    let post = self.items@;
                    assert(forall|j: int| 0 <= j < pre.len() ==> post[j].0 == pre[j].0);
                    assert forall|k: AccountId| accounts_has(post, k)
                        <==> accounts_has(pre, k) by {
                        if accounts_has(pre, k) {
                            let w = choose|w: int| 0 <= w < pre.len() && pre[w].0 == k;
                            assert(post[w].0 == k);
                        }
                        if accounts_has(post, k) {
                            let w = choose|w: int| 0 <= w < post.len() && post[w].0 == k;
                            assert(pre[w].0 == k);
                        }
                    }
                    assert forall|k: AccountId| #[trigger] accounts_has(post, k) && k != id
                        implies accounts_at(post, k) == accounts_at(pre, k) by {
                        let w1 = choose|w1: int| 0 <= w1 < post.len() && post[w1].0 == k;
                        let w2 = choose|w2: int| 0 <= w2 < pre.len() && pre[w2].0 == k;
                        assert(pre[w1].0 == k);
                        assert(w1 == w2);
                    }
                    assert(accounts_at(post, id) == post[i as int].1) by {
                        assert(post[i as int].0 == id);
                        let w = choose|w: int| 0 <= w < post.len() && post[w].0 == id;
                        assert(pre[w].0 == id);
                        assert(w == i);
                    }
                    assert(self.view() =~= old(self).view().insert(id, account));
                }
            }
            None => {
                self.items.push((id, account));
                proof {
                    let post = self.items@;
                    assert forall|k: AccountId| accounts_has(post, k)
                        <==> accounts_has(pre, k) || k == id by {
                        assert(post[pre.len() as int].0 == id);
                        if accounts_has(pre, k) {
                            let w = choose|w: int| 0 <= w < pre.len() && pre[w].0 == k;
                            assert(post[w].0 == k);
                        }
                        if accounts_has(post, k) && k != id {
                            let w = choose|w: int| 0 <= w < post.len() && post[w].0 == k;
                            assert(pre[w].0 == k);
                        }
                    }
                    assert forall|k: AccountId| #[trigger] accounts_has(pre, k)
                        implies accounts_at(post, k) == accounts_at(pre, k) by {
                        let w = choose|w: int| 0 <= w < pre.len() && pre[w].0 == k;
                        assert(post[w].0 == k);
                        let w1 = choose|w1: int| 0 <= w1 < post.len() && post[w1].0 == k;
                        let w2 = choose|w2: int| 0 <= w2 < pre.len() && pre[w2].0 == k;
                        assert(post[w1] == pre[w1]);
                    }
                    assert(accounts_at(post, id) == account) by {
                        let w = choose|w: int| 0 <= w < post.len() && post[w].0 == id;
                        assert(post[pre.len() as int].0 == id);
                        assert(w == pre.len());
                    }
                    assert(self.view() =~= old(self).view().insert(id, account));
                }
            }
        }
    }
}



/// The block a fresh environment starts in.
pub open spec fn initial_block() -> Block {
    Block {
        number: 0u64,
        timestamp: 0u64,
        entropy: crate::types::Hash { l0: 0u64, l1: 0u64, l2: 0u64, l3: 0u64 },
    }
}

/// The chain constants a fresh environment starts with: all zero, except
/// a six-second block time.
pub open spec fn initial_config() -> ChainSpec {
    ChainSpec { gas_price: 0u64, minimum_balance: 0u64, tombstone_deposit: 0u64, block_time: 6u64 }
}

/// Everything but the account database agrees between `pre` and `post`.
pub open spec fn same_except_accounts(pre: EnvInstance, post: EnvInstance) -> bool {
    &&& post.exec_stack == pre.exec_stack
    &&& post.block == pre.block
    &&& post.config == pre.config
    &&& post.records == pre.records
    &&& post.emitted_events == pre.emitted_events
    &&& post.console == pre.console
    &&& post.instantiate_count == pre.instantiate_count
}

/// Everything but the record log agrees between `pre` and `post`.
pub open spec fn same_except_records(pre: EnvInstance, post: EnvInstance) -> bool {
    &&& post.exec_stack == pre.exec_stack
    &&& post.accounts == pre.accounts
    &&& post.block == pre.block
    &&& post.config == pre.config
    &&& post.emitted_events == pre.emitted_events
    &&& post.console == pre.console
    &&& post.instantiate_count == pre.instantiate_count
}

/// Everything but the execution context stack agrees between `pre` and
/// `post`.
pub open spec fn same_except_stack(pre: EnvInstance, post: EnvInstance) -> bool {
    &&& post.accounts == pre.accounts
    &&& post.block == pre.block
    &&& post.config == pre.config
    &&& post.records == pre.records
    &&& post.emitted_events == pre.emitted_events
    &&& post.console == pre.console
    &&& post.instantiate_count == pre.instantiate_count
}

/// Everything but the current block agrees between `pre` and `post`.
pub open spec fn same_except_block(pre: EnvInstance, post: EnvInstance) -> bool {
    &&& post.exec_stack == pre.exec_stack
    &&& post.accounts == pre.accounts
    &&& post.config == pre.config
    &&& post.records == pre.records
    &&& post.emitted_events == pre.emitted_events
    &&& post.console == pre.console
    &&& post.instantiate_count == pre.instantiate_count
}

/// Everything but the event log agrees between `pre` and `post`.
pub open spec fn same_except_events(pre: EnvInstance, post: EnvInstance) -> bool {
    &&& post.exec_stack == pre.exec_stack
    &&& post.accounts == pre.accounts
    &&& post.block == pre.block
    &&& post.config == pre.config
    &&& post.records == pre.records
    &&& post.console == pre.console
    &&& post.instantiate_count == pre.instantiate_count
}

/// Everything but the console log agrees between `pre` and `post`.
pub open spec fn same_except_console(pre: EnvInstance, post: EnvInstance) -> bool {
    &&& post.exec_stack == pre.exec_stack
    &&& post.accounts == pre.accounts
    &&& post.block == pre.block
    &&& post.config == pre.config
    &&& post.records == pre.records
    &&& post.emitted_events == pre.emitted_events
    &&& post.instantiate_count == pre.instantiate_count
}

/// Everything but the accounts, the record log and the instantiation
/// counter agrees between `pre` and `post`.
pub open spec fn same_except_instantiation(pre: EnvInstance, post: EnvInstance) -> bool {
    &&& post.exec_stack == pre.exec_stack
    &&& post.block == pre.block
    &&& post.config == pre.config
    &&& post.emitted_events == pre.emitted_events
    &&& post.console == pre.console
}

/// One whole emulated environment: everything a single contract execution
/// can observe or change.
#[derive(Debug)]
pub struct EnvInstance {
    /// The stack of contract execution contexts; the last entry is the
    /// currently executed call.
    pub exec_stack: Vec<ExecContext>,
    /// All existing accounts.
    pub accounts: AccountsDb,
    /// The current block.
    pub block: Block,
    /// The chain-wide constants.
    pub config: ChainSpec,
    /// The records of operations the environment could only log.
    pub records: Vec<Record>,
    /// The events emitted so far, in order.
    pub emitted_events: Vec<EmittedEvent>,
    /// The lines printed to the environmental log, in order.
    pub console: Vec<String>,
    /// How many contracts have been instantiated; seeds fresh contract
    /// account IDs.
    pub instantiate_count: u64,
}

impl EnvInstance {
    /// The account database is well-formed.
    pub open spec fn wf(self) -> bool {
        self.accounts.wf()
    }

    /// The currently executed call, if any.
    pub open spec fn current(self) -> ExecContext
        recommends
            self.exec_stack@.len() > 0,
    {
        self.exec_stack@.last()
    }

    /// Whether some contract execution is underway.
    pub open spec fn has_context(self) -> bool {
        self.exec_stack@.len() > 0
    }

    /// A fresh environment: no account, no context, block zero, and all
    /// chain constants zero except a six-second block time.
    pub fn new() -> (r: EnvInstance)
        ensures
            r.wf(),
            !r.has_context(),
            r.accounts.view() == Map::<AccountId, Account>::empty(),
            r.block == initial_block(),
            r.config == initial_config(),
            r.records@.len() == 0,
            r.emitted_events@.len() == 0,
            r.console@.len() == 0,
            r.instantiate_count == 0,
    {
        EnvInstance {
            exec_stack: Vec::new(),
            accounts: AccountsDb::new(),
            block: Block {
                number: 0,
                timestamp: 0,
                entropy: crate::types::Hash { l0: 0, l1: 0, l2: 0, l3: 0 },
            },
            config: ChainSpec {
                gas_price: 0,
                minimum_balance: 0,
                tombstone_deposit: 0,
                block_time: 6,
            },
            records: Vec::new(),
            emitted_events: Vec::new(),
            console: Vec::new(),
            instantiate_count: 0,
        }
    }
}

} // verus!
