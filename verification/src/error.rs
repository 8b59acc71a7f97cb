//! Errors of the environment layer.

use vstd::prelude::*;

verus! {

/// A descriptive error carrying a static message.
pub struct Error {
    msg: &'static str,
}

impl Error {
    /// Wraps a static message.
    pub fn new(msg: &'static str) -> (r: Error)
        ensures
            r.message() == msg@,
    {
        Error { msg }
    }

    /// The message this error describes.
    pub closed spec fn message(self) -> Seq<char> {
        self.msg@
    }

    /// Error description.
    pub fn what(&self) -> (r: &'static str)
        ensures
            r@ == self.message(),
    {
        self.msg
    }
}

/// Errors that can be encountered upon environmental interaction.
#[derive(Debug, Clone, Copy, PartialEq, Eq, Structural)]
pub enum EnvError {
    /// No contract execution context has been pushed.
    UninitializedExecContext,
    /// The account addressed by the operation does not exist.
    UnknownAccount,
    /// The addressed account exists but is no contract account.
    NotAContract,
    /// A value failed to decode properly.
    Decode,
    /// The call to another contract has trapped.
    ContractCallTrapped,
    /// A called contract returned a custom error code.
    ContractCallFailState(u8),
    /// The instantiation of another contract has trapped.
    ContractInstantiationTrapped,
    /// The instantiated contract returned a custom error code.
    ContractInstantiationFailState(u8),
    /// The queried runtime storage entry is missing.
    MissingRuntimeStorageEntry,
    /// The queried contract storage entry is missing.
    MissingContractStorageEntry,
    /// A call to transfer value from the contract failed.
    TransferCallFailed,
}

} // verus!
