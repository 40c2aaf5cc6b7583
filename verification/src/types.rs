use vstd::prelude::*;

use crate::address::Address;

verus! {

/// The tier of a membership, from lowest to highest.
#[derive(Clone, Copy, Debug, PartialEq, Eq, Structural)]
pub enum MembershipTier {
    Bronze,
    Silver,
    Gold,
    Platinum,
}

/// A membership token as it is stored under its id.
#[derive(Debug)]
pub struct MembershipToken {
    pub token_id: u64,
    pub owner: Address,
    pub tier: MembershipTier,
    /// Ledger sequence at which the token was minted.
    pub issued_at: u64,
    /// Last ledger sequence at which the token is valid; 0 means it never expires.
    pub expires_at: u64,
    /// The host string's bytes, one `char` per byte.
    pub metadata_uri: String,
    /// `false` for a soulbound token, which can never be transferred.
    pub transferable: bool,
}

impl MembershipToken {
    /// The token has expired at ledger `ledger_sequence`: it has an expiry and
    /// the ledger is past it.
    pub open spec fn expired_at(&self, ledger_sequence: u32) -> bool {
        self.expires_at != 0 && ledger_sequence as u64 > self.expires_at
    }
}

impl Clone for MembershipToken {
    fn clone(&self) -> (t: Self)
        ensures
            t == *self,
    {
        MembershipToken {
            token_id: self.token_id,
            owner: self.owner.clone(),
            tier: self.tier,
            issued_at: self.issued_at,
            expires_at: self.expires_at,
            metadata_uri: self.metadata_uri.clone(),
            transferable: self.transferable,
        }
    }
}

/// Why a call is refused. Each refusal leaves the storage as it was.
#[derive(Clone, Copy, Debug, PartialEq, Eq, Structural)]
pub enum ContractError {
    /// `initialize` on a contract that already has an admin.
    AlreadyInitialized,
    /// A call that reads the admin, name, symbol or id counter before `initialize`.
    NotInitialized,
    /// No token is stored under the id.
    TokenNotFound,
    /// The caller does not own the token.
    NotOwner,
    /// The token is soulbound.
    Soulbound,
    /// The token's expiry has passed.
    Expired,
    /// The caller is neither the owner nor approved for the token, nor an
    /// operator of its owner.
    NotApproved,
    /// The caller of a burn is neither the admin nor the token's owner.
    NotAdminNorOwner,
    /// The id counter or the supply would pass `u64::MAX`.
    Overflow,
}

impl ContractError {
    /// The text with which the contract reverts on this error.
    pub open spec fn spec_message(self) -> Seq<char> {
        match self {
            ContractError::AlreadyInitialized => "already initialized"@,
            ContractError::NotInitialized => "contract is not initialized"@,
            ContractError::TokenNotFound => "token not found"@,
            ContractError::NotOwner => "not the owner"@,
            ContractError::Soulbound => "token is soulbound – not transferable"@,
            ContractError::Expired => "membership has expired"@,
            ContractError::NotApproved => "caller is not owner nor approved"@,
            ContractError::NotAdminNorOwner => "caller is neither admin nor owner"@,
            ContractError::Overflow => "attempt to add with overflow"@,
        }
    }

    /// The text with which the contract reverts on this error.
    pub fn message(&self) -> (m: &'static str)
        ensures
            m@ == self.spec_message(),
    {
        match self {
            ContractError::AlreadyInitialized => "already initialized",
            ContractError::NotInitialized => "contract is not initialized",
            ContractError::TokenNotFound => "token not found",
            ContractError::NotOwner => "not the owner",
            ContractError::Soulbound => "token is soulbound – not transferable",
            ContractError::Expired => "membership has expired",
            ContractError::NotApproved => "caller is not owner nor approved",
            ContractError::NotAdminNorOwner => "caller is neither admin nor owner",
            ContractError::Overflow => "attempt to add with overflow",
        }
    }
}

/// What a successful call publishes for indexers.
#[derive(Debug)]
pub enum Event {
    /// Topics `("init", "contract")`, data: the admin.
    Initialized { admin: Address },
    /// Topics `("admin", "transfer")`, data: the new admin.
    AdminTransferred { new_admin: Address },
    /// Topics `("mint", token_id)`, data: the receiver.
    Minted { token_id: u64, to: Address },
    /// Topics `("transfer", token_id)`, data: `(from, to)`, where `from` is
    /// the owner the token left.
    Transferred { token_id: u64, from: Address, to: Address },
    /// Topics `("burn", token_id)`, data: the owner it was taken from.
    Burned { token_id: u64, owner: Address },
    /// Topics `("approve", token_id)`, data: the approved address.
    Approved { token_id: u64, approved: Address },
    /// Topics `("operator", approved)`, data: `(owner, operator)`.
    OperatorSet { is_approved: bool, owner: Address, operator: Address },
    /// Topics `("upgrade", token_id)`, data: the owner.
    TierUpgraded { token_id: u64, owner: Address },
    /// Topics `("extend", token_id)`, data: the new expiry.
    Extended { token_id: u64, new_expires_at: u64 },
}

/// A refused call: the error it reverts with, and the address whose
/// authorization the call demands before it reaches that refusal (the host
/// checks it first, so an unauthorized call reverts on the authorization).
#[derive(Debug)]
pub struct Refusal {
    pub signer: Option<Address>,
    pub error: ContractError,
}

/// What the host must do for a successful call: check the authorization of
/// `signer` (the call reverts without it) and publish `event`.
#[derive(Debug)]
pub struct Effect {
    pub signer: Address,
    pub event: Event,
}

} // verus!
