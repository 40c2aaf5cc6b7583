use std::collections::HashMap;

use vstd::prelude::*;

use crate::address::Address;
use crate::index::{OperatorTable, OwnerIndex};
use crate::state::{without, ContractState};
use crate::types::{ContractError, Effect, Event, MembershipTier, MembershipToken, Refusal};

verus! {

broadcast use vstd::std_specs::hash::group_hash_axioms;

/// The membership contract over its storage. Each call is a step from one
/// storage to the next: it either refuses with a `ContractError` and leaves
/// the storage as it was, or applies its change and hands back the
/// `Effect` (whose authorization the host must check, and which event it
/// publishes).
pub struct NftMembershipContract {
    admin: Option<Address>,
    name: Option<String>,
    symbol: Option<String>,
    next_id: Option<u64>,
    total_supply: u64,
    tokens: HashMap<u64, MembershipToken>,
    owner_tokens: OwnerIndex,
    approvals: HashMap<u64, Address>,
    operators: OperatorTable,
}

impl View for NftMembershipContract {
    type V = ContractState;

    closed spec fn view(&self) -> ContractState {
        ContractState {
            admin: self.admin,
            name: self.name,
            symbol: self.symbol,
            next_id: self.next_id,
            total_supply: self.total_supply,
            tokens: self.tokens@,
            owner_tokens: self.owner_tokens@,
            approvals: self.approvals@,
            operators: self.operators@,
        }
    }
}

impl NftMembershipContract {
    /// The internal tables are well formed.
    pub closed spec fn inv(&self) -> bool {
        &&& self.owner_tokens.wf()
        &&& self.operators.wf()
    }

    /// A contract whose storage is empty: not initialized, no tokens.
    pub fn new() -> (c: NftMembershipContract)
        ensures
            c.inv(),
            c@ == ContractState::empty(),
    {
        NftMembershipContract {
            admin: None,
            name: None,
            symbol: None,
            next_id: None,
            total_supply: 0,
            tokens: HashMap::new(),
            owner_tokens: OwnerIndex::new(),
            approvals: HashMap::new(),
            operators: OperatorTable::new(),
        }
    }

    // ── Initialisation ────────────────────────────────────────────────

    /// Initialise the contract: admin, name and symbol, ids from 1, supply 0.
    /// Refused once an admin is stored. The admin must authorize.
    pub fn initialize(&mut self, admin: Address, name: String, symbol: String) -> (r: Result<
        Effect,
        Refusal,
    >)
        requires
            old(self).inv(),
        ensures
            final(self).inv(),
            match r {
                Ok(effect) => {
                    &&& old(self)@.initialize_error() is None
                    &&& final(self)@ == old(self)@.after_initialize(admin, name, symbol)
                    &&& effect == (Effect { signer: admin, event: Event::Initialized { admin } })
                },
                Err(refusal) => {
                    &&& old(self)@.initialize_error() == Some(refusal.error)
                    &&& refusal.signer is None
                    &&& final(self)@ == old(self)@
                },
            },
    {
        if self.admin.is_some() {
            return Err(Refusal { signer: None, error: ContractError::AlreadyInitialized });
        }
        self.admin = Some(admin.clone());
        self.name = Some(name);
        self.symbol = Some(symbol);
        self.next_id = Some(1);
        self.total_supply = 0;
        Ok(Effect { signer: admin.clone(), event: Event::Initialized { admin } })
    }

    // ── Admin helpers ─────────────────────────────────────────────────

    fn get_admin(&self) -> (r: Result<Address, ContractError>)
        ensures
            r == match self@.admin {
                Some(a) => Ok(a),
                None => Err::<Address, ContractError>(ContractError::NotInitialized),
            },
    {
        match &self.admin {
            Some(a) => Ok(a.clone()),
            None => Err(ContractError::NotInitialized),
        }
    }

    /// The admin, whose authorization the admin-only calls demand first.
    fn require_admin(&self) -> (r: Result<Address, Refusal>)
        ensures
            match r {
                Ok(a) => self@.admin == Some(a),
                Err(refusal) => self@.admin is None && refusal.signer is None && refusal.error
                    == ContractError::NotInitialized,
            },
    {
        match self.get_admin() {
            Ok(a) => Ok(a),
            Err(e) => Err(Refusal { signer: None, error: e }),
        }
    }

    /// Transfer the admin role to `new_admin`. The current admin must authorize.
    pub fn transfer_admin(&mut self, new_admin: Address) -> (r: Result<Effect, Refusal>)
        requires
            old(self).inv(),
        ensures
            final(self).inv(),
            match r {
                Ok(effect) => {
                    &&& old(self)@.admin_error() is None
                    &&& final(self)@ == old(self)@.after_transfer_admin(new_admin)
                    &&& effect == (Effect {
                        signer: old(self)@.admin.unwrap(),
                        event: Event::AdminTransferred { new_admin },
                    })
                },
                Err(refusal) => {
                    &&& old(self)@.admin_error() == Some(refusal.error)
                    &&& refusal.signer is None
                    &&& final(self)@ == old(self)@
                },
            },
    {
        let admin = match self.require_admin() {
            Ok(a) => a,
            Err(refusal) => return Err(refusal),
        };
        self.admin = Some(new_admin.clone());
        Ok(Effect { signer: admin, event: Event::AdminTransferred { new_admin } })
    }

    // ── Minting ───────────────────────────────────────────────────────

    /// Mint a membership token to `to` under the next id, issued at
    /// `ledger_sequence`; `expires_at` 0 means it never expires. The admin
    /// must authorize. Returns the new id.
    pub fn mint(
        &mut self,
        ledger_sequence: u32,
        to: Address,
        tier: MembershipTier,
        metadata_uri: String,
        expires_at: u64,
        transferable: bool,
    ) -> (r: Result<(u64, Effect), Refusal>)
        requires
            old(self).inv(),
        ensures
            final(self).inv(),
            match r {
                Ok((token_id, effect)) => {
                    &&& old(self)@.mint_error() is None
                    &&& token_id == old(self)@.next_id.unwrap()
                    &&& final(self)@ == old(self)@.after_mint(
                        ledger_sequence,
                        to,
                        tier,
                        metadata_uri,
                        expires_at,
                        transferable,
                    )
                    &&& effect == (Effect {
                        signer: old(self)@.admin.unwrap(),
                        event: Event::Minted { token_id, to },
                    })
                },
                Err(refusal) => {
                    &&& old(self)@.mint_error() == Some(refusal.error)
                    &&& refusal.signer == old(self)@.admin
                    &&& final(self)@ == old(self)@
                },
            },
    {
        let admin = match self.require_admin() {
            Ok(a) => a,
            Err(refusal) => return Err(refusal),
        };
        let token_id = match self.next_id {
            Some(id) => id,
            None => return Err(Refusal { signer: Some(admin), error: ContractError::NotInitialized }),
        };
        if token_id == u64::MAX || self.total_supply == u64::MAX {
            return Err(Refusal { signer: Some(admin), error: ContractError::Overflow });
        }
        let issued_at = ledger_sequence as u64;
        let token = MembershipToken {
            token_id,
            owner: to.clone(),
            tier,
            issued_at,
            expires_at,
            metadata_uri,
            transferable,
        };
        self.tokens.insert(token_id, token);

        let mut owner_tokens = self.owner_tokens.ids_of(&to);
        owner_tokens.push(token_id);
        self.owner_tokens.set(&to, owner_tokens);

        self.next_id = Some(token_id + 1);
        self.total_supply = self.total_supply + 1;

        Ok((token_id, Effect { signer: admin, event: Event::Minted { token_id, to } }))
    }

    // ── Transfers ─────────────────────────────────────────────────────

    /// `from` moves a token from its owner to `to` at ledger
    /// `ledger_sequence`. `from` must own the token, be approved for it, or
    /// be an operator of its owner. Refused for a missing, soulbound or
    /// expired token and for any other caller; clears the token's approval.
    /// `from` must authorize.
    pub fn transfer(&mut self, ledger_sequence: u32, from: Address, to: Address, token_id: u64) -> (r:
        Result<Effect, Refusal>)
        requires
            old(self).inv(),
        ensures
            final(self).inv(),
            match r {
                Ok(effect) => {
                    &&& old(self)@.transfer_error(ledger_sequence, from, token_id) is None
                    &&& final(self)@ == old(self)@.after_transfer(to, token_id)
                    &&& effect == (Effect {
                        signer: from,
                        event: Event::Transferred {
                            token_id,
                            from: old(self)@.tokens[token_id].owner,
                            to,
                        },
                    })
                },
                Err(refusal) => {
                    &&& old(self)@.transfer_error(ledger_sequence, from, token_id) == Some(
                        refusal.error,
                    )
                    &&& refusal.signer == Some(from)
                    &&& final(self)@ == old(self)@
                },
            },
    {
        let mut token = match self.tokens.get(&token_id) {
            Some(t) => t.clone(),
            None => return Err(Refusal { signer: Some(from), error: ContractError::TokenNotFound }),
        };
        if !token.transferable {
            return Err(Refusal { signer: Some(from), error: ContractError::Soulbound });
        }
        if Self::is_expired(ledger_sequence, &token) {
            return Err(Refusal { signer: Some(from), error: ContractError::Expired });
        }

        // Check owner, approval or operator
        let approved_is_caller = match self.approvals.get(&token_id) {
            Some(a) => *a == from,
            None => false,
        };
        let is_operator = match self.operators.get(&token.owner, &from) {
            Some(flag) => flag,
            None => false,
        };
        if token.owner != from && !approved_is_caller && !is_operator {
            return Err(Refusal { signer: Some(from), error: ContractError::NotApproved });
        }

        let ghost before = self@;
        let owner = token.owner.clone();
        // Remove from the owner's list
        self.remove_token_from_owner(&owner, token_id);

        // Add to receiver's list
        let mut to_tokens = self.owner_tokens.ids_of(&to);
        to_tokens.push(token_id);
        self.owner_tokens.set(&to, to_tokens);

        // Clear approval
        self.approvals.remove(&token_id);

        // Update token owner
        token.owner = to.clone();
        self.tokens.insert(token_id, token);
        assert(self@.tokens =~= before.after_transfer(to, token_id).tokens);

        Ok(Effect { signer: from, event: Event::Transferred { token_id, from: owner, to } })
    }

    // ── Burning ───────────────────────────────────────────────────────

    /// `caller`, the admin or the token's owner, burns (revokes) a token: it
    /// leaves its owner's list, its approval is cleared and the supply drops
    /// by one (not below 0). `caller` must authorize.
    pub fn burn(&mut self, caller: Address, token_id: u64) -> (r: Result<Effect, Refusal>)
        requires
            old(self).inv(),
        ensures
            final(self).inv(),
            match r {
                Ok(effect) => {
                    &&& old(self)@.burn_error(caller, token_id) is None
                    &&& final(self)@ == old(self)@.after_burn(token_id)
                    &&& effect == (Effect {
                        signer: caller,
                        event: Event::Burned {
                            token_id,
                            owner: old(self)@.tokens[token_id].owner,
                        },
                    })
                },
                Err(refusal) => {
                    &&& old(self)@.burn_error(caller, token_id) == Some(refusal.error)
                    &&& refusal.signer is None
                    &&& final(self)@ == old(self)@
                },
            },
    {
        let token = match self.tokens.get(&token_id) {
            Some(t) => t.clone(),
            None => return Err(Refusal { signer: None, error: ContractError::TokenNotFound }),
        };
        let admin = match self.require_admin() {
            Ok(a) => a,
            Err(refusal) => return Err(refusal),
        };
        if caller != admin && caller != token.owner {
            return Err(Refusal { signer: None, error: ContractError::NotAdminNorOwner });
        }

        self.remove_token_from_owner(&token.owner, token_id);
        self.tokens.remove(&token_id);
        self.approvals.remove(&token_id);

        self.total_supply = self.total_supply.saturating_sub(1);

        Ok(Effect { signer: caller, event: Event::Burned { token_id, owner: token.owner } })
    }

    // ── Approvals ─────────────────────────────────────────────────────

    /// Approve `approved` to transfer a token of `owner` on the owner's
    /// behalf. `owner` must authorize.
    pub fn approve(&mut self, owner: Address, approved: Address, token_id: u64) -> (r: Result<
        Effect,
        Refusal,
    >)
        requires
            old(self).inv(),
        ensures
            final(self).inv(),
            match r {
                Ok(effect) => {
                    &&& old(self)@.approve_error(owner, token_id) is None
                    &&& final(self)@ == old(self)@.after_approve(approved, token_id)
                    &&& effect == (Effect {
                        signer: owner,
                        event: Event::Approved { token_id, approved },
                    })
                },
                Err(refusal) => {
                    &&& old(self)@.approve_error(owner, token_id) == Some(refusal.error)
                    &&& refusal.signer == Some(owner)
                    &&& final(self)@ == old(self)@
                },
            },
    {
        let token_owner_matches = match self.tokens.get(&token_id) {
            Some(t) => t.owner == owner,
            None => return Err(Refusal { signer: Some(owner), error: ContractError::TokenNotFound }),
        };
        if !token_owner_matches {
            return Err(Refusal { signer: Some(owner), error: ContractError::NotOwner });
        }
        self.approvals.insert(token_id, approved.clone());
        Ok(Effect { signer: owner, event: Event::Approved { token_id, approved } })
    }

    /// Set or unset `operator` for all tokens of `owner`: an operator may
    /// transfer any of them. `owner` must authorize.
    pub fn set_operator_approval(&mut self, owner: Address, operator: Address, approved: bool) -> (r:
        Effect)
        requires
            old(self).inv(),
        ensures
            final(self).inv(),
            final(self)@ == old(self)@.after_set_operator(owner, operator, approved),
            r == (Effect {
                signer: owner,
                event: Event::OperatorSet { is_approved: approved, owner, operator },
            }),
    {
        self.operators.set(&owner, &operator, approved);
        Effect {
            signer: owner.clone(),
            event: Event::OperatorSet { is_approved: approved, owner, operator },
        }
    }

    // ── Tier upgrade ──────────────────────────────────────────────────

    /// Set the tier of a token, up or down. The admin must authorize.
    pub fn upgrade_tier(&mut self, token_id: u64, new_tier: MembershipTier) -> (r: Result<
        Effect,
        Refusal,
    >)
        requires
            old(self).inv(),
        ensures
            final(self).inv(),
            match r {
                Ok(effect) => {
                    &&& old(self)@.admin_token_error(token_id) is None
                    &&& final(self)@ == old(self)@.after_upgrade_tier(token_id, new_tier)
                    &&& effect == (Effect {
                        signer: old(self)@.admin.unwrap(),
                        event: Event::TierUpgraded {
                            token_id,
                            owner: old(self)@.tokens[token_id].owner,
                        },
                    })
                },
                Err(refusal) => {
                    &&& old(self)@.admin_token_error(token_id) == Some(refusal.error)
                    &&& refusal.signer == old(self)@.admin
                    &&& final(self)@ == old(self)@
                },
            },
    {
        let admin = match self.require_admin() {
            Ok(a) => a,
            Err(refusal) => return Err(refusal),
        };
        let mut token = match self.tokens.get(&token_id) {
            Some(t) => t.clone(),
            None => return Err(Refusal { signer: Some(admin), error: ContractError::TokenNotFound }),
        };
        token.tier = new_tier;
        let owner = token.owner.clone();
        self.tokens.insert(token_id, token);
        Ok(Effect { signer: admin, event: Event::TierUpgraded { token_id, owner } })
    }

    /// Set the expiry of a token (0: never expires). The admin must authorize.
    pub fn extend_membership(&mut self, token_id: u64, new_expires_at: u64) -> (r: Result<
        Effect,
        Refusal,
    >)
        requires
            old(self).inv(),
        ensures
            final(self).inv(),
            match r {
                Ok(effect) => {
                    &&& old(self)@.admin_token_error(token_id) is None
                    &&& final(self)@ == old(self)@.after_extend_membership(token_id, new_expires_at)
                    &&& effect == (Effect {
                        signer: old(self)@.admin.unwrap(),
                        event: Event::Extended { token_id, new_expires_at },
                    })
                },
                Err(refusal) => {
                    &&& old(self)@.admin_token_error(token_id) == Some(refusal.error)
                    &&& refusal.signer == old(self)@.admin
                    &&& final(self)@ == old(self)@
                },
            },
    {
        let admin = match self.require_admin() {
            Ok(a) => a,
            Err(refusal) => return Err(refusal),
        };
        let mut token = match self.tokens.get(&token_id) {
            Some(t) => t.clone(),
            None => return Err(Refusal { signer: Some(admin), error: ContractError::TokenNotFound }),
        };
        token.expires_at = new_expires_at;
        self.tokens.insert(token_id, token);
        Ok(Effect { signer: admin, event: Event::Extended { token_id, new_expires_at } })
    }

    // ── Read-only queries ─────────────────────────────────────────────

    /// The name set at initialisation.
    pub fn name(&self) -> (r: Result<String, ContractError>)
        ensures
            r == match self@.name {
                Some(n) => Ok(n),
                None => Err::<String, ContractError>(ContractError::NotInitialized),
            },
    {
        match &self.name {
            Some(n) => Ok(n.clone()),
            None => Err(ContractError::NotInitialized),
        }
    }

    /// The symbol set at initialisation.
    pub fn symbol(&self) -> (r: Result<String, ContractError>)
        ensures
            r == match self@.symbol {
                Some(s) => Ok(s),
                None => Err::<String, ContractError>(ContractError::NotInitialized),
            },
    {
        match &self.symbol {
            Some(s) => Ok(s.clone()),
            None => Err(ContractError::NotInitialized),
        }
    }

    /// The current admin.
    pub fn admin(&self) -> (r: Result<Address, ContractError>)
        ensures
            r == match self@.admin {
                Some(a) => Ok(a),
                None => Err::<Address, ContractError>(ContractError::NotInitialized),
            },
    {
        self.get_admin()
    }

    /// The number of tokens minted and not burned.
    pub fn total_supply(&self) -> (r: u64)
        ensures
            r == self@.total_supply,
    {
        self.total_supply
    }

    /// The token stored under `token_id`.
    pub fn token_of(&self, token_id: u64) -> (r: Result<MembershipToken, ContractError>)
        ensures
            r == if self@.tokens.contains_key(token_id) {
                Ok(self@.tokens[token_id])
            } else {
                Err::<MembershipToken, ContractError>(ContractError::TokenNotFound)
            },
    {
        match self.tokens.get(&token_id) {
            Some(t) => Ok(t.clone()),
            None => Err(ContractError::TokenNotFound),
        }
    }

    /// The owner of the token stored under `token_id`.
    pub fn owner_of(&self, token_id: u64) -> (r: Result<Address, ContractError>)
        ensures
            r == if self@.tokens.contains_key(token_id) {
                Ok(self@.tokens[token_id].owner)
            } else {
                Err::<Address, ContractError>(ContractError::TokenNotFound)
            },
    {
        match self.tokens.get(&token_id) {
            Some(t) => Ok(t.owner.clone()),
            None => Err(ContractError::TokenNotFound),
        }
    }

    /// The ids listed under `owner`, in the order they arrived.
    pub fn tokens_of(&self, owner: Address) -> (r: Vec<u64>)
        requires
            self.inv(),
        ensures
            r@ == self@.owned(owner@),
    {
        self.owner_tokens.ids_of(&owner)
    }

    /// The number of ids listed under `owner`.
    pub fn balance_of(&self, owner: Address) -> (r: u64)
        requires
            self.inv(),
        ensures
            r == self@.owned(owner@).len(),
    {
        let tokens = self.owner_tokens.ids_of(&owner);
        tokens.len() as u64
    }

    /// The address approved for `token_id`, if any.
    pub fn get_approved(&self, token_id: u64) -> (r: Option<Address>)
        ensures
            r == if self@.approvals.contains_key(token_id) {
                Some(self@.approvals[token_id])
            } else {
                None
            },
    {
        match self.approvals.get(&token_id) {
            Some(a) => Some(a.clone()),
            None => None,
        }
    }

    /// Whether `operator` is set for all tokens of `owner`.
    pub fn is_approved_for_all(&self, owner: Address, operator: Address) -> (r: bool)
        requires
            self.inv(),
        ensures
            r == self@.operator_flag(owner@, operator@),
    {
        match self.operators.get(&owner, &operator) {
            Some(flag) => flag,
            None => false,
        }
    }

    /// Whether a token is stored under `token_id` and has not expired at
    /// ledger `ledger_sequence`.
    pub fn is_valid_member(&self, ledger_sequence: u32, token_id: u64) -> (r: bool)
        ensures
            r == self@.valid_member(ledger_sequence, token_id),
    {
        match self.tokens.get(&token_id) {
            None => false,
            Some(t) => !Self::is_expired(ledger_sequence, t),
        }
    }

    // ── Storage entries read back from the host ───────────────────────

    /// The id counter entry.
    pub fn next_id(&self) -> (r: Option<u64>)
        ensures
            r == self@.next_id,
    {
        self.next_id
    }

    /// Puts back the instance entries (admin, name, symbol, id counter).
    pub fn restore_instance(
        &mut self,
        admin: Option<Address>,
        name: Option<String>,
        symbol: Option<String>,
        next_id: Option<u64>,
    )
        requires
            old(self).inv(),
        ensures
            final(self).inv(),
            final(self)@ == (ContractState { admin, name, symbol, next_id, ..old(self)@ }),
    {
        self.admin = admin;
        self.name = name;
        self.symbol = symbol;
        self.next_id = next_id;
    }

    /// Puts back the supply entry.
    pub fn restore_total_supply(&mut self, total_supply: u64)
        requires
            old(self).inv(),
        ensures
            final(self).inv(),
            final(self)@ == (ContractState { total_supply, ..old(self)@ }),
    {
        self.total_supply = total_supply;
    }

    /// Puts back the token entry stored under `token_id`.
    pub fn restore_token(&mut self, token_id: u64, token: MembershipToken)
        requires
            old(self).inv(),
        ensures
            final(self).inv(),
            final(self)@ == (ContractState {
                tokens: old(self)@.tokens.insert(token_id, token),
                ..old(self)@
            }),
    {
        self.tokens.insert(token_id, token);
    }

    /// Puts back the list of ids stored under `owner`.
    pub fn restore_owner_tokens(&mut self, owner: Address, ids: Vec<u64>)
        requires
            old(self).inv(),
        ensures
            final(self).inv(),
            final(self)@ == (ContractState {
                owner_tokens: old(self)@.owner_tokens.insert(owner@, ids@),
                ..old(self)@
            }),
    {
        self.owner_tokens.set(&owner, ids);
    }

    /// Puts back the approval stored for `token_id`.
    pub fn restore_approval(&mut self, token_id: u64, approved: Address)
        requires
            old(self).inv(),
        ensures
            final(self).inv(),
            final(self)@ == (ContractState {
                approvals: old(self)@.approvals.insert(token_id, approved),
                ..old(self)@
            }),
    {
        self.approvals.insert(token_id, approved);
    }

    /// Puts back the operator flag stored for `(owner, operator)`.
    pub fn restore_operator(&mut self, owner: Address, operator: Address, approved: bool)
        requires
            old(self).inv(),
        ensures
            final(self).inv(),
            final(self)@ == (ContractState {
                operators: old(self)@.operators.insert((owner@, operator@), approved),
                ..old(self)@
            }),
    {
        self.operators.set(&owner, &operator, approved);
    }

    // ── Internal helpers ──────────────────────────────────────────────

    fn is_expired(ledger_sequence: u32, token: &MembershipToken) -> (r: bool)
        ensures
            r == token.expired_at(ledger_sequence),
    {
        if token.expires_at == 0 {
            return false;  // non-expiring
        }
        ledger_sequence as u64 > token.expires_at
    }

    fn remove_token_from_owner(&mut self, owner: &Address, token_id: u64)
        requires
            old(self).inv(),
        ensures
            final(self).inv(),
            final(self)@ == (ContractState {
                owner_tokens: old(self)@.owner_tokens_without(owner@, token_id),
                ..old(self)@
            }),
    {
        let tokens = self.owner_tokens.ids_of(owner);
        let mut new_tokens: Vec<u64> = Vec::new();
        let mut i: usize = 0;
        while i < tokens.len()
            invariant
                i <= tokens@.len(),
                new_tokens@ == without(tokens@.take(i as int), token_id),
            decreases tokens.len() - i,
        {
            let id = tokens[i];
            if id != token_id {
                new_tokens.push(id);
            }
            i = i + 1;
            assert(tokens@.take(i as int).drop_last() =~= tokens@.take(i - 1));
        }
        assert(tokens@.take(tokens.len() as int) =~= tokens@);
        self.owner_tokens.set(owner, new_tokens);
    }
}

} // verus!
