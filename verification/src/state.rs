use vstd::prelude::*;

use crate::address::Address;
use crate::index::ids_in;
use crate::types::{ContractError, MembershipTier, MembershipToken};

verus! {

/// `ids` with every occurrence of `id` taken out, the rest in order.
pub open spec fn without(ids: Seq<u64>, id: u64) -> Seq<u64>
    decreases ids.len(),
{
    if ids.len() == 0 {
        ids
    } else {
        let rest = without(ids.drop_last(), id);
        if ids.last() == id {
            rest
        } else {
            rest.push(ids.last())
        }
    }
}

/// The contract's storage: the instance entries (admin, name, symbol, next
/// id) and the persistent entries (supply, tokens, owner lists, approvals,
/// operator flags). A missing supply reads as 0 everywhere, so it is held
/// as a plain number.
pub struct ContractState {
    pub admin: Option<Address>,
    pub name: Option<String>,
    pub symbol: Option<String>,
    pub next_id: Option<u64>,
    pub total_supply: u64,
    pub tokens: Map<u64, MembershipToken>,
    pub owner_tokens: Map<Seq<char>, Seq<u64>>,
    pub approvals: Map<u64, Address>,
    pub operators: Map<(Seq<char>, Seq<char>), bool>,
}

impl ContractState {
    /// Storage with nothing in it: before `initialize`.
    pub open spec fn empty() -> Self {
        ContractState {
            admin: None,
            name: None,
            symbol: None,
            next_id: None,
            total_supply: 0,
            tokens: Map::empty(),
            owner_tokens: Map::empty(),
            approvals: Map::empty(),
            operators: Map::empty(),
        }
    }

    /// The ids listed under `owner`, empty where nothing is stored.
    pub open spec fn owned(self, owner: Seq<char>) -> Seq<u64> {
        ids_in(self.owner_tokens, owner)
    }

    /// The operator flag for `(owner, operator)`, `false` where nothing is stored.
    pub open spec fn operator_flag(self, owner: Seq<char>, operator: Seq<char>) -> bool {
        self.operators.contains_key((owner, operator)) && self.operators[(owner, operator)]
    }

    /// A token is stored under `token_id` and has not expired at `ledger_sequence`.
    pub open spec fn valid_member(self, ledger_sequence: u32, token_id: u64) -> bool {
        self.tokens.contains_key(token_id) && !self.tokens[token_id].expired_at(ledger_sequence)
    }

    /// The owner lists with `token_id` taken out of `owner`'s list.
    pub open spec fn owner_tokens_without(self, owner: Seq<char>, token_id: u64) -> Map<
        Seq<char>,
        Seq<u64>,
    > {
        self.owner_tokens.insert(owner, without(self.owned(owner), token_id))
    }

    // ── initialize ──────────────────────────────────────────────────────
    pub open spec fn initialize_error(self) -> Option<ContractError> {
        if self.admin is Some {
            Some(ContractError::AlreadyInitialized)
        } else {
            None
        }
    }

    pub open spec fn after_initialize(self, admin: Address, name: String, symbol: String) -> Self {
        ContractState {
            admin: Some(admin),
            name: Some(name),
            symbol: Some(symbol),
            next_id: Some(1),
            total_supply: 0,
            ..self
        }
    }

    // ── transfer_admin ──────────────────────────────────────────────────
    pub open spec fn admin_error(self) -> Option<ContractError> {
        if self.admin is None {
            Some(ContractError::NotInitialized)
        } else {
            None
        }
    }

    pub open spec fn after_transfer_admin(self, new_admin: Address) -> Self {
        ContractState { admin: Some(new_admin), ..self }
    }

    // ── mint ────────────────────────────────────────────────────────────
    pub open spec fn mint_error(self) -> Option<ContractError> {
        if self.admin is None || self.next_id is None {
            Some(ContractError::NotInitialized)
        } else if self.next_id.unwrap() == u64::MAX || self.total_supply == u64::MAX {
            Some(ContractError::Overflow)
        } else {
            None
        }
    }

    /// The token that `mint` stores under the next id.
    pub open spec fn minted_token(
        self,
        ledger_sequence: u32,
        to: Address,
        tier: MembershipTier,
        metadata_uri: String,
        expires_at: u64,
        transferable: bool,
    ) -> MembershipToken {
        MembershipToken {
            token_id: self.next_id.unwrap(),
            owner: to,
            tier,
            issued_at: ledger_sequence as u64,
            expires_at,
            metadata_uri,
            transferable,
        }
    }

    pub open spec fn after_mint(
        self,
        ledger_sequence: u32,
        to: Address,
        tier: MembershipTier,
        metadata_uri: String,
        expires_at: u64,
        transferable: bool,
    ) -> Self {
        let id = self.next_id.unwrap();
        ContractState {
            tokens: self.tokens.insert(
                id,
                self.minted_token(ledger_sequence, to, tier, metadata_uri, expires_at, transferable),
            ),
            owner_tokens: self.owner_tokens.insert(to@, self.owned(to@).push(id)),
            next_id: Some((id + 1) as u64),
            total_supply: (self.total_supply + 1) as u64,
            ..self
        }
    }

    // ── transfer ────────────────────────────────────────────────────────
    /// `caller` may move the token: it owns it, is the address approved for
    /// it, or is an operator of its owner.
    pub open spec fn may_transfer(self, caller: Address, token_id: u64) -> bool {
        let owner = self.tokens[token_id].owner@;
        ||| owner == caller@
        ||| self.approvals.contains_key(token_id) && self.approvals[token_id]@ == caller@
        ||| self.operator_flag(owner, caller@)
    }

    pub open spec fn transfer_error(self, ledger_sequence: u32, from: Address, token_id: u64) -> Option<
        ContractError,
    > {
        if !self.tokens.contains_key(token_id) {
            Some(ContractError::TokenNotFound)
        } else if !self.tokens[token_id].transferable {
            Some(ContractError::Soulbound)
        } else if self.tokens[token_id].expired_at(ledger_sequence) {
            Some(ContractError::Expired)
        } else if !self.may_transfer(from, token_id) {
            Some(ContractError::NotApproved)
        } else {
            None
        }
    }

    /// The token leaves its owner's list for the end of `to`'s list, names
    /// `to` as owner, and loses its approval.
    pub open spec fn after_transfer(self, to: Address, token_id: u64) -> Self {
        let removed = self.owner_tokens_without(self.tokens[token_id].owner@, token_id);
        ContractState {
            tokens: self.tokens.insert(
                token_id,
                MembershipToken { owner: to, ..self.tokens[token_id] },
            ),
            owner_tokens: removed.insert(to@, ids_in(removed, to@).push(token_id)),
            approvals: self.approvals.remove(token_id),
            ..self
        }
    }

    // ── burn ────────────────────────────────────────────────────────────
    pub open spec fn burn_error(self, caller: Address, token_id: u64) -> Option<ContractError> {
        if !self.tokens.contains_key(token_id) {
            Some(ContractError::TokenNotFound)
        } else if self.admin is None {
            Some(ContractError::NotInitialized)
        } else if caller@ != self.admin.unwrap()@ && caller@ != self.tokens[token_id].owner@ {
            Some(ContractError::NotAdminNorOwner)
        } else {
            None
        }
    }

    pub open spec fn after_burn(self, token_id: u64) -> Self {
        ContractState {
            tokens: self.tokens.remove(token_id),
            owner_tokens: self.owner_tokens_without(self.tokens[token_id].owner@, token_id),
            approvals: self.approvals.remove(token_id),
            total_supply: if self.total_supply == 0 {
                0
            } else {
                (self.total_supply - 1) as u64
            },
            ..self
        }
    }

    // ── approve ─────────────────────────────────────────────────────────
    pub open spec fn approve_error(self, owner: Address, token_id: u64) -> Option<ContractError> {
        if !self.tokens.contains_key(token_id) {
            Some(ContractError::TokenNotFound)
        } else if self.tokens[token_id].owner@ != owner@ {
            Some(ContractError::NotOwner)
        } else {
            None
        }
    }

    pub open spec fn after_approve(self, approved: Address, token_id: u64) -> Self {
        ContractState { approvals: self.approvals.insert(token_id, approved), ..self }
    }

    // ── set_operator_approval ───────────────────────────────────────────
    pub open spec fn after_set_operator(self, owner: Address, operator: Address, approved: bool) -> Self {
        ContractState { operators: self.operators.insert((owner@, operator@), approved), ..self }
    }

    // ── upgrade_tier / extend_membership ────────────────────────────────
    pub open spec fn admin_token_error(self, token_id: u64) -> Option<ContractError> {
        if self.admin is None {
            Some(ContractError::NotInitialized)
        } else if !self.tokens.contains_key(token_id) {
            Some(ContractError::TokenNotFound)
        } else {
            None
        }
    }

    pub open spec fn after_upgrade_tier(self, token_id: u64, new_tier: MembershipTier) -> Self {
        ContractState {
            tokens: self.tokens.insert(
                token_id,
                MembershipToken { tier: new_tier, ..self.tokens[token_id] },
            ),
            ..self
        }
    }

    pub open spec fn after_extend_membership(self, token_id: u64, new_expires_at: u64) -> Self {
        ContractState {
            tokens: self.tokens.insert(
                token_id,
                MembershipToken { expires_at: new_expires_at, ..self.tokens[token_id] },
            ),
            ..self
        }
    }
}


/// One invocation of the contract, with its arguments; the ledger sequence
/// is that of the invocation where the call reads it.
pub enum Call {
    Initialize { admin: Address, name: String, symbol: String },
    TransferAdmin { new_admin: Address },
    Mint {
        ledger_sequence: u32,
        to: Address,
        tier: MembershipTier,
        metadata_uri: String,
        expires_at: u64,
        transferable: bool,
    },
    Transfer { ledger_sequence: u32, from: Address, to: Address, token_id: u64 },
    Burn { caller: Address, token_id: u64 },
    Approve { owner: Address, approved: Address, token_id: u64 },
    SetOperatorApproval { owner: Address, operator: Address, is_approved: bool },
    UpgradeTier { token_id: u64, new_tier: MembershipTier },
    ExtendMembership { token_id: u64, new_expires_at: u64 },
}

impl ContractState {
    /// The refusal that `call` meets on this storage, if any.
    pub open spec fn error_of(self, call: Call) -> Option<ContractError> {
        match call {
            Call::Initialize { .. } => self.initialize_error(),
            Call::TransferAdmin { .. } => self.admin_error(),
            Call::Mint { .. } => self.mint_error(),
            Call::Transfer { ledger_sequence, from, token_id, .. } => self.transfer_error(
                ledger_sequence,
                from,
                token_id,
            ),
            Call::Burn { caller, token_id } => self.burn_error(caller, token_id),
            Call::Approve { owner, token_id, .. } => self.approve_error(owner, token_id),
            Call::SetOperatorApproval { .. } => None,
            Call::UpgradeTier { token_id, .. } => self.admin_token_error(token_id),
            Call::ExtendMembership { token_id, .. } => self.admin_token_error(token_id),
        }
    }

    /// The storage after `call`: unchanged where the call is refused.
    pub open spec fn after(self, call: Call) -> Self {
        if self.error_of(call) is Some {
            self
        } else {
            match call {
                Call::Initialize { admin, name, symbol } => self.after_initialize(admin, name, symbol),
                Call::TransferAdmin { new_admin } => self.after_transfer_admin(new_admin),
                Call::Mint {
                    ledger_sequence,
                    to,
                    tier,
                    metadata_uri,
                    expires_at,
                    transferable,
                } => self.after_mint(ledger_sequence, to, tier, metadata_uri, expires_at, transferable),
                Call::Transfer { to, token_id, .. } => self.after_transfer(to, token_id),
                Call::Burn { token_id, .. } => self.after_burn(token_id),
                Call::Approve { approved, token_id, .. } => self.after_approve(approved, token_id),
                Call::SetOperatorApproval { owner, operator, is_approved } => self.after_set_operator(
                    owner,
                    operator,
                    is_approved,
                ),
                Call::UpgradeTier { token_id, new_tier } => self.after_upgrade_tier(token_id, new_tier),
                Call::ExtendMembership { token_id, new_expires_at } => self.after_extend_membership(
                    token_id,
                    new_expires_at,
                ),
            }
        }
    }

    /// The storage is consistent: ids come from the counter and key their
    /// token, the supply counts the tokens, every token is listed once under
    /// its owner and nowhere else, and approvals name stored tokens only.
    pub open spec fn consistent(self) -> bool {
        &&& self.admin is None ==> self.next_id is None
        &&& self.next_id matches Some(n) ==> n >= 1
        &&& self.tokens.dom().finite()
        &&& self.total_supply == self.tokens.len()
        &&& forall|id: u64| #[trigger]
            self.tokens.contains_key(id) ==> {
                &&& self.tokens[id].token_id == id
                &&& self.next_id matches Some(n) && 1 <= id < n
                &&& self.owned(self.tokens[id].owner@).contains(id)
            }
        &&& forall|a: Seq<char>, id: u64| #[trigger]
            self.owned(a).contains(id) ==> self.tokens.contains_key(id) && self.tokens[id].owner@
                == a
        &&& forall|a: Seq<char>| #[trigger] self.owned(a).no_duplicates()
        &&& forall|id: u64| #[trigger]
            self.approvals.contains_key(id) ==> self.tokens.contains_key(id)
    }
}


/// Adds `count(o)` to a running total; the step of `sum_over`.
pub open spec fn add_count(count: spec_fn(Seq<char>) -> nat) -> spec_fn(nat, Seq<char>) -> nat {
    |total: nat, o: Seq<char>| total + count(o)
}

/// The sum of `count` over a finite set of owners.
pub open spec fn sum_over(owners: Set<Seq<char>>, count: spec_fn(Seq<char>) -> nat) -> nat {
    owners.fold(0nat, add_count(count))
}

/// The storage after running `calls` one after another from `s`.
pub open spec fn run(s: ContractState, calls: Seq<Call>) -> ContractState
    decreases calls.len(),
{
    if calls.len() == 0 {
        s
    } else {
        run(s, calls.drop_last()).after(calls.last())
    }
}

/// How many of `calls`, run from `s`, are accepted mints.
pub open spec fn accepted_mints(s: ContractState, calls: Seq<Call>) -> nat
    decreases calls.len(),
{
    if calls.len() == 0 {
        0
    } else {
        let earlier = accepted_mints(s, calls.drop_last());
        if calls.last() is Mint && run(s, calls.drop_last()).error_of(calls.last()) is None {
            earlier + 1
        } else {
            earlier
        }
    }
}

/// How many of `calls`, run from `s`, are accepted burns.
pub open spec fn accepted_burns(s: ContractState, calls: Seq<Call>) -> nat
    decreases calls.len(),
{
    if calls.len() == 0 {
        0
    } else {
        let earlier = accepted_burns(s, calls.drop_last());
        if calls.last() is Burn && run(s, calls.drop_last()).error_of(calls.last()) is None {
            earlier + 1
        } else {
            earlier
        }
    }
}

/// The approval for `token_id` that the history `calls`, run from `s`,
/// leaves: the address named by the last accepted `approve` of the token,
/// unless an accepted transfer or burn of it came later; what `s` held if
/// no accepted call touched it.
pub open spec fn approval_history(s: ContractState, calls: Seq<Call>, token_id: u64) -> Option<
    Address,
>
    decreases calls.len(),
{
    if calls.len() == 0 {
        if s.approvals.contains_key(token_id) {
            Some(s.approvals[token_id])
        } else {
            None
        }
    } else {
        let earlier = approval_history(s, calls.drop_last(), token_id);
        if run(s, calls.drop_last()).error_of(calls.last()) is Some {
            earlier
        } else {
            match calls.last() {
                Call::Approve { approved, token_id: t, .. } => if t == token_id {
                    Some(approved)
                } else {
                    earlier
                },
                Call::Transfer { token_id: t, .. } => if t == token_id {
                    None
                } else {
                    earlier
                },
                Call::Burn { token_id: t, .. } => if t == token_id {
                    None
                } else {
                    earlier
                },
                _ => earlier,
            }
        }
    }
}

impl ContractState {
    /// The balance of each owner: the length of its list.
    pub open spec fn balances(self) -> spec_fn(Seq<char>) -> nat {
        |o: Seq<char>| self.owned(o).len()
    }

    /// The balances of the owners in `owners`, summed.
    pub open spec fn listed_count(self, owners: Set<Seq<char>>) -> nat {
        sum_over(owners, self.balances())
    }

    /// The approval stored for `token_id`, if any.
    pub open spec fn approval(self, token_id: u64) -> Option<Address> {
        if self.approvals.contains_key(token_id) {
            Some(self.approvals[token_id])
        } else {
            None
        }
    }
}

} // verus!
