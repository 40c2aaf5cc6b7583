use vstd::prelude::*;

use crate::address::Address;
use crate::index::ids_in;
use crate::state::{
    accepted_burns, accepted_mints, add_count, approval_history, run, sum_over, without, Call,
    ContractState,
};
use crate::types::{MembershipTier, MembershipToken};

verus! {

broadcast use vstd::seq_lib::lemma_seq_contains_after_push;

// ── Owner lists ─────────────────────────────────────────────────────────

/// Taking `id` out of a list keeps exactly the other entries.
pub proof fn lemma_without_contains(ids: Seq<u64>, id: u64, x: u64)
    ensures
        without(ids, id).contains(x) <==> (ids.contains(x) && x != id),
    decreases ids.len(),
{
    if ids.len() > 0 {
        lemma_without_contains(ids.drop_last(), id, x);
        assert(ids =~= ids.drop_last().push(ids.last()));
    }
}

proof fn lemma_push_no_duplicates(ids: Seq<u64>, v: u64)
    requires
        ids.no_duplicates(),
        !ids.contains(v),
    ensures
        ids.push(v).no_duplicates(),
{
    let pushed = ids.push(v);
    assert forall|i: int, j: int|
        0 <= i < pushed.len() && 0 <= j < pushed.len() && i != j implies pushed[i] != pushed[j] by {
        if i == ids.len() {
            assert(ids.contains(ids[j]));
        } else if j == ids.len() {
            assert(ids.contains(ids[i]));
        }
    }
}

proof fn lemma_without_no_duplicates(ids: Seq<u64>, id: u64)
    requires
        ids.no_duplicates(),
    ensures
        without(ids, id).no_duplicates(),
    decreases ids.len(),
{
    if ids.len() > 0 {
        let front = ids.drop_last();
        assert(front.no_duplicates());
        lemma_without_no_duplicates(front, id);
        if ids.last() != id {
            lemma_without_contains(front, id, ids.last());
            if front.contains(ids.last()) {
                let k = choose|k: int| 0 <= k < front.len() && front[k] == ids.last();
                assert(ids[k] == ids[ids.len() - 1]);
            }
            lemma_push_no_duplicates(without(front, id), ids.last());
        }
    }
}

/// Taking out an id that is not listed leaves the list as it was.
pub proof fn lemma_without_absent(ids: Seq<u64>, id: u64)
    requires
        !ids.contains(id),
    ensures
        without(ids, id) == ids,
    decreases ids.len(),
{
    if ids.len() > 0 {
        let front = ids.drop_last();
        if front.contains(id) {
            let k = choose|k: int| 0 <= k < front.len() && front[k] == id;
            assert(ids[k] == id);
        }
        lemma_without_absent(front, id);
        assert(ids.last() != id);
        assert(ids =~= front.push(ids.last()));
    }
}

/// Taking a listed id out of a list without repeats shortens it by one.
pub proof fn lemma_without_len(ids: Seq<u64>, id: u64)
    requires
        ids.no_duplicates(),
        ids.contains(id),
    ensures
        without(ids, id).len() == ids.len() - 1,
    decreases ids.len(),
{
    let front = ids.drop_last();
    assert(front.no_duplicates());
    if ids.last() == id {
        if front.contains(id) {
            let k = choose|k: int| 0 <= k < front.len() && front[k] == id;
            assert(ids[k] == ids[ids.len() - 1]);
        }
        lemma_without_absent(front, id);
    } else {
        let k = choose|k: int| 0 <= k < ids.len() && ids[k] == id;
        assert(front[k] == id);
        lemma_without_len(front, id);
    }
}


// ── Consistency, call by call ───────────────────────────────────────────

proof fn lemma_initialize_keeps_consistent(
    s: ContractState,
    admin: Address,
    name: String,
    symbol: String,
)
    requires
        s.consistent(),
        s.initialize_error() is None,
    ensures
        s.after_initialize(admin, name, symbol).consistent(),
{
    assert(s.tokens.dom() =~= Set::<u64>::empty()) by {
        assert forall|id: u64| !s.tokens.dom().contains(id) by {
            if s.tokens.contains_key(id) {
                assert(s.next_id is Some);
            }
        }
    }
    let t = s.after_initialize(admin, name, symbol);
    assert(t.tokens.len() == 0);
    assert forall|a: Seq<char>, id: u64| #[trigger]
        t.owned(a).contains(id) implies t.tokens.contains_key(id) && t.tokens[id].owner@ == a by {
        assert(s.owned(a).contains(id));
    }
    assert forall|a: Seq<char>| #[trigger] t.owned(a).no_duplicates() by {
        assert(s.owned(a).no_duplicates());
    }
    assert forall|id: u64| #[trigger] t.approvals.contains_key(id) implies t.tokens.contains_key(
        id,
    ) by {
        assert(s.tokens.contains_key(id));
    }
}

proof fn lemma_transfer_admin_keeps_consistent(s: ContractState, new_admin: Address)
    requires
        s.consistent(),
        s.admin_error() is None,
    ensures
        s.after_transfer_admin(new_admin).consistent(),
{
    let t = s.after_transfer_admin(new_admin);
    assert forall|id: u64| #[trigger] t.tokens.contains_key(id) implies {
        &&& t.tokens[id].token_id == id
        &&& t.next_id matches Some(n) && 1 <= id < n
        &&& t.owned(t.tokens[id].owner@).contains(id)
    } by {
        assert(s.tokens.contains_key(id));
    }
    assert forall|a: Seq<char>, id: u64| #[trigger]
        t.owned(a).contains(id) implies t.tokens.contains_key(id) && t.tokens[id].owner@ == a by {
        assert(s.owned(a).contains(id));
    }
    assert forall|a: Seq<char>| #[trigger] t.owned(a).no_duplicates() by {
        assert(s.owned(a).no_duplicates());
    }
    assert forall|id: u64| #[trigger] t.approvals.contains_key(id) implies t.tokens.contains_key(
        id,
    ) by {
        assert(s.tokens.contains_key(id));
    }
}

proof fn lemma_mint_keeps_consistent(
    s: ContractState,
    ledger_sequence: u32,
    to: Address,
    tier: MembershipTier,
    metadata_uri: String,
    expires_at: u64,
    transferable: bool,
)
    requires
        s.consistent(),
        s.mint_error() is None,
    ensures
        !s.tokens.contains_key(s.next_id.unwrap()),
        s.after_mint(ledger_sequence, to, tier, metadata_uri, expires_at, transferable).consistent(),
{
    let n = s.next_id.unwrap();
    let t = s.after_mint(ledger_sequence, to, tier, metadata_uri, expires_at, transferable);
    if s.tokens.contains_key(n) {
        assert(n < n);
    }
    if s.owned(to@).contains(n) {
        assert(s.tokens.contains_key(n));
    }
    lemma_push_no_duplicates(s.owned(to@), n);
    assert(t.tokens.dom() =~= s.tokens.dom().insert(n));
    assert forall|id: u64| #[trigger] t.tokens.contains_key(id) implies {
        &&& t.tokens[id].token_id == id
        &&& t.next_id matches Some(m) && 1 <= id < m
        &&& t.owned(t.tokens[id].owner@).contains(id)
    } by {
        if id != n {
            assert(s.tokens.contains_key(id));
            let o = s.tokens[id].owner@;
            assert(s.owned(o).contains(id));
        }
    }
    assert forall|a: Seq<char>, id: u64| #[trigger]
        t.owned(a).contains(id) implies t.tokens.contains_key(id) && t.tokens[id].owner@ == a by {
        if a == to@ {
            if id != n {
                assert(s.owned(a).contains(id));
            }
        } else {
            assert(s.owned(a).contains(id));
        }
    }
    assert forall|a: Seq<char>| #[trigger] t.owned(a).no_duplicates() by {
        if a != to@ {
            assert(s.owned(a).no_duplicates());
        }
    }
    assert forall|id: u64| #[trigger] t.approvals.contains_key(id) implies t.tokens.contains_key(
        id,
    ) by {
        assert(s.tokens.contains_key(id));
    }
}

proof fn lemma_transfer_keeps_consistent(
    s: ContractState,
    ledger_sequence: u32,
    from: Address,
    to: Address,
    token_id: u64,
)
    requires
        s.consistent(),
        s.transfer_error(ledger_sequence, from, token_id) is None,
    ensures
        s.after_transfer(to, token_id).consistent(),
{
    let t = s.after_transfer(to, token_id);
    let owner = s.tokens[token_id].owner@;
    let removed = s.owner_tokens_without(owner, token_id);
    let dest = ids_in(removed, to@);
    assert(t.tokens.dom() =~= s.tokens.dom());
    assert(s.owned(owner).contains(token_id));
    lemma_without_no_duplicates(s.owned(owner), token_id);
    lemma_without_contains(s.owned(owner), token_id, token_id);
    if to@ != owner {
        if s.owned(to@).contains(token_id) {
            assert(s.tokens[token_id].owner@ == to@);
        }
        assert(dest == s.owned(to@));
        assert(s.owned(to@).no_duplicates());
    }
    lemma_push_no_duplicates(dest, token_id);
    assert forall|id: u64| #[trigger] t.tokens.contains_key(id) implies {
        &&& t.tokens[id].token_id == id
        &&& t.next_id matches Some(m) && 1 <= id < m
        &&& t.owned(t.tokens[id].owner@).contains(id)
    } by {
        if id != token_id {
            assert(s.tokens.contains_key(id));
            let o = s.tokens[id].owner@;
            assert(s.owned(o).contains(id));
            if o == owner {
                lemma_without_contains(s.owned(owner), token_id, id);
            }
        }
    }
    assert forall|a: Seq<char>, id: u64| #[trigger]
        t.owned(a).contains(id) implies t.tokens.contains_key(id) && t.tokens[id].owner@ == a by {
        if a == to@ {
            if id != token_id {
                assert(dest.contains(id));
                if a == owner {
                    lemma_without_contains(s.owned(owner), token_id, id);
                }
                assert(s.owned(a).contains(id));
            }
        } else if a == owner {
            lemma_without_contains(s.owned(owner), token_id, id);
            assert(s.owned(a).contains(id));
        } else {
            assert(s.owned(a).contains(id));
        }
    }
    assert forall|a: Seq<char>| #[trigger] t.owned(a).no_duplicates() by {
        if a != to@ && a != owner {
            assert(s.owned(a).no_duplicates());
        }
    }
    assert forall|id: u64| #[trigger] t.approvals.contains_key(id) implies t.tokens.contains_key(
        id,
    ) by {
        assert(s.tokens.contains_key(id));
    }
}

proof fn lemma_burn_keeps_consistent(s: ContractState, caller: Address, token_id: u64)
    requires
        s.consistent(),
        s.burn_error(caller, token_id) is None,
    ensures
        s.after_burn(token_id).consistent(),
{
    let t = s.after_burn(token_id);
    let owner = s.tokens[token_id].owner@;
    assert(t.tokens.dom() =~= s.tokens.dom().remove(token_id));
    assert(s.owned(owner).contains(token_id));
    lemma_without_no_duplicates(s.owned(owner), token_id);
    assert forall|id: u64| #[trigger] t.tokens.contains_key(id) implies {
        &&& t.tokens[id].token_id == id
        &&& t.next_id matches Some(m) && 1 <= id < m
        &&& t.owned(t.tokens[id].owner@).contains(id)
    } by {
        assert(s.tokens.contains_key(id));
        let o = s.tokens[id].owner@;
        assert(s.owned(o).contains(id));
        if o == owner {
            lemma_without_contains(s.owned(owner), token_id, id);
        }
    }
    assert forall|a: Seq<char>, id: u64| #[trigger]
        t.owned(a).contains(id) implies t.tokens.contains_key(id) && t.tokens[id].owner@ == a by {
        if a == owner {
            lemma_without_contains(s.owned(owner), token_id, id);
        }
        assert(s.owned(a).contains(id));
    }
    assert forall|a: Seq<char>| #[trigger] t.owned(a).no_duplicates() by {
        if a != owner {
            assert(s.owned(a).no_duplicates());
        }
    }
    assert forall|id: u64| #[trigger] t.approvals.contains_key(id) implies t.tokens.contains_key(
        id,
    ) by {
        assert(s.tokens.contains_key(id));
    }
}

proof fn lemma_token_update_keeps_consistent(s: ContractState, t: ContractState, token_id: u64)
    requires
        s.consistent(),
        s.tokens.contains_key(token_id),
        t == (ContractState {
            tokens: t.tokens,
            approvals: t.approvals,
            operators: t.operators,
            ..s
        }),
        t.tokens.dom() == s.tokens.dom(),
        forall|id: u64| #[trigger]
            t.tokens.contains_key(id) ==> t.tokens[id].token_id == s.tokens[id].token_id
                && t.tokens[id].owner == s.tokens[id].owner,
        forall|id: u64| #[trigger] t.approvals.contains_key(id) ==> s.tokens.contains_key(id),
    ensures
        t.consistent(),
{
    assert(t.tokens.dom() =~= s.tokens.dom());
    assert forall|id: u64| #[trigger] t.tokens.contains_key(id) implies {
        &&& t.tokens[id].token_id == id
        &&& t.next_id matches Some(m) && 1 <= id < m
        &&& t.owned(t.tokens[id].owner@).contains(id)
    } by {
        assert(s.tokens.contains_key(id));
    }
    assert forall|a: Seq<char>, id: u64| #[trigger]
        t.owned(a).contains(id) implies t.tokens.contains_key(id) && t.tokens[id].owner@ == a by {
        assert(s.owned(a).contains(id));
    }
    assert forall|a: Seq<char>| #[trigger] t.owned(a).no_duplicates() by {
        assert(s.owned(a).no_duplicates());
    }
}


// ── Laws ────────────────────────────────────────────────────────────────

/// Empty storage is consistent.
pub proof fn lemma_empty_is_consistent()
    ensures
        ContractState::empty().consistent(),
{
    let s = ContractState::empty();
    assert(s.tokens.dom() =~= Set::<u64>::empty());
    assert forall|a: Seq<char>| #[trigger] s.owned(a).no_duplicates() by {
        assert(s.owned(a) =~= Seq::<u64>::empty());
    }
}

/// Every call, accepted or refused, keeps the storage consistent.
pub proof fn lemma_call_keeps_consistent(s: ContractState, call: Call)
    requires
        s.consistent(),
    ensures
        s.after(call).consistent(),
{
    if s.error_of(call) is None {
        match call {
            Call::Initialize { admin, name, symbol } => {
                lemma_initialize_keeps_consistent(s, admin, name, symbol);
            },
            Call::TransferAdmin { new_admin } => {
                lemma_transfer_admin_keeps_consistent(s, new_admin);
            },
            Call::Mint { ledger_sequence, to, tier, metadata_uri, expires_at, transferable } => {
                lemma_mint_keeps_consistent(
                    s,
                    ledger_sequence,
                    to,
                    tier,
                    metadata_uri,
                    expires_at,
                    transferable,
                );
            },
            Call::Transfer { ledger_sequence, from, to, token_id } => {
                lemma_transfer_keeps_consistent(s, ledger_sequence, from, to, token_id);
            },
            Call::Burn { caller, token_id } => {
                lemma_burn_keeps_consistent(s, caller, token_id);
            },
            Call::Approve { approved, token_id, .. } => {
                lemma_token_update_keeps_consistent(s, s.after_approve(approved, token_id), token_id);
            },
            Call::SetOperatorApproval { owner, operator, is_approved } => {
                let t = s.after_set_operator(owner, operator, is_approved);
                assert(t.tokens.dom() =~= s.tokens.dom());
                assert forall|a: Seq<char>| #[trigger] t.owned(a).no_duplicates() by {
                    assert(s.owned(a).no_duplicates());
                }
                assert forall|a: Seq<char>, id: u64| #[trigger] t.owned(a).contains(id) implies t.tokens.contains_key(id) && t.tokens[id].owner@ == a by {
                    assert(s.owned(a).contains(id));
                }
                assert forall|id: u64| #[trigger] t.approvals.contains_key(id) implies t.tokens.contains_key(id) by {
                    assert(s.approvals.contains_key(id));
                }
                assert forall|id: u64| #[trigger] t.tokens.contains_key(id) implies {
                    &&& t.tokens[id].token_id == id
                    &&& t.next_id matches Some(m) && 1 <= id < m
                    &&& t.owned(t.tokens[id].owner@).contains(id)
                } by {
                    assert(s.tokens.contains_key(id));
                }
            },
            Call::UpgradeTier { token_id, new_tier } => {
                assert(s.after_upgrade_tier(token_id, new_tier).tokens.dom() =~= s.tokens.dom());
                lemma_token_update_keeps_consistent(
                    s,
                    s.after_upgrade_tier(token_id, new_tier),
                    token_id,
                );
            },
            Call::ExtendMembership { token_id, new_expires_at } => {
                assert(s.after_extend_membership(token_id, new_expires_at).tokens.dom()
                    =~= s.tokens.dom());
                lemma_token_update_keeps_consistent(
                    s,
                    s.after_extend_membership(token_id, new_expires_at),
                    token_id,
                );
            },
        }
    }
}

/// The contract is initialized once: after a successful `initialize` every
/// later call leaves an admin in place, so a second `initialize` is refused.
pub proof fn lemma_initialized_stays_initialized(s: ContractState, call: Call)
    requires
        s.admin is Some,
    ensures
        s.after(call).admin is Some,
        s.after(call).initialize_error() == Some(crate::types::ContractError::AlreadyInitialized),
{
}

/// The supply counts the stored tokens, and the balance of an address counts
/// the tokens it owns.
pub proof fn lemma_balance_counts_owned_tokens(s: ContractState, owner: Seq<char>)
    requires
        s.consistent(),
    ensures
        s.total_supply == s.tokens.len(),
        s.owned(owner).len() == s.tokens.dom().filter(|id: u64| s.tokens[id].owner@ == owner).len(),
{
    let owned_ids = s.tokens.dom().filter(|id: u64| s.tokens[id].owner@ == owner);
    assert(s.owned(owner).to_set() =~= owned_ids) by {
        assert forall|id: u64| #[trigger] owned_ids.contains(id) implies s.owned(owner).to_set().contains(id) by {
            assert(s.tokens.contains_key(id));
        }
        assert forall|id: u64| #[trigger] s.owned(owner).to_set().contains(id) implies owned_ids.contains(id) by {
            assert(s.owned(owner).contains(id));
        }
    }
    s.owned(owner).unique_seq_to_set();
}

/// A minted id is fresh, and ids are handed out one after another.
pub proof fn lemma_mint_ids_are_fresh_and_sequential(
    s: ContractState,
    ledger_sequence: u32,
    to: Address,
    tier: MembershipTier,
    metadata_uri: String,
    expires_at: u64,
    transferable: bool,
)
    requires
        s.consistent(),
        s.mint_error() is None,
    ensures
        ({
            let id = s.next_id.unwrap();
            let t = s.after_mint(ledger_sequence, to, tier, metadata_uri, expires_at, transferable);
            &&& !s.tokens.contains_key(id)
            &&& t.tokens.contains_key(id)
            &&& t.tokens[id].owner == to
            &&& t.next_id == Some((id + 1) as u64)
            &&& t.owned(to@).len() == s.owned(to@).len() + 1
            &&& t.total_supply == s.total_supply + 1
        }),
{
    lemma_mint_keeps_consistent(s, ledger_sequence, to, tier, metadata_uri, expires_at, transferable);
}

/// Burning a freshly minted token takes the storage back to where it was,
/// but for the id counter, which has moved on.
pub proof fn lemma_burn_undoes_mint(
    s: ContractState,
    ledger_sequence: u32,
    to: Address,
    tier: MembershipTier,
    metadata_uri: String,
    expires_at: u64,
    transferable: bool,
)
    requires
        s.consistent(),
        s.mint_error() is None,
    ensures
        ({
            let id = s.next_id.unwrap();
            let m = s.after_mint(ledger_sequence, to, tier, metadata_uri, expires_at, transferable);
            let b = m.after_burn(id);
            &&& m.burn_error(to, id) is None
            &&& (s.admin matches Some(admin) ==> m.burn_error(admin, id) is None)
            &&& b.tokens == s.tokens
            &&& b.total_supply == s.total_supply
            &&& b.approvals == s.approvals
            &&& b.operators == s.operators
            &&& b.admin == s.admin
            &&& forall|a: Seq<char>| #[trigger] b.owned(a) == s.owned(a)
        }),
{
    let id = s.next_id.unwrap();
    let m = s.after_mint(ledger_sequence, to, tier, metadata_uri, expires_at, transferable);
    let b = m.after_burn(id);
    lemma_mint_keeps_consistent(s, ledger_sequence, to, tier, metadata_uri, expires_at, transferable);
    assert(b.tokens =~= s.tokens);
    if s.approvals.contains_key(id) {
        assert(s.tokens.contains_key(id));
    }
    assert(b.approvals =~= s.approvals);
    if s.owned(to@).contains(id) {
        assert(s.tokens.contains_key(id));
    }
    lemma_without_absent(s.owned(to@), id);
    assert(m.owned(to@).drop_last() =~= s.owned(to@));
    assert forall|a: Seq<char>| #[trigger] b.owned(a) == s.owned(a) by {
        if a == to@ {
            assert(b.owned(a) == without(m.owned(to@), id));
        }
    }
}

/// A transfer to another address moves exactly one token: the owner's list
/// shrinks by one, the receiver's grows by one, the token names the receiver
/// as owner, its approval is gone and the supply is unchanged; every other
/// list is untouched.
pub proof fn lemma_transfer_moves_one_token(
    s: ContractState,
    ledger_sequence: u32,
    from: Address,
    to: Address,
    token_id: u64,
)
    requires
        s.consistent(),
        s.transfer_error(ledger_sequence, from, token_id) is None,
        s.tokens[token_id].owner@ != to@,
    ensures
        ({
            let owner = s.tokens[token_id].owner@;
            let t = s.after_transfer(to, token_id);
            &&& t.owned(owner).len() == s.owned(owner).len() - 1
            &&& t.owned(to@).len() == s.owned(to@).len() + 1
            &&& !t.owned(owner).contains(token_id)
            &&& t.owned(to@).contains(token_id)
            &&& t.tokens[token_id].owner == to
            &&& !t.approvals.contains_key(token_id)
            &&& t.total_supply == s.total_supply
            &&& forall|a: Seq<char>| a != owner && a != to@ ==> #[trigger] t.owned(a) == s.owned(a)
        }),
{
    let owner = s.tokens[token_id].owner@;
    assert(s.owned(owner).contains(token_id));
    lemma_without_len(s.owned(owner), token_id);
    lemma_without_contains(s.owned(owner), token_id, token_id);
}

/// Membership fields other than tier, expiry and owner never change, and a
/// soulbound token never changes hands: whatever the call, a token that is
/// still stored afterwards keeps its id, issue ledger, URI and
/// transferability, and if it is soulbound it keeps its owner.
pub proof fn lemma_token_identity_is_kept(s: ContractState, call: Call, token_id: u64)
    requires
        s.consistent(),
        s.tokens.contains_key(token_id),
        s.after(call).tokens.contains_key(token_id),
    ensures
        ({
            let before = s.tokens[token_id];
            let after = s.after(call).tokens[token_id];
            &&& after.token_id == before.token_id
            &&& after.issued_at == before.issued_at
            &&& after.metadata_uri == before.metadata_uri
            &&& after.transferable == before.transferable
            &&& !before.transferable ==> after.owner == before.owner
        }),
{
    if s.error_of(call) is None {
        if let Call::Mint { ledger_sequence, to, tier, metadata_uri, expires_at, transferable } = call {
            lemma_mint_keeps_consistent(s, ledger_sequence, to, tier, metadata_uri, expires_at, transferable);
        }
    }
}

/// A token without expiry is never expired; once a token has expired it
/// stays expired at every later ledger.
pub proof fn lemma_expiry_is_monotone(token: MembershipToken, earlier: u32, later: u32)
    requires
        earlier <= later,
    ensures
        token.expires_at == 0 ==> !token.expired_at(later),
        token.expired_at(earlier) ==> token.expired_at(later),
{
}

/// What a call writes is what the matching query reads back.
pub proof fn lemma_writes_read_back(s: ContractState, call: Call)
    requires
        s.error_of(call) is None,
    ensures
        match call {
            Call::Initialize { admin, name, symbol } => {
                let t = s.after(call);
                t.admin == Some(admin) && t.name == Some(name) && t.symbol == Some(symbol)
                    && t.next_id == Some(1u64) && t.total_supply == 0
            },
            Call::TransferAdmin { new_admin } => s.after(call).admin == Some(new_admin),
            Call::Approve { approved, token_id, .. } => {
                s.after(call).approvals.contains_key(token_id) && s.after(call).approvals[token_id]
                    == approved
            },
            Call::SetOperatorApproval { owner, operator, is_approved } => s.after(
                call,
            ).operator_flag(owner@, operator@) == is_approved,
            Call::UpgradeTier { token_id, new_tier } => s.after(call).tokens[token_id].tier
                == new_tier,
            Call::ExtendMembership { token_id, new_expires_at } => s.after(
                call,
            ).tokens[token_id].expires_at == new_expires_at,
            Call::Burn { token_id, .. } => !s.after(call).tokens.contains_key(token_id)
                && !s.after(call).approvals.contains_key(token_id),
            Call::Transfer { to, token_id, .. } => s.after(call).tokens[token_id].owner == to
                && !s.after(call).approvals.contains_key(token_id),
            Call::Mint { to, tier, metadata_uri, expires_at, transferable, ledger_sequence } => {
                let t = s.after(call).tokens[s.next_id.unwrap()];
                t.token_id == s.next_id.unwrap() && t.owner == to && t.tier == tier
                    && t.metadata_uri == metadata_uri && t.expires_at == expires_at
                    && t.transferable == transferable && t.issued_at == ledger_sequence as u64
            },
        },
{
}


// ── Histories ───────────────────────────────────────────────────────────

/// How one call moves the supply on consistent storage: up by one for an
/// accepted mint, down by one for an accepted burn, unchanged otherwise.
proof fn lemma_call_supply_step(s: ContractState, call: Call)
    requires
        s.consistent(),
    ensures
        s.after(call).total_supply == if s.error_of(call) is None && call is Mint {
            s.total_supply + 1
        } else if s.error_of(call) is None && call is Burn {
            s.total_supply - 1
        } else {
            s.total_supply as int
        },
{
    if s.error_of(call) is None {
        match call {
            Call::Initialize { .. } => {
                assert(s.tokens.dom() =~= Set::<u64>::empty()) by {
                    assert forall|id: u64| !s.tokens.dom().contains(id) by {
                        if s.tokens.contains_key(id) {
                            assert(s.next_id is Some);
                        }
                    }
                }
            },
            Call::Burn { token_id, .. } => {
                assert(s.tokens.dom().remove(token_id).len() == s.tokens.dom().len() - 1);
            },
            _ => {},
        }
    }
}

/// From empty storage, whatever the history of calls: the storage stays
/// consistent, and the supply is the number of accepted mints minus the
/// number of accepted burns, which is the number of stored tokens.
pub proof fn lemma_supply_is_mints_minus_burns(calls: Seq<Call>)
    ensures
        run(ContractState::empty(), calls).consistent(),
        run(ContractState::empty(), calls).total_supply + accepted_burns(
            ContractState::empty(),
            calls,
        ) == accepted_mints(ContractState::empty(), calls),
        run(ContractState::empty(), calls).total_supply == run(
            ContractState::empty(),
            calls,
        ).tokens.len(),
    decreases calls.len(),
{
    if calls.len() == 0 {
        lemma_empty_is_consistent();
    } else {
        let prefix = calls.drop_last();
        lemma_supply_is_mints_minus_burns(prefix);
        let s = run(ContractState::empty(), prefix);
        lemma_call_keeps_consistent(s, calls.last());
        lemma_call_supply_step(s, calls.last());
    }
}

/// After any history of calls, the approval stored for a token is the one
/// its history leaves: the address of the last accepted `approve` of it,
/// unless an accepted transfer or burn of it came later.
pub proof fn lemma_approval_follows_history(s: ContractState, calls: Seq<Call>, token_id: u64)
    ensures
        run(s, calls).approval(token_id) == approval_history(s, calls, token_id),
    decreases calls.len(),
{
    if calls.len() > 0 {
        lemma_approval_follows_history(s, calls.drop_last(), token_id);
    }
}

// ── Balances summed over owners ─────────────────────────────────────────

proof fn lemma_sum_insert(owners: Set<Seq<char>>, count: spec_fn(Seq<char>) -> nat, x: Seq<char>)
    requires
        owners.finite(),
        !owners.contains(x),
    ensures
        sum_over(owners.insert(x), count) == sum_over(owners, count) + count(x),
{
    let f = add_count(count);
    assert(vstd::set::fold::is_fun_commutative(f)) by {
        assert forall|a1: Seq<char>, a2: Seq<char>, b: nat| #[trigger] f(f(b, a2), a1) == f(
            f(b, a1),
            a2,
        ) by {}
    }
    vstd::set::fold::lemma_fold_insert(owners, 0nat, f, x);
}

proof fn lemma_sum_agree(
    owners: Set<Seq<char>>,
    c1: spec_fn(Seq<char>) -> nat,
    c2: spec_fn(Seq<char>) -> nat,
)
    requires
        owners.finite(),
        forall|o: Seq<char>| owners.contains(o) ==> c1(o) == c2(o),
    ensures
        sum_over(owners, c1) == sum_over(owners, c2),
    decreases owners.len(),
{
    if owners.len() == 0 {
        assert(owners =~= Set::<Seq<char>>::empty());
        vstd::set::fold::lemma_fold_empty(0nat, add_count(c1));
        vstd::set::fold::lemma_fold_empty(0nat, add_count(c2));
    } else {
        let x = owners.choose();
        let rest = owners.remove(x);
        lemma_sum_agree(rest, c1, c2);
        lemma_sum_insert(rest, c1, x);
        lemma_sum_insert(rest, c2, x);
        assert(rest.insert(x) =~= owners);
    }
}

/// A transfer keeps the balances summed over any finite set of owners that
/// includes the token's owner and the receiver: one balance drops by the
/// token the other gains.
pub proof fn lemma_transfer_keeps_balance_sum(
    s: ContractState,
    ledger_sequence: u32,
    from: Address,
    to: Address,
    token_id: u64,
    owners: Set<Seq<char>>,
)
    requires
        s.consistent(),
        s.transfer_error(ledger_sequence, from, token_id) is None,
        owners.finite(),
        owners.contains(s.tokens[token_id].owner@),
        owners.contains(to@),
    ensures
        s.after_transfer(to, token_id).listed_count(owners) == s.listed_count(owners),
{
    let t = s.after_transfer(to, token_id);
    let owner = s.tokens[token_id].owner@;
    assert(s.owned(owner).contains(token_id));
    lemma_without_len(s.owned(owner), token_id);
    if owner != to@ {
        lemma_transfer_moves_one_token(s, ledger_sequence, from, to, token_id);
        let rest = owners.remove(owner).remove(to@);
        lemma_sum_agree(rest, s.balances(), t.balances());
        lemma_sum_insert(rest, s.balances(), to@);
        lemma_sum_insert(rest, t.balances(), to@);
        lemma_sum_insert(rest.insert(to@), s.balances(), owner);
        lemma_sum_insert(rest.insert(to@), t.balances(), owner);
        assert(rest.insert(to@).insert(owner) =~= owners);
    } else {
        let rest = owners.remove(owner);
        assert forall|o: Seq<char>| rest.contains(o) implies s.balances()(o) == t.balances()(o) by {
            assert(t.owned(o) == s.owned(o));
        }
        lemma_sum_agree(rest, s.balances(), t.balances());
        lemma_sum_insert(rest, s.balances(), owner);
        lemma_sum_insert(rest, t.balances(), owner);
        assert(rest.insert(owner) =~= owners);
        assert(t.owned(owner).len() == s.owned(owner).len());
    }
}


// ── What each call accepts and what it changes ──────────────────────────
//
// These laws state each call's acceptance and effect over the raw storage
// fields, so that they hold of the call's meaning rather than of the way
// its spec is written.

/// A stored token is a valid member exactly when it never expires or the
/// ledger has not passed its expiry; tier, owner and transferability play no
/// part, and a missing token is never valid.
pub proof fn lemma_valid_member_is_the_expiry_rule(s: ContractState, ledger_sequence: u32, token_id: u64)
    ensures
        s.valid_member(ledger_sequence, token_id) <==> (s.tokens.contains_key(token_id) && (
        s.tokens[token_id].expires_at == 0 || ledger_sequence as u64
            <= s.tokens[token_id].expires_at)),
{
}

/// `initialize` is accepted exactly on storage without an admin. It then
/// stores the given admin, name and symbol, starts ids at 1 and the supply
/// at 0, and leaves tokens, lists, approvals and operator flags alone.
pub proof fn lemma_initialize_sets_up_the_instance(
    s: ContractState,
    admin: Address,
    name: String,
    symbol: String,
)
    ensures
        s.initialize_error() is None <==> s.admin is None,
        ({
            let t = s.after_initialize(admin, name, symbol);
            &&& t.admin == Some(admin) && t.name == Some(name) && t.symbol == Some(symbol)
            &&& t.next_id == Some(1u64) && t.total_supply == 0
            &&& t.tokens == s.tokens && t.owner_tokens == s.owner_tokens
            &&& t.approvals == s.approvals && t.operators == s.operators
        }),
{
}

/// `transfer_admin` is accepted exactly once an admin is stored, and then
/// replaces the admin and nothing else.
pub proof fn lemma_transfer_admin_replaces_only_the_admin(s: ContractState, new_admin: Address)
    ensures
        s.admin_error() is None <==> s.admin is Some,
        ({
            let t = s.after_transfer_admin(new_admin);
            &&& t.admin == Some(new_admin)
            &&& t.name == s.name && t.symbol == s.symbol && t.next_id == s.next_id
            &&& t.total_supply == s.total_supply && t.tokens == s.tokens
            &&& t.owner_tokens == s.owner_tokens && t.approvals == s.approvals
            &&& t.operators == s.operators
        }),
{
}

/// `mint` is accepted exactly on initialized storage whose id counter and
/// supply are below `u64::MAX`. It then stores, under the counter's id, a
/// token holding exactly the given owner, tier, expiry, URI and
/// transferability and the current ledger; it appends the id to the
/// receiver's list, and moves the counter and the supply up by one. No
/// other token, list, approval or flag changes.
pub proof fn lemma_mint_issues_the_given_token(
    s: ContractState,
    ledger_sequence: u32,
    to: Address,
    tier: MembershipTier,
    metadata_uri: String,
    expires_at: u64,
    transferable: bool,
)
    ensures
        s.mint_error() is None <==> (s.admin is Some && s.next_id is Some && s.next_id.unwrap()
            < u64::MAX && s.total_supply < u64::MAX),
        s.mint_error() is None ==> ({
            let id = s.next_id.unwrap();
            let t = s.after_mint(ledger_sequence, to, tier, metadata_uri, expires_at, transferable);
            let token = t.tokens[id];
            &&& t.tokens.contains_key(id)
            &&& token.token_id == id && token.owner == to && token.tier == tier
            &&& token.issued_at == ledger_sequence as u64 && token.expires_at == expires_at
            &&& token.metadata_uri == metadata_uri && token.transferable == transferable
            &&& t.tokens.dom() == s.tokens.dom().insert(id)
            &&& forall|k: u64| k != id && #[trigger] s.tokens.contains_key(k) ==> t.tokens[k] == s.tokens[k]
            &&& t.next_id == Some((id + 1) as u64)
            &&& t.total_supply == s.total_supply + 1
            &&& t.owned(to@) == s.owned(to@).push(id)
            &&& forall|a: Seq<char>| a != to@ ==> #[trigger] t.owned(a) == s.owned(a)
            &&& t.admin == s.admin && t.name == s.name && t.symbol == s.symbol
            &&& t.approvals == s.approvals && t.operators == s.operators
        }),
{
    if s.mint_error() is None {
        let id = s.next_id.unwrap();
        let t = s.after_mint(ledger_sequence, to, tier, metadata_uri, expires_at, transferable);
        assert(t.tokens.dom() =~= s.tokens.dom().insert(id));
    }
}

/// `transfer` is accepted exactly for a stored, transferable token that
/// never expires or whose expiry the ledger has not passed, when the caller
/// owns it, is the address approved for it, or is flagged as an operator of
/// its owner. It then makes `to` the owner and changes nothing else about
/// the token (id, tier, issue ledger, expiry, URI, transferability), clears
/// the token's approval, and leaves every other token, approval, operator
/// flag, the admin, name, symbol, counter and supply as they were.
pub proof fn lemma_transfer_changes_only_the_owner(
    s: ContractState,
    ledger_sequence: u32,
    from: Address,
    to: Address,
    token_id: u64,
)
    ensures
        s.transfer_error(ledger_sequence, from, token_id) is None <==> ({
            let token = s.tokens[token_id];
            &&& s.tokens.contains_key(token_id)
            &&& token.transferable
            &&& token.expires_at == 0 || ledger_sequence as u64 <= token.expires_at
            &&& {
                ||| token.owner@ == from@
                ||| s.approvals.contains_key(token_id) && s.approvals[token_id]@ == from@
                ||| s.operators.contains_key((token.owner@, from@)) && s.operators[(
                    token.owner@,
                    from@,
                )]
            }
        }),
        s.transfer_error(ledger_sequence, from, token_id) is None ==> ({
            let before = s.tokens[token_id];
            let t = s.after_transfer(to, token_id);
            let after = t.tokens[token_id];
            &&& t.tokens.dom() == s.tokens.dom()
            &&& after.owner == to
            &&& after.token_id == before.token_id && after.tier == before.tier
            &&& after.issued_at == before.issued_at && after.expires_at == before.expires_at
            &&& after.metadata_uri == before.metadata_uri
            &&& after.transferable == before.transferable
            &&& forall|k: u64| k != token_id && #[trigger] s.tokens.contains_key(k) ==> t.tokens[k]
                == s.tokens[k]
            &&& !t.approvals.contains_key(token_id)
            &&& forall|k: u64| k != token_id ==> (#[trigger] t.approvals.contains_key(k)
                == s.approvals.contains_key(k) && t.approvals[k] == s.approvals[k])
            &&& t.operators == s.operators
            &&& t.admin == s.admin && t.name == s.name && t.symbol == s.symbol
            &&& t.next_id == s.next_id && t.total_supply == s.total_supply
            &&& t.owned(to@).last() == token_id
            &&& forall|a: Seq<char>| a != before.owner@ && a != to@ ==> #[trigger] t.owned(a)
                == s.owned(a)
        }),
{
    if s.transfer_error(ledger_sequence, from, token_id) is None {
        let t = s.after_transfer(to, token_id);
        assert(t.tokens.dom() =~= s.tokens.dom());
    }
}

/// `burn` is accepted exactly for a stored token on initialized storage
/// when the caller is the admin or the token's owner. It then removes that
/// token and its approval, and lowers the supply by one (not below 0);
/// every other token and approval, the flags, admin, name, symbol and
/// counter stay as they were, and only the owner's list changes.
pub proof fn lemma_burn_removes_only_the_token(s: ContractState, caller: Address, token_id: u64)
    ensures
        s.burn_error(caller, token_id) is None <==> (s.tokens.contains_key(token_id)
            && s.admin is Some && (caller@ == s.admin.unwrap()@ || caller@
            == s.tokens[token_id].owner@)),
        s.burn_error(caller, token_id) is None ==> ({
            let t = s.after_burn(token_id);
            &&& t.tokens.dom() == s.tokens.dom().remove(token_id)
            &&& forall|k: u64| k != token_id && #[trigger] s.tokens.contains_key(k) ==> t.tokens[k]
                == s.tokens[k]
            &&& !t.approvals.contains_key(token_id)
            &&& forall|k: u64| k != token_id ==> (#[trigger] t.approvals.contains_key(k)
                == s.approvals.contains_key(k) && t.approvals[k] == s.approvals[k])
            &&& t.total_supply == if s.total_supply == 0 {
                0
            } else {
                s.total_supply - 1
            }
            &&& t.operators == s.operators
            &&& t.admin == s.admin && t.name == s.name && t.symbol == s.symbol
            &&& t.next_id == s.next_id
            &&& forall|a: Seq<char>| a != s.tokens[token_id].owner@ ==> #[trigger] t.owned(a)
                == s.owned(a)
        }),
{
    if s.burn_error(caller, token_id) is None {
        let t = s.after_burn(token_id);
        assert(t.tokens.dom() =~= s.tokens.dom().remove(token_id));
    }
}

/// `approve` is accepted exactly when the token is stored and the caller
/// owns it, whatever approval is already stored; it then makes `approved`
/// the token's approval, replacing any earlier one, and changes nothing
/// else.
pub proof fn lemma_approve_replaces_the_approval(
    s: ContractState,
    owner: Address,
    approved: Address,
    token_id: u64,
)
    ensures
        s.approve_error(owner, token_id) is None <==> (s.tokens.contains_key(token_id)
            && s.tokens[token_id].owner@ == owner@),
        ({
            let t = s.after_approve(approved, token_id);
            &&& t.approvals.contains_key(token_id) && t.approvals[token_id] == approved
            &&& forall|k: u64| k != token_id ==> (#[trigger] t.approvals.contains_key(k)
                == s.approvals.contains_key(k) && t.approvals[k] == s.approvals[k])
            &&& t.tokens == s.tokens && t.owner_tokens == s.owner_tokens
            &&& t.operators == s.operators && t.admin == s.admin && t.name == s.name
            &&& t.symbol == s.symbol && t.next_id == s.next_id
            &&& t.total_supply == s.total_supply
        }),
{
}

/// `set_operator_approval` sets the flag of one `(owner, operator)` pair,
/// for either value, and changes nothing else.
pub proof fn lemma_set_operator_sets_one_flag(
    s: ContractState,
    owner: Address,
    operator: Address,
    approved: bool,
)
    ensures
        s.error_of(Call::SetOperatorApproval { owner, operator, is_approved: approved }) is None,
        ({
            let t = s.after_set_operator(owner, operator, approved);
            &&& t.operator_flag(owner@, operator@) == approved
            &&& forall|a: Seq<char>, b: Seq<char>| (a, b) != (owner@, operator@) ==> #[trigger] t.operator_flag(a, b) == s.operator_flag(a, b)
            &&& t.tokens == s.tokens && t.owner_tokens == s.owner_tokens
            &&& t.approvals == s.approvals && t.admin == s.admin && t.name == s.name
            &&& t.symbol == s.symbol && t.next_id == s.next_id
            &&& t.total_supply == s.total_supply
        }),
{
}

/// `upgrade_tier` and `extend_membership` are accepted exactly for a stored
/// token on initialized storage. The first changes only the token's tier,
/// the second only its expiry: owner, id, issue ledger, URI,
/// transferability and the other field stay, and so does the rest of the
/// storage.
pub proof fn lemma_upgrade_and_extend_change_one_field(
    s: ContractState,
    token_id: u64,
    new_tier: MembershipTier,
    new_expires_at: u64,
)
    ensures
        s.admin_token_error(token_id) is None <==> (s.admin is Some && s.tokens.contains_key(
            token_id,
        )),
        s.admin_token_error(token_id) is None ==> ({
            let before = s.tokens[token_id];
            let u = s.after_upgrade_tier(token_id, new_tier);
            let up = u.tokens[token_id];
            let e = s.after_extend_membership(token_id, new_expires_at);
            let ex = e.tokens[token_id];
            &&& u.tokens.dom() == s.tokens.dom() && e.tokens.dom() == s.tokens.dom()
            &&& up.tier == new_tier && up.expires_at == before.expires_at
            &&& up.owner == before.owner && up.token_id == before.token_id
            &&& up.issued_at == before.issued_at && up.metadata_uri == before.metadata_uri
            &&& up.transferable == before.transferable
            &&& ex.expires_at == new_expires_at && ex.tier == before.tier
            &&& ex.owner == before.owner && ex.token_id == before.token_id
            &&& ex.issued_at == before.issued_at && ex.metadata_uri == before.metadata_uri
            &&& ex.transferable == before.transferable
            &&& forall|k: u64| k != token_id && #[trigger] s.tokens.contains_key(k) ==> (
                u.tokens[k] == s.tokens[k] && e.tokens[k] == s.tokens[k])
            &&& u.owner_tokens == s.owner_tokens && e.owner_tokens == s.owner_tokens
            &&& u.approvals == s.approvals && e.approvals == s.approvals
            &&& u.operators == s.operators && e.operators == s.operators
            &&& u.admin == s.admin && e.admin == s.admin
            &&& u.next_id == s.next_id && e.next_id == s.next_id
            &&& u.total_supply == s.total_supply && e.total_supply == s.total_supply
            &&& u.name == s.name && e.name == s.name && u.symbol == s.symbol
            &&& e.symbol == s.symbol
        }),
{
    if s.admin_token_error(token_id) is None {
        assert(s.after_upgrade_tier(token_id, new_tier).tokens.dom() =~= s.tokens.dom());
        assert(s.after_extend_membership(token_id, new_expires_at).tokens.dom() =~= s.tokens.dom());
    }
}

} // verus!
