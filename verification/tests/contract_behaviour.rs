use nft_membership::{
    Address, ContractError, Event, MembershipTier, MembershipToken, NftMembershipContract,
};

fn addr(tag: &str) -> Address {
    Address::from_string(format!("G{:A>55}", tag))
}

fn initialized() -> (NftMembershipContract, Address) {
    let mut c = NftMembershipContract::new();
    let admin = addr("ADMIN");
    c.initialize(admin.clone(), String::from("Club"), String::from("CLB")).unwrap();
    (c, admin)
}

fn mint_to(c: &mut NftMembershipContract, ledger: u32, to: &Address, expires_at: u64, transferable: bool) -> u64 {
    c.mint(ledger, to.clone(), MembershipTier::Bronze, String::from("ipfs://x"), expires_at, transferable)
        .unwrap()
        .0
}

// ── Addresses ─────────────────────────────────────────────────────────

#[test]
fn address_round_trips_its_strkey() {
    let a = Address::from_string(String::from("GABC"));
    assert_eq!(a.as_string(), String::from("GABC"));
    assert_eq!(a.clone(), a);
    assert_ne!(a, Address::from_string(String::from("GABD")));
}

// ── Initialisation ────────────────────────────────────────────────────

#[test]
fn initialize_sets_admin_and_publishes_init() {
    let mut c = NftMembershipContract::new();
    let admin = addr("ADMIN");
    let effect = c.initialize(admin.clone(), String::from("Club"), String::from("CLB")).unwrap();
    assert_eq!(effect.signer, admin);
    assert!(matches!(effect.event, Event::Initialized { admin: ref a } if *a == admin));
    assert_eq!(c.admin().unwrap(), admin);
    assert_eq!(c.next_id(), Some(1));
    assert_eq!(c.total_supply(), 0);
}

#[test]
fn second_initialize_is_refused_and_changes_nothing() {
    let (mut c, admin) = initialized();
    let other = addr("OTHER");
    let r = c.initialize(other.clone(), String::from("X"), String::from("Y"));
    assert_eq!(r.unwrap_err().error, ContractError::AlreadyInitialized);
    assert_eq!(c.admin().unwrap(), admin);
    assert_eq!(c.name().unwrap(), String::from("Club"));
    // still refused after the admin role moves on
    c.transfer_admin(other.clone()).unwrap();
    let r = c.initialize(admin.clone(), String::from("X"), String::from("Y"));
    assert_eq!(r.unwrap_err().error, ContractError::AlreadyInitialized);
}

#[test]
fn calls_before_initialize_are_refused() {
    let mut c = NftMembershipContract::new();
    let user = addr("USER");
    assert_eq!(c.name().unwrap_err(), ContractError::NotInitialized);
    assert_eq!(c.symbol().unwrap_err(), ContractError::NotInitialized);
    assert_eq!(c.admin().unwrap_err(), ContractError::NotInitialized);
    assert_eq!(c.total_supply(), 0);
    let r = c.mint(0, user.clone(), MembershipTier::Gold, String::from("u"), 0, true);
    assert_eq!(r.unwrap_err().error, ContractError::NotInitialized);
    assert_eq!(c.transfer_admin(user.clone()).unwrap_err().error, ContractError::NotInitialized);
    assert_eq!(c.upgrade_tier(1, MembershipTier::Gold).unwrap_err().error, ContractError::NotInitialized);
    assert_eq!(c.extend_membership(1, 5).unwrap_err().error, ContractError::NotInitialized);
    assert_eq!(c.burn(user.clone(), 1).unwrap_err().error, ContractError::TokenNotFound);
    assert_eq!(c.balance_of(user.clone()), 0);
    assert!(c.tokens_of(user).is_empty());
}

// ── Minting ───────────────────────────────────────────────────────────

#[test]
fn mint_stores_the_token_and_names_the_admin_as_signer() {
    let (mut c, admin) = initialized();
    let user = addr("USER");
    let (id, effect) = c
        .mint(42, user.clone(), MembershipTier::Silver, String::from("ipfs://QmS"), 100, false)
        .unwrap();
    assert_eq!(id, 1);
    assert_eq!(effect.signer, admin);
    assert!(matches!(effect.event, Event::Minted { token_id: 1, to: ref t } if *t == user));
    let t = c.token_of(id).unwrap();
    assert_eq!(t.token_id, 1);
    assert_eq!(t.owner, user);
    assert_eq!(t.tier, MembershipTier::Silver);
    assert_eq!(t.issued_at, 42);
    assert_eq!(t.expires_at, 100);
    assert_eq!(t.metadata_uri, String::from("ipfs://QmS"));
    assert!(!t.transferable);
    assert_eq!(c.next_id(), Some(2));
}

#[test]
fn mint_ids_are_sequential_and_listed_in_order() {
    let (mut c, _admin) = initialized();
    let a = addr("A");
    let b = addr("B");
    assert_eq!(mint_to(&mut c, 0, &a, 0, true), 1);
    assert_eq!(mint_to(&mut c, 0, &b, 0, true), 2);
    assert_eq!(mint_to(&mut c, 0, &a, 0, true), 3);
    assert_eq!(c.tokens_of(a.clone()), vec![1, 3]);
    assert_eq!(c.tokens_of(b.clone()), vec![2]);
    assert_eq!(c.total_supply(), 3);
    assert_eq!(c.balance_of(a) + c.balance_of(b), c.total_supply());
}

#[test]
fn mint_refuses_when_the_counter_is_exhausted() {
    let (mut c, admin) = initialized();
    let user = addr("USER");
    c.restore_instance(Some(admin.clone()), None, None, Some(u64::MAX));
    let r = c.mint(0, user.clone(), MembershipTier::Gold, String::from("u"), 0, true);
    assert_eq!(r.unwrap_err().error, ContractError::Overflow);
    assert_eq!(c.total_supply(), 0);
    assert!(c.tokens_of(user.clone()).is_empty());

    c.restore_instance(Some(admin), None, None, Some(5));
    c.restore_total_supply(u64::MAX);
    let r = c.mint(0, user.clone(), MembershipTier::Gold, String::from("u"), 0, true);
    assert_eq!(r.unwrap_err().error, ContractError::Overflow);
    assert_eq!(c.token_of(5).unwrap_err(), ContractError::TokenNotFound);
}

// ── Transfers ─────────────────────────────────────────────────────────

#[test]
fn transfer_moves_one_token_and_clears_its_approval() {
    let (mut c, _admin) = initialized();
    let alice = addr("ALICE");
    let bob = addr("BOB");
    let carol = addr("CAROL");
    let first = mint_to(&mut c, 0, &alice, 0, true);
    let second = mint_to(&mut c, 0, &alice, 0, true);
    c.approve(alice.clone(), carol.clone(), first).unwrap();

    let effect = c.transfer(0, alice.clone(), bob.clone(), first).unwrap();
    assert_eq!(effect.signer, alice);
    assert!(matches!(effect.event,
        Event::Transferred { token_id, ref from, ref to } if token_id == first && *from == alice && *to == bob));
    assert_eq!(c.tokens_of(alice.clone()), vec![second]);
    assert_eq!(c.tokens_of(bob.clone()), vec![first]);
    assert_eq!(c.owner_of(first).unwrap(), bob);
    assert_eq!(c.get_approved(first), None);
    assert_eq!(c.total_supply(), 2);
}

#[test]
fn transfer_to_oneself_moves_the_id_to_the_end() {
    let (mut c, _admin) = initialized();
    let alice = addr("ALICE");
    let first = mint_to(&mut c, 0, &alice, 0, true);
    let second = mint_to(&mut c, 0, &alice, 0, true);
    c.transfer(0, alice.clone(), alice.clone(), first).unwrap();
    assert_eq!(c.tokens_of(alice.clone()), vec![second, first]);
    assert_eq!(c.balance_of(alice), 2);
}

#[test]
fn transfer_refusals_leave_the_storage_alone() {
    let (mut c, _admin) = initialized();
    let alice = addr("ALICE");
    let bob = addr("BOB");
    let carol = addr("CAROL");
    let open = mint_to(&mut c, 10, &alice, 0, true);
    let soulbound = mint_to(&mut c, 10, &alice, 0, false);
    let expiring = mint_to(&mut c, 10, &alice, 20, true);

    assert_eq!(c.transfer(10, alice.clone(), bob.clone(), 99).unwrap_err().error, ContractError::TokenNotFound);
    let refusal = c.transfer(10, bob.clone(), carol.clone(), open).unwrap_err();
    assert_eq!(refusal.error, ContractError::NotApproved);
    assert_eq!(refusal.signer, Some(bob.clone()));
    assert_eq!(c.transfer(10, alice.clone(), bob.clone(), soulbound).unwrap_err().error, ContractError::Soulbound);
    assert_eq!(c.transfer(21, alice.clone(), bob.clone(), expiring).unwrap_err().error, ContractError::Expired);
    assert_eq!(c.tokens_of(alice.clone()), vec![open, soulbound, expiring]);
    assert!(c.tokens_of(bob.clone()).is_empty());
    // the last ledger of the expiry still allows the transfer
    c.transfer(20, alice.clone(), bob.clone(), expiring).unwrap();
    assert_eq!(c.owner_of(expiring).unwrap(), bob);
}

#[test]
fn approved_address_transfers_on_behalf_of_the_owner() {
    let (mut c, _admin) = initialized();
    let alice = addr("ALICE");
    let bob = addr("BOB");
    let carol = addr("CAROL");
    let id = mint_to(&mut c, 0, &alice, 0, true);
    let other = mint_to(&mut c, 0, &alice, 0, true);
    c.approve(alice.clone(), carol.clone(), id).unwrap();
    // approval covers one token only
    assert_eq!(c.transfer(0, carol.clone(), bob.clone(), other).unwrap_err().error, ContractError::NotApproved);
    let effect = c.transfer(0, carol.clone(), bob.clone(), id).unwrap();
    assert_eq!(effect.signer, carol);
    assert!(matches!(effect.event,
        Event::Transferred { token_id, ref from, ref to } if token_id == id && *from == alice && *to == bob));
    assert_eq!(c.owner_of(id).unwrap(), bob);
    assert_eq!(c.tokens_of(alice.clone()), vec![other]);
    assert_eq!(c.tokens_of(bob.clone()), vec![id]);
    assert_eq!(c.tokens_of(carol.clone()), Vec::<u64>::new());
    assert_eq!(c.get_approved(id), None);
    // the approval is gone with the transfer
    assert_eq!(c.transfer(0, carol.clone(), alice.clone(), id).unwrap_err().error, ContractError::NotApproved);
}

#[test]
fn operator_transfers_any_token_of_the_owner() {
    let (mut c, _admin) = initialized();
    let alice = addr("ALICE");
    let bob = addr("BOB");
    let dave = addr("DAVE");
    let first = mint_to(&mut c, 0, &alice, 0, true);
    let second = mint_to(&mut c, 0, &alice, 0, true);
    assert_eq!(c.transfer(0, dave.clone(), bob.clone(), first).unwrap_err().error, ContractError::NotApproved);
    c.set_operator_approval(alice.clone(), dave.clone(), true);
    c.transfer(0, dave.clone(), bob.clone(), first).unwrap();
    c.transfer(0, dave.clone(), bob.clone(), second).unwrap();
    assert_eq!(c.tokens_of(bob.clone()), vec![first, second]);
    assert_eq!(c.balance_of(alice.clone()), 0);
    // dave operates for alice, not for bob
    assert_eq!(c.transfer(0, dave.clone(), alice.clone(), first).unwrap_err().error, ContractError::NotApproved);
    c.set_operator_approval(bob.clone(), dave.clone(), true);
    c.set_operator_approval(alice.clone(), dave.clone(), false);
    c.transfer(0, dave.clone(), alice.clone(), first).unwrap();
    assert_eq!(c.owner_of(first).unwrap(), alice);
}

#[test]
fn soulbound_and_expired_tokens_stay_put_for_approved_callers() {
    let (mut c, _admin) = initialized();
    let alice = addr("ALICE");
    let carol = addr("CAROL");
    let soulbound = mint_to(&mut c, 0, &alice, 0, false);
    let expiring = mint_to(&mut c, 0, &alice, 5, true);
    c.approve(alice.clone(), carol.clone(), soulbound).unwrap();
    c.set_operator_approval(alice.clone(), carol.clone(), true);
    assert_eq!(c.transfer(0, carol.clone(), carol.clone(), soulbound).unwrap_err().error, ContractError::Soulbound);
    assert_eq!(c.transfer(6, carol.clone(), carol.clone(), expiring).unwrap_err().error, ContractError::Expired);
    assert_eq!(c.tokens_of(alice), vec![soulbound, expiring]);
}

// ── Burning ───────────────────────────────────────────────────────────

#[test]
fn burn_undoes_mint_except_for_the_counter() {
    let (mut c, admin) = initialized();
    let user = addr("USER");
    let kept = mint_to(&mut c, 0, &user, 0, true);
    let burned = mint_to(&mut c, 0, &user, 0, true);
    c.approve(user.clone(), addr("CAROL"), burned).unwrap();
    let effect = c.burn(admin.clone(), burned).unwrap();
    assert_eq!(effect.signer, admin);
    assert!(matches!(effect.event, Event::Burned { token_id, owner: ref o } if token_id == burned && *o == user));
    assert_eq!(c.tokens_of(user.clone()), vec![kept]);
    assert_eq!(c.total_supply(), 1);
    assert_eq!(c.token_of(burned).unwrap_err(), ContractError::TokenNotFound);
    assert_eq!(c.get_approved(burned), None);
    assert!(!c.is_valid_member(0, burned));
    assert_eq!(c.next_id(), Some(3));
    assert_eq!(c.burn(admin, burned).unwrap_err().error, ContractError::TokenNotFound);
}

#[test]
fn burn_does_not_take_the_supply_below_zero() {
    let (mut c, _admin) = initialized();
    let user = addr("USER");
    c.restore_token(
        7,
        MembershipToken {
            token_id: 7,
            owner: user.clone(),
            tier: MembershipTier::Gold,
            issued_at: 0,
            expires_at: 0,
            metadata_uri: String::from("u"),
            transferable: true,
        },
    );
    c.restore_owner_tokens(user.clone(), vec![7]);
    assert_eq!(c.total_supply(), 0);
    c.burn(user.clone(), 7).unwrap();
    assert_eq!(c.total_supply(), 0);
    assert!(c.tokens_of(user).is_empty());
}

#[test]
fn owner_or_admin_may_burn_nobody_else() {
    let (mut c, admin) = initialized();
    let user = addr("USER");
    let stranger = addr("STRANGER");
    let by_owner = mint_to(&mut c, 0, &user, 0, true);
    let by_admin = mint_to(&mut c, 0, &user, 0, true);
    c.approve(user.clone(), stranger.clone(), by_owner).unwrap();
    let refusal = c.burn(stranger.clone(), by_owner).unwrap_err();
    assert_eq!(refusal.error, ContractError::NotAdminNorOwner);
    assert_eq!(refusal.signer, None);
    assert_eq!(c.total_supply(), 2);
    let effect = c.burn(user.clone(), by_owner).unwrap();
    assert_eq!(effect.signer, user);
    let effect = c.burn(admin.clone(), by_admin).unwrap();
    assert_eq!(effect.signer, admin);
    assert_eq!(c.total_supply(), 0);
    assert_eq!(c.balance_of(user), 0);
}

#[test]
fn refusals_name_the_signer_checked_before_them() {
    let mut c = NftMembershipContract::new();
    let user = addr("USER");
    let r = c.mint(0, user.clone(), MembershipTier::Gold, String::from("u"), 0, true).unwrap_err();
    assert_eq!(r.signer, None);
    let admin = addr("ADMIN");
    c.initialize(admin.clone(), String::from("N"), String::from("S")).unwrap();
    assert_eq!(c.initialize(user.clone(), String::from("N"), String::from("S")).unwrap_err().signer, None);
    assert_eq!(c.upgrade_tier(9, MembershipTier::Gold).unwrap_err().signer, Some(admin.clone()));
    assert_eq!(c.extend_membership(9, 1).unwrap_err().signer, Some(admin.clone()));
    assert_eq!(c.approve(user.clone(), admin.clone(), 9).unwrap_err().signer, Some(user.clone()));
    assert_eq!(c.transfer(0, user.clone(), admin.clone(), 9).unwrap_err().signer, Some(user.clone()));
    assert_eq!(c.burn(user.clone(), 9).unwrap_err().signer, None);
    c.restore_instance(Some(admin.clone()), None, None, Some(u64::MAX));
    let r = c.mint(0, user, MembershipTier::Gold, String::from("u"), 0, true).unwrap_err();
    assert_eq!(r.error, ContractError::Overflow);
    assert_eq!(r.signer, Some(admin));
}

// ── Approvals ─────────────────────────────────────────────────────────

#[test]
fn approve_reads_back_and_is_refused_for_others() {
    let (mut c, _admin) = initialized();
    let alice = addr("ALICE");
    let bob = addr("BOB");
    let id = mint_to(&mut c, 0, &alice, 0, true);
    assert_eq!(c.get_approved(id), None);
    assert_eq!(c.approve(bob.clone(), bob.clone(), id).unwrap_err().error, ContractError::NotOwner);
    assert_eq!(c.approve(alice.clone(), bob.clone(), 99).unwrap_err().error, ContractError::TokenNotFound);
    let effect = c.approve(alice.clone(), bob.clone(), id).unwrap();
    assert_eq!(effect.signer, alice);
    assert!(matches!(effect.event, Event::Approved { token_id, approved: ref a } if token_id == id && *a == bob));
    assert_eq!(c.get_approved(id), Some(bob));
}

#[test]
fn operator_flag_reads_back() {
    let (mut c, _admin) = initialized();
    let alice = addr("ALICE");
    let op = addr("OP");
    assert!(!c.is_approved_for_all(alice.clone(), op.clone()));
    let effect = c.set_operator_approval(alice.clone(), op.clone(), true);
    assert_eq!(effect.signer, alice);
    assert!(matches!(effect.event, Event::OperatorSet { is_approved: true, .. }));
    assert!(c.is_approved_for_all(alice.clone(), op.clone()));
    assert!(!c.is_approved_for_all(op.clone(), alice.clone()));
    c.set_operator_approval(alice.clone(), op.clone(), false);
    assert!(!c.is_approved_for_all(alice, op));
}

// ── Admin updates ─────────────────────────────────────────────────────

#[test]
fn upgrade_and_extend_change_one_field_each() {
    let (mut c, admin) = initialized();
    let user = addr("USER");
    let id = mint_to(&mut c, 3, &user, 0, false);
    let effect = c.upgrade_tier(id, MembershipTier::Platinum).unwrap();
    assert_eq!(effect.signer, admin);
    assert!(matches!(effect.event, Event::TierUpgraded { token_id, owner: ref o } if token_id == id && *o == user));
    let effect = c.extend_membership(id, 50).unwrap();
    assert!(matches!(effect.event, Event::Extended { token_id, new_expires_at: 50 } if token_id == id));
    let t = c.token_of(id).unwrap();
    assert_eq!(t.tier, MembershipTier::Platinum);
    assert_eq!(t.expires_at, 50);
    assert_eq!(t.issued_at, 3);
    assert!(!t.transferable);
    assert_eq!(t.owner, user);
    assert_eq!(c.upgrade_tier(99, MembershipTier::Gold).unwrap_err().error, ContractError::TokenNotFound);
    assert_eq!(c.extend_membership(99, 1).unwrap_err().error, ContractError::TokenNotFound);
}

#[test]
fn transfer_admin_reads_back() {
    let (mut c, admin) = initialized();
    let next = addr("NEXT");
    let effect = c.transfer_admin(next.clone()).unwrap();
    assert_eq!(effect.signer, admin);
    assert!(matches!(effect.event, Event::AdminTransferred { new_admin: ref a } if *a == next));
    assert_eq!(c.admin().unwrap(), next.clone());
    let (_, effect) = c.mint(0, next.clone(), MembershipTier::Gold, String::from("u"), 0, true).unwrap();
    assert_eq!(effect.signer, next);
}

// ── Validity ──────────────────────────────────────────────────────────

#[test]
fn expiry_is_checked_against_the_ledger() {
    let (mut c, _admin) = initialized();
    let user = addr("USER");
    let forever = mint_to(&mut c, 0, &user, 0, true);
    let until_ten = mint_to(&mut c, 0, &user, 10, true);
    for ledger in [0u32, 10, 11, u32::MAX] {
        assert!(c.is_valid_member(ledger, forever));
    }
    assert!(c.is_valid_member(10, until_ten));
    assert!(!c.is_valid_member(11, until_ten));
    assert!(!c.is_valid_member(u32::MAX, until_ten));
    assert!(!c.is_valid_member(0, 99));
    c.extend_membership(until_ten, 0).unwrap();
    assert!(c.is_valid_member(u32::MAX, until_ten));
}

// ── Errors ────────────────────────────────────────────────────────────

#[test]
fn error_messages_are_the_revert_texts() {
    assert_eq!(ContractError::AlreadyInitialized.message(), "already initialized");
    assert_eq!(ContractError::TokenNotFound.message(), "token not found");
    assert_eq!(ContractError::NotOwner.message(), "not the owner");
    assert_eq!(ContractError::Soulbound.message(), "token is soulbound – not transferable");
    assert_eq!(ContractError::Expired.message(), "membership has expired");
    assert_eq!(ContractError::NotApproved.message(), "caller is not owner nor approved");
    assert_eq!(ContractError::NotAdminNorOwner.message(), "caller is neither admin nor owner");
    assert_eq!(ContractError::NotInitialized.message(), "contract is not initialized");
    assert_eq!(ContractError::Overflow.message(), "attempt to add with overflow");
}

// ── Storage entries ───────────────────────────────────────────────────

#[test]
fn restored_entries_read_back() {
    let mut c = NftMembershipContract::new();
    let admin = addr("ADMIN");
    let user = addr("USER");
    let op = addr("OP");
    c.restore_instance(Some(admin.clone()), Some(String::from("N")), Some(String::from("S")), Some(9));
    c.restore_total_supply(4);
    c.restore_owner_tokens(user.clone(), vec![3, 8]);
    c.restore_approval(8, op.clone());
    c.restore_operator(user.clone(), op.clone(), true);
    assert_eq!(c.admin().unwrap(), admin);
    assert_eq!(c.name().unwrap(), String::from("N"));
    assert_eq!(c.symbol().unwrap(), String::from("S"));
    assert_eq!(c.next_id(), Some(9));
    assert_eq!(c.total_supply(), 4);
    assert_eq!(c.tokens_of(user.clone()), vec![3, 8]);
    assert_eq!(c.get_approved(8), Some(op.clone()));
    assert!(c.is_approved_for_all(user, op));
}

// ── Histories ─────────────────────────────────────────────────────────

#[test]
fn supply_is_accepted_mints_minus_accepted_burns() {
    let (mut c, admin) = initialized();
    let a = addr("A");
    let b = addr("B");
    let mut mints = 0u64;
    let mut burns = 0u64;
    for round in 0..4u64 {
        let id = mint_to(&mut c, 0, &a, 0, true);
        mints += 1;
        mint_to(&mut c, 0, &b, 0, true);
        mints += 1;
        if round % 2 == 0 {
            c.burn(admin.clone(), id).unwrap();
            burns += 1;
        }
        // refused calls do not count
        assert!(c.burn(b.clone(), id).is_err());
        assert!(c.transfer(0, b.clone(), a.clone(), id + 100).is_err());
        c.transfer(0, b.clone(), a.clone(), id + 1).unwrap();
        let balances = c.balance_of(a.clone()) + c.balance_of(b.clone());
        assert_eq!(c.total_supply(), mints - burns);
        assert_eq!(balances, c.total_supply());
    }
}
