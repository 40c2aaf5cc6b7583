use nft_membership::{Address, MembershipTier, NftMembershipContract};

/// The ledger sequence of a fresh test environment.
const LEDGER: u32 = 0;

fn generate(tag: &str) -> Address {
    Address::from_string(format!("G{:A>55}", tag))
}

fn setup() -> (NftMembershipContract, Address) {
    let mut client = NftMembershipContract::new();
    let admin = generate("ADMIN");
    client
        .initialize(
            admin.clone(),
            String::from("StellarMembership"),
            String::from("SMEM"),
        )
        .unwrap();
    (client, admin)
}

fn mint(
    client: &mut NftMembershipContract,
    to: &Address,
    tier: MembershipTier,
    uri: &str,
    expires_at: u64,
    transferable: bool,
) -> u64 {
    match client.mint(LEDGER, to.clone(), tier, String::from(uri), expires_at, transferable) {
        Ok((token_id, _effect)) => token_id,
        Err(refusal) => panic!("{}", refusal.error.message()),
    }
}

fn transfer(client: &mut NftMembershipContract, from: &Address, to: &Address, token_id: u64) {
    if let Err(refusal) = client.transfer(LEDGER, from.clone(), to.clone(), token_id) {
        panic!("{}", refusal.error.message());
    }
}

#[test]
fn test_initialize() {
    let (client, _admin) = setup();
    assert_eq!(client.name().unwrap(), String::from("StellarMembership"));
    assert_eq!(client.symbol().unwrap(), String::from("SMEM"));
    assert_eq!(client.total_supply(), 0);
}

#[test]
fn test_mint_and_query() {
    let (mut client, _admin) = setup();
    let user = generate("USER");

    let token_id = mint(
        &mut client,
        &user,
        MembershipTier::Gold,
        "ipfs://QmExample",
        0u64, // non-expiring
        true,
    );

    assert_eq!(token_id, 1);
    assert_eq!(client.total_supply(), 1);
    assert_eq!(client.balance_of(user.clone()), 1);
    assert_eq!(client.owner_of(token_id).unwrap(), user);

    let token = client.token_of(token_id).unwrap();
    assert_eq!(token.tier, MembershipTier::Gold);
    assert!(token.transferable);
    assert!(client.is_valid_member(LEDGER, token_id));
}

#[test]
fn test_transfer() {
    let (mut client, _admin) = setup();
    let alice = generate("ALICE");
    let bob = generate("BOB");

    let token_id = mint(&mut client, &alice, MembershipTier::Silver, "ipfs://QmSilver", 0, true);

    transfer(&mut client, &alice, &bob, token_id);

    assert_eq!(client.owner_of(token_id).unwrap(), bob);
    assert_eq!(client.balance_of(alice.clone()), 0);
    assert_eq!(client.balance_of(bob.clone()), 1);
}

#[test]
#[should_panic(expected = "token is soulbound")]
fn test_soulbound_transfer_fails() {
    let (mut client, _admin) = setup();
    let alice = generate("ALICE");
    let bob = generate("BOB");

    let token_id = mint(
        &mut client,
        &alice,
        MembershipTier::Platinum,
        "ipfs://QmPlatinum",
        0,
        false, // soulbound
    );

    transfer(&mut client, &alice, &bob, token_id);
}

#[test]
fn test_upgrade_tier() {
    let (mut client, _admin) = setup();
    let user = generate("USER");

    let token_id = mint(&mut client, &user, MembershipTier::Bronze, "ipfs://QmBronze", 0, true);

    client.upgrade_tier(token_id, MembershipTier::Platinum).unwrap();
    let token = client.token_of(token_id).unwrap();
    assert_eq!(token.tier, MembershipTier::Platinum);
}

#[test]
fn test_approve_and_transfer() {
    let (mut client, _admin) = setup();
    let alice = generate("ALICE");
    let bob = generate("BOB");
    let carol = generate("CAROL");

    let token_id = mint(&mut client, &alice, MembershipTier::Bronze, "ipfs://QmBronze", 0, true);

    client.approve(alice.clone(), carol.clone(), token_id).unwrap();
    assert_eq!(client.get_approved(token_id), Some(carol.clone()));

    transfer(&mut client, &alice, &bob, token_id);
    assert_eq!(client.owner_of(token_id).unwrap(), bob);
}

#[test]
fn test_multiple_tokens() {
    let (mut client, _admin) = setup();
    let user = generate("USER");

    for _ in 0..3 {
        mint(&mut client, &user, MembershipTier::Bronze, "ipfs://Qm", 0, true);
    }

    assert_eq!(client.balance_of(user.clone()), 3);
    assert_eq!(client.total_supply(), 3);
    let tokens = client.tokens_of(user.clone());
    assert_eq!(tokens.len(), 3);
}

#[test]
fn test_burn() {
    let (mut client, admin) = setup();
    let user = generate("USER");

    let token_id = mint(&mut client, &user, MembershipTier::Gold, "ipfs://QmGold", 0, true);

    assert_eq!(client.total_supply(), 1);
    client.burn(admin, token_id).unwrap();
    assert_eq!(client.total_supply(), 0);
    assert_eq!(client.balance_of(user.clone()), 0);
}
