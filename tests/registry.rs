use anchor_lang::solana_program::pubkey::Pubkey as SolanaPubkey;
use agent_link_protocol::address::{agent_seed_bytes, derive_agent_address, find_agent_address};
use agent_link_protocol::program::{
    add_reputation, register_agent, AgentError, RegisterAgent, UpdateAgent, AGENT_ACCOUNT_SPACE,
    MAX_TEXT_BYTES, REPUTATION_STEP, STAKE_LAMPORTS,
};
use agent_link_protocol::pubkey::Pubkey;
use agent_link_protocol::store::{AgentAccount, AgentStore, StoredAgent};

const ONE_SOL: u64 = 1_000_000_000;

fn program_id() -> Pubkey {
    Pubkey::new_from_array([7u8; 32])
}

fn alice() -> Pubkey {
    Pubkey::new_from_array([1u8; 32])
}

fn bob() -> Pubkey {
    Pubkey::new_from_array([2u8; 32])
}

fn oracle() -> Pubkey {
    Pubkey::new_from_array([9u8; 32])
}

fn address_of(owner: &Pubkey) -> Pubkey {
    derive_agent_address(&program_id(), owner).expect("an address is derived")
}

fn registration(user: Pubkey, lamports: u64) -> RegisterAgent {
    RegisterAgent {
        agent_account: address_of(&user),
        user,
        user_is_signer: true,
        user_lamports: lamports,
    }
}

fn update(owner: Pubkey) -> UpdateAgent {
    UpdateAgent {
        agent_account: address_of(&owner),
        owner,
        oracle: oracle(),
        oracle_is_signer: true,
    }
}

fn score_of(store: &AgentStore, owner: &Pubkey) -> u64 {
    store
        .get(&address_of(owner))
        .expect("the record exists")
        .account
        .reputation_score
}

fn store_with_alice() -> AgentStore {
    let mut store = AgentStore::new(program_id());
    let mut ctx = registration(alice(), ONE_SOL);
    let r = register_agent(&mut store, &mut ctx, "Alice".to_string(), "alice-gh".to_string());
    assert_eq!(r, Ok(()));
    store
}

#[test]
fn derived_address_is_deterministic() {
    let a1 = derive_agent_address(&program_id(), &alice());
    let a2 = derive_agent_address(&program_id(), &alice());
    assert!(a1.is_some());
    assert_eq!(a1, a2);
}

#[test]
fn distinct_owners_get_distinct_addresses() {
    assert_ne!(address_of(&alice()), address_of(&bob()));
}

#[test]
fn derived_address_depends_on_program() {
    let other = Pubkey::new_from_array([8u8; 32]);
    let a = derive_agent_address(&program_id(), &alice()).unwrap();
    let b = derive_agent_address(&other, &alice()).unwrap();
    assert_ne!(a, b);
}

#[test]
fn derived_address_is_not_the_owner_key() {
    assert_ne!(address_of(&alice()), alice());
    assert_ne!(address_of(&alice()), program_id());
}

#[test]
fn derived_address_matches_solana_derivation() {
    let id = SolanaPubkey::new_from_array([7u8; 32]);
    let owner = SolanaPubkey::new_from_array([1u8; 32]);
    let (expected, _bump) = SolanaPubkey::find_program_address(&[b"agent", owner.as_ref()], &id);
    assert_eq!(address_of(&alice()).to_bytes(), expected.to_bytes());
}

#[test]
fn found_bump_matches_solana_derivation() {
    let id = SolanaPubkey::new_from_array([7u8; 32]);
    let owner = SolanaPubkey::new_from_array([2u8; 32]);
    let (expected, bump) = SolanaPubkey::find_program_address(&[b"agent", owner.as_ref()], &id);
    let (found, found_bump) = find_agent_address(&program_id(), &bob()).unwrap();
    assert_eq!(found.to_bytes(), expected.to_bytes());
    assert_eq!(found_bump, bump);
}

#[test]
fn seeds_are_tag_then_owner() {
    let seeds = agent_seed_bytes(&alice());
    assert_eq!(seeds.len(), 2);
    assert_eq!(seeds[0], b"agent".to_vec());
    assert_eq!(seeds[1], vec![1u8; 32]);
}

#[test]
fn scenario_register_alice() {
    let mut store = AgentStore::new(program_id());
    let mut ctx = registration(alice(), ONE_SOL);
    let r = register_agent(&mut store, &mut ctx, "Alice".to_string(), "alice-gh".to_string());
    assert_eq!(r, Ok(()));
    assert_eq!(ctx.user_lamports, ONE_SOL - 100_000_000);
    let stored = store.get(&address_of(&alice())).expect("the record exists");
    assert_eq!(stored.address, address_of(&alice()));
    assert_eq!(stored.account.owner, alice());
    assert_eq!(stored.account.name, "Alice");
    assert_eq!(stored.account.github, "alice-gh");
    assert_eq!(stored.account.reputation_score, 0);
    assert!(!stored.account.is_verified);
    assert_eq!(stored.lamports, 100_000_000);
    assert_eq!(stored.lamports, STAKE_LAMPORTS);
    assert_eq!(stored.space, AGENT_ACCOUNT_SPACE);
    assert_eq!(AGENT_ACCOUNT_SPACE, 157);
    assert_eq!(store.accounts.len(), 1);
}

#[test]
fn scenario_three_updates_give_thirty() {
    let mut store = store_with_alice();
    for _ in 0..3 {
        assert_eq!(add_reputation(&mut store, &update(alice())), Ok(()));
    }
    assert_eq!(score_of(&store, &alice()), 30);
}

#[test]
fn scenario_second_registration_already_exists() {
    let mut store = store_with_alice();
    for _ in 0..3 {
        assert_eq!(add_reputation(&mut store, &update(alice())), Ok(()));
    }
    let mut again = registration(alice(), ONE_SOL);
    let r = register_agent(&mut store, &mut again, "Alice 2".to_string(), "alice2".to_string());
    assert_eq!(r, Err(AgentError::AlreadyExists));
    assert_eq!(again.user_lamports, ONE_SOL);
    assert_eq!(score_of(&store, &alice()), 30);
    assert_eq!(store.accounts.len(), 1);
    let stored = store.get(&address_of(&alice())).unwrap();
    assert_eq!(stored.account.name, "Alice");
    assert_eq!(stored.lamports, STAKE_LAMPORTS);
}

#[test]
fn scenario_update_for_unregistered_bob_not_found() {
    let mut store = store_with_alice();
    assert_eq!(add_reputation(&mut store, &update(bob())), Err(AgentError::NotFound));
    assert_eq!(score_of(&store, &alice()), 0);
}

#[test]
fn register_twice_success_then_already_exists() {
    let mut store = AgentStore::new(program_id());
    let mut first = registration(bob(), ONE_SOL);
    let mut second = registration(bob(), ONE_SOL);
    assert_eq!(register_agent(&mut store, &mut first, "Bob".to_string(), "bob".to_string()), Ok(()));
    assert_eq!(
        register_agent(&mut store, &mut second, "Bob".to_string(), "bob".to_string()),
        Err(AgentError::AlreadyExists)
    );
    assert_eq!(store.accounts.len(), 1);
}

#[test]
fn unfunded_registration_creates_nothing() {
    let mut store = AgentStore::new(program_id());
    let mut ctx = registration(alice(), STAKE_LAMPORTS - 1);
    let r = register_agent(&mut store, &mut ctx, "Alice".to_string(), "alice-gh".to_string());
    assert_eq!(r, Err(AgentError::InsufficientFunds));
    assert!(store.get(&address_of(&alice())).is_none());
    assert_eq!(ctx.user_lamports, STAKE_LAMPORTS - 1);
    assert_eq!(store.accounts.len(), 0);
}

#[test]
fn exact_stake_is_enough() {
    let mut store = AgentStore::new(program_id());
    let mut ctx = registration(alice(), STAKE_LAMPORTS);
    let r = register_agent(&mut store, &mut ctx, "Alice".to_string(), "alice-gh".to_string());
    assert_eq!(r, Ok(()));
    assert_eq!(ctx.user_lamports, 0);
}

#[test]
fn reputation_is_ten_per_update_and_never_decreases() {
    let mut store = store_with_alice();
    let mut last = score_of(&store, &alice());
    for n in 1..=12u64 {
        assert_eq!(add_reputation(&mut store, &update(alice())), Ok(()));
        let now = score_of(&store, &alice());
        assert!(now >= last);
        assert_eq!(now, 10 * n);
        assert_eq!(now - last, REPUTATION_STEP);
        last = now;
    }
}

#[test]
fn update_leaves_other_records_alone() {
    let mut store = store_with_alice();
    let mut ctx = registration(bob(), ONE_SOL);
    assert_eq!(register_agent(&mut store, &mut ctx, "Bob".to_string(), "bob".to_string()), Ok(()));
    assert_eq!(add_reputation(&mut store, &update(bob())), Ok(()));
    assert_eq!(score_of(&store, &bob()), 10);
    assert_eq!(score_of(&store, &alice()), 0);
}

fn stored(address: Pubkey, owner: Pubkey, score: u64) -> StoredAgent {
    StoredAgent {
        address,
        account: AgentAccount {
            owner,
            name: "x".to_string(),
            github: "y".to_string(),
            reputation_score: score,
            is_verified: false,
        },
        lamports: STAKE_LAMPORTS,
        space: AGENT_ACCOUNT_SPACE,
    }
}

#[test]
fn stored_owner_differing_from_claim_is_owner_mismatch() {
    let mut store = AgentStore::new(program_id());
    store.accounts.push(stored(address_of(&alice()), bob(), 0));
    assert_eq!(add_reputation(&mut store, &update(alice())), Err(AgentError::OwnerMismatch));
    assert_eq!(store.accounts[0].account.reputation_score, 0);
}

#[test]
fn address_of_another_owner_is_address_mismatch() {
    let mut store = store_with_alice();
    let ctx = UpdateAgent {
        agent_account: address_of(&alice()),
        owner: bob(),
        oracle: oracle(),
        oracle_is_signer: true,
    };
    assert_eq!(add_reputation(&mut store, &ctx), Err(AgentError::AddressMismatch));
    assert_eq!(score_of(&store, &alice()), 0);
}

#[test]
fn register_at_wrong_address_is_address_mismatch() {
    let mut store = AgentStore::new(program_id());
    let mut ctx = registration(alice(), ONE_SOL);
    ctx.agent_account = address_of(&bob());
    let r = register_agent(&mut store, &mut ctx, "Alice".to_string(), "alice-gh".to_string());
    assert_eq!(r, Err(AgentError::AddressMismatch));
    assert_eq!(store.accounts.len(), 0);
    assert_eq!(ctx.user_lamports, ONE_SOL);
}

#[test]
fn unsigned_registration_is_refused() {
    let mut store = AgentStore::new(program_id());
    let mut ctx = registration(alice(), ONE_SOL);
    ctx.user_is_signer = false;
    let r = register_agent(&mut store, &mut ctx, "Alice".to_string(), "alice-gh".to_string());
    assert_eq!(r, Err(AgentError::ConstraintViolation));
    assert_eq!(store.accounts.len(), 0);
}

#[test]
fn unsigned_update_is_refused() {
    let mut store = store_with_alice();
    let mut ctx = update(alice());
    ctx.oracle_is_signer = false;
    assert_eq!(add_reputation(&mut store, &ctx), Err(AgentError::ConstraintViolation));
    assert_eq!(score_of(&store, &alice()), 0);
}

#[test]
fn any_signer_may_act_as_authority() {
    let mut store = store_with_alice();
    let mut ctx = update(alice());
    ctx.oracle = bob();
    assert_eq!(add_reputation(&mut store, &ctx), Ok(()));
    assert_eq!(score_of(&store, &alice()), 10);
}

#[test]
fn texts_of_fifty_bytes_fit() {
    let mut store = AgentStore::new(program_id());
    let mut ctx = registration(alice(), ONE_SOL);
    let name = "n".repeat(MAX_TEXT_BYTES);
    let github = "g".repeat(50);
    assert_eq!(register_agent(&mut store, &mut ctx, name, github), Ok(()));
}

#[test]
fn oversized_name_is_refused() {
    let mut store = AgentStore::new(program_id());
    let mut ctx = registration(alice(), ONE_SOL);
    let r = register_agent(&mut store, &mut ctx, "n".repeat(51), "alice-gh".to_string());
    assert_eq!(r, Err(AgentError::ConstraintViolation));
    assert_eq!(store.accounts.len(), 0);
    assert_eq!(ctx.user_lamports, ONE_SOL);
}

#[test]
fn oversized_reference_is_refused() {
    let mut store = AgentStore::new(program_id());
    let mut ctx = registration(alice(), ONE_SOL);
    let r = register_agent(&mut store, &mut ctx, "Alice".to_string(), "g".repeat(51));
    assert_eq!(r, Err(AgentError::ConstraintViolation));
}

#[test]
fn text_length_counts_bytes_not_characters() {
    let mut store = AgentStore::new(program_id());
    let mut ctx = registration(alice(), ONE_SOL);
    let name = "é".repeat(26);
    assert_eq!(name.chars().count(), 26);
    let r = register_agent(&mut store, &mut ctx, name, "alice-gh".to_string());
    assert_eq!(r, Err(AgentError::ConstraintViolation));
    let r = register_agent(&mut store, &mut ctx, "é".repeat(25), "alice-gh".to_string());
    assert_eq!(r, Ok(()));
}

#[test]
fn score_overflow_is_refused() {
    let mut store = AgentStore::new(program_id());
    store.accounts.push(stored(address_of(&alice()), alice(), u64::MAX - 5));
    assert_eq!(add_reputation(&mut store, &update(alice())), Err(AgentError::ConstraintViolation));
    assert_eq!(store.accounts[0].account.reputation_score, u64::MAX - 5);
    store.accounts[0].account.reputation_score = u64::MAX - 10;
    assert_eq!(add_reputation(&mut store, &update(alice())), Ok(()));
    assert_eq!(store.accounts[0].account.reputation_score, u64::MAX);
}

#[test]
fn new_store_is_empty() {
    let store = AgentStore::new(program_id());
    assert_eq!(store.program_id, program_id());
    assert!(store.get(&address_of(&alice())).is_none());
}

#[test]
fn key_bytes_round_trip() {
    let bytes = [3u8; 32];
    let key = Pubkey::new_from_array(bytes);
    assert_eq!(key.to_bytes(), bytes);
    let mut other = bytes;
    other[31] = 4;
    assert_ne!(key, Pubkey::new_from_array(other));
}

#[test]
fn occupied_address_wins_over_oversized_texts() {
    let mut store = store_with_alice();
    let mut again = registration(alice(), ONE_SOL);
    let r = register_agent(&mut store, &mut again, "n".repeat(51), "g".repeat(51));
    assert_eq!(r, Err(AgentError::AlreadyExists));
    assert_eq!(store.accounts.len(), 1);
}

#[test]
fn missing_funds_win_over_oversized_texts() {
    let mut store = AgentStore::new(program_id());
    let mut ctx = registration(alice(), STAKE_LAMPORTS - 1);
    let r = register_agent(&mut store, &mut ctx, "n".repeat(51), "alice-gh".to_string());
    assert_eq!(r, Err(AgentError::InsufficientFunds));
    assert!(store.get(&address_of(&alice())).is_none());
}

#[test]
fn wrong_address_wins_over_oversized_texts() {
    let mut store = AgentStore::new(program_id());
    let mut ctx = registration(alice(), ONE_SOL);
    ctx.agent_account = address_of(&bob());
    let r = register_agent(&mut store, &mut ctx, "n".repeat(51), "alice-gh".to_string());
    assert_eq!(r, Err(AgentError::AddressMismatch));
}

#[test]
fn missing_record_is_found_before_the_signature() {
    let mut store = store_with_alice();
    let mut ctx = update(bob());
    ctx.oracle_is_signer = false;
    assert_eq!(add_reputation(&mut store, &ctx), Err(AgentError::NotFound));
}

#[test]
fn failed_updates_between_successes_change_nothing() {
    let mut store = store_with_alice();
    let mut unsigned = update(alice());
    unsigned.oracle_is_signer = false;
    let mut successes = 0u64;
    for k in 0..9u64 {
        if k % 3 == 1 {
            assert_eq!(add_reputation(&mut store, &unsigned), Err(AgentError::ConstraintViolation));
            assert_eq!(add_reputation(&mut store, &update(bob())), Err(AgentError::NotFound));
        } else {
            assert_eq!(add_reputation(&mut store, &update(alice())), Ok(()));
            successes += 1;
        }
        assert_eq!(score_of(&store, &alice()), 10 * successes);
    }
    assert_eq!(successes, 6);
}

