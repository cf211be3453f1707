use anchor_lang::prelude::Pubkey;
use my_solana_dapp::{
    create_greeting, greeting_address, increment_greeting, program_id, CreateGreeting,
    GreetingError, IncrementGreeting, Key, Ledger,
};
use std::str::FromStr;

const RENT: u64 = 1_002_240;

fn alice() -> Key {
    Key { bytes: [1u8; 32] }
}

fn bob() -> Key {
    Key { bytes: [2u8; 32] }
}

fn address_of(owner: &Key) -> Key {
    greeting_address(&program_id(), owner).expect("a derivable address")
}

fn create_ctx(owner: &Key) -> CreateGreeting {
    CreateGreeting {
        greeting_account: address_of(owner),
        user: *owner,
        user_is_signer: true,
        user_lamports: 5_000_000,
    }
}

fn increment_ctx(owner: &Key) -> IncrementGreeting {
    IncrementGreeting { greeting_account: address_of(owner), user: *owner, user_is_signer: true }
}

fn counter_at(ledger: &Ledger, address: &Key) -> Option<u64> {
    ledger.read(address).map(|a| a.counter)
}

#[test]
fn alice_scenario() {
    let mut ledger = Ledger::new(program_id());
    let addr = address_of(&alice());
    assert_eq!(create_greeting(&mut ledger, &create_ctx(&alice())), Ok(()));
    assert_eq!(counter_at(&ledger, &addr), Some(0));
    assert_eq!(increment_greeting(&mut ledger, &increment_ctx(&alice())), Ok(()));
    assert_eq!(counter_at(&ledger, &addr), Some(1));
    assert_eq!(increment_greeting(&mut ledger, &increment_ctx(&alice())), Ok(()));
    assert_eq!(counter_at(&ledger, &addr), Some(2));
    assert_eq!(
        create_greeting(&mut ledger, &create_ctx(&alice())),
        Err(GreetingError::AlreadyExists)
    );
    assert_eq!(counter_at(&ledger, &addr), Some(2));
}

#[test]
fn create_then_read_is_zero() {
    let mut ledger = Ledger::new(program_id());
    assert_eq!(create_greeting(&mut ledger, &create_ctx(&bob())), Ok(()));
    assert_eq!(counter_at(&ledger, &address_of(&bob())), Some(0));
}

#[test]
fn second_create_fails_and_keeps_counter() {
    let mut ledger = Ledger::new(program_id());
    assert_eq!(create_greeting(&mut ledger, &create_ctx(&alice())), Ok(()));
    assert_eq!(
        create_greeting(&mut ledger, &create_ctx(&alice())),
        Err(GreetingError::AlreadyExists)
    );
    assert_eq!(counter_at(&ledger, &address_of(&alice())), Some(0));
}

#[test]
fn n_increments_give_n() {
    for n in 0u64..6 {
        let mut ledger = Ledger::new(program_id());
        assert_eq!(create_greeting(&mut ledger, &create_ctx(&alice())), Ok(()));
        for _ in 0..n {
            assert_eq!(increment_greeting(&mut ledger, &increment_ctx(&alice())), Ok(()));
        }
        assert_eq!(counter_at(&ledger, &address_of(&alice())), Some(n));
    }
}

#[test]
fn increment_before_create_is_not_found() {
    let mut ledger = Ledger::new(program_id());
    assert_eq!(
        increment_greeting(&mut ledger, &increment_ctx(&alice())),
        Err(GreetingError::NotFound)
    );
    assert!(ledger.read(&address_of(&alice())).is_none());
}

#[test]
fn other_principal_is_unauthorized() {
    let mut ledger = Ledger::new(program_id());
    let addr = address_of(&alice());
    assert_eq!(create_greeting(&mut ledger, &create_ctx(&alice())), Ok(()));
    assert_eq!(increment_greeting(&mut ledger, &increment_ctx(&alice())), Ok(()));
    let inc = IncrementGreeting { greeting_account: addr, user: bob(), user_is_signer: true };
    assert_eq!(increment_greeting(&mut ledger, &inc), Err(GreetingError::Unauthorized));
    let create = CreateGreeting {
        greeting_account: addr,
        user: bob(),
        user_is_signer: true,
        user_lamports: 5_000_000,
    };
    assert_eq!(create_greeting(&mut ledger, &create), Err(GreetingError::Unauthorized));
    assert_eq!(counter_at(&ledger, &addr), Some(1));
}

#[test]
fn unsigned_requests_are_unauthorized() {
    let mut ledger = Ledger::new(program_id());
    let mut create = create_ctx(&alice());
    create.user_is_signer = false;
    assert_eq!(create_greeting(&mut ledger, &create), Err(GreetingError::Unauthorized));
    assert!(ledger.read(&address_of(&alice())).is_none());
    assert_eq!(create_greeting(&mut ledger, &create_ctx(&alice())), Ok(()));
    let mut inc = increment_ctx(&alice());
    inc.user_is_signer = false;
    assert_eq!(increment_greeting(&mut ledger, &inc), Err(GreetingError::Unauthorized));
    assert_eq!(counter_at(&ledger, &address_of(&alice())), Some(0));
}

#[test]
fn create_at_foreign_address_is_unauthorized() {
    let mut ledger = Ledger::new(program_id());
    let mut create = create_ctx(&alice());
    create.greeting_account = Key { bytes: [9u8; 32] };
    assert_eq!(create_greeting(&mut ledger, &create), Err(GreetingError::Unauthorized));
    assert!(ledger.read(&Key { bytes: [9u8; 32] }).is_none());
}

#[test]
fn rent_decides_funds() {
    let mut ledger = Ledger::new(program_id());
    let mut create = create_ctx(&alice());
    create.user_lamports = RENT - 1;
    assert_eq!(create_greeting(&mut ledger, &create), Err(GreetingError::InsufficientFunds));
    assert!(ledger.read(&address_of(&alice())).is_none());
    create.user_lamports = RENT;
    assert_eq!(create_greeting(&mut ledger, &create), Ok(()));
    assert_eq!(counter_at(&ledger, &address_of(&alice())), Some(0));
}

#[test]
fn owners_get_distinct_records() {
    let mut ledger = Ledger::new(program_id());
    assert_eq!(create_greeting(&mut ledger, &create_ctx(&alice())), Ok(()));
    assert_eq!(create_greeting(&mut ledger, &create_ctx(&bob())), Ok(()));
    assert_eq!(increment_greeting(&mut ledger, &increment_ctx(&bob())), Ok(()));
    assert_eq!(counter_at(&ledger, &address_of(&alice())), Some(0));
    assert_eq!(counter_at(&ledger, &address_of(&bob())), Some(1));
}

#[test]
fn program_id_matches_base58() {
    let expected = Pubkey::from_str("89xQFfYcAGqoYHJZa93gSTZLxY5wSwxSf94cWeXVcbbj").unwrap();
    assert_eq!(program_id().bytes, expected.to_bytes());
    assert_eq!(Ledger::new(program_id()).program_id().bytes, expected.to_bytes());
}

#[test]
fn address_is_derived_from_seed_and_owner() {
    let pid = Pubkey::new_from_array(program_id().bytes);
    let (expected, _) = Pubkey::find_program_address(&[b"greeting", &[1u8; 32]], &pid);
    let got = address_of(&alice());
    assert_eq!(got.bytes, expected.to_bytes());
    assert_ne!(got.bytes, alice().bytes);
    assert_ne!(got.bytes, address_of(&bob()).bytes);
    assert_eq!(got.bytes, address_of(&alice()).bytes);
}

#[test]
fn keys_compare_by_bytes() {
    let mut k = alice();
    assert!(k.same_as(&alice()));
    k.bytes[31] = 0;
    assert!(!k.same_as(&alice()));
}
