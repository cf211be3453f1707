//! A counter account manager: one greeting record per owner, kept at an
//! address derived from the owner's key, created once and then incremented.
mod greeting;
mod host;
mod key;
mod laws;

pub use greeting::{
    after_create, after_increment, create_greeting, create_outcome, greeting_address,
    greeting_address_of, greeting_tag, increment_greeting, increment_outcome, record_rent,
    CreateGreeting, GreetingAccount, GreetingError, IncrementGreeting, Ledger, RECORD_SPACE,
};
pub use host::program_address_of;
pub use key::{program_id, Key};
pub use laws::{
    after_increments, create_starts_at_zero, create_twice_fails, creates_own_record,
    increment_before_create_fails, increments_count, other_principal_refused,
};
