use crate::greeting::{
    after_create, after_increment, create_outcome, greeting_address_of, increment_outcome,
    record_rent, CreateGreeting, GreetingError, IncrementGreeting,
};
use vstd::prelude::*;

verus! {

/// A create request by a signing owner who can pay the rent, aimed at the
/// owner's own derived address.
pub open spec fn creates_own_record(program: Seq<u8>, ctx: CreateGreeting) -> bool {
    &&& ctx.user_is_signer
    &&& greeting_address_of(program, ctx.user@) == Some(ctx.greeting_account@)
    &&& ctx.user_lamports >= record_rent()
}

/// The records after `n` increment requests `ctx`, one after another.
pub open spec fn after_increments(
    records: Map<Seq<u8>, u64>,
    program: Seq<u8>,
    ctx: IncrementGreeting,
    n: nat,
) -> Map<Seq<u8>, u64>
    decreases n,
{
    if n == 0 {
        records
    } else {
        after_increment(after_increments(records, program, ctx, (n - 1) as nat), program, ctx)
    }
}

/// Creating an owner's record where none stands succeeds, and the new record's
/// counter reads 0.
pub proof fn create_starts_at_zero(records: Map<Seq<u8>, u64>, program: Seq<u8>, ctx: CreateGreeting)
    requires
        creates_own_record(program, ctx),
        !records.contains_key(ctx.greeting_account@),
    ensures
        create_outcome(records, program, ctx) == Ok::<(), GreetingError>(()),
        after_create(records, program, ctx).contains_key(ctx.greeting_account@),
        after_create(records, program, ctx)[ctx.greeting_account@] == 0,
{
}

/// Creating an owner's record a second time fails with `AlreadyExists` and
/// leaves the records, the counter included, as the first call left them.
pub proof fn create_twice_fails(records: Map<Seq<u8>, u64>, program: Seq<u8>, ctx: CreateGreeting)
    requires
        creates_own_record(program, ctx),
    ensures
        create_outcome(after_create(records, program, ctx), program, ctx) == Err::<(), GreetingError>(
            GreetingError::AlreadyExists,
        ),
        after_create(after_create(records, program, ctx), program, ctx) == after_create(
            records,
            program,
            ctx,
        ),
{
}

/// Creating an owner's record and then incrementing it `n` times, each time
/// signed by the owner, leaves its counter at `n` (for every `n` that a
/// counter can hold).
pub proof fn increments_count(
    records: Map<Seq<u8>, u64>,
    program: Seq<u8>,
    create: CreateGreeting,
    inc: IncrementGreeting,
    n: nat,
)
    requires
        creates_own_record(program, create),
        !records.contains_key(create.greeting_account@),
        inc.user_is_signer,
        inc.user@ == create.user@,
        inc.greeting_account@ == create.greeting_account@,
        n <= u64::MAX,
    ensures
        after_increments(after_create(records, program, create), program, inc, n).contains_key(
            create.greeting_account@,
        ),
        after_increments(after_create(records, program, create), program, inc, n)[create.greeting_account@]
            == n,
    decreases n,
{
    if n > 0 {
        increments_count(records, program, create, inc, (n - 1) as nat);
    }
}

/// Incrementing where no record stands fails with `NotFound` and creates no
/// record.
pub proof fn increment_before_create_fails(
    records: Map<Seq<u8>, u64>,
    program: Seq<u8>,
    ctx: IncrementGreeting,
)
    requires
        !records.contains_key(ctx.greeting_account@),
    ensures
        increment_outcome(records, program, ctx) == Err::<(), GreetingError>(GreetingError::NotFound),
        after_increment(records, program, ctx) == records,
{
}

/// A request by a principal other than the owner, aimed at the owner's record,
/// fails with `Unauthorized` and changes nothing, for create and increment alike.
/// Stated for principals whose derived addresses differ from the owner's.
pub proof fn other_principal_refused(
    records: Map<Seq<u8>, u64>,
    program: Seq<u8>,
    owner: Seq<u8>,
    create: CreateGreeting,
    inc: IncrementGreeting,
)
    requires
        greeting_address_of(program, owner) is Some,
        records.contains_key(greeting_address_of(program, owner)->0),
        create.user@ != owner,
        create.greeting_account@ == greeting_address_of(program, owner)->0,
        greeting_address_of(program, create.user@) != greeting_address_of(program, owner),
        inc.user@ != owner,
        inc.greeting_account@ == greeting_address_of(program, owner)->0,
        greeting_address_of(program, inc.user@) != greeting_address_of(program, owner),
    ensures
        create_outcome(records, program, create) == Err::<(), GreetingError>(
            GreetingError::Unauthorized,
        ),
        after_create(records, program, create) == records,
        increment_outcome(records, program, inc) == Err::<(), GreetingError>(
            GreetingError::Unauthorized,
        ),
        after_increment(records, program, inc) == records,
{
}

} // verus!
