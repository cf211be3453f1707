use crate::host::{program_address_of, rent_exempt_minimum, try_find_program_address};
use crate::key::Key;
use vstd::prelude::*;

verus! {

/// Bytes of a stored greeting record: an 8-byte type tag and the 8-byte counter.
pub const RECORD_SPACE: usize = 16;

/// The persisted greeting record.
#[derive(Clone, Copy, Debug, PartialEq, Eq, Structural)]
pub struct GreetingAccount {
    pub counter: u64,
}

/// Why an instruction was refused. A refused instruction changes nothing.
#[derive(Clone, Copy, Debug, PartialEq, Eq, Structural)]
pub enum GreetingError {
    /// A record already stands at the address.
    AlreadyExists,
    /// No record stands at the address.
    NotFound,
    /// The user did not sign, or the address is not the one derived from the user.
    Unauthorized,
    /// The user cannot pay for the record's storage.
    InsufficientFunds,
    /// The counter is at its largest value.
    Overflow,
}

/// The accounts handed to the create instruction.
#[derive(Clone, Copy, Debug)]
pub struct CreateGreeting {
    /// Address at which the record is to be created.
    pub greeting_account: Key,
    /// The owner, who pays for the record.
    pub user: Key,
    /// Whether the owner signed the request.
    pub user_is_signer: bool,
    /// The owner's balance.
    pub user_lamports: u64,
}

/// The accounts handed to the increment instruction.
#[derive(Clone, Copy, Debug)]
pub struct IncrementGreeting {
    /// Address of the record to increment.
    pub greeting_account: Key,
    /// The owner.
    pub user: Key,
    /// Whether the owner signed the request.
    pub user_is_signer: bool,
}

/// The seed tag that separates greeting addresses from other derived addresses.
pub open spec fn greeting_tag() -> Seq<u8> {
    seq![103u8, 114, 101, 101, 116, 105, 110, 103]
}

/// The address of `owner`'s record under program `program`, if one can be derived.
pub open spec fn greeting_address_of(program: Seq<u8>, owner: Seq<u8>) -> Option<Seq<u8>> {
    match program_address_of(seq![greeting_tag(), owner], program) {
        Some(found) => Some(found.0),
        None => None,
    }
}

/// Lamports that a record must hold to be exempt from rent.
pub open spec fn record_rent() -> int {
    2 * ((128 + RECORD_SPACE) * 3480)
}

/// Outcome of the create instruction on `records` (addresses to counters).
pub open spec fn create_outcome(
    records: Map<Seq<u8>, u64>,
    program: Seq<u8>,
    ctx: CreateGreeting,
) -> Result<(), GreetingError> {
    if !ctx.user_is_signer {
        Err(GreetingError::Unauthorized)
    } else if greeting_address_of(program, ctx.user@) != Some(ctx.greeting_account@) {
        Err(GreetingError::Unauthorized)
    } else if records.contains_key(ctx.greeting_account@) {
        Err(GreetingError::AlreadyExists)
    } else if ctx.user_lamports < record_rent() {
        Err(GreetingError::InsufficientFunds)
    } else {
        Ok(())
    }
}

/// The records after the create instruction.
pub open spec fn after_create(
    records: Map<Seq<u8>, u64>,
    program: Seq<u8>,
    ctx: CreateGreeting,
) -> Map<Seq<u8>, u64> {
    if create_outcome(records, program, ctx) is Ok {
        records.insert(ctx.greeting_account@, 0)
    } else {
        records
    }
}

/// Outcome of the increment instruction on `records`.
pub open spec fn increment_outcome(
    records: Map<Seq<u8>, u64>,
    program: Seq<u8>,
    ctx: IncrementGreeting,
) -> Result<(), GreetingError> {
    if !records.contains_key(ctx.greeting_account@) {
        Err(GreetingError::NotFound)
    } else if !ctx.user_is_signer {
        Err(GreetingError::Unauthorized)
    } else if greeting_address_of(program, ctx.user@) != Some(ctx.greeting_account@) {
        Err(GreetingError::Unauthorized)
    } else if records[ctx.greeting_account@] == u64::MAX {
        Err(GreetingError::Overflow)
    } else {
        Ok(())
    }
}

/// The records after the increment instruction.
pub open spec fn after_increment(
    records: Map<Seq<u8>, u64>,
    program: Seq<u8>,
    ctx: IncrementGreeting,
) -> Map<Seq<u8>, u64> {
    if increment_outcome(records, program, ctx) is Ok {
        records.insert(ctx.greeting_account@, (records[ctx.greeting_account@] + 1) as u64)
    } else {
        records
    }
}

/// The seed tag, as bytes.
fn greeting_seed() -> (r: Vec<u8>)
    ensures
        r@ == greeting_tag(),
{
    let r: Vec<u8> = vec![103u8, 114, 101, 101, 116, 105, 110, 103];
    assert(r@ =~= greeting_tag());
    r
}

/// The address of `owner`'s record under program `program`, if one can be derived.
pub fn greeting_address(program: &Key, owner: &Key) -> (r: Option<Key>)
    ensures
        greeting_address_of(program@, owner@) == match r {
            Some(a) => Some(a@),
            None => None::<Seq<u8>>,
        },
{
    let tag = greeting_seed();
    match try_find_program_address(&tag, owner, program) {
        Some((a, _)) => Some(a),
        None => None,
    }
}

} // verus!

verus! {

/// One stored record and the address it stands at.
#[derive(Clone, Copy, Debug)]
struct Entry {
    address: Key,
    account: GreetingAccount,
}

/// The records of one deployed program, keyed by address.
pub struct Ledger {
    program: Key,
    entries: Vec<Entry>,
    records: Ghost<Map<Seq<u8>, u64>>,
}

impl View for Ledger {
    type V = Map<Seq<u8>, u64>;

    /// Each stored record's counter, by address.
    closed spec fn view(&self) -> Map<Seq<u8>, u64> {
        self.records@
    }
}

impl Ledger {
    /// The program whose records these are.
    pub closed spec fn program_spec(&self) -> Seq<u8> {
        self.program@
    }

    /// The entries hold each record once, and exactly the records of the view.
    pub closed spec fn wf(&self) -> bool {
        &&& forall|i: int|
            0 <= i < self.entries@.len() ==> #[trigger] self.records@.contains_key(
                self.entries@[i].address@,
            ) && self.records@[self.entries@[i].address@] == self.entries@[i].account.counter
        &&& forall|k: Seq<u8>|
            #[trigger] self.records@.contains_key(k) ==> exists|i: int|
                0 <= i < self.entries@.len() && #[trigger] self.entries@[i].address@ == k
        &&& forall|i: int, j: int|
            0 <= i < j < self.entries@.len() ==> #[trigger] self.entries@[i].address@
                != #[trigger] self.entries@[j].address@
    }

    /// A ledger of `program` with no records.
    pub fn new(program: Key) -> (r: Ledger)
        ensures
            r.wf(),
            r@ == Map::<Seq<u8>, u64>::empty(),
            r.program_spec() == program@,
    {
        Ledger { program, entries: Vec::new(), records: Ghost(Map::empty()) }
    }

    /// The program whose records these are.
    pub fn program_id(&self) -> (r: Key)
        ensures
            r@ == self.program_spec(),
    {
        self.program
    }

    /// Index of the entry at `address`, if a record stands there.
    fn find(&self, address: &Key) -> (r: Option<usize>)
        requires
            self.wf(),
        ensures
            match r {
                Some(i) => i < self.entries@.len() && self.entries@[i as int].address@ == address@
                    && self@.contains_key(address@)
                    && self@[address@] == self.entries@[i as int].account.counter,
                None => !self@.contains_key(address@),
            },
    {
        let mut i: usize = 0;
        while i < self.entries.len()
            invariant
                self.wf(),
                0 <= i <= self.entries@.len(),
                forall|j: int| 0 <= j < i ==> self.entries@[j].address@ != address@,
            decreases self.entries@.len() - i,
        {
            if self.entries[i].address.same_as(address) {
                assert(self.records@.contains_key(self.entries@[i as int].address@));
                return Some(i);
            }
            i = i + 1;
        }
        proof {
            if self@.contains_key(address@) {
                let k = address@;
                assert(self.records@.contains_key(k));
            }
        }
        None
    }

    /// The record at `address`, if one stands there.
    pub fn read(&self, address: &Key) -> (r: Option<GreetingAccount>)
        requires
            self.wf(),
        ensures
            match r {
                Some(a) => self@.contains_key(address@) && a.counter == self@[address@],
                None => !self@.contains_key(address@),
            },
    {
        match self.find(address) {
            Some(i) => Some(self.entries[i].account),
            None => None,
        }
    }
}

/// Creates the record of `ctx.user` at `ctx.greeting_account` with counter 0.
/// The user must have signed, the address must be the one derived from the
/// user, no record may stand there yet, and the user must cover the rent.
pub fn create_greeting(ledger: &mut Ledger, ctx: &CreateGreeting) -> (r: Result<(), GreetingError>)
    requires
        old(ledger).wf(),
    ensures
        final(ledger).wf(),
        final(ledger).program_spec() == old(ledger).program_spec(),
        r == create_outcome(old(ledger)@, old(ledger).program_spec(), *ctx),
        final(ledger)@ == after_create(old(ledger)@, old(ledger).program_spec(), *ctx),
{
    if !ctx.user_is_signer {
        return Err(GreetingError::Unauthorized);
    }
    match greeting_address(&ledger.program, &ctx.user) {
        Some(a) => {
            if !a.same_as(&ctx.greeting_account) {
                return Err(GreetingError::Unauthorized);
            }
        },
        None => {
            return Err(GreetingError::Unauthorized);
        },
    }
    if ledger.find(&ctx.greeting_account).is_some() {
        return Err(GreetingError::AlreadyExists);
    }
    let rent = rent_exempt_minimum(RECORD_SPACE);
    if ctx.user_lamports < rent {
        return Err(GreetingError::InsufficientFunds);
    }
    let ghost before = ledger.records@;
    let ghost old_entries = ledger.entries@;
    ledger.entries.push(Entry { address: ctx.greeting_account, account: GreetingAccount { counter: 0 } });
    ledger.records = Ghost(before.insert(ctx.greeting_account@, 0));
    proof {
        let n = old_entries.len() as int;
        assert forall|k: Seq<u8>| #[trigger] ledger.records@.contains_key(k) implies exists|i: int|
            0 <= i < ledger.entries@.len() && #[trigger] ledger.entries@[i].address@ == k by {
            if k == ctx.greeting_account@ {
                assert(ledger.entries@[n].address@ == k);
            } else {
                assert(before.contains_key(k));
                let i = choose|i: int| 0 <= i < old_entries.len() && #[trigger] old_entries[i].address@ == k;
                assert(ledger.entries@[i].address@ == k);
            }
        }
        assert forall|i: int| 0 <= i < ledger.entries@.len() implies #[trigger] ledger.records@.contains_key(
            ledger.entries@[i].address@,
        ) && ledger.records@[ledger.entries@[i].address@] == ledger.entries@[i].account.counter by {
            if i < n {
                assert(old_entries[i] == ledger.entries@[i]);
                assert(before.contains_key(old_entries[i].address@));
            }
        }
        assert forall|i: int, j: int| 0 <= i < j < ledger.entries@.len() implies #[trigger] ledger.entries@[i].address@
            != #[trigger] ledger.entries@[j].address@ by {
            assert(ledger.entries@[i] == old_entries[i]);
            if j < n {
                assert(ledger.entries@[j] == old_entries[j]);
            } else {
                assert(before.contains_key(old_entries[i].address@));
            }
        }
    }
    Ok(())
}

/// Adds one to the counter of the record at `ctx.greeting_account`. The record
/// must exist, the user must have signed, the address must be the one derived
/// from the user, and the counter must be below its largest value.
pub fn increment_greeting(ledger: &mut Ledger, ctx: &IncrementGreeting) -> (r: Result<(), GreetingError>)
    requires
        old(ledger).wf(),
    ensures
        final(ledger).wf(),
        final(ledger).program_spec() == old(ledger).program_spec(),
        r == increment_outcome(old(ledger)@, old(ledger).program_spec(), *ctx),
        final(ledger)@ == after_increment(old(ledger)@, old(ledger).program_spec(), *ctx),
{
    let idx = match ledger.find(&ctx.greeting_account) {
        Some(i) => i,
        None => {
            return Err(GreetingError::NotFound);
        },
    };
    if !ctx.user_is_signer {
        return Err(GreetingError::Unauthorized);
    }
    match greeting_address(&ledger.program, &ctx.user) {
        Some(a) => {
            if !a.same_as(&ctx.greeting_account) {
                return Err(GreetingError::Unauthorized);
            }
        },
        None => {
            return Err(GreetingError::Unauthorized);
        },
    }
    let counter = ledger.entries[idx].account.counter;
    if counter == u64::MAX {
        return Err(GreetingError::Overflow);
    }
    let ghost before = ledger.records@;
    let ghost old_entries = ledger.entries@;
    let e = Entry { address: ledger.entries[idx].address, account: GreetingAccount { counter: counter + 1 } };
    ledger.entries.set(idx, e);
    ledger.records = Ghost(before.insert(ctx.greeting_account@, (counter + 1) as u64));
    proof {
        assert forall|k: Seq<u8>| #[trigger] ledger.records@.contains_key(k) implies exists|i: int|
            0 <= i < ledger.entries@.len() && #[trigger] ledger.entries@[i].address@ == k by {
            if k == ctx.greeting_account@ {
                assert(ledger.entries@[idx as int].address@ == k);
            } else {
                assert(before.contains_key(k));
                let i = choose|i: int| 0 <= i < old_entries.len() && #[trigger] old_entries[i].address@ == k;
                assert(ledger.entries@[i].address@ == k);
            }
        }
        assert forall|i: int| 0 <= i < ledger.entries@.len() implies #[trigger] ledger.records@.contains_key(
            ledger.entries@[i].address@,
        ) && ledger.records@[ledger.entries@[i].address@] == ledger.entries@[i].account.counter by {
            if i != idx {
                assert(old_entries[i] == ledger.entries@[i]);
                assert(before.contains_key(old_entries[i].address@));
            }
        }
        assert forall|i: int, j: int| 0 <= i < j < ledger.entries@.len() implies #[trigger] ledger.entries@[i].address@
            != #[trigger] ledger.entries@[j].address@ by {
            assert(old_entries[i].address@ != old_entries[j].address@);
        }
    }
    Ok(())
}

} // verus!
