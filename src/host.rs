use crate::key::Key;
use anchor_lang::prelude::{Pubkey, Rent};
use vstd::prelude::*;

verus! {

/// What `Pubkey::try_find_program_address` returns for the given seeds and
/// program id: the first bump from 255 downward whose hashed address lies off
/// the curve, with that address, or nothing if no bump gives one.
pub uninterp spec fn program_address_of(seeds: Seq<Seq<u8>>, program_id: Seq<u8>) -> Option<(Seq<u8>, u8)>;

/// Relies on `Pubkey::try_find_program_address` (solana-program, re-exported by
/// anchor-lang) with the two seeds `tag` and `owner`: off the Solana target it
/// hashes the seeds, the program id and a bump, depends on its arguments alone,
/// and returns `None` rather than panicking.
#[verifier::external_body]
pub(crate) fn try_find_program_address(tag: &Vec<u8>, owner: &Key, program: &Key) -> (r: Option<(Key, u8)>)
    ensures
        program_address_of(seq![tag@, owner@], program@) == match r {
            Some((a, b)) => Some((a@, b)),
            None => None::<(Seq<u8>, u8)>,
        },
{
    let seeds: [&[u8]; 2] = [tag.as_slice(), &owner.bytes];
    Pubkey::try_find_program_address(&seeds, &Pubkey::new_from_array(program.bytes))
        .map(|(a, b)| (Key { bytes: a.to_bytes() }, b))
}

/// Relies on `Rent::minimum_balance` of the default rent (solana-program,
/// re-exported by anchor-lang): 3480 lamports per byte-year for the data and an
/// overhead of 128 bytes, over a threshold of two years. For data of at most a
/// million bytes every step of its float arithmetic is exact.
#[verifier::external_body]
pub(crate) fn rent_exempt_minimum(data_len: usize) -> (r: u64)
    requires
        data_len <= 1_000_000,
    ensures
        r == 2 * ((128 + data_len) * 3480),
{
    Rent::default().minimum_balance(data_len)
}

} // verus!
