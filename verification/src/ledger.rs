//! What the registries ask of the ledger sandbox and of the wall clock: a
//! clock reading, a fresh address, and the write of one account.

use crate::address::Address;
use crate::substrate::{
    account_data, clock_address, clock_slot, clock_time, has_clock, is_reserved, keypair_address,
    new_keypair, read_clock, since_unix_epoch, svm_accounts, system_time_now, whole_seconds,
    write_accepted, write_account, CLOCK_SIZE,
};
use vstd::prelude::*;

verus! {

/// Balance given to every account that a registry writes.
pub const ACCOUNT_LAMPORTS: u64 = 1_000_000_000;

/// What the sandbox holds of an account that a registry has written: the
/// data and the owner given, the registries' fixed balance, not executable,
/// rent epoch zero.
pub open spec fn registry_account(data: Seq<u8>, owner: Seq<u8>) -> (
    Seq<u8>,
    Seq<u8>,
    u64,
    bool,
    u64,
) {
    (data, owner, ACCOUNT_LAMPORTS, false, 0u64)
}

/// A snapshot of the logical clock.
#[derive(Clone, Copy, Debug, PartialEq, Eq)]
pub struct ClockReading {
    pub slot: u64,
    pub unix_timestamp: i64,
}

/// The reading that the accounts of a sandbox give: that of the clock
/// account, where there is one of full length.
pub open spec fn clock_of(accounts: Map<Seq<u8>, (Seq<u8>, Seq<u8>, u64, bool, u64)>) -> Option<
    ClockReading,
> {
    if has_clock(accounts) {
        Some(
            ClockReading {
                slot: clock_slot(accounts[clock_address()].0),
                unix_timestamp: clock_time(accounts[clock_address()].0),
            },
        )
    } else {
        None
    }
}

/// The timestamp for a count of seconds since the Unix epoch: the count,
/// clamped into 64 signed bits, and zero for a time before the epoch.
pub open spec fn timestamp_of(seconds: Option<u64>) -> i64 {
    match seconds {
        Some(s) => if s > i64::MAX {
            i64::MAX
        } else {
            s as i64
        },
        None => 0,
    }
}

/// The timestamp for a count of seconds since the Unix epoch.
pub fn timestamp_from(seconds: Option<u64>) -> (t: i64)
    ensures
        t == timestamp_of(seconds),
{
    match seconds {
        Some(s) => {
            if s > i64::MAX as u64 {
                i64::MAX
            } else {
                s as i64
            }
        },
        None => 0,
    }
}

/// The wall clock's time as a Unix timestamp. It is never negative.
pub fn wall_clock_time() -> (t: i64)
    ensures
        t >= 0,
{
    let now = system_time_now();
    let seconds = match since_unix_epoch(&now) {
        Ok(passed) => Some(whole_seconds(&passed)),
        Err(_) => None,
    };
    timestamp_from(seconds)
}

/// The address of the account that holds the sandbox's clock.
pub fn clock_account() -> (a: Address)
    ensures
        a@ == clock_address(),
{
    let a = Address::new(
        [
            6u8, 167, 213, 23, 24, 199, 116, 201, 40, 86, 99, 152, 105, 29, 94, 182, 139, 94, 184,
            163, 155, 75, 109, 92, 115, 85, 91, 33, 0, 0, 0, 0,
        ],
    );
    assert(a@ =~= clock_address());
    a
}

/// The sandbox's clock, or `None` where it holds no clock account of full length.
pub fn sandbox_clock(svm: &litesvm::LiteSVM) -> (reading: Option<ClockReading>)
    ensures
        reading == clock_of(svm_accounts(*svm)),
{
    let address = clock_account();
    match account_data(svm, &address) {
        Some(data) => {
            if data.len() >= CLOCK_SIZE {
                let (slot, unix_timestamp) = read_clock(svm);
                Some(ClockReading { slot, unix_timestamp })
            } else {
                None
            }
        },
        None => None,
    }
}

/// A fresh random address.
pub fn fresh_address() -> (a: Address) {
    let keypair = new_keypair();
    keypair_address(&keypair)
}

/// Writes `data` as the account at `address`, owned by `owner`, with the
/// registries' fixed balance, not executable, with rent epoch zero. Returns
/// whether the sandbox accepted it, as it does at every address but those
/// of the system variables.
pub fn store_account(
    svm: &mut litesvm::LiteSVM,
    address: &Address,
    data: Vec<u8>,
    owner: &Address,
) -> (accepted: bool)
    ensures
        accepted ==> svm_accounts(*final(svm)) == svm_accounts(*old(svm)).insert(
            address@,
            registry_account(data@, owner@),
        ),
        !accepted ==> svm_accounts(*final(svm)) == svm_accounts(*old(svm)),
        accepted == write_accepted(address@, data@),
        !is_reserved(address@) ==> accepted,
{
    write_account(svm, address, ACCOUNT_LAMPORTS, data, owner, false, 0)
}

} // verus!
