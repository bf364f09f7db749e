//! The ledger sandbox that stores the accounts, the wall clock, and the
//! source of fresh addresses: everything here is taken on trust from the
//! crates that provide them.

use crate::address::Address;
use vstd::bytes::spec_u64_from_le_bytes;
use vstd::prelude::*;

verus! {

/// `litesvm::LiteSVM`, the ledger sandbox. Nothing inside it is seen.
#[verifier::external_type_specification]
#[verifier::external_body]
pub struct ExLiteSVM(litesvm::LiteSVM);

/// `solana_keypair::Keypair`, a key pair. Nothing inside it is seen.
#[verifier::external_type_specification]
#[verifier::external_body]
pub struct ExKeypair(solana_keypair::Keypair);

/// `std::time::SystemTime`, a point in time. Nothing inside it is seen.
#[verifier::external_type_specification]
#[verifier::external_body]
pub struct ExSystemTime(std::time::SystemTime);

/// `std::time::SystemTimeError`, the error for a time before another.
/// Nothing inside it is seen.
#[verifier::external_type_specification]
#[verifier::external_body]
pub struct ExSystemTimeError(std::time::SystemTimeError);

/// The accounts that a sandbox holds, by address: of each its data, its
/// owner, its balance, whether it is executable, and its rent epoch.
pub uninterp spec fn svm_accounts(svm: litesvm::LiteSVM) -> Map<
    Seq<u8>,
    (Seq<u8>, Seq<u8>, u64, bool, u64),
>;

/// Whether a sandbox accepts `data` as the data of an account that is not
/// executable at `address`: what `LiteSVM::set_account` decides, from these
/// two alone.
pub uninterp spec fn write_accepted(address: Seq<u8>, data: Seq<u8>) -> bool;

/// The text that stands for an address: its bytes in base 58.
pub uninterp spec fn base58_text(address: Seq<u8>) -> Seq<char>;

/// `SystemTime::now`: the wall clock's time. Nothing is claimed of it.
#[verifier::external_body]
pub(crate) fn system_time_now() -> (now: std::time::SystemTime) {
    std::time::SystemTime::now()
}

/// `SystemTime::duration_since` from the Unix epoch: the time passed since
/// then, or an error for a time before it. Nothing is claimed of it.
#[verifier::external_body]
pub(crate) fn since_unix_epoch(time: &std::time::SystemTime) -> (passed: Result<
    std::time::Duration,
    std::time::SystemTimeError,
>) {
    time.duration_since(std::time::UNIX_EPOCH)
}

/// `Duration::as_secs`: the whole seconds of a duration. Nothing is claimed of it.
#[verifier::external_body]
pub(crate) fn whole_seconds(duration: &std::time::Duration) -> (seconds: u64) {
    duration.as_secs()
}

/// Address of the account that holds the sandbox's clock.
pub open spec fn clock_address() -> Seq<u8> {
    seq![
        6u8, 167, 213, 23, 24, 199, 116, 201, 40, 86, 99, 152, 105, 29, 94, 182, 139, 94, 184, 163,
        155, 75, 109, 92, 115, 85, 91, 33, 0, 0, 0, 0,
    ]
}

/// Length of the clock account's data: five numbers of eight bytes.
pub const CLOCK_SIZE: usize = 40;

/// Whether the accounts hold a clock that can be read.
pub open spec fn has_clock(accounts: Map<Seq<u8>, (Seq<u8>, Seq<u8>, u64, bool, u64)>) -> bool {
    accounts.contains_key(clock_address()) && accounts[clock_address()].0.len() >= CLOCK_SIZE
}

/// Whether an address begins as the addresses of the system variables do,
/// whose text begins with `Sysvar`. The sandbox looks into what is written
/// at the address of a system variable, and at no other.
pub open spec fn is_reserved(address: Seq<u8>) -> bool {
    address.len() == 32 && address[0] == 6 && address[1] == 167 && address[2] == 213
        && address[3] == 23
}

/// The slot that the clock account's data holds: its first eight bytes.
pub open spec fn clock_slot(data: Seq<u8>) -> u64 {
    spec_u64_from_le_bytes(data.subrange(0, 8))
}

/// The Unix time that the clock account's data holds: its last eight bytes,
/// in two's complement.
pub open spec fn clock_time(data: Seq<u8>) -> i64 {
    spec_u64_from_le_bytes(data.subrange(32, 40)) as i64
}

/// `LiteSVM::get_account`: the data of the account at `address`, where the
/// sandbox holds one.
#[verifier::external_body]
pub(crate) fn account_data(svm: &litesvm::LiteSVM, address: &Address) -> (data: Option<Vec<u8>>)
    ensures
        data.is_some() == svm_accounts(*svm).contains_key(address@),
        data matches Some(d) ==> d@ == svm_accounts(*svm)[address@].0,
{
    svm.get_account(&solana_pubkey::Pubkey::new_from_array(address.bytes)).map(|a| a.data)
}

/// `LiteSVM::set_account` for an account that is not executable. Where the
/// sandbox accepts it, the account at `address` is replaced, or removed for
/// a balance of zero, and no other account changes; where it refuses, it
/// holds the accounts it held. Whether it accepts depends on the address and
/// the data alone: it refuses only at the address of a system variable, and
/// there only data that is no such variable.
#[verifier::external_body]
pub(crate) fn write_account(
    svm: &mut litesvm::LiteSVM,
    address: &Address,
    lamports: u64,
    data: Vec<u8>,
    owner: &Address,
    executable: bool,
    rent_epoch: u64,
) -> (accepted: bool)
    requires
        !executable,
    ensures
        accepted && lamports > 0 ==> svm_accounts(*final(svm)) == svm_accounts(*old(svm)).insert(
            address@,
            (data@, owner@, lamports, executable, rent_epoch),
        ),
        accepted && lamports == 0 ==> svm_accounts(*final(svm)) == svm_accounts(*old(svm)).remove(
            address@,
        ),
        !accepted ==> svm_accounts(*final(svm)) == svm_accounts(*old(svm)),
        accepted == write_accepted(address@, data@),
        !is_reserved(address@) ==> accepted,
{
    let account = solana_account::Account {
        lamports,
        data,
        owner: solana_pubkey::Pubkey::new_from_array(owner.bytes),
        executable,
        rent_epoch,
    };
    svm.set_account(solana_pubkey::Pubkey::new_from_array(address.bytes), account).is_ok()
}

/// `LiteSVM::get_sysvar` for the clock: the slot and the Unix time that the
/// clock account's data holds. It panics where the sandbox holds no clock
/// account or one too short.
#[verifier::external_body]
pub(crate) fn read_clock(svm: &litesvm::LiteSVM) -> (reading: (u64, i64))
    requires
        has_clock(svm_accounts(*svm)),
    ensures
        reading.0 == clock_slot(svm_accounts(*svm)[clock_address()].0),
        reading.1 == clock_time(svm_accounts(*svm)[clock_address()].0),
{
    let clock = svm.get_sysvar::<solana_clock::Clock>();
    (clock.slot, clock.unix_timestamp)
}

/// `Keypair::new`: a fresh random key pair. Nothing is claimed of it.
#[verifier::external_body]
pub(crate) fn new_keypair() -> (keypair: solana_keypair::Keypair) {
    solana_keypair::Keypair::new()
}

/// `Signer::pubkey` of a key pair: its public key, as an address. Nothing is
/// claimed of it.
#[verifier::external_body]
pub(crate) fn keypair_address(keypair: &solana_keypair::Keypair) -> (address: Address) {
    Address { bytes: solana_signer::Signer::pubkey(keypair).to_bytes() }
}

/// `Pubkey::to_string`: the text of an address, which depends on its bytes alone.
#[verifier::external_body]
pub(crate) fn address_text(address: &Address) -> (text: String)
    ensures
        text@ == base58_text(address@),
{
    solana_pubkey::Pubkey::new_from_array(address.bytes).to_string()
}

} // verus!
