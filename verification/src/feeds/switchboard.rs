//! Addresses of the Switchboard feeds on the main network.

use crate::address::Address;
use vstd::prelude::*;

verus! {

/// Bytes of the address `GvDMxPzN1sCj7L26YDK2HnMRXEQmQ2aemov8YBtPS7vR`.
pub open spec fn sol_usd_address() -> Seq<u8> {
    seq![
        236u8, 129, 16, 81, 18, 162, 87, 214, 29, 244, 207, 95, 19, 238, 10, 27,
        1, 145, 151, 200, 197, 52, 59, 79, 42, 126, 200, 132, 106, 226, 44, 26,
    ]
}

/// The SOL/USD feed.
pub fn sol_usd() -> (a: Address)
    ensures
        a@ == sol_usd_address(),
{
    let a = Address::new(
        [
            236u8, 129, 16, 81, 18, 162, 87, 214, 29, 244, 207, 95, 19, 238, 10, 27,
            1, 145, 151, 200, 197, 52, 59, 79, 42, 126, 200, 132, 106, 226, 44, 26,
        ],
    );
    assert(a@ =~= sol_usd_address());
    a
}

/// Bytes of the address `8SXvChNYFhRq4EZuZvnhjrB3jJRQCv4k3P4W6hesH3Ee`.
pub open spec fn btc_usd_address() -> Seq<u8> {
    seq![
        110u8, 140, 73, 119, 131, 222, 0, 89, 100, 246, 146, 209, 91, 196, 213, 16,
        34, 177, 117, 140, 204, 0, 132, 41, 132, 70, 63, 11, 127, 223, 254, 159,
    ]
}

/// The BTC/USD feed.
pub fn btc_usd() -> (a: Address)
    ensures
        a@ == btc_usd_address(),
{
    let a = Address::new(
        [
            110u8, 140, 73, 119, 131, 222, 0, 89, 100, 246, 146, 209, 91, 196, 213, 16,
            34, 177, 117, 140, 204, 0, 132, 41, 132, 70, 63, 11, 127, 223, 254, 159,
        ],
    );
    assert(a@ =~= btc_usd_address());
    a
}

/// Bytes of the address `HNStfhaLnqwF2ZtJUizaA9uHDAVB976r2AgTUx9LrdEo`.
pub open spec fn eth_usd_address() -> Seq<u8> {
    seq![
        243u8, 57, 118, 112, 48, 64, 79, 249, 90, 127, 196, 85, 55, 166, 159, 156,
        221, 95, 179, 197, 138, 157, 188, 103, 199, 42, 20, 74, 223, 127, 2, 72,
    ]
}

/// The ETH/USD feed.
pub fn eth_usd() -> (a: Address)
    ensures
        a@ == eth_usd_address(),
{
    let a = Address::new(
        [
            243u8, 57, 118, 112, 48, 64, 79, 249, 90, 127, 196, 85, 55, 166, 159, 156,
            221, 95, 179, 197, 138, 157, 188, 103, 199, 42, 20, 74, 223, 127, 2, 72,
        ],
    );
    assert(a@ =~= eth_usd_address());
    a
}

} // verus!
