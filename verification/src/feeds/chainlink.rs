//! Addresses of the Chainlink feeds on the main network.

use crate::address::Address;
use vstd::prelude::*;

verus! {

/// Bytes of the address `CcPVS9bqyXbD9cLnTbhhHazLsrua8QMFUHTutPtjyDzq`.
pub open spec fn sol_usd_address() -> Seq<u8> {
    seq![
        172u8, 129, 80, 117, 188, 206, 27, 126, 74, 189, 63, 245, 195, 43, 133, 100,
        236, 83, 242, 87, 250, 9, 67, 83, 203, 219, 39, 222, 13, 254, 232, 10,
    ]
}

/// The SOL/USD feed.
pub fn sol_usd() -> (a: Address)
    ensures
        a@ == sol_usd_address(),
{
    let a = Address::new(
        [
            172u8, 129, 80, 117, 188, 206, 27, 126, 74, 189, 63, 245, 195, 43, 133, 100,
            236, 83, 242, 87, 250, 9, 67, 83, 203, 219, 39, 222, 13, 254, 232, 10,
        ],
    );
    assert(a@ =~= sol_usd_address());
    a
}

/// Bytes of the address `CGmWwBNsTRDENT5gmVZzRu38GnNnMm1K5C3sFiUUyYQX`.
pub open spec fn btc_usd_address() -> Seq<u8> {
    seq![
        167u8, 122, 154, 84, 45, 187, 5, 100, 55, 3, 240, 228, 144, 190, 228, 209,
        191, 37, 105, 15, 241, 42, 93, 130, 82, 87, 22, 113, 247, 138, 227, 64,
    ]
}

/// The BTC/USD feed.
pub fn btc_usd() -> (a: Address)
    ensures
        a@ == btc_usd_address(),
{
    let a = Address::new(
        [
            167u8, 122, 154, 84, 45, 187, 5, 100, 55, 3, 240, 228, 144, 190, 228, 209,
            191, 37, 105, 15, 241, 42, 93, 130, 82, 87, 22, 113, 247, 138, 227, 64,
        ],
    );
    assert(a@ =~= btc_usd_address());
    a
}

/// Bytes of the address `5JcBbyiwxPxFMvNJHLxLqg5LPZeC4sC3VdWFfaKManYm`.
pub open spec fn eth_usd_address() -> Seq<u8> {
    seq![
        63u8, 241, 103, 29, 88, 30, 7, 10, 146, 189, 119, 95, 175, 0, 227, 196,
        57, 21, 20, 224, 179, 186, 162, 156, 180, 41, 118, 150, 146, 127, 45, 110,
    ]
}

/// The ETH/USD feed.
pub fn eth_usd() -> (a: Address)
    ensures
        a@ == eth_usd_address(),
{
    let a = Address::new(
        [
            63u8, 241, 103, 29, 88, 30, 7, 10, 146, 189, 119, 95, 175, 0, 227, 196,
            57, 21, 20, 224, 179, 186, 162, 156, 180, 41, 118, 150, 146, 127, 45, 110,
        ],
    );
    assert(a@ =~= eth_usd_address());
    a
}

} // verus!
