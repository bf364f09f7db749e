//! Addresses of the Pyth feeds on the main network.

use crate::address::Address;
use vstd::prelude::*;

verus! {

/// Bytes of the address `H6ARHf6YXhGYeQfUzQNGk6rDNnLBQKrenN712K4AQJEG`.
pub open spec fn sol_usd_address() -> Seq<u8> {
    seq![
        239u8, 13, 139, 111, 218, 44, 235, 164, 29, 161, 93, 64, 149, 209, 218, 57,
        42, 13, 47, 142, 208, 198, 199, 188, 15, 76, 250, 200, 194, 128, 181, 109,
    ]
}

/// The SOL/USD feed.
pub fn sol_usd() -> (a: Address)
    ensures
        a@ == sol_usd_address(),
{
    let a = Address::new(
        [
            239u8, 13, 139, 111, 218, 44, 235, 164, 29, 161, 93, 64, 149, 209, 218, 57,
            42, 13, 47, 142, 208, 198, 199, 188, 15, 76, 250, 200, 194, 128, 181, 109,
        ],
    );
    assert(a@ =~= sol_usd_address());
    a
}

/// Bytes of the address `GVXRSBjFk6e6J3NbVPXohDJetcTjaeeuykUpbQF8UoMU`.
pub open spec fn btc_usd_address() -> Seq<u8> {
    seq![
        230u8, 45, 246, 200, 180, 168, 95, 225, 166, 125, 180, 77, 193, 45, 229, 219,
        51, 15, 122, 198, 107, 114, 220, 101, 138, 254, 223, 15, 74, 65, 91, 67,
    ]
}

/// The BTC/USD feed.
pub fn btc_usd() -> (a: Address)
    ensures
        a@ == btc_usd_address(),
{
    let a = Address::new(
        [
            230u8, 45, 246, 200, 180, 168, 95, 225, 166, 125, 180, 77, 193, 45, 229, 219,
            51, 15, 122, 198, 107, 114, 220, 101, 138, 254, 223, 15, 74, 65, 91, 67,
        ],
    );
    assert(a@ =~= btc_usd_address());
    a
}

/// Bytes of the address `JBu1AL4obBcCMqKBBxhpWCNUt136ijcuMZLFvTP7iWdB`.
pub open spec fn eth_usd_address() -> Seq<u8> {
    seq![
        255u8, 97, 73, 26, 147, 17, 18, 221, 241, 189, 129, 71, 205, 27, 100, 19,
        117, 247, 159, 88, 37, 18, 109, 102, 84, 128, 135, 70, 52, 253, 10, 206,
    ]
}

/// The ETH/USD feed.
pub fn eth_usd() -> (a: Address)
    ensures
        a@ == eth_usd_address(),
{
    let a = Address::new(
        [
            255u8, 97, 73, 26, 147, 17, 18, 221, 241, 189, 129, 71, 205, 27, 100, 19,
            117, 247, 159, 88, 37, 18, 109, 102, 84, 128, 135, 70, 52, 253, 10, 206,
        ],
    );
    assert(a@ =~= eth_usd_address());
    a
}

/// Bytes of the address `Gnt27xtC473ZT2Mw5u8wZ68Z3gULkSTb5DuxJy7eJotD`.
pub open spec fn usdc_usd_address() -> Seq<u8> {
    seq![
        234u8, 160, 32, 198, 28, 196, 121, 113, 40, 19, 70, 28, 225, 83, 137, 74,
        150, 166, 192, 11, 33, 237, 12, 252, 39, 152, 209, 249, 169, 233, 201, 74,
    ]
}

/// The USDC/USD feed.
pub fn usdc_usd() -> (a: Address)
    ensures
        a@ == usdc_usd_address(),
{
    let a = Address::new(
        [
            234u8, 160, 32, 198, 28, 196, 121, 113, 40, 19, 70, 28, 225, 83, 137, 74,
            150, 166, 192, 11, 33, 237, 12, 252, 39, 152, 209, 249, 169, 233, 201, 74,
        ],
    );
    assert(a@ =~= usdc_usd_address());
    a
}

/// Bytes of the address `3vxLXJqLqF3JG5TCbYycbKWRBbCJQLxQmBGCkyqEEefL`.
pub open spec fn usdt_usd_address() -> Seq<u8> {
    seq![
        43u8, 137, 185, 220, 143, 223, 159, 52, 112, 154, 91, 16, 107, 71, 47, 15,
        57, 187, 108, 169, 206, 4, 176, 253, 127, 46, 151, 22, 136, 226, 229, 59,
    ]
}

/// The USDT/USD feed.
pub fn usdt_usd() -> (a: Address)
    ensures
        a@ == usdt_usd_address(),
{
    let a = Address::new(
        [
            43u8, 137, 185, 220, 143, 223, 159, 52, 112, 154, 91, 16, 107, 71, 47, 15,
            57, 187, 108, 169, 206, 4, 176, 253, 127, 46, 151, 22, 136, 226, 229, 59,
        ],
    );
    assert(a@ =~= usdt_usd_address());
    a
}

} // verus!
