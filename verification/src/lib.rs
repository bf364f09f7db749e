//! Mock price oracles for a ledger sandbox: price feeds in the account
//! formats of three oracle protocols, created and changed at will.
//!
//! A registry ([`Pyth`], [`Switchboard`], [`Chainlink`]) keeps one record per
//! feed, writes each record through to the sandbox as the bytes of an
//! account, and answers reads from the records it keeps. Amounts in dollars
//! are exact decimals ([`Decimal`]); every conversion to a scaled integer
//! rounds toward zero.

pub mod address;
pub mod arith;
pub mod bytes;
pub mod decimal;
pub mod ema;
pub mod error;
pub mod feeds;
pub mod ledger;
pub mod price;
pub mod providers;
pub mod substrate;
pub mod table;

pub use address::Address;
pub use decimal::{
    depeg_confidence, percentage_shift, to_decimal, to_decimal_unsigned, to_scaled,
    to_scaled_unsigned, Decimal,
};
pub use ema::{ema_step, ema_step_unsigned};
pub use error::ShadowOracleError;
pub use ledger::ClockReading;
pub use price::{PriceConf, PriceStatus, StandardFeeds};
pub use providers::chainlink::Chainlink;
pub use providers::pyth::Pyth;
pub use providers::switchboard::Switchboard;

use vstd::prelude::*;

verus! {

/// One entry point to the three registries of a sandbox, one at a time.
pub struct ShadowOracle<'a> {
    svm: &'a mut litesvm::LiteSVM,
}

impl<'a> ShadowOracle<'a> {
    /// The accounts that the sandbox holds, by address.
    pub closed spec fn accounts(&self) -> Map<Seq<u8>, (Seq<u8>, Seq<u8>, u64, bool, u64)> {
        substrate::svm_accounts(*self.svm)
    }

    /// The entry point to the registries of `svm`.
    pub fn new(svm: &'a mut litesvm::LiteSVM) -> (oracle: Self)
        ensures
            oracle.accounts() == substrate::svm_accounts(*old(svm)),
    {
        ShadowOracle { svm }
    }

    /// A fresh registry of streaming price accounts.
    pub fn pyth(&mut self) -> (registry: Pyth<'_>)
        ensures
            registry.wf(),
            registry.feeds() == Map::<Seq<u8>, providers::pyth::PythPriceAccount>::empty(),
            registry.accounts() == old(self).accounts(),
            registry.owner() == providers::pyth::pyth_program_address(),
    {
        Pyth::new(self.svm)
    }

    /// A fresh registry of aggregators.
    pub fn switchboard(&mut self) -> (registry: Switchboard<'_>)
        ensures
            registry.wf(),
            registry.feeds() == Map::<
                Seq<u8>,
                providers::switchboard::SwitchboardAggregator,
            >::empty(),
            registry.accounts() == old(self).accounts(),
            registry.owner() == providers::switchboard::switchboard_program_address(),
    {
        Switchboard::new(self.svm)
    }

    /// A fresh registry of transmission stores.
    pub fn chainlink(&mut self) -> (registry: Chainlink<'_>)
        ensures
            registry.wf(),
            registry.feeds() == Map::<Seq<u8>, providers::chainlink::ChainlinkFeed>::empty(),
            registry.accounts() == old(self).accounts(),
            registry.owner() == providers::chainlink::chainlink_program_address(),
    {
        Chainlink::new(self.svm)
    }
}

} // verus!
