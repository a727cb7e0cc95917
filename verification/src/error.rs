//! The failures that the desk reports instead of stopping.

use vstd::prelude::*;

verus! {

use crate::models::PositionId;
use crate::models::SecurityId;

#[derive(Debug, Clone, Copy, PartialEq, Eq, Structural)]
pub enum DeskError {
    /// No price is cached for the security: it never ticked, or was evicted.
    PriceUnavailable(SecurityId),
    /// A close named a position that the portfolio does not hold.
    PositionNotFound(PositionId),
    /// The mailbox of the receiving component is closed or full.
    ChannelUnavailable,
    /// A snapshot could not be handed to the report channel.
    TransportFailure,
    /// The cache holds no security to draw from.
    Empty,
}

} // verus!
