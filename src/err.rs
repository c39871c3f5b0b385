//! Errors surfaced by the world's operations.
use vstd::prelude::*;

use crate::grid::{Direction, NodeID};

verus! {

/// Faults in stored data or in a counter that left its range.
#[derive(Debug)]
pub enum ModelError {
    /// Stored bytes could not be read back.
    Parse { desc: String },
    /// A value does not fit the type named by `limit_type`.
    OutOfLimit { desc: &'static str, limit_type: &'static str },
}

/// Why an operation on players, guests or nodes was refused.
#[derive(Debug)]
pub enum OperationError {
    Model(ModelError),
    EnergyNotEnough { require: i64, reserve: i64 },
    /// Only a player without guests may spawn the free one.
    AlreadyHasGuest,
    PlayerNotExist(i32),
    /// The guest is absent or belongs to another player.
    GuestNotExist(i32),
    DirectionNotAllowed(Direction),
    /// Every cell of the node is already at the hottest temperature.
    NodeTemperatureTooHigh(NodeID),
    CellIndexOutOfRange { node: NodeID, require: usize, max: usize },
    CellTemperatureTooHigh { node: NodeID, index: usize },
}

/// What a caller of the operation layer sees.
#[derive(Debug)]
pub enum ApiError {
    Operation(OperationError),
    /// The player does not exist or the credential does not match.
    AuthError(i32),
    /// The credential could not be read from the request.
    AuthHeader,
}

impl OperationError {
    pub open spec fn out_of_limit(desc: &'static str, limit_type: &'static str) -> OperationError {
        OperationError::Model(ModelError::OutOfLimit { desc, limit_type })
    }
}

} // verus!
