//! Request payloads of the operation API and the checks made on them before
//! any operation runs.
use vstd::prelude::*;

use crate::err::{ApiError, OperationError};
use crate::grid::{allowed_direction, is_allowed_direction, Direction};

verus! {

/// What `str::parse::<i32>` makes of a text.
pub uninterp spec fn parsed_i32(s: Seq<char>) -> Option<i32>;

/// Relies on std's `FromStr for i32` (`str::parse::<i32>`): an optional sign
/// and decimal digits, `None` for anything else or a value outside `i32`; the
/// result depends on the text alone.
#[verifier::external_body]
fn parse_i32(s: &str) -> (r: Option<i32>)
    ensures
        r == parsed_i32(s@),
        s@.len() == 0 ==> r is None,
{
    s.parse::<i32>().ok()
}

/// A credential pair: player id and password token.
#[derive(Debug)]
pub struct PlayerAuth {
    pub id: i32,
    pub password: String,
}

/// The payload of a registration.
#[derive(Debug)]
pub struct PlayerRegister {
    pub name: String,
    pub password: String,
}

#[derive(Clone, Copy, Debug)]
pub struct WalkCommand {
    pub to: Direction,
}

impl WalkCommand {
    /// Only the eight unit steps and standing still are allowed.
    pub fn verify(&self) -> (r: Result<(), OperationError>)
        ensures
            allowed_direction(self.to) ==> r is Ok,
            !allowed_direction(self.to) ==> r is Err && r->Err_0 == OperationError::DirectionNotAllowed(
                self.to,
            ),
    {
        if is_allowed_direction(self.to) {
            Ok(())
        } else {
            Err(OperationError::DirectionNotAllowed(self.to))
        }
    }
}

#[derive(Clone, Copy, Debug, PartialEq, Eq, Structural)]
pub struct HeatCommand {
    pub at: usize,
    pub energy: i64,
}

#[derive(Clone, Copy, Debug, PartialEq, Eq, Structural)]
pub struct HarvestCommand {
    pub at: usize,
}

#[derive(Clone, Copy, Debug, PartialEq, Eq, Structural)]
pub struct ArrangeCommand {
    pub transfer_energy: i64,
}

/// Builds the credential pair from a parsed user id and a password; either
/// missing is an `AuthHeader` error.
pub fn player_auth(id: Option<i32>, password: Option<String>) -> (r: Result<PlayerAuth, ApiError>)
    ensures
        id is Some && password is Some ==> r is Ok && r->Ok_0.id == id->Some_0
            && r->Ok_0.password == password->Some_0,
        !(id is Some && password is Some) ==> r is Err && r->Err_0 == ApiError::AuthHeader,
{
    match (id, password) {
        (Some(id), Some(password)) => Ok(PlayerAuth { id, password }),
        _ => Err(ApiError::AuthHeader),
    }
}

/// Reads a basic-auth pair `(user, password)`: the user must be a decimal
/// player id and the password must be present.
pub fn verify_header(auth: (String, Option<String>)) -> (r: Result<PlayerAuth, ApiError>)
    ensures
        parsed_i32(auth.0@) is Some && auth.1 is Some ==> r is Ok && r->Ok_0.id == parsed_i32(
            auth.0@,
        )->Some_0 && r->Ok_0.password == auth.1->Some_0,
        !(parsed_i32(auth.0@) is Some && auth.1 is Some) ==> r is Err && r->Err_0
            == ApiError::AuthHeader,
{
    let (user, password) = auth;
    let id = parse_i32(user.as_str());
    player_auth(id, password)
}

} // verus!
