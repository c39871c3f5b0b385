//! The records the world stores and the views of them that others may see.
use vstd::prelude::*;

verus! {

/// An authenticated principal; `password` is an opaque credential token
/// compared by equality.
#[derive(Debug)]
pub struct Player {
    pub id: i32,
    pub name: String,
    pub password: String,
}

/// A player's fields as mathematical values.
pub struct PlayerView {
    pub id: i32,
    pub name: Seq<char>,
    pub password: Seq<char>,
}

impl View for Player {
    type V = PlayerView;

    open spec fn view(&self) -> PlayerView {
        PlayerView { id: self.id, name: self.name@, password: self.password@ }
    }
}

impl Player {
    pub fn duplicate(&self) -> (r: Player)
        ensures
            r@ == self@,
    {
        Player { id: self.id, name: self.name.clone(), password: self.password.clone() }
    }
}

/// An agent owned by a player. `pos` is the packed coordinate of the node it
/// stands on; `temperature` holds a signed 8-bit value.
#[derive(Clone, Copy, Debug, PartialEq, Eq, Structural)]
pub struct Guest {
    pub id: i32,
    pub energy: i64,
    pub pos: i32,
    pub temperature: i16,
    pub master_id: i32,
}

/// A player as anyone may see it: no credential.
#[derive(Debug)]
pub struct PublicPlayer {
    pub id: i32,
    pub name: String,
}

/// A guest as another guest on the same node sees it: no energy.
#[derive(Clone, Copy, Debug, PartialEq, Eq, Structural)]
pub struct DetectedGuest {
    pub id: i32,
    pub temperature: i16,
    pub pos: i32,
    pub master_id: i32,
}

pub open spec fn detected_of(g: Guest) -> DetectedGuest {
    DetectedGuest { id: g.id, temperature: g.temperature, pos: g.pos, master_id: g.master_id }
}

impl Guest {
    pub fn detected(&self) -> (r: DetectedGuest)
        ensures
            r == detected_of(*self),
    {
        DetectedGuest {
            id: self.id,
            temperature: self.temperature,
            pos: self.pos,
            master_id: self.master_id,
        }
    }
}

} // verus!
