//! The world store and its operations. Players, guests and nodes live in
//! one owned store; each operation checks credentials and preconditions
//! first and changes the store only once every check has passed, so a
//! failed operation leaves no trace.
use std::collections::HashMap;

use vstd::arithmetic::power2::pow2;
use vstd::prelude::*;

use crate::entity::{detected_of, DetectedGuest, Guest, Player, PlayerView, PublicPlayer};
use crate::err::{ApiError, ModelError, OperationError};
use crate::grid::{
    allowed_direction, is_allowed_direction, bytes_of, cells_of, lemma_cells_round_trip, lemma_pack_unpack, navi, pack, unpack, Direction,
    Node, NodeData, NodeID, NODE_MAX_SIZE,
};
use crate::random::random_below;
use crate::thermo::{
    abs, arrange_cost, cooler_cells, lemma_harvest_conserves, cooler_indices, exchange_of, exhaust, exhausted, harvest_exchange,
    heated_cell, heated_of,
};

verus! {

broadcast use vstd::std_specs::hash::group_hash_axioms;

/// The store as mathematical values: players and guests in id order (the
/// record with id `n` sits at index `n - 1`), nodes by packed coordinate.
pub struct WorldView {
    pub players: Seq<PlayerView>,
    pub guests: Seq<Guest>,
    pub nodes: Map<i32, Seq<i8>>,
}

/// The packed key of the origin node.
pub open spec fn origin_key() -> i32 {
    pack(0, 0)
}

pub open spec fn node_id_of(key: i32) -> NodeID {
    NodeID(unpack(key).0, unpack(key).1)
}

/// What every stored guest satisfies.
pub open spec fn guest_ok(w: WorldView, g: Guest) -> bool {
    &&& g.energy >= 0
    &&& -128 <= g.temperature <= 127
    &&& 1 <= g.master_id <= w.players.len()
    &&& w.nodes.contains_key(g.pos)
}

/// The store's invariant: ids are dense and start at 1, every guest has
/// non-negative energy, an existing owner and an existing node, no node holds
/// more than `NODE_MAX_SIZE` cells, and the origin node exists.
pub open spec fn world_wf(w: WorldView) -> bool {
    &&& w.players.len() <= i32::MAX
    &&& w.guests.len() <= i32::MAX
    &&& forall|i: int| 0 <= i < w.players.len() ==> (#[trigger] w.players[i]).id == i + 1
    &&& forall|i: int|
        0 <= i < w.guests.len() ==> (#[trigger] w.guests[i]).id == i + 1 && guest_ok(
            w,
            w.guests[i],
        )
    &&& forall|k: i32| #[trigger] w.nodes.contains_key(k) ==> w.nodes[k].len() <= NODE_MAX_SIZE
    &&& w.nodes.contains_key(origin_key())
}

/// Whether `password` is the credential of player `id`.
pub open spec fn authenticated(w: WorldView, id: i32, password: Seq<char>) -> bool {
    1 <= id <= w.players.len() && w.players[id - 1].password == password
}

/// Whether guest `gid` exists and belongs to player `pid`.
pub open spec fn owns(w: WorldView, pid: i32, gid: i32) -> bool {
    1 <= gid <= w.guests.len() && w.guests[gid - 1].master_id == pid
}

/// The guests of player `pid`, in id order.
pub open spec fn guests_of(s: Seq<Guest>, pid: i32) -> Seq<Guest>
    decreases s.len(),
{
    if s.len() == 0 {
        Seq::empty()
    } else if s.last().master_id == pid {
        guests_of(s.drop_last(), pid).push(s.last())
    } else {
        guests_of(s.drop_last(), pid)
    }
}

/// The public view of the guests standing at `pos`, except guest `gid`, in id order.
pub open spec fn neighbours_of(s: Seq<Guest>, pos: i32, gid: i32) -> Seq<DetectedGuest>
    decreases s.len(),
{
    if s.len() == 0 {
        Seq::empty()
    } else if s.last().pos == pos && s.last().id != gid {
        neighbours_of(s.drop_last(), pos, gid).push(detected_of(s.last()))
    } else {
        neighbours_of(s.drop_last(), pos, gid)
    }
}

pub open spec fn op_err<T>(e: OperationError) -> Result<T, ApiError> {
    Err(ApiError::Operation(e))
}

/// The free guest: only a player without guests gets one, at the origin.
pub open spec fn spawn_of(w: WorldView, id: i32, password: Seq<char>) -> (WorldView, Result<Guest, ApiError>) {
    if !authenticated(w, id, password) {
        (w, Err(ApiError::AuthError(id)))
    } else if guests_of(w.guests, id).len() > 0 {
        (w, op_err(OperationError::AlreadyHasGuest))
    } else if w.guests.len() >= i32::MAX {
        (w, op_err(OperationError::out_of_limit("guest id", "i32")))
    } else {
        let g = Guest {
            id: (w.guests.len() + 1) as i32,
            energy: 0,
            pos: origin_key(),
            temperature: 0,
            master_id: id,
        };
        (WorldView { guests: w.guests.push(g), ..w }, Ok(g))
    }
}

/// Guest `gid` of player `id`, after the credential check.
pub open spec fn owned_guest_of(w: WorldView, id: i32, password: Seq<char>, gid: i32) -> Result<Guest, ApiError> {
    if !authenticated(w, id, password) {
        Err(ApiError::AuthError(id))
    } else if !owns(w, id, gid) {
        op_err(OperationError::GuestNotExist(gid))
    } else {
        Ok(w.guests[gid - 1])
    }
}

/// The nodes after `key` is touched: a missing node is created with `fresh`.
pub open spec fn touched(nodes: Map<i32, Seq<i8>>, key: i32, fresh: Seq<i8>) -> Map<i32, Seq<i8>> {
    if nodes.contains_key(key) {
        nodes
    } else {
        nodes.insert(key, fresh)
    }
}

/// A step of one cell in `to`: the guest pays one unit of energy, its source
/// node takes one unit of waste heat in candidate cell `pick` (modulo their
/// number), and the destination node is created with `fresh` if missing.
pub open spec fn walk_of(
    w: WorldView,
    id: i32,
    password: Seq<char>,
    gid: i32,
    to: Direction,
    pick: int,
    fresh: Seq<i8>,
) -> (WorldView, Result<Guest, ApiError>) {
    if !allowed_direction(to) {
        (w, op_err(OperationError::DirectionNotAllowed(to)))
    } else if owned_guest_of(w, id, password, gid) is Err {
        (w, owned_guest_of(w, id, password, gid))
    } else {
        let g = w.guests[gid - 1];
        let src = w.nodes[g.pos];
        if g.energy < 1 {
            (w, op_err(OperationError::EnergyNotEnough { require: 1, reserve: g.energy }))
        } else if cooler_cells(src).len() == 0 {
            (w, op_err(OperationError::NodeTemperatureTooHigh(node_id_of(g.pos))))
        } else {
            let dest = navi(node_id_of(g.pos), to);
            let key = pack(dest.0, dest.1);
            let g2 = Guest { pos: key, energy: (g.energy - 1) as i64, ..g };
            let nodes = touched(w.nodes.insert(g.pos, exhausted(src, pick)), key, fresh);
            (WorldView { guests: w.guests.update(gid - 1, g2), nodes, ..w }, Ok(g2))
        }
    }
}

/// Heat exchange between guest `gid` and cell `at` of the node it stands on.
pub open spec fn harvest_of(w: WorldView, id: i32, password: Seq<char>, gid: i32, at: usize) -> (
    WorldView,
    Result<Guest, ApiError>,
) {
    if owned_guest_of(w, id, password, gid) is Err {
        (w, owned_guest_of(w, id, password, gid))
    } else {
        let g = w.guests[gid - 1];
        let cells = w.nodes[g.pos];
        if at >= cells.len() {
            (
                w,
                op_err(
                    OperationError::CellIndexOutOfRange {
                        node: node_id_of(g.pos),
                        require: at,
                        max: cells.len() as usize,
                    },
                ),
            )
        } else {
            let x = exchange_of(g.temperature as i8, cells[at as int]);
            if g.energy + x.2 > i64::MAX {
                (w, op_err(OperationError::out_of_limit("guest energy", "i64")))
            } else {
                let g2 = Guest { energy: (g.energy + x.2) as i64, temperature: x.0 as i16, ..g };
                let nodes = w.nodes.insert(g.pos, cells.update(at as int, x.1));
                (WorldView { guests: w.guests.update(gid - 1, g2), nodes, ..w }, Ok(g2))
            }
        }
    }
}

/// Guest `gid` spends `energy` to heat cell `at` of the node it stands on.
pub open spec fn heat_of(
    w: WorldView,
    id: i32,
    password: Seq<char>,
    gid: i32,
    at: usize,
    energy: i64,
) -> (WorldView, Result<Guest, ApiError>) {
    if owned_guest_of(w, id, password, gid) is Err {
        (w, owned_guest_of(w, id, password, gid))
    } else {
        let g = w.guests[gid - 1];
        let cells = w.nodes[g.pos];
        if at >= cells.len() {
            (
                w,
                op_err(
                    OperationError::CellIndexOutOfRange {
                        node: node_id_of(g.pos),
                        require: at,
                        max: cells.len() as usize,
                    },
                ),
            )
        } else if energy < 0 || energy > 255 {
            (w, op_err(OperationError::out_of_limit("heat energy", "u8")))
        } else if heated_of(cells[at as int], energy as u8) is None {
            (w, op_err(OperationError::CellTemperatureTooHigh { node: node_id_of(g.pos), index: at }))
        } else if g.energy < energy {
            (w, op_err(OperationError::EnergyNotEnough { require: energy, reserve: g.energy }))
        } else {
            let g2 = Guest { energy: (g.energy - energy) as i64, ..g };
            let c2 = heated_of(cells[at as int], energy as u8)->Some_0;
            let nodes = w.nodes.insert(g.pos, cells.update(at as int, c2));
            (WorldView { guests: w.guests.update(gid - 1, g2), nodes, ..w }, Ok(g2))
        }
    }
}

/// Guest `gid` buds a new guest on its node: the parent pays `2^k`, where `k`
/// is how many guests its player owns, and hands `transfer_energy` to the child.
pub open spec fn arrange_of(
    w: WorldView,
    id: i32,
    password: Seq<char>,
    gid: i32,
    transfer_energy: i64,
) -> (WorldView, Result<Guest, ApiError>) {
    if owned_guest_of(w, id, password, gid) is Err {
        (w, owned_guest_of(w, id, password, gid))
    } else {
        let g = w.guests[gid - 1];
        let k = guests_of(w.guests, id).len();
        if k >= 32 {
            (w, op_err(OperationError::out_of_limit("owned guest number", "u32")))
        } else if g.energy < pow2(k) {
            (w, op_err(OperationError::EnergyNotEnough { require: pow2(k) as i64, reserve: g.energy }))
        } else if transfer_energy < 0 {
            (w, op_err(OperationError::out_of_limit("transfer energy", "non-negative i64")))
        } else if g.energy - pow2(k) < transfer_energy {
            (
                w,
                op_err(
                    OperationError::EnergyNotEnough {
                        require: transfer_energy,
                        reserve: (g.energy - pow2(k)) as i64,
                    },
                ),
            )
        } else if w.guests.len() >= i32::MAX {
            (w, op_err(OperationError::out_of_limit("guest id", "i32")))
        } else {
            let parent = Guest { energy: (g.energy - pow2(k) - transfer_energy) as i64, ..g };
            let child = Guest {
                id: (w.guests.len() + 1) as i32,
                energy: transfer_energy,
                pos: g.pos,
                temperature: 0,
                master_id: g.master_id,
            };
            (WorldView { guests: w.guests.update(gid - 1, parent).push(child), ..w }, Ok(child))
        }
    }
}

pub struct World {
    players: Vec<Player>,
    guests: Vec<Guest>,
    nodes: HashMap<i32, NodeData>,
}

impl View for World {
    type V = WorldView;

    closed spec fn view(&self) -> WorldView {
        WorldView {
            players: self.players@.map_values(|p: Player| p@),
            guests: self.guests@,
            nodes: Map::new(|k: i32| self.nodes@.contains_key(k), |k: i32| self.nodes@[k]@),
        }
    }
}

impl World {
    pub open spec fn wf(&self) -> bool {
        world_wf(self@)
    }

    /// An empty world whose origin node holds `origin`.
    pub fn with_origin(origin: NodeData) -> (r: World)
        requires
            origin@.len() <= NODE_MAX_SIZE,
        ensures
            r.wf(),
            r@.players.len() == 0,
            r@.guests.len() == 0,
            r@.nodes == Map::<i32, Seq<i8>>::empty().insert(origin_key(), origin@),
    {
        let mut nodes: HashMap<i32, NodeData> = HashMap::new();
        let key = NodeID::from_xy(0, 0).into_i32();
        nodes.insert(key, origin);
        let r = World { players: Vec::new(), guests: Vec::new(), nodes };
        assert(r@.players =~= Seq::<PlayerView>::empty());
        assert(r@.nodes =~= Map::<i32, Seq<i8>>::empty().insert(origin_key(), origin@));
        r
    }

    /// An empty world whose origin node is seeded with random cells.
    pub fn new() -> (r: World)
        ensures
            r.wf(),
            r@.players.len() == 0,
            r@.guests.len() == 0,
            r@.nodes.dom() == Set::<i32>::empty().insert(origin_key()),
    {
        let r = World::with_origin(NodeData::random());
        assert(r@.nodes.dom() =~= Set::<i32>::empty().insert(origin_key()));
        r
    }

    /// Stores `data` under `key`, replacing what was there.
    fn put_node(&mut self, key: i32, data: NodeData)
        ensures
            final(self)@ == (WorldView { nodes: old(self)@.nodes.insert(key, data@), ..old(self)@ }),
    {
        let ghost d = data@;
        self.nodes.insert(key, data);
        assert(self@.nodes =~= old(self)@.nodes.insert(key, d));
    }

    /// A copy of the cells stored under `key`.
    fn node_cells(&self, key: i32) -> (r: NodeData)
        requires
            self@.nodes.contains_key(key),
        ensures
            r@ == self@.nodes[key],
    {
        match self.nodes.get(&key) {
            Some(d) => d.duplicate(),
            None => NodeData::from_be_bytes(Vec::new()),
        }
    }

    /// Whether `password` is the credential of player `id`.
    fn check_credential(&self, id: i32, password: &String) -> (r: bool)
        requires
            self.wf(),
        ensures
            r == authenticated(self@, id, password@),
    {
        if id >= 1 && (id as usize) <= self.players.len() {
            self.players[(id - 1) as usize].password == *password
        } else {
            false
        }
    }

    /// Adds a player; the new id follows the last one.
    pub fn register(&mut self, name: String, password: String) -> (r: Result<Player, OperationError>)
        requires
            old(self).wf(),
        ensures
            final(self).wf(),
            old(self)@.players.len() < i32::MAX ==> {
                &&& r is Ok
                &&& r->Ok_0@ == (PlayerView {
                    id: (old(self)@.players.len() + 1) as i32,
                    name: name@,
                    password: password@,
                })
                &&& final(self)@ == (WorldView {
                    players: old(self)@.players.push(r->Ok_0@),
                    ..old(self)@
                })
            },
            old(self)@.players.len() >= i32::MAX ==> r == Err::<Player, OperationError>(
                OperationError::out_of_limit("player id", "i32"),
            ) && final(self)@ == old(self)@,
    {
        if self.players.len() >= i32::MAX as usize {
            return Err(OperationError::Model(ModelError::OutOfLimit { desc: "player id", limit_type: "i32" }));
        }
        let id = (self.players.len() + 1) as i32;
        let p = Player { id, name, password };
        let out = p.duplicate();
        self.players.push(p);
        assert(self@.players =~= old(self)@.players.push(out@));
        Ok(out)
    }

    /// The player with `id` if `password` is its credential.
    pub fn find_player(&self, id: i32, password: String) -> (r: Option<Player>)
        requires
            self.wf(),
        ensures
            authenticated(self@, id, password@) ==> r is Some && r->Some_0@ == self@.players[id - 1],
            !authenticated(self@, id, password@) ==> r is None,
    {
        if self.check_credential(id, &password) {
            Some(self.players[(id - 1) as usize].duplicate())
        } else {
            None
        }
    }

    /// As `find_player`, with absence reported as `PlayerNotExist`.
    pub fn find_exact_player(&self, id: i32, password: String) -> (r: Result<Player, OperationError>)
        requires
            self.wf(),
        ensures
            authenticated(self@, id, password@) ==> r is Ok && r->Ok_0@ == self@.players[id - 1],
            !authenticated(self@, id, password@) ==> r == Err::<Player, OperationError>(
                OperationError::PlayerNotExist(id),
            ),
    {
        match self.find_player(id, password) {
            Some(p) => Ok(p),
            None => Err(OperationError::PlayerNotExist(id)),
        }
    }

    /// The player's id and name; no credential is needed.
    pub fn get_player_public(&self, id: i32) -> (r: Result<PublicPlayer, OperationError>)
        requires
            self.wf(),
        ensures
            1 <= id <= self@.players.len() ==> r is Ok && r->Ok_0.id == id && r->Ok_0.name@
                == self@.players[id - 1].name,
            !(1 <= id <= self@.players.len()) ==> r == Err::<PublicPlayer, OperationError>(
                OperationError::PlayerNotExist(id),
            ),
    {
        if id >= 1 && (id as usize) <= self.players.len() {
            let p = &self.players[(id - 1) as usize];
            assert(self@.players[id - 1].id == id);
            Ok(PublicPlayer { id: p.id, name: p.name.clone() })
        } else {
            Err(OperationError::PlayerNotExist(id))
        }
    }

    /// Checks a credential and returns the player it belongs to.
    pub fn verify_player(&self, id: i32, password: String) -> (r: Result<Player, ApiError>)
        requires
            self.wf(),
        ensures
            authenticated(self@, id, password@) ==> r is Ok && r->Ok_0@ == self@.players[id - 1],
            !authenticated(self@, id, password@) ==> r == Err::<Player, ApiError>(
                ApiError::AuthError(id),
            ),
    {
        match self.find_player(id, password) {
            Some(p) => Ok(p),
            None => Err(ApiError::AuthError(id)),
        }
    }

    /// Guest `gid`.
    pub fn find_guest(&self, gid: i32) -> (r: Result<Guest, OperationError>)
        requires
            self.wf(),
        ensures
            1 <= gid <= self@.guests.len() ==> r == Ok::<Guest, OperationError>(self@.guests[gid - 1]),
            !(1 <= gid <= self@.guests.len()) ==> r == Err::<Guest, OperationError>(
                OperationError::GuestNotExist(gid),
            ),
    {
        if gid >= 1 && (gid as usize) <= self.guests.len() {
            Ok(self.guests[(gid - 1) as usize])
        } else {
            Err(OperationError::GuestNotExist(gid))
        }
    }

    /// The guests of player `pid`, in id order.
    pub fn list_guests_of_player(&self, pid: i32) -> (r: Vec<Guest>)
        ensures
            r@ == guests_of(self@.guests, pid),
    {
        let mut out: Vec<Guest> = Vec::new();
        let mut i: usize = 0;
        while i < self.guests.len()
            invariant
                i <= self.guests@.len(),
                out@ == guests_of(self.guests@.subrange(0, i as int), pid),
            decreases self.guests@.len() - i,
        {
            let g = self.guests[i];
            if g.master_id == pid {
                out.push(g);
            }
            assert(self.guests@.subrange(0, i + 1).drop_last() =~= self.guests@.subrange(0, i as int));
            i += 1;
        }
        assert(self.guests@.subrange(0, i as int) =~= self.guests@);
        out
    }

    /// The ids of the guests of player `pid`, in order.
    pub fn list_guest_ids(&self, pid: i32) -> (r: Vec<i32>)
        ensures
            r@ == guests_of(self@.guests, pid).map_values(|g: Guest| g.id),
    {
        let gs = self.list_guests_of_player(pid);
        let mut out: Vec<i32> = Vec::new();
        let mut i: usize = 0;
        while i < gs.len()
            invariant
                i <= gs@.len(),
                out@ =~= gs@.subrange(0, i as int).map_values(|g: Guest| g.id),
            decreases gs@.len() - i,
        {
            out.push(gs[i].id);
            i += 1;
            assert(out@ =~= gs@.subrange(0, i as int).map_values(|g: Guest| g.id));
        }
        assert(gs@.subrange(0, i as int) =~= gs@);
        out
    }

    /// How many guests player `pid` owns.
    pub fn count_guests_of_player(&self, pid: i32) -> (r: usize)
        ensures
            r == guests_of(self@.guests, pid).len(),
    {
        self.list_guests_of_player(pid).len()
    }

    /// The public view of the guests standing at `pos`, except guest `exclude_id`.
    pub fn list_guests_at(&self, pos: i32, exclude_id: i32) -> (r: Vec<DetectedGuest>)
        ensures
            r@ == neighbours_of(self@.guests, pos, exclude_id),
    {
        let mut out: Vec<DetectedGuest> = Vec::new();
        let mut i: usize = 0;
        while i < self.guests.len()
            invariant
                i <= self.guests@.len(),
                out@ == neighbours_of(self.guests@.subrange(0, i as int), pos, exclude_id),
            decreases self.guests@.len() - i,
        {
            let g = self.guests[i];
            if g.pos == pos && g.id != exclude_id {
                out.push(g.detected());
            }
            assert(self.guests@.subrange(0, i + 1).drop_last() =~= self.guests@.subrange(0, i as int));
            i += 1;
        }
        assert(self.guests@.subrange(0, i as int) =~= self.guests@);
        out
    }

    /// Credential check, then guest `gid` if the player owns it.
    fn owned_guest(&self, id: i32, password: &String, gid: i32) -> (r: Result<Guest, ApiError>)
        requires
            self.wf(),
        ensures
            r == owned_guest_of(self@, id, password@, gid),
    {
        if !self.check_credential(id, password) {
            return Err(ApiError::AuthError(id));
        }
        if gid >= 1 && (gid as usize) <= self.guests.len() {
            let g = self.guests[(gid - 1) as usize];
            if g.master_id == id {
                return Ok(g);
            }
        }
        Err(ApiError::Operation(OperationError::GuestNotExist(gid)))
    }

    /// The guests of an authenticated player.
    pub fn list_guest(&self, id: i32, password: String) -> (r: Result<Vec<Guest>, ApiError>)
        requires
            self.wf(),
        ensures
            authenticated(self@, id, password@) ==> r is Ok && r->Ok_0@ == guests_of(self@.guests, id),
            !authenticated(self@, id, password@) ==> r is Err && r->Err_0 == ApiError::AuthError(id),
    {
        if !self.check_credential(id, &password) {
            return Err(ApiError::AuthError(id));
        }
        Ok(self.list_guests_of_player(id))
    }

    /// One of the player's own guests.
    pub fn get_guest(&self, id: i32, password: String, gid: i32) -> (r: Result<Guest, ApiError>)
        requires
            self.wf(),
        ensures
            r == owned_guest_of(self@, id, password@, gid),
    {
        self.owned_guest(id, &password, gid)
    }

    /// Gives a player without guests its free guest, at the origin.
    pub fn spawn_guest(&mut self, id: i32, password: String) -> (r: Result<Guest, ApiError>)
        requires
            old(self).wf(),
        ensures
            final(self).wf(),
            (final(self)@, r) == spawn_of(old(self)@, id, password@),
    {
        if !self.check_credential(id, &password) {
            return Err(ApiError::AuthError(id));
        }
        if self.count_guests_of_player(id) > 0 {
            return Err(ApiError::Operation(OperationError::AlreadyHasGuest));
        }
        if self.guests.len() >= i32::MAX as usize {
            return Err(
                ApiError::Operation(
                    OperationError::Model(ModelError::OutOfLimit { desc: "guest id", limit_type: "i32" }),
                ),
            );
        }
        let g = Guest {
            id: (self.guests.len() + 1) as i32,
            energy: 0,
            pos: NodeID::from_xy(0, 0).into_i32(),
            temperature: 0,
            master_id: id,
        };
        self.guests.push(g);
        assert(self@.players =~= old(self)@.players);
        assert(self@.nodes =~= old(self)@.nodes);
        Ok(g)
    }

    /// The other guests on the node where guest `gid` stands, without their energy.
    pub fn detect(&self, id: i32, password: String, gid: i32) -> (r: Result<Vec<DetectedGuest>, ApiError>)
        requires
            self.wf(),
        ensures
            owned_guest_of(self@, id, password@, gid) is Err ==> r is Err && r->Err_0
                == owned_guest_of(self@, id, password@, gid)->Err_0,
            owned_guest_of(self@, id, password@, gid) is Ok ==> r is Ok && r->Ok_0@ == neighbours_of(
                self@.guests,
                owned_guest_of(self@, id, password@, gid)->Ok_0.pos,
                gid,
            ),
    {
        match self.owned_guest(id, &password, gid) {
            Ok(g) => Ok(self.list_guests_at(g.pos, gid)),
            Err(e) => Err(e),
        }
    }

    /// The cells of node `id`; a missing node is created with `fresh` first.
    pub fn get_or_init_node_with(&mut self, id: NodeID, fresh: NodeData) -> (r: NodeData)
        requires
            old(self).wf(),
            fresh@.len() <= NODE_MAX_SIZE,
        ensures
            final(self).wf(),
            final(self)@ == (WorldView {
                nodes: touched(old(self)@.nodes, pack(id.0, id.1), fresh@),
                ..old(self)@
            }),
            r@ == final(self)@.nodes[pack(id.0, id.1)],
    {
        let key = id.into_i32();
        if !self.has_node(key) {
            self.put_node(key, fresh);
        }
        self.node_cells(key)
    }

    /// The cells of node `id`; a missing node is created with random cells
    /// first. Whatever was drawn, the new node holds fewer than
    /// `NODE_MAX_SIZE` cells and nothing else changes.
    pub fn get_or_init_node(&mut self, id: NodeID) -> (r: NodeData)
        requires
            old(self).wf(),
        ensures
            final(self).wf(),
            old(self)@.nodes.contains_key(pack(id.0, id.1)) ==> final(self)@ == old(self)@,
            !old(self)@.nodes.contains_key(pack(id.0, id.1)) ==> final(self)@ == (WorldView {
                nodes: old(self)@.nodes.insert(pack(id.0, id.1), r@),
                ..old(self)@
            }) && r@.len() < NODE_MAX_SIZE,
            r@ == final(self)@.nodes[pack(id.0, id.1)],
    {
        let key = id.into_i32();
        if self.has_node(key) {
            self.node_cells(key)
        } else {
            let fresh = NodeData::random();
            self.get_or_init_node_with(id, fresh)
        }
    }

    /// Creates node `id` with random cells unless it exists.
    pub fn upsert_node_if_absent(&mut self, id: NodeID)
        requires
            old(self).wf(),
        ensures
            final(self).wf(),
            final(self)@.players == old(self)@.players,
            final(self)@.guests == old(self)@.guests,
            final(self)@.nodes.contains_key(pack(id.0, id.1)),
            forall|k: i32| #[trigger]
                old(self)@.nodes.contains_key(k) ==> final(self)@.nodes.contains_key(k)
                    && final(self)@.nodes[k] == old(self)@.nodes[k],
            forall|k: i32| #[trigger]
                final(self)@.nodes.contains_key(k) ==> old(self)@.nodes.contains_key(k) || k == pack(
                    id.0,
                    id.1,
                ),
    {
        self.get_or_init_node(id);
    }

    /// The node at `(x, y)`, created on first reference.
    pub fn get_node(&mut self, x: i16, y: i16) -> (r: Node)
        requires
            old(self).wf(),
        ensures
            final(self).wf(),
            old(self)@.nodes.contains_key(pack(x, y)) ==> final(self)@ == old(self)@,
            !old(self)@.nodes.contains_key(pack(x, y)) ==> final(self)@ == (WorldView {
                nodes: old(self)@.nodes.insert(pack(x, y), r.data@),
                ..old(self)@
            }) && r.data@.len() < NODE_MAX_SIZE,
            r.id == NodeID(x, y),
            r.data@ == final(self)@.nodes[pack(x, y)],
    {
        let id = NodeID::from_xy(x, y);
        let data = self.get_or_init_node(id);
        Node { id, data }
    }

    /// The raw cell bytes of the node at `(x, y)`, created on first reference.
    pub fn get_node_bytes(&mut self, x: i16, y: i16) -> (r: Vec<u8>)
        requires
            old(self).wf(),
        ensures
            final(self).wf(),
            old(self)@.nodes.contains_key(pack(x, y)) ==> final(self)@ == old(self)@,
            !old(self)@.nodes.contains_key(pack(x, y)) ==> final(self)@ == (WorldView {
                nodes: old(self)@.nodes.insert(pack(x, y), cells_of(r@)),
                ..old(self)@
            }) && r@.len() < NODE_MAX_SIZE,
            r@ == bytes_of(final(self)@.nodes[pack(x, y)]),
    {
        let n = self.get_node(x, y);
        let ghost cells = n.data@;
        let r = n.data.to_be_bytes();
        proof {
            lemma_cells_round_trip(cells);
        }
        r
    }

    /// Exchanges heat between guest `gid` and cell `at` of its node.
    pub fn harvest(&mut self, id: i32, password: String, gid: i32, at: usize) -> (r: Result<Guest, ApiError>)
        requires
            old(self).wf(),
        ensures
            final(self).wf(),
            (final(self)@, r) == harvest_of(old(self)@, id, password@, gid, at),
    {
        let g = match self.owned_guest(id, &password, gid) {
            Ok(g) => g,
            Err(e) => return Err(e),
        };
        let mut cells = self.node_cells(g.pos);
        let n = cells.len();
        if at >= n {
            return Err(
                ApiError::Operation(
                    OperationError::CellIndexOutOfRange {
                        node: NodeID::from_i32(g.pos),
                        require: at,
                        max: n,
                    },
                ),
            );
        }
        let c = match cells.get(at) {
            Some(c) => c,
            None => 0,
        };
        let (t2, c2, delta) = harvest_exchange(g.temperature as i8, c);
        let energy = match g.energy.checked_add(delta as i64) {
            Some(e) => e,
            None => {
                return Err(
                    ApiError::Operation(
                        OperationError::Model(ModelError::OutOfLimit { desc: "guest energy", limit_type: "i64" }),
                    ),
                );
            },
        };
        cells.set(at, c2);
        self.put_node(g.pos, cells);
        let g2 = Guest { energy, temperature: t2 as i16, ..g };
        self.guests.set((gid - 1) as usize, g2);
        assert(self@.players =~= old(self)@.players);
        Ok(g2)
    }

    /// Guest `gid` spends `energy` to heat cell `at` of its node.
    pub fn heat(&mut self, id: i32, password: String, gid: i32, at: usize, energy: i64) -> (r: Result<Guest, ApiError>)
        requires
            old(self).wf(),
        ensures
            final(self).wf(),
            (final(self)@, r) == heat_of(old(self)@, id, password@, gid, at, energy),
    {
        let g = match self.owned_guest(id, &password, gid) {
            Ok(g) => g,
            Err(e) => return Err(e),
        };
        let mut cells = self.node_cells(g.pos);
        let n = cells.len();
        if at >= n {
            return Err(
                ApiError::Operation(
                    OperationError::CellIndexOutOfRange {
                        node: NodeID::from_i32(g.pos),
                        require: at,
                        max: n,
                    },
                ),
            );
        }
        if energy < 0 || energy > 255 {
            return Err(
                ApiError::Operation(
                    OperationError::Model(ModelError::OutOfLimit { desc: "heat energy", limit_type: "u8" }),
                ),
            );
        }
        let c = match cells.get(at) {
            Some(c) => c,
            None => 0,
        };
        let c2 = match heated_cell(c, energy as u8) {
            Some(c2) => c2,
            None => {
                return Err(
                    ApiError::Operation(
                        OperationError::CellTemperatureTooHigh { node: NodeID::from_i32(g.pos), index: at },
                    ),
                );
            },
        };
        if g.energy < energy {
            return Err(
                ApiError::Operation(OperationError::EnergyNotEnough { require: energy, reserve: g.energy }),
            );
        }
        cells.set(at, c2);
        self.put_node(g.pos, cells);
        let g2 = Guest { energy: g.energy - energy, ..g };
        self.guests.set((gid - 1) as usize, g2);
        assert(self@.players =~= old(self)@.players);
        Ok(g2)
    }

    /// Guest `gid` buds a new guest on its node and hands it `transfer_energy`;
    /// returns the new guest.
    pub fn arrange(&mut self, id: i32, password: String, gid: i32, transfer_energy: i64) -> (r: Result<Guest, ApiError>)
        requires
            old(self).wf(),
        ensures
            final(self).wf(),
            (final(self)@, r) == arrange_of(old(self)@, id, password@, gid, transfer_energy),
    {
        let g = match self.owned_guest(id, &password, gid) {
            Ok(g) => g,
            Err(e) => return Err(e),
        };
        let k = self.count_guests_of_player(id);
        if k >= 32 {
            return Err(
                ApiError::Operation(
                    OperationError::Model(
                        ModelError::OutOfLimit { desc: "owned guest number", limit_type: "u32" },
                    ),
                ),
            );
        }
        let cost = arrange_cost(k as u32);
        if g.energy < cost {
            return Err(
                ApiError::Operation(OperationError::EnergyNotEnough { require: cost, reserve: g.energy }),
            );
        }
        if transfer_energy < 0 {
            return Err(
                ApiError::Operation(
                    OperationError::Model(
                        ModelError::OutOfLimit { desc: "transfer energy", limit_type: "non-negative i64" },
                    ),
                ),
            );
        }
        let rest = g.energy - cost;
        if rest < transfer_energy {
            return Err(
                ApiError::Operation(
                    OperationError::EnergyNotEnough { require: transfer_energy, reserve: rest },
                ),
            );
        }
        if self.guests.len() >= i32::MAX as usize {
            return Err(
                ApiError::Operation(
                    OperationError::Model(ModelError::OutOfLimit { desc: "guest id", limit_type: "i32" }),
                ),
            );
        }
        let parent = Guest { energy: rest - transfer_energy, ..g };
        self.guests.set((gid - 1) as usize, parent);
        let child = Guest {
            id: (self.guests.len() + 1) as i32,
            energy: transfer_energy,
            pos: g.pos,
            temperature: 0,
            master_id: g.master_id,
        };
        self.guests.push(child);
        assert(self@.players =~= old(self)@.players);
        assert(self@.nodes =~= old(self)@.nodes);
        Ok(child)
    }

    /// Moves guest `gid` one step in `to`. Waste heat goes to candidate cell
    /// `pick` (modulo their number) of the node it leaves, and `fresh` fills
    /// the destination node if that node does not exist yet.
    pub fn walk_with(
        &mut self,
        id: i32,
        password: String,
        gid: i32,
        to: Direction,
        pick: usize,
        fresh: NodeData,
    ) -> (r: Result<Guest, ApiError>)
        requires
            old(self).wf(),
            fresh@.len() <= NODE_MAX_SIZE,
        ensures
            final(self).wf(),
            (final(self)@, r) == walk_of(old(self)@, id, password@, gid, to, pick as int, fresh@),
    {
        if !is_allowed_direction(to) {
            return Err(ApiError::Operation(OperationError::DirectionNotAllowed(to)));
        }
        let g = match self.owned_guest(id, &password, gid) {
            Ok(g) => g,
            Err(e) => return Err(e),
        };
        if g.energy < 1 {
            return Err(
                ApiError::Operation(OperationError::EnergyNotEnough { require: 1, reserve: g.energy }),
            );
        }
        let mut src = self.node_cells(g.pos);
        let src_id = NodeID::from_i32(g.pos);
        if !exhaust(&mut src, pick) {
            return Err(ApiError::Operation(OperationError::NodeTemperatureTooHigh(src_id)));
        }
        let mut dest = src_id;
        let dest = dest.navi_to(to);
        let key = dest.into_i32();
        self.put_node(g.pos, src);
        if !self.has_node(key) {
            self.put_node(key, fresh);
        }
        let g2 = Guest { pos: key, energy: g.energy - 1, ..g };
        self.guests.set((gid - 1) as usize, g2);
        assert(self@.players =~= old(self)@.players);
        Ok(g2)
    }

    /// Moves guest `gid` one step in `to`. The cell that takes the waste heat
    /// is drawn uniformly among the source node's cells below `i8::MAX`, and a
    /// missing destination node gets random cells.
    pub fn walk(&mut self, id: i32, password: String, gid: i32, to: Direction) -> (r: Result<Guest, ApiError>)
        requires
            old(self).wf(),
        ensures
            final(self).wf(),
            exists|pick: int, fresh: Seq<i8>|
                fresh.len() < NODE_MAX_SIZE && (final(self)@, r) == #[trigger] walk_of(
                    old(self)@,
                    id,
                    password@,
                    gid,
                    to,
                    pick,
                    fresh,
                ),
    {
        let mut pick: usize = 0;
        if let Ok(g) = self.owned_guest(id, &password, gid) {
            let cands = cooler_indices(&self.node_cells(g.pos));
            if cands.len() > 0 {
                pick = random_below(cands.len());
            }
        }
        let fresh = NodeData::random();
        let ghost f = fresh@;
        let r = self.walk_with(id, password, gid, to, pick, fresh);
        assert(f.len() < NODE_MAX_SIZE && (self@, r) == walk_of(old(self)@, id, password@, gid, to, pick as int, f));
        r
    }

    /// Overwrites a stored guest. The row must exist and stay valid: its owner
    /// exists, its energy is not negative and its temperature is an `i8`. A
    /// missing node at its position is created with random cells.
    pub fn update_guest(&mut self, g: Guest) -> (r: Result<Guest, OperationError>)
        requires
            old(self).wf(),
        ensures
            final(self).wf(),
            !(1 <= g.id <= old(self)@.guests.len()) ==> r == Err::<Guest, OperationError>(
                OperationError::GuestNotExist(g.id),
            ) && final(self)@ == old(self)@,
            1 <= g.id <= old(self)@.guests.len() && !(1 <= g.master_id <= old(self)@.players.len())
                ==> r == Err::<Guest, OperationError>(OperationError::PlayerNotExist(g.master_id))
                && final(self)@ == old(self)@,
            1 <= g.id <= old(self)@.guests.len() && 1 <= g.master_id <= old(self)@.players.len()
                && g.energy < 0 ==> r == Err::<Guest, OperationError>(
                OperationError::out_of_limit("guest energy", "non-negative i64"),
            ) && final(self)@ == old(self)@,
            1 <= g.id <= old(self)@.guests.len() && 1 <= g.master_id <= old(self)@.players.len()
                && g.energy >= 0 && !(-128 <= g.temperature <= 127) ==> r == Err::<
                Guest,
                OperationError,
            >(OperationError::out_of_limit("guest temperature", "i8")) && final(self)@ == old(
                self,
            )@,
            1 <= g.id <= old(self)@.guests.len() && 1 <= g.master_id <= old(self)@.players.len()
                && g.energy >= 0 && -128 <= g.temperature <= 127 ==> {
                &&& r == Ok::<Guest, OperationError>(g)
                &&& final(self)@.players == old(self)@.players
                &&& final(self)@.guests == old(self)@.guests.update(g.id - 1, g)
                &&& old(self)@.nodes.contains_key(g.pos) ==> final(self)@.nodes == old(self)@.nodes
                &&& !old(self)@.nodes.contains_key(g.pos) ==> final(self)@.nodes == old(
                    self,
                )@.nodes.insert(g.pos, final(self)@.nodes[g.pos])
            },
    {
        if !(g.id >= 1 && (g.id as usize) <= self.guests.len()) {
            return Err(OperationError::GuestNotExist(g.id));
        }
        if !(g.master_id >= 1 && (g.master_id as usize) <= self.players.len()) {
            return Err(OperationError::PlayerNotExist(g.master_id));
        }
        if g.energy < 0 {
            return Err(
                OperationError::Model(
                    ModelError::OutOfLimit { desc: "guest energy", limit_type: "non-negative i64" },
                ),
            );
        }
        if !(-128 <= g.temperature && g.temperature <= 127) {
            return Err(
                OperationError::Model(ModelError::OutOfLimit { desc: "guest temperature", limit_type: "i8" }),
            );
        }
        self.get_or_init_node(NodeID::from_i32(g.pos));
        proof {
            lemma_pack_unpack(g.pos);
        }
        self.guests.set((g.id - 1) as usize, g);
        assert(self@.players =~= old(self)@.players);
        Ok(g)
    }

    /// Overwrites the cells of a node, creating it if needed; refused when
    /// the node would hold more than `NODE_MAX_SIZE` cells.
    pub fn update_node(&mut self, n: Node) -> (r: Result<(), OperationError>)
        requires
            old(self).wf(),
        ensures
            final(self).wf(),
            n.data@.len() > NODE_MAX_SIZE ==> r == Err::<(), OperationError>(
                OperationError::out_of_limit("node data", "NODE_MAX_SIZE cells"),
            ) && final(self)@ == old(self)@,
            n.data@.len() <= NODE_MAX_SIZE ==> r == Ok::<(), OperationError>(()) && final(self)@ == (
            WorldView { nodes: old(self)@.nodes.insert(pack(n.id.0, n.id.1), n.data@), ..old(self)@ }),
    {
        if n.data.len() > NODE_MAX_SIZE {
            return Err(
                OperationError::Model(
                    ModelError::OutOfLimit { desc: "node data", limit_type: "NODE_MAX_SIZE cells" },
                ),
            );
        }
        let key = n.id.into_i32();
        self.put_node(key, n.data);
        Ok(())
    }

    /// How many nodes exist.
    pub fn count_nodes(&self) -> (r: usize)
        ensures
            r == self@.nodes.len(),
    {
        proof {
            assert(self@.nodes.dom() =~= self.nodes@.dom());
        }
        self.nodes.len()
    }

    fn has_node(&self, key: i32) -> (r: bool)
        ensures
            r == self@.nodes.contains_key(key),
    {
        self.nodes.contains_key(&key)
    }
}

/// Every store that satisfies the invariant has only guests with
/// non-negative energy and only nodes of at most `NODE_MAX_SIZE` cells; each
/// operation on `World` keeps the invariant.
pub proof fn lemma_wf_bounds(w: WorldView)
    requires
        world_wf(w),
    ensures
        forall|i: int| 0 <= i < w.guests.len() ==> (#[trigger] w.guests[i]).energy >= 0,
        forall|k: i32| #[trigger] w.nodes.contains_key(k) ==> w.nodes[k].len() <= NODE_MAX_SIZE,
{
}

proof fn lemma_guests_of_push(s: Seq<Guest>, g: Guest, pid: i32)
    ensures
        guests_of(s.push(g), pid) == if g.master_id == pid {
            guests_of(s, pid).push(g)
        } else {
            guests_of(s, pid)
        },
{
    assert(s.push(g).drop_last() =~= s);
}

/// Once a player's free guest has been spawned, spawning again fails with
/// `AlreadyHasGuest`: a player gets at most one guest from `spawn_guest`.
pub proof fn lemma_spawn_at_most_once(w: WorldView, id: i32, password: Seq<char>)
    requires
        world_wf(w),
        spawn_of(w, id, password).1 is Ok,
    ensures
        spawn_of(spawn_of(w, id, password).0, id, password).1 == op_err::<Guest>(
            OperationError::AlreadyHasGuest,
        ),
{
    let g = spawn_of(w, id, password).1->Ok_0;
    lemma_guests_of_push(w.guests, g, id);
}

/// `detect` never lists the asking guest itself, and lists only guests on
/// the given node. A `DetectedGuest` has no energy field, so none is exposed.
pub proof fn lemma_detect_excludes_self(s: Seq<Guest>, pos: i32, gid: i32)
    ensures
        forall|j: int|
            0 <= j < neighbours_of(s, pos, gid).len() ==> (#[trigger] neighbours_of(s, pos, gid)[j]).id
                != gid && neighbours_of(s, pos, gid)[j].pos == pos,
    decreases s.len(),
{
    if s.len() > 0 {
        lemma_detect_excludes_self(s.drop_last(), pos, gid);
        let prev = neighbours_of(s.drop_last(), pos, gid);
        let cur = neighbours_of(s, pos, gid);
        assert forall|j: int| 0 <= j < cur.len() implies (#[trigger] cur[j]).id != gid && cur[j].pos
            == pos by {
            if j < prev.len() {
                assert(cur[j] == prev[j]);
            }
        }
    }
}

/// A successful harvest never widens the gap between the guest's temperature
/// and the cell's, and the energy the guest gains is at most that gap.
pub proof fn lemma_harvest_narrows_gap(w: WorldView, id: i32, password: Seq<char>, gid: i32, at: usize)
    requires
        world_wf(w),
        harvest_of(w, id, password, gid, at).1 is Ok,
    ensures
        ({
            let g = w.guests[gid - 1];
            let w2 = harvest_of(w, id, password, gid, at).0;
            let g2 = harvest_of(w, id, password, gid, at).1->Ok_0;
            let c = w.nodes[g.pos][at as int];
            let c2 = w2.nodes[g.pos][at as int];
            &&& abs(g2.temperature - c2) <= abs(g.temperature - c)
            &&& 0 <= g2.energy - g.energy <= abs(g.temperature - c)
        }),
{
    let g = w.guests[gid - 1];
    lemma_harvest_conserves(g.temperature as i8, w.nodes[g.pos][at as int]);
}

/// A successful `arrange` takes exactly `2^k + transfer_energy` from the
/// parent, where `k` is how many guests the player owned before, and the new
/// guest holds exactly `transfer_energy`.
pub proof fn lemma_arrange_conserves(
    w: WorldView,
    id: i32,
    password: Seq<char>,
    gid: i32,
    transfer_energy: i64,
)
    requires
        world_wf(w),
        arrange_of(w, id, password, gid, transfer_energy).1 is Ok,
    ensures
        ({
            let w2 = arrange_of(w, id, password, gid, transfer_energy).0;
            let child = arrange_of(w, id, password, gid, transfer_energy).1->Ok_0;
            &&& w.guests[gid - 1].energy - w2.guests[gid - 1].energy == pow2(
                guests_of(w.guests, id).len(),
            ) + transfer_energy
            &&& child.energy == transfer_energy
            &&& w2.guests.len() == w.guests.len() + 1
            &&& w2.guests[w.guests.len() as int] == child
        }),
{
}

} // verus!
