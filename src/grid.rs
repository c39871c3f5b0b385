//! Grid primitives: lattice coordinates, their packed 32-bit form, movement
//! on the torus and the cell array carried by each node.
use vstd::arithmetic::div_mod::{lemma_add_mod_noop_right, lemma_fundamental_div_mod_converse};
use vstd::prelude::*;

use crate::random::{random_below, random_bytes};

verus! {

/// Largest number of cells a node may hold.
pub const NODE_MAX_SIZE: usize = 1024;

/// A movement vector `(dx, dy)`.
pub type Direction = (i16, i16);

/// Reduces an integer to the `i16` range the way two's-complement wrapping does.
pub open spec fn wrap16(v: int) -> int {
    (v + 32768) % 65536 - 32768
}

/// The unsigned 16-bit reading of a signed half.
pub open spec fn unsigned16(v: int) -> int {
    if v < 0 {
        v + 65536
    } else {
        v
    }
}

/// The signed 16-bit reading of an unsigned half.
pub open spec fn signed16(u: int) -> int {
    if u >= 32768 {
        u - 65536
    } else {
        u
    }
}

/// `((x as u16) << 16) | (y as u16)`, read as a signed 32-bit integer.
pub open spec fn pack(x: i16, y: i16) -> i32 {
    let v = unsigned16(x as int) * 65536 + unsigned16(y as int);
    (if v >= 0x8000_0000 {
        v - 0x1_0000_0000
    } else {
        v
    }) as i32
}

/// The inverse of `pack`: the high half is `x`, the low half is `y`.
pub open spec fn unpack(i: i32) -> (i16, i16) {
    let v = if i < 0 {
        i + 0x1_0000_0000
    } else {
        i as int
    };
    (signed16(v / 65536) as i16, signed16(v % 65536) as i16)
}

/// Whether a direction is one of the eight unit steps or standing still.
pub open spec fn allowed_direction(d: Direction) -> bool {
    -1 <= d.0 <= 1 && -1 <= d.1 <= 1
}

pub fn is_allowed_direction(d: Direction) -> (r: bool)
    ensures
        r == allowed_direction(d),
{
    -1 <= d.0 && d.0 <= 1 && -1 <= d.1 && d.1 <= 1
}

/// A lattice coordinate; each axis wraps around, so the world is a torus.
#[derive(Clone, Copy, Debug, PartialEq, Eq, Structural)]
pub struct NodeID(pub i16, pub i16);

/// Translation of a coordinate by a direction, wrapping on each axis.
pub open spec fn navi(p: NodeID, d: Direction) -> NodeID {
    NodeID(wrap16(p.0 + d.0) as i16, wrap16(p.1 + d.1) as i16)
}

proof fn lemma_wrapping_add(a: i16, b: i16)
    ensures
        a.wrapping_add(b) as int == wrap16(a + b),
{
}

/// Packing a coordinate and unpacking it gives the coordinate back.
pub proof fn lemma_unpack_pack(x: i16, y: i16)
    ensures
        unpack(pack(x, y)) == (x, y),
{
    let ux = unsigned16(x as int);
    let uy = unsigned16(y as int);
    let v = ux * 65536 + uy;
    assert(0 <= v < 0x1_0000_0000) by (nonlinear_arith)
        requires
            0 <= ux < 65536,
            0 <= uy < 65536,
            v == ux * 65536 + uy,
    ;
    lemma_fundamental_div_mod_converse(v, 65536, ux, uy);
}

/// Unpacking a packed identifier and packing it again gives it back.
pub proof fn lemma_pack_unpack(i: i32)
    ensures
        pack(unpack(i).0, unpack(i).1) == i,
{
    let v = if i < 0 {
        i + 0x1_0000_0000
    } else {
        i as int
    };
    let hx = v / 65536;
    let ly = v % 65536;
    assert(v == 65536 * hx + ly && 0 <= ly < 65536 && 0 <= hx < 65536) by (nonlinear_arith)
        requires
            0 <= v < 0x1_0000_0000,
            hx == v / 65536,
            ly == v % 65536,
    ;
}

proof fn lemma_wrap16_absorb(u: int, w: int)
    ensures
        wrap16(wrap16(u) + w) == wrap16(u + w),
        wrap16(w + wrap16(u)) == wrap16(w + u),
{
    lemma_add_mod_noop_right(w, u + 32768, 65536);
    assert(wrap16(u) + w + 32768 == w + (u + 32768) % 65536);
    assert(w + (u + 32768) == u + w + 32768);
}

/// Moving by `d1` and then by `d2` is moving once by their sum taken modulo `2^16`.
pub proof fn lemma_navi_compose(p: NodeID, d1: Direction, d2: Direction)
    ensures
        navi(navi(p, d1), d2) == navi(p, (d1.0.wrapping_add(d2.0), d1.1.wrapping_add(d2.1))),
{
    lemma_wrapping_add(d1.0, d2.0);
    lemma_wrapping_add(d1.1, d2.1);
    lemma_wrap16_absorb(p.0 + d1.0, d2.0 as int);
    lemma_wrap16_absorb(d1.0 + d2.0, p.0 as int);
    lemma_wrap16_absorb(p.1 + d1.1, d2.1 as int);
    lemma_wrap16_absorb(d1.1 + d2.1, p.1 as int);
    assert(p.0 + d1.0 + d2.0 == p.0 + (d1.0 + d2.0));
    assert(p.1 + d1.1 + d2.1 == p.1 + (d1.1 + d2.1));
}

impl NodeID {
    pub fn from_xy(x: i16, y: i16) -> (r: NodeID)
        ensures
            r == NodeID(x, y),
    {
        NodeID(x, y)
    }

    pub fn into_tuple(self) -> (r: (i16, i16))
        ensures
            r == (self.0, self.1),
    {
        (self.0, self.1)
    }

    /// The packed 32-bit form used as the node's primary key.
    pub fn into_i32(self) -> (r: i32)
        ensures
            r == pack(self.0, self.1),
    {
        let ux: i64 = if self.0 < 0 {
            self.0 as i64 + 65536
        } else {
            self.0 as i64
        };
        let uy: i64 = if self.1 < 0 {
            self.1 as i64 + 65536
        } else {
            self.1 as i64
        };
        assert(0 <= ux * 65536 + uy < 0x1_0000_0000) by (nonlinear_arith)
            requires
                0 <= ux < 65536,
                0 <= uy < 65536,
        ;
        let v: i64 = ux * 65536 + uy;
        if v >= 0x8000_0000 {
            (v - 0x1_0000_0000) as i32
        } else {
            v as i32
        }
    }

    pub fn from_i32(i: i32) -> (r: NodeID)
        ensures
            (r.0, r.1) == unpack(i),
    {
        let v: i64 = if i < 0 {
            i as i64 + 0x1_0000_0000
        } else {
            i as i64
        };
        let hx: i64 = v / 65536;
        let ly: i64 = v % 65536;
        assert(0 <= hx < 65536 && 0 <= ly < 65536) by (nonlinear_arith)
            requires
                0 <= v < 0x1_0000_0000,
                hx == v / 65536,
                ly == v % 65536,
        ;
        let x: i16 = if hx >= 32768 {
            (hx - 65536) as i16
        } else {
            hx as i16
        };
        let y: i16 = if ly >= 32768 {
            (ly - 65536) as i16
        } else {
            ly as i16
        };
        NodeID(x, y)
    }

    /// Moves the coordinate by `to` with wrapping arithmetic and returns the new position.
    pub fn navi_to(&mut self, to: Direction) -> (r: NodeID)
        ensures
            *final(self) == navi(*old(self), to),
            r == *final(self),
    {
        proof {
            lemma_wrapping_add(self.0, to.0);
            lemma_wrapping_add(self.1, to.1);
        }
        self.0 = self.0.wrapping_add(to.0);
        self.1 = self.1.wrapping_add(to.1);
        *self
    }
}


/// The signed reading of a stored byte.
pub open spec fn cell_of(b: u8) -> i8 {
    (if b >= 128 {
        b - 256
    } else {
        b as int
    }) as i8
}

/// The stored byte of a signed cell.
pub open spec fn byte_of(c: i8) -> u8 {
    (if c < 0 {
        c + 256
    } else {
        c as int
    }) as u8
}

pub open spec fn cells_of(bytes: Seq<u8>) -> Seq<i8> {
    bytes.map_values(|b: u8| cell_of(b))
}

pub open spec fn bytes_of(cells: Seq<i8>) -> Seq<u8> {
    cells.map_values(|c: i8| byte_of(c))
}

fn to_byte(c: i8) -> (r: u8)
    ensures
        r == byte_of(c),
{
    if c < 0 {
        (c as i16 + 256) as u8
    } else {
        c as u8
    }
}

fn to_cell(b: u8) -> (r: i8)
    ensures
        r == cell_of(b),
{
    if b >= 128 {
        (b as i16 - 256) as i8
    } else {
        b as i8
    }
}

/// Reading bytes as cells and writing them back gives the same bytes.
pub proof fn lemma_bytes_round_trip(bytes: Seq<u8>)
    ensures
        bytes_of(cells_of(bytes)) == bytes,
{
    assert(bytes_of(cells_of(bytes)) =~= bytes);
}

/// Writing cells as bytes and reading them back gives the same cells.
pub proof fn lemma_cells_round_trip(cells: Seq<i8>)
    ensures
        cells_of(bytes_of(cells)) == cells,
{
    assert(cells_of(bytes_of(cells)) =~= cells);
}

/// The cells of a node: one signed 8-bit temperature each.
#[derive(Debug, PartialEq, Eq)]
pub struct NodeData(Vec<i8>);

impl View for NodeData {
    type V = Seq<i8>;

    closed spec fn view(&self) -> Seq<i8> {
        self.0@
    }
}

impl NodeData {
    /// A fresh node payload: a length drawn from `[0, NODE_MAX_SIZE)` and
    /// bytes drawn at random, read as signed cells.
    pub fn random() -> (r: NodeData)
        ensures
            r@.len() < NODE_MAX_SIZE,
    {
        let length = random_below(NODE_MAX_SIZE);
        let bytes = random_bytes(length);
        NodeData::from_be_bytes(bytes)
    }

    pub fn len(&self) -> (r: usize)
        ensures
            r == self@.len(),
            self@.len() <= usize::MAX,
    {
        self.0.len()
    }

    pub fn get(&self, index: usize) -> (r: Option<i8>)
        ensures
            r == (if index < self@.len() {
                Some(self@[index as int])
            } else {
                None::<i8>
            }),
    {
        if index < self.0.len() {
            Some(self.0[index])
        } else {
            None
        }
    }

    pub fn set(&mut self, index: usize, value: i8) -> (r: Option<()>)
        ensures
            index < old(self)@.len() ==> r == Some(()) && final(self)@ == old(self)@.update(
                index as int,
                value,
            ),
            index >= old(self)@.len() ==> r == None::<()> && final(self)@ == old(self)@,
    {
        if index < self.0.len() {
            self.0.set(index, value);
            Some(())
        } else {
            None
        }
    }

    /// The cells as raw bytes.
    pub fn to_be_bytes(self) -> (r: Vec<u8>)
        ensures
            r@ == bytes_of(self@),
    {
        let mut out: Vec<u8> = Vec::new();
        let mut i: usize = 0;
        while i < self.0.len()
            invariant
                i <= self.0@.len(),
                out@ =~= bytes_of(self@.subrange(0, i as int)),
            decreases self.0@.len() - i,
        {
            out.push(to_byte(self.0[i]));
            i += 1;
            assert(out@ =~= bytes_of(self@.subrange(0, i as int)));
        }
        assert(self@.subrange(0, i as int) =~= self@);
        out
    }

    /// The cells as raw bytes; a single byte reads the same in either order.
    pub fn to_le_bytes(self) -> (r: Vec<u8>)
        ensures
            r@ == bytes_of(self@),
    {
        self.to_be_bytes()
    }

    /// Reads each byte as a signed cell.
    pub fn from_be_bytes(value: Vec<u8>) -> (r: NodeData)
        ensures
            r@ == cells_of(value@),
    {
        let mut cells: Vec<i8> = Vec::new();
        let mut i: usize = 0;
        while i < value.len()
            invariant
                i <= value@.len(),
                cells@ =~= cells_of(value@.subrange(0, i as int)),
            decreases value@.len() - i,
        {
            cells.push(to_cell(value[i]));
            i += 1;
            assert(cells@ =~= cells_of(value@.subrange(0, i as int)));
        }
        assert(value@.subrange(0, i as int) =~= value@);
        NodeData(cells)
    }

    /// Reads each byte as a signed cell; a single byte reads the same in either order.
    pub fn from_le_bytes(value: Vec<u8>) -> (r: NodeData)
        ensures
            r@ == cells_of(value@),
    {
        NodeData::from_be_bytes(value)
    }

    /// A copy of the cells.
    pub fn duplicate(&self) -> (r: NodeData)
        ensures
            r@ == self@,
    {
        NodeData(self.0.clone())
    }
}

/// A node identifier in its packed 32-bit form.
#[derive(Clone, Copy, Debug, PartialEq, Eq, Structural)]
pub struct FlatID(pub i32);

impl FlatID {
    pub fn into_node_id(self) -> (r: NodeID)
        ensures
            (r.0, r.1) == unpack(self.0),
    {
        NodeID::from_i32(self.0)
    }

    pub fn into_tuple(self) -> (r: (i16, i16))
        ensures
            r == unpack(self.0),
    {
        self.into_node_id().into_tuple()
    }

    pub fn from_xy(x: i16, y: i16) -> (r: FlatID)
        ensures
            r.0 == pack(x, y),
    {
        FlatID(NodeID::from_xy(x, y).into_i32())
    }
}

/// A node as handed out: its coordinate and its cells.
#[derive(Debug, PartialEq, Eq)]
pub struct Node {
    pub id: NodeID,
    pub data: NodeData,
}

impl Node {
    pub fn new(id: NodeID, data: NodeData) -> (r: Node)
        ensures
            r.id == id,
            r.data@ == data@,
    {
        Node { id, data }
    }
}

} // verus!
