//! Grid coordinates: absolute voxel positions, positions relative to a chunk,
//! and chunk coordinates.

use vstd::prelude::*;
use vstd::std_specs::ops::AddSpecImpl;
use vstd::std_specs::ops::SubSpecImpl;
use vstd::std_specs::ops::MulSpecImpl;
use vstd::std_specs::ops::DivSpecImpl;
use vstd::std_specs::convert::FromSpecImpl;

verus! {

/// Side length of a chunk, in voxels.
pub const CHUNK_SIZE_I32: i32 = 32;

/// True when `v` can be held by an `i32`.
pub open spec fn fits_i32(v: int) -> bool {
    i32::MIN <= v <= i32::MAX
}

/// Integer division that rounds toward zero, as machine division does.
pub open spec fn div_toward_zero(a: int, b: int) -> int {
    if a >= 0 && b > 0 {
        a / b
    } else if a < 0 && b > 0 {
        -((-a) / b)
    } else if a >= 0 && b < 0 {
        -(a / (-b))
    } else {
        (-a) / (-b)
    }
}

/// A grid aligned position in the world using absolute coordinates.
#[derive(Debug, Hash, Clone, Copy, PartialEq, Eq, Structural)]
pub struct Position {
    pub x: i32,
    pub y: i32,
    pub z: i32,
}

/// A grid aligned position in the world using relative coordinates.
#[derive(Debug, Hash, Clone, Copy, PartialEq, Eq, Structural)]
pub struct RelativePosition {
    pub x: i32,
    pub y: i32,
    pub z: i32,
}

/// Represents the location of a chunk.
/// The x, y, z components are scaled down by a factor of the chunk side length.
#[derive(Debug, Hash, Clone, Copy, PartialEq, Eq, Structural)]
pub struct ChunkPosition {
    pub x: i32,
    pub y: i32,
    pub z: i32,
}

impl Position {
    #[must_use]
    pub fn new(x: i32, y: i32, z: i32) -> (p: Self)
        ensures
            p == (Position { x, y, z }),
    {
        Position { x, y, z }
    }

    #[inline]
    #[must_use]
    pub fn x(&self) -> (v: i32)
        ensures
            v == self.x,
    {
        self.x
    }

    #[inline]
    #[must_use]
    pub fn y(&self) -> (v: i32)
        ensures
            v == self.y,
    {
        self.y
    }

    #[inline]
    #[must_use]
    pub fn z(&self) -> (v: i32)
        ensures
            v == self.z,
    {
        self.z
    }
}

impl RelativePosition {
    #[must_use]
    pub fn new(x: i32, y: i32, z: i32) -> (p: Self)
        ensures
            p == (RelativePosition { x, y, z }),
    {
        RelativePosition { x, y, z }
    }

    #[inline]
    #[must_use]
    pub fn x(&self) -> (v: i32)
        ensures
            v == self.x,
    {
        self.x
    }

    #[inline]
    #[must_use]
    pub fn y(&self) -> (v: i32)
        ensures
            v == self.y,
    {
        self.y
    }

    #[inline]
    #[must_use]
    pub fn z(&self) -> (v: i32)
        ensures
            v == self.z,
    {
        self.z
    }
}

impl ChunkPosition {
    #[must_use]
    pub fn new(x: i32, y: i32, z: i32) -> (p: Self)
        ensures
            p == (ChunkPosition { x, y, z }),
    {
        ChunkPosition { x, y, z }
    }

    #[inline]
    #[must_use]
    pub fn x(&self) -> (v: i32)
        ensures
            v == self.x,
    {
        self.x
    }

    #[inline]
    #[must_use]
    pub fn y(&self) -> (v: i32)
        ensures
            v == self.y,
    {
        self.y
    }

    #[inline]
    #[must_use]
    pub fn z(&self) -> (v: i32)
        ensures
            v == self.z,
    {
        self.z
    }
}

impl AddSpecImpl for Position {
    open spec fn obeys_add_spec() -> bool {
        true
    }

    open spec fn add_req(self, other: Position) -> bool {
        fits_i32(self.x + other.x) && fits_i32(self.y + other.y) && fits_i32(self.z + other.z)
    }

    open spec fn add_spec(self, other: Position) -> Position {
        Position {
            x: (self.x + other.x) as i32,
            y: (self.y + other.y) as i32,
            z: (self.z + other.z) as i32,
        }
    }
}

impl core::ops::Add for Position {
    type Output = Position;

    fn add(self, other: Position) -> Position {
        Position { x: self.x + other.x, y: self.y + other.y, z: self.z + other.z }
    }
}

impl SubSpecImpl for Position {
    open spec fn obeys_sub_spec() -> bool {
        true
    }

    open spec fn sub_req(self, other: Position) -> bool {
        fits_i32(self.x - other.x) && fits_i32(self.y - other.y) && fits_i32(self.z - other.z)
    }

    open spec fn sub_spec(self, other: Position) -> Position {
        Position {
            x: (self.x - other.x) as i32,
            y: (self.y - other.y) as i32,
            z: (self.z - other.z) as i32,
        }
    }
}

impl core::ops::Sub for Position {
    type Output = Position;

    fn sub(self, other: Position) -> Position {
        Position { x: self.x - other.x, y: self.y - other.y, z: self.z - other.z }
    }
}

impl MulSpecImpl for Position {
    open spec fn obeys_mul_spec() -> bool {
        true
    }

    open spec fn mul_req(self, other: Position) -> bool {
        fits_i32(self.x * other.x) && fits_i32(self.y * other.y) && fits_i32(self.z * other.z)
    }

    open spec fn mul_spec(self, other: Position) -> Position {
        Position {
            x: (self.x * other.x) as i32,
            y: (self.y * other.y) as i32,
            z: (self.z * other.z) as i32,
        }
    }
}

impl core::ops::Mul for Position {
    type Output = Position;

    fn mul(self, other: Position) -> Position {
        Position { x: self.x * other.x, y: self.y * other.y, z: self.z * other.z }
    }
}

impl DivSpecImpl for Position {
    open spec fn obeys_div_spec() -> bool {
        true
    }

    open spec fn div_req(self, other: Position) -> bool {
        &&& other.x != 0 && other.y != 0 && other.z != 0
        &&& fits_i32(div_toward_zero(self.x as int, other.x as int))
        &&& fits_i32(div_toward_zero(self.y as int, other.y as int))
        &&& fits_i32(div_toward_zero(self.z as int, other.z as int))
    }

    open spec fn div_spec(self, other: Position) -> Position {
        Position {
            x: div_toward_zero(self.x as int, other.x as int) as i32,
            y: div_toward_zero(self.y as int, other.y as int) as i32,
            z: div_toward_zero(self.z as int, other.z as int) as i32,
        }
    }
}

impl core::ops::Div for Position {
    type Output = Position;

    fn div(self, other: Position) -> Position {
        Position {
            x: div_i32(self.x, other.x),
            y: div_i32(self.y, other.y),
            z: div_i32(self.z, other.z),
        }
    }
}

impl AddSpecImpl for RelativePosition {
    open spec fn obeys_add_spec() -> bool {
        true
    }

    open spec fn add_req(self, other: RelativePosition) -> bool {
        fits_i32(self.x + other.x) && fits_i32(self.y + other.y) && fits_i32(self.z + other.z)
    }

    open spec fn add_spec(self, other: RelativePosition) -> RelativePosition {
        RelativePosition {
            x: (self.x + other.x) as i32,
            y: (self.y + other.y) as i32,
            z: (self.z + other.z) as i32,
        }
    }
}

impl core::ops::Add for RelativePosition {
    type Output = RelativePosition;

    fn add(self, other: RelativePosition) -> RelativePosition {
        RelativePosition { x: self.x + other.x, y: self.y + other.y, z: self.z + other.z }
    }
}

impl SubSpecImpl for RelativePosition {
    open spec fn obeys_sub_spec() -> bool {
        true
    }

    open spec fn sub_req(self, other: RelativePosition) -> bool {
        fits_i32(self.x - other.x) && fits_i32(self.y - other.y) && fits_i32(self.z - other.z)
    }

    open spec fn sub_spec(self, other: RelativePosition) -> RelativePosition {
        RelativePosition {
            x: (self.x - other.x) as i32,
            y: (self.y - other.y) as i32,
            z: (self.z - other.z) as i32,
        }
    }
}

impl core::ops::Sub for RelativePosition {
    type Output = RelativePosition;

    fn sub(self, other: RelativePosition) -> RelativePosition {
        RelativePosition { x: self.x - other.x, y: self.y - other.y, z: self.z - other.z }
    }
}

impl MulSpecImpl for RelativePosition {
    open spec fn obeys_mul_spec() -> bool {
        true
    }

    open spec fn mul_req(self, other: RelativePosition) -> bool {
        fits_i32(self.x * other.x) && fits_i32(self.y * other.y) && fits_i32(self.z * other.z)
    }

    open spec fn mul_spec(self, other: RelativePosition) -> RelativePosition {
        RelativePosition {
            x: (self.x * other.x) as i32,
            y: (self.y * other.y) as i32,
            z: (self.z * other.z) as i32,
        }
    }
}

impl core::ops::Mul for RelativePosition {
    type Output = RelativePosition;

    fn mul(self, other: RelativePosition) -> RelativePosition {
        RelativePosition { x: self.x * other.x, y: self.y * other.y, z: self.z * other.z }
    }
}

impl DivSpecImpl for RelativePosition {
    open spec fn obeys_div_spec() -> bool {
        true
    }

    open spec fn div_req(self, other: RelativePosition) -> bool {
        &&& other.x != 0 && other.y != 0 && other.z != 0
        &&& fits_i32(div_toward_zero(self.x as int, other.x as int))
        &&& fits_i32(div_toward_zero(self.y as int, other.y as int))
        &&& fits_i32(div_toward_zero(self.z as int, other.z as int))
    }

    open spec fn div_spec(self, other: RelativePosition) -> RelativePosition {
        RelativePosition {
            x: div_toward_zero(self.x as int, other.x as int) as i32,
            y: div_toward_zero(self.y as int, other.y as int) as i32,
            z: div_toward_zero(self.z as int, other.z as int) as i32,
        }
    }
}

impl core::ops::Div for RelativePosition {
    type Output = RelativePosition;

    fn div(self, other: RelativePosition) -> RelativePosition {
        RelativePosition {
            x: div_i32(self.x, other.x),
            y: div_i32(self.y, other.y),
            z: div_i32(self.z, other.z),
        }
    }
}

impl AddSpecImpl for ChunkPosition {
    open spec fn obeys_add_spec() -> bool {
        true
    }

    open spec fn add_req(self, other: ChunkPosition) -> bool {
        fits_i32(self.x + other.x) && fits_i32(self.y + other.y) && fits_i32(self.z + other.z)
    }

    open spec fn add_spec(self, other: ChunkPosition) -> ChunkPosition {
        ChunkPosition {
            x: (self.x + other.x) as i32,
            y: (self.y + other.y) as i32,
            z: (self.z + other.z) as i32,
        }
    }
}

impl core::ops::Add for ChunkPosition {
    type Output = ChunkPosition;

    fn add(self, other: ChunkPosition) -> ChunkPosition {
        ChunkPosition { x: self.x + other.x, y: self.y + other.y, z: self.z + other.z }
    }
}

impl SubSpecImpl for ChunkPosition {
    open spec fn obeys_sub_spec() -> bool {
        true
    }

    open spec fn sub_req(self, other: ChunkPosition) -> bool {
        fits_i32(self.x - other.x) && fits_i32(self.y - other.y) && fits_i32(self.z - other.z)
    }

    open spec fn sub_spec(self, other: ChunkPosition) -> ChunkPosition {
        ChunkPosition {
            x: (self.x - other.x) as i32,
            y: (self.y - other.y) as i32,
            z: (self.z - other.z) as i32,
        }
    }
}

impl core::ops::Sub for ChunkPosition {
    type Output = ChunkPosition;

    fn sub(self, other: ChunkPosition) -> ChunkPosition {
        ChunkPosition { x: self.x - other.x, y: self.y - other.y, z: self.z - other.z }
    }
}

impl MulSpecImpl for ChunkPosition {
    open spec fn obeys_mul_spec() -> bool {
        true
    }

    open spec fn mul_req(self, other: ChunkPosition) -> bool {
        fits_i32(self.x * other.x) && fits_i32(self.y * other.y) && fits_i32(self.z * other.z)
    }

    open spec fn mul_spec(self, other: ChunkPosition) -> ChunkPosition {
        ChunkPosition {
            x: (self.x * other.x) as i32,
            y: (self.y * other.y) as i32,
            z: (self.z * other.z) as i32,
        }
    }
}

impl core::ops::Mul for ChunkPosition {
    type Output = ChunkPosition;

    fn mul(self, other: ChunkPosition) -> ChunkPosition {
        ChunkPosition { x: self.x * other.x, y: self.y * other.y, z: self.z * other.z }
    }
}

impl DivSpecImpl for ChunkPosition {
    open spec fn obeys_div_spec() -> bool {
        true
    }

    open spec fn div_req(self, other: ChunkPosition) -> bool {
        &&& other.x != 0 && other.y != 0 && other.z != 0
        &&& fits_i32(div_toward_zero(self.x as int, other.x as int))
        &&& fits_i32(div_toward_zero(self.y as int, other.y as int))
        &&& fits_i32(div_toward_zero(self.z as int, other.z as int))
    }

    open spec fn div_spec(self, other: ChunkPosition) -> ChunkPosition {
        ChunkPosition {
            x: div_toward_zero(self.x as int, other.x as int) as i32,
            y: div_toward_zero(self.y as int, other.y as int) as i32,
            z: div_toward_zero(self.z as int, other.z as int) as i32,
        }
    }
}

impl core::ops::Div for ChunkPosition {
    type Output = ChunkPosition;

    fn div(self, other: ChunkPosition) -> ChunkPosition {
        ChunkPosition {
            x: div_i32(self.x, other.x),
            y: div_i32(self.y, other.y),
            z: div_i32(self.z, other.z),
        }
    }
}

impl FromSpecImpl<Position> for ChunkPosition {
    open spec fn obeys_from_spec() -> bool {
        true
    }

    /// The chunk coordinate of a voxel position: each component divided by
    /// the chunk side length, rounding toward zero.
    open spec fn from_spec(position: Position) -> ChunkPosition {
        ChunkPosition {
            x: div_toward_zero(position.x as int, 32) as i32,
            y: div_toward_zero(position.y as int, 32) as i32,
            z: div_toward_zero(position.z as int, 32) as i32,
        }
    }
}

impl From<Position> for ChunkPosition {
    fn from(position: Position) -> Self {
        ChunkPosition {
            x: position.x / CHUNK_SIZE_I32,
            y: position.y / CHUNK_SIZE_I32,
            z: position.z / CHUNK_SIZE_I32,
        }
    }
}

impl ChunkPosition {
    /// True when the chunk's voxels have coordinates that an `i32` holds.
    pub open spec fn has_origin(self) -> bool {
        fits_i32(self.x * 32) && fits_i32(self.y * 32) && fits_i32(self.z * 32)
    }

    /// The position of the chunk's first voxel (its corner of least coordinates).
    pub open spec fn origin_spec(self) -> Position {
        Position { x: (self.x * 32) as i32, y: (self.y * 32) as i32, z: (self.z * 32) as i32 }
    }

    /// The position of the chunk's first voxel.
    pub fn origin(self) -> (p: Position)
        requires
            self.has_origin(),
        ensures
            p == self.origin_spec(),
    {
        Position {
            x: self.x * CHUNK_SIZE_I32,
            y: self.y * CHUNK_SIZE_I32,
            z: self.z * CHUNK_SIZE_I32,
        }
    }

    /// The square of the Euclidean distance between two chunk coordinates.
    pub open spec fn distance_squared_spec(self, other: ChunkPosition) -> int {
        (self.x - other.x) * (self.x - other.x) + (self.y - other.y) * (self.y - other.y) + (self.z
            - other.z) * (self.z - other.z)
    }

    /// The square of the Euclidean distance between two chunk coordinates.
    /// Computed in 128 bits, so that it is defined for every pair.
    pub fn distance_squared(self, other: ChunkPosition) -> (d: u128)
        ensures
            d == self.distance_squared_spec(other),
    {
        let dx: u128 = square_of_difference(self.x, other.x);
        let dy: u128 = square_of_difference(self.y, other.y);
        let dz: u128 = square_of_difference(self.z, other.z);
        dx + dy + dz
    }

    /// True when the coordinate `offset` away from this one exists.
    pub open spec fn can_reach(self, offset: ChunkPosition) -> bool {
        fits_i32(self.x + offset.x) && fits_i32(self.y + offset.y) && fits_i32(self.z + offset.z)
    }

    /// The coordinate `offset` away from this one.
    pub open spec fn offset_by(self, offset: ChunkPosition) -> ChunkPosition {
        ChunkPosition {
            x: (self.x + offset.x) as i32,
            y: (self.y + offset.y) as i32,
            z: (self.z + offset.z) as i32,
        }
    }

    /// The coordinate `offset` away from this one, unless a component leaves
    /// the range of `i32`.
    pub fn checked_add(self, offset: ChunkPosition) -> (r: Option<ChunkPosition>)
        ensures
            r is Some <==> self.can_reach(offset),
            r is Some ==> r->0 == self.offset_by(offset),
    {
        let x: i64 = self.x as i64 + offset.x as i64;
        let y: i64 = self.y as i64 + offset.y as i64;
        let z: i64 = self.z as i64 + offset.z as i64;
        if in_i32(x) && in_i32(y) && in_i32(z) {
            Some(ChunkPosition { x: x as i32, y: y as i32, z: z as i32 })
        } else {
            None
        }
    }
}

/// Machine division of two `i32`, by way of a positive divisor.
fn div_i32(a: i32, b: i32) -> (q: i32)
    requires
        b != 0,
        fits_i32(div_toward_zero(a as int, b as int)),
    ensures
        q == div_toward_zero(a as int, b as int),
{
    if b > 0 {
        a / b
    } else {
        let q: i64 = (-(a as i64)) / (-(b as i64));
        q as i32
    }
}

fn in_i32(v: i64) -> (r: bool)
    ensures
        r == fits_i32(v as int),
{
    -2147483648 <= v && v <= 2147483647
}

fn square_of_difference(a: i32, b: i32) -> (s: u128)
    ensures
        s == (a - b) * (a - b),
        s <= 0xffff_ffff_0000_0000_0000_0000,
{
    let d: u64 = if a >= b {
        (a as i64 - b as i64) as u64
    } else {
        (b as i64 - a as i64) as u64
    };
    assert(d * d == (a - b) * (a - b)) by (nonlinear_arith)
        requires
            d == a - b || d == b - a,
    ;
    assert(d * d <= 0xffff_ffff * 0x1_0000_0000) by (nonlinear_arith)
        requires
            0 <= d <= 0xffff_ffff,
    ;
    (d as u128) * (d as u128)
}

} // verus!
