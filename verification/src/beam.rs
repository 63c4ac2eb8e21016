//! Beam data model: cardinal directions, straight segments, and the state of
//! one beam emitter.

use vstd::prelude::*;

use crate::fixed::FixedPointVector;

verus! {

/// A cardinal beam direction.
#[derive(Clone, Copy, PartialEq, Eq, Structural, Debug)]
pub enum Direction {
    Up,
    Down,
    Left,
    Right,
}

impl Direction {
    /// Deflection by a direct mirror: up and left swap, down and right swap.
    pub fn reflect_main(self) -> (r: Direction)
        ensures
            r == reflect_main_spec(self),
    {
        match self {
            Direction::Up => Direction::Left,
            Direction::Left => Direction::Up,
            Direction::Down => Direction::Right,
            Direction::Right => Direction::Down,
        }
    }

    /// Deflection by an inverse mirror: up and right swap, down and left swap.
    pub fn reflect_inv(self) -> (r: Direction)
        ensures
            r == reflect_inv_spec(self),
    {
        match self {
            Direction::Up => Direction::Right,
            Direction::Left => Direction::Down,
            Direction::Down => Direction::Left,
            Direction::Right => Direction::Up,
        }
    }

    /// The unit step of this direction, in tile or world coordinates
    /// (y grows downward).
    pub fn tile_offset(self) -> (r: (i32, i32))
        ensures
            r == dir_step(self),
    {
        match self {
            Direction::Up => (0, -1),
            Direction::Down => (0, 1),
            Direction::Left => (-1, 0),
            Direction::Right => (1, 0),
        }
    }

    /// The rendering rotation of a segment heading this way, counted in
    /// quarter turns from the positive x axis; the engine boundary multiplies
    /// by a right angle in its own floating units.
    pub fn rot_quarters(self) -> (r: u8)
        ensures
            r == (match self {
                Direction::Right => 0int,
                Direction::Down => 1,
                Direction::Left => 2,
                Direction::Up => 3,
            }),
    {
        match self {
            Direction::Right => 0,
            Direction::Down => 1,
            Direction::Left => 2,
            Direction::Up => 3,
        }
    }
}

/// [`Direction::reflect_main`] as a spec-level table.
pub open spec fn reflect_main_spec(d: Direction) -> Direction {
    match d {
        Direction::Up => Direction::Left,
        Direction::Left => Direction::Up,
        Direction::Down => Direction::Right,
        Direction::Right => Direction::Down,
    }
}

/// [`Direction::reflect_inv`] as a spec-level table.
pub open spec fn reflect_inv_spec(d: Direction) -> Direction {
    match d {
        Direction::Up => Direction::Right,
        Direction::Left => Direction::Down,
        Direction::Down => Direction::Left,
        Direction::Right => Direction::Up,
    }
}

/// [`Direction::tile_offset`] as a spec-level table.
pub open spec fn dir_step(d: Direction) -> (i32, i32) {
    match d {
        Direction::Up => (0i32, -1i32),
        Direction::Down => (0i32, 1i32),
        Direction::Left => (-1i32, 0i32),
        Direction::Right => (1i32, 0i32),
    }
}

/// One straight run of a beam.
#[derive(Clone, Copy, PartialEq, Eq, Structural, Debug)]
pub struct SegmentData {
    /// Where the segment starts, in world units.
    pub start: FixedPointVector,
    /// How far it runs, in world units; `i32::MAX` while unobstructed.
    pub length: i32,
    /// Which way it heads.
    pub direction: Direction,
    /// Whether the beam ends with this segment instead of reflecting on.
    pub end: bool,
}

/// The spec-level value of a [`Beam`]: the same fields with the segment
/// list abstracted to a sequence.
pub struct BeamModel {
    pub active: bool,
    pub start_direction: Direction,
    pub start_pos: FixedPointVector,
    pub hit_actor: Option<usize>,
    pub segments: Seq<SegmentData>,
    pub top: i32,
    pub left: i32,
    pub bottom: i32,
    pub right: i32,
}

/// The state of one beam emitter.
pub struct Beam {
    /// Whether the beam is lit; gated by the emitter's input actors.
    pub active: bool,
    /// Direction of the first segment.
    pub start_direction: Direction,
    /// Start of the first segment, in world units.
    pub start_pos: FixedPointVector,
    /// The actor the trace currently terminates on, as an arena index.
    pub hit_actor: Option<usize>,
    /// The current traced geometry, first segment first; empty while dark.
    pub segments: Vec<SegmentData>,
    /// Bounding box of the traced geometry, padded by one unit on each side.
    pub top: i32,
    pub left: i32,
    pub bottom: i32,
    pub right: i32,
}

impl View for Beam {
    type V = BeamModel;

    open spec fn view(&self) -> BeamModel {
        BeamModel {
            active: self.active,
            start_direction: self.start_direction,
            start_pos: self.start_pos,
            hit_actor: self.hit_actor,
            segments: self.segments@,
            top: self.top,
            left: self.left,
            bottom: self.bottom,
            right: self.right,
        }
    }
}

impl Beam {
    /// The state of a freshly registered emitter: no geometry traced yet.
    pub fn new(active: bool, start_pos: FixedPointVector, start_direction: Direction) -> (r: Beam)
        ensures
            r.active == active,
            r.start_pos == start_pos,
            r.start_direction == start_direction,
            r.hit_actor is None,
            r.segments@ =~= Seq::<SegmentData>::empty(),
            r.top == 0 && r.left == 0 && r.bottom == 0 && r.right == 0,
    {
        Beam {
            active,
            start_direction,
            start_pos,
            hit_actor: None,
            segments: Vec::new(),
            top: 0,
            left: 0,
            bottom: 0,
            right: 0,
        }
    }
}

} // verus!
