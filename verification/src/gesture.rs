//! Swipes: the touches that are down, and the direction that a touch asks
//! for when it ends.
//!
//! Positions on the screen are in whole pixels.

use std::collections::HashMap;
use vstd::prelude::*;
use vstd::std_specs::hash::group_hash_axioms;

use crate::cell::Cell;

verus! {

broadcast use group_hash_axioms;

/// What a report says of its touch.
#[derive(Debug, Clone, Copy, PartialEq, Eq, Hash, Structural)]
pub enum TouchPhase {
    Started,
    Stationary,
    Moved,
    Ended,
    Cancelled,
}

/// One report of a touch.
#[derive(Debug, Clone, Copy, PartialEq, Eq, Hash, Structural)]
pub struct Touch {
    pub id: u64,
    pub phase: TouchPhase,
    pub position: Cell,
}

/// What is kept of a touch that is down: where it began, and whether it has
/// moved since.
#[derive(Debug, Clone, Copy, PartialEq, Eq, Hash, Structural)]
pub struct Track {
    pub start: Cell,
    pub has_moved: bool,
}

/// The touches that are down, by their ids.
#[derive(Debug)]
pub struct Gestures {
    pub touches: HashMap<u64, Track>,
}

impl View for Gestures {
    type V = Map<u64, Track>;

    open spec fn view(&self) -> Map<u64, Track> {
        self.touches@
    }
}

/// The direction of a swipe between two positions: along the axis on which
/// it went farther, and along `x` if it went as far on both; towards the
/// larger coordinate unless the swipe went towards the smaller.
pub open spec fn spec_swipe(from: Cell, to: Cell) -> Cell {
    let dx = to.x - from.x;
    let dy = to.y - from.y;
    let far_x = if dx < 0 { -dx } else { dx };
    let far_y = if dy < 0 { -dy } else { dy };
    if far_x >= far_y {
        Cell { x: if dx < 0 { -1i32 } else { 1i32 }, y: 0 }
    } else {
        Cell { x: 0, y: if dy < 0 { -1i32 } else { 1i32 } }
    }
}

#[verifier::when_used_as_spec(spec_swipe)]
pub fn swipe(from: Cell, to: Cell) -> (r: Cell)
    ensures
        r == spec_swipe(from, to),
{
    let dx: i64 = to.x as i64 - from.x as i64;
    let dy: i64 = to.y as i64 - from.y as i64;
    let far_x: i64 = if dx < 0 { -dx } else { dx };
    let far_y: i64 = if dy < 0 { -dy } else { dy };
    if far_x >= far_y {
        Cell { x: if dx < 0 { -1 } else { 1 }, y: 0 }
    } else {
        Cell { x: 0, y: if dy < 0 { -1 } else { 1 } }
    }
}

/// Whether a report fits what is known: a touch that moves or ends must
/// have started.
pub open spec fn spec_expects(tracks: Map<u64, Track>, touch: Touch) -> bool {
    touch.phase == TouchPhase::Moved || touch.phase == TouchPhase::Ended ==> tracks.contains_key(
        touch.id,
    )
}

/// The direction that a report asks for: that of the swipe, when a touch
/// that has moved ends.
pub open spec fn asked(tracks: Map<u64, Track>, touch: Touch) -> Option<Cell> {
    if touch.phase == TouchPhase::Ended && tracks[touch.id].has_moved {
        Some(spec_swipe(tracks[touch.id].start, touch.position))
    } else {
        None
    }
}

/// What is known after a report: a touch that starts is kept with its
/// position; one that moves is marked; one that ends is dropped if it has
/// moved; one that is cancelled is dropped.
pub open spec fn followed(tracks: Map<u64, Track>, touch: Touch) -> Map<u64, Track> {
    match touch.phase {
        TouchPhase::Started => tracks.insert(
            touch.id,
            Track { start: touch.position, has_moved: false },
        ),
        TouchPhase::Moved => tracks.insert(
            touch.id,
            Track { start: tracks[touch.id].start, has_moved: true },
        ),
        TouchPhase::Ended => if tracks[touch.id].has_moved {
            tracks.remove(touch.id)
        } else {
            tracks
        },
        TouchPhase::Cancelled => tracks.remove(touch.id),
        TouchPhase::Stationary => tracks,
    }
}

impl Gestures {
    /// No touch is down.
    pub fn new() -> (r: Gestures)
        ensures
            r@ == Map::<u64, Track>::empty(),
    {
        Gestures { touches: HashMap::new() }
    }

    /// Whether the report fits what is known.
    pub fn expects(&self, touch: Touch) -> (r: bool)
        ensures
            r == spec_expects(self@, touch),
    {
        match touch.phase {
            TouchPhase::Moved => self.touches.contains_key(&touch.id),
            TouchPhase::Ended => self.touches.contains_key(&touch.id),
            _ => true,
        }
    }

    /// Takes a report in. Returns the direction that it asks for, if any.
    pub fn handle(&mut self, touch: Touch) -> (r: Option<Cell>)
        requires
            spec_expects(old(self)@, touch),
        ensures
            final(self)@ == followed(old(self)@, touch),
            r == asked(old(self)@, touch),
    {
        match touch.phase {
            TouchPhase::Started => {
                self.touches.insert(touch.id, Track { start: touch.position, has_moved: false });
                None
            },
            TouchPhase::Moved => {
                let start = self.touches.get(&touch.id).unwrap().start;
                self.touches.insert(touch.id, Track { start, has_moved: true });
                None
            },
            TouchPhase::Ended => {
                let track = *self.touches.get(&touch.id).unwrap();
                if track.has_moved {
                    self.touches.remove(&touch.id);
                    Some(swipe(track.start, touch.position))
                } else {
                    None
                }
            },
            TouchPhase::Cancelled => {
                self.touches.remove(&touch.id);
                None
            },
            TouchPhase::Stationary => None,
        }
    }
}

} // verus!
