//! The integer side of walking a clipping hull: which node a step may
//! visit, and what the leaves reached by a sweep say about it. The plane
//! tests that choose between the children of a node are floating-point
//! work done by the caller.

use vstd::prelude::*;
use crate::types::{ClipNode, CONTENTS_EMPTY, CONTENTS_SOLID};

verus! {

/// Why a node of a hull cannot be visited.
#[derive(Clone, Copy, Debug, PartialEq, Eq)]
pub enum HullError {
    /// The node number lies outside the nodes of the model being walked.
    BadNodeNumber,
    /// The node number lies within the model's nodes but past the end of
    /// the clipping-node lump.
    MissingNode,
}

/// The result of visiting node `num` of a model whose hull nodes are
/// `first..=last`.
pub open spec fn spec_hull_node(clip_nodes: Seq<ClipNode>, first: i32, last: i32, num: i32) -> Result<
    ClipNode,
    HullError,
> {
    if num < first || num > last {
        Err(HullError::BadNodeNumber)
    } else if num >= clip_nodes.len() {
        Err(HullError::MissingNode)
    } else {
        Ok(clip_nodes[num as int])
    }
}

/// Visits node `num` (not a leaf) of a model whose hull nodes are
/// `first..=last`: the node itself, or why it cannot be visited.
pub fn hull_node(clip_nodes: &Vec<ClipNode>, first: i32, last: i32, num: i32) -> (r: Result<
    ClipNode,
    HullError,
>)
    requires
        num >= 0,
    ensures
        r == spec_hull_node(clip_nodes@, first, last, num),
{
    if num < first || num > last {
        return Err(HullError::BadNodeNumber);
    }
    let n = num as usize;
    if n >= clip_nodes.len() {
        return Err(HullError::MissingNode);
    }
    Ok(clip_nodes[n])
}

/// What a sweep has met so far.
#[derive(Clone, Copy, Debug, PartialEq, Eq)]
pub struct SweepState {
    /// Every leaf met so far was solid.
    pub all_solid: bool,
    /// The sweep met a solid leaf.
    pub starts_solid: bool,
    /// The sweep met an empty leaf.
    pub in_open: bool,
    /// The sweep met a leaf of liquid (or other non-solid, non-empty
    /// contents).
    pub in_water: bool,
}

/// The state of a sweep after it meets a leaf of contents `contents`.
pub open spec fn spec_reach_leaf(s: SweepState, contents: i32) -> SweepState {
    if contents != CONTENTS_SOLID {
        SweepState {
            all_solid: false,
            in_open: s.in_open || contents == CONTENTS_EMPTY,
            in_water: s.in_water || contents != CONTENTS_EMPTY,
            ..s
        }
    } else {
        SweepState { starts_solid: true, ..s }
    }
}

impl SweepState {
    /// A sweep that has met nothing yet: all solid until a leaf says
    /// otherwise.
    pub fn new() -> (r: SweepState)
        ensures
            r == (SweepState { all_solid: true, starts_solid: false, in_open: false, in_water: false }),
    {
        SweepState { all_solid: true, starts_solid: false, in_open: false, in_water: false }
    }

    /// Records a leaf of contents `contents` met by the sweep.
    pub fn reach_leaf(&mut self, contents: i32)
        ensures
            *final(self) == spec_reach_leaf(*old(self), contents),
    {
        if contents != CONTENTS_SOLID {
            self.all_solid = false;
            if contents == CONTENTS_EMPTY {
                self.in_open = true;
            } else {
                self.in_water = true;
            }
        } else {
            self.starts_solid = true;
        }
    }

    /// Ends the sweep: one that met only solid leaves starts in a solid.
    /// Returns whether the sweep starts in a solid (it then goes nowhere).
    pub fn finish(&mut self) -> (r: bool)
        ensures
            *final(self) == (SweepState {
                starts_solid: old(self).starts_solid || old(self).all_solid,
                ..*old(self)
            }),
            r == final(self).starts_solid,
    {
        if self.all_solid {
            self.starts_solid = true;
        }
        self.starts_solid
    }
}

/// Meeting leaves only ever adds to what a sweep has seen: a sweep that is
/// no longer all-solid stays so, and one that met a solid, an empty or a
/// liquid leaf keeps that mark.
pub proof fn lemma_sweep_monotone(s: SweepState, contents: i32)
    ensures
        ({
            let t = spec_reach_leaf(s, contents);
            &&& !s.all_solid ==> !t.all_solid
            &&& s.starts_solid ==> t.starts_solid
            &&& s.in_open ==> t.in_open
            &&& s.in_water ==> t.in_water
        }),
{
}

} // verus!
