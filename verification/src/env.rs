//! Environment frames: a mutable mapping from symbol to value plus an
//! optional parent frame, forming a lexical scope chain.
//!
//! Frames live in an arena (a vector owned by the evaluator) and refer to
//! each other by index; a closure captures its defining frame as such an
//! index. The captured frame is thereby shared and live, not a copy:
//! bindings added to it later are visible through the closure.

use vstd::prelude::*;

verus! {

use crate::ast::{Expr, ExprV};

/// One lexical scope: its own bindings and an optional parent.
///
/// `bindings` is append-only; the latest entry for a name shadows earlier
/// ones, so `set` inserts or overwrites as observed through `get`.
#[derive(Debug)]
pub struct Frame {
    pub bindings: Vec<(String, Expr)>,
    pub parent: Option<usize>,
}

/// The mathematical value of a frame: the binding entries in the order they
/// were written, and the parent index.
#[verifier::ext_equal]
pub struct FrameV {
    pub bindings: Seq<(Seq<char>, ExprV)>,
    pub parent: Option<int>,
}

impl View for Frame {
    type V = FrameV;

    open spec fn view(&self) -> FrameV {
        FrameV {
            bindings: self.bindings@.map_values(|p: (String, Expr)| (p.0@, p.1@)),
            parent: match self.parent {
                Some(p) => Some(p as int),
                None => None,
            },
        }
    }
}

/// The value bound to `name` among `entries`, the latest entry winning, or
/// `None` if no entry has that name.
pub open spec fn lookup_frame(entries: Seq<(Seq<char>, ExprV)>, name: Seq<char>) -> Option<ExprV>
    decreases entries.len(),
{
    if entries.len() == 0 {
        None
    } else if entries.last().0 == name {
        Some(entries.last().1)
    } else {
        lookup_frame(entries.drop_last(), name)
    }
}

/// The value bound to `name` in frame `i` of `frames` or, failing that, in
/// its parent chain; `None` when the chain is exhausted. A parent index
/// that is out of place (not below its child's) ends the walk.
pub open spec fn lookup_chain(frames: Seq<FrameV>, i: int, name: Seq<char>) -> Option<ExprV>
    decreases i,
{
    if 0 <= i < frames.len() {
        match lookup_frame(frames[i].bindings, name) {
            Some(v) => Some(v),
            None => match frames[i].parent {
                Some(p) => if 0 <= p < i {
                    lookup_chain(frames, p, name)
                } else {
                    None
                },
                None => None,
            },
        }
    } else {
        None
    }
}

impl Frame {
    /// An empty frame with no parent: the global frame.
    pub fn new() -> (f: Frame)
        ensures
            f@ == (FrameV { bindings: Seq::<(Seq<char>, ExprV)>::empty(), parent: None::<int> }),
    {
        let f = Frame { bindings: Vec::new(), parent: None };
        proof {
            assert(f@.bindings =~= Seq::<(Seq<char>, ExprV)>::empty());
        }
        f
    }

    /// An empty frame whose parent is the frame at index `p`.
    pub fn with_parent(p: usize) -> (f: Frame)
        ensures
            f@ == (FrameV { bindings: Seq::<(Seq<char>, ExprV)>::empty(), parent: Some(p as int) }),
    {
        let f = Frame { bindings: Vec::new(), parent: Some(p) };
        proof {
            assert(f@.bindings =~= Seq::<(Seq<char>, ExprV)>::empty());
        }
        f
    }

    /// The value bound to `name` in this frame alone; parents are walked by
    /// the evaluator, which owns the arena.
    pub fn get(&self, name: &String) -> (r: Option<&Expr>)
        ensures
            match lookup_frame(self@.bindings, name@) {
                Some(v) => r matches Some(e) && e@ == v,
                None => r is None,
            },
    {
        let n = self.bindings.len();
        let mut i: usize = n;
        proof {
            assert(self@.bindings.take(n as int) =~= self@.bindings);
        }
        while i > 0
            invariant
                i <= n,
                n == self.bindings.len(),
                lookup_frame(self@.bindings, name@) == lookup_frame(
                    self@.bindings.take(i as int),
                    name@,
                ),
            decreases i,
        {
            i = i - 1;
            proof {
                assert(self@.bindings.take(i + 1).last() == self@.bindings[i as int]);
                assert(self@.bindings.take(i + 1).drop_last() =~= self@.bindings.take(i as int));
            }
            if self.bindings[i].0 == *name {
                return Some(&self.bindings[i].1);
            }
        }
        proof {
            assert(self@.bindings.take(0) =~= Seq::<(Seq<char>, ExprV)>::empty());
        }
        None
    }

    /// Inserts or overwrites the binding of `name` in this frame only; a
    /// parent's binding is shadowed, never changed.
    pub fn set(&mut self, name: String, value: Expr)
        ensures
            final(self)@ == (FrameV {
                bindings: old(self)@.bindings.push((name@, value@)),
                parent: old(self)@.parent,
            }),
    {
        let ghost before = self@;
        let ghost entry = (name@, value@);
        self.bindings.push((name, value));
        proof {
            assert(self@.bindings =~= before.bindings.push(entry));
        }
    }
}

} // verus!
