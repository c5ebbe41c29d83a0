//! Finding, or making, the space for a logical index.
//!
//! The window manager's spaces can change between a query and the next
//! command, so resolution is a loop: query the spaces, let `Resolver::step`
//! decide, carry out what it asks, and query again. The resolver decides;
//! the caller does the querying and the commands.
use vstd::prelude::*;

use crate::reap::MAX_SPACES;
use crate::space::{is_active, models, Space, SpaceModel};

verus! {

/// What to do when the space at the target index exists but is not in use.
#[derive(Debug, Clone, Copy, PartialEq, Eq, Structural)]
pub enum InactivePolicy {
    /// Use the space where it is; focusing it is enough.
    Keep,
    /// Move the space to the focused display first, then look again.
    Relocate,
}

/// The resolver's decision after one query of the spaces.
#[derive(Debug)]
pub enum Step {
    /// This is the space for the target index.
    Ready(Space),
    /// No space has the target index: create one, then query again.
    Create,
    /// Move the space at index `space` to display `display`, then query again.
    MoveToDisplay { space: u32, display: u32 },
    /// The target did not come about within the allowed attempts.
    Exhausted,
}

/// Position of the first space with index `target`, or -1 if there is none.
pub open spec fn first_with_index(spaces: Seq<SpaceModel>, target: u32) -> int
    decreases spaces.len(),
{
    if spaces.len() == 0 {
        -1
    } else {
        let k = first_with_index(spaces.drop_last(), target);
        if k >= 0 {
            k
        } else if spaces.last().index == target {
            spaces.len() - 1
        } else {
            -1
        }
    }
}

/// The display of the first focused space, if any space has focus.
pub open spec fn focused_display(spaces: Seq<SpaceModel>) -> Option<u32>
    decreases spaces.len(),
{
    if spaces.len() == 0 {
        None
    } else {
        match focused_display(spaces.drop_last()) {
            Some(d) => Some(d),
            None => if spaces.last().has_focus {
                Some(spaces.last().display)
            } else {
                None
            },
        }
    }
}

/// Finds the position of the first space with index `target`.
fn find_index(spaces: &Vec<Space>, target: u32) -> (r: Option<usize>)
    ensures
        r matches Some(k) ==> k < spaces.len(),
        first_with_index(models(spaces@), target) == match r {
            Some(k) => k as int,
            None => -1,
        },
{
    let ghost m = models(spaces@);
    let mut i: usize = 0;
    while i < spaces.len()
        invariant
            i <= spaces.len(),
            m == models(spaces@),
            first_with_index(m.subrange(0, i as int), target) == -1,
        decreases spaces.len() - i,
    {
        assert(m.subrange(0, i + 1).drop_last() =~= m.subrange(0, i as int));
        if spaces[i].index == target {
            proof { lemma_first_with_index_prefix(m, target, i as int + 1); }
            return Some(i);
        }
        i = i + 1;
    }
    assert(m.subrange(0, spaces.len() as int) =~= m);
    None
}

/// A position found in a prefix is the position in the whole sequence.
proof fn lemma_first_with_index_prefix(spaces: Seq<SpaceModel>, target: u32, n: int)
    requires
        0 <= n <= spaces.len(),
        first_with_index(spaces.subrange(0, n), target) >= 0,
    ensures
        first_with_index(spaces, target) == first_with_index(spaces.subrange(0, n), target),
    decreases spaces.len() - n,
{
    if n < spaces.len() {
        let longer = spaces.subrange(0, n + 1);
        assert(longer.drop_last() =~= spaces.subrange(0, n));
        lemma_first_with_index_prefix(spaces, target, n + 1);
    } else {
        assert(spaces.subrange(0, n) =~= spaces);
    }
}

/// Finds the display of the first focused space.
fn find_focused_display(spaces: &Vec<Space>) -> (r: Option<u32>)
    ensures
        r == focused_display(models(spaces@)),
{
    let ghost m = models(spaces@);
    let mut i: usize = 0;
    while i < spaces.len()
        invariant
            i <= spaces.len(),
            m == models(spaces@),
            focused_display(m.subrange(0, i as int)) is None,
        decreases spaces.len() - i,
    {
        assert(m.subrange(0, i + 1).drop_last() =~= m.subrange(0, i as int));
        if spaces[i].has_focus {
            proof { lemma_focused_display_prefix(m, i as int + 1); }
            return Some(spaces[i].display);
        }
        i = i + 1;
    }
    assert(m.subrange(0, spaces.len() as int) =~= m);
    None
}

/// A focused display found in a prefix is the one of the whole sequence.
proof fn lemma_focused_display_prefix(spaces: Seq<SpaceModel>, n: int)
    requires
        0 <= n <= spaces.len(),
        focused_display(spaces.subrange(0, n)) is Some,
    ensures
        focused_display(spaces) == focused_display(spaces.subrange(0, n)),
    decreases spaces.len() - n,
{
    if n < spaces.len() {
        let longer = spaces.subrange(0, n + 1);
        assert(longer.drop_last() =~= spaces.subrange(0, n));
        lemma_focused_display_prefix(spaces, n + 1);
    } else {
        assert(spaces.subrange(0, n) =~= spaces);
    }
}

/// The state of one resolution: the target index, the policy for an
/// inactive target, and how many commands it has issued so far.
pub struct Resolver {
    pub target: u32,
    pub policy: InactivePolicy,
    pub attempts: u32,
    pub max_attempts: u32,
}

impl Resolver {
    /// Whether `spaces` already hold the space to use: the first space with
    /// the target index, if it is active, or if the policy keeps it where
    /// it is, or if it already sits on the focused display (or no display
    /// has focus).
    pub open spec fn ready_in(self, spaces: Seq<SpaceModel>) -> bool {
        let k = first_with_index(spaces, self.target);
        &&& k >= 0
        &&& {
            ||| spaces[k].is_active()
            ||| self.policy == InactivePolicy::Keep
            ||| focused_display(spaces) is None
            ||| focused_display(spaces) == Some(spaces[k].display)
        }
    }

    /// A resolution of `target` that may issue up to `MAX_SPACES + 1`
    /// commands before it gives up.
    pub fn new(target: u32, policy: InactivePolicy) -> (r: Resolver)
        ensures
            r.target == target,
            r.policy == policy,
            r.attempts == 0,
            r.max_attempts == MAX_SPACES + 1,
    {
        Resolver { target, policy, attempts: 0, max_attempts: MAX_SPACES + 1 }
    }

    /// Decides, from a fresh query of the spaces, what to do next.
    ///
    /// An active space at the target index is used as it is. An inactive
    /// one is used too, unless the policy is `Relocate` and another display
    /// has focus: then it is moved there first. With no space at the target
    /// index, a new space is created. Each create or move counts as one
    /// attempt; once `max_attempts` are spent, the answer is `Exhausted`.
    pub fn step(&mut self, spaces: &Vec<Space>) -> (r: Step)
        ensures
            final(self).target == old(self).target,
            final(self).policy == old(self).policy,
            final(self).max_attempts == old(self).max_attempts,
            ({
                let m = models(spaces@);
                let k = first_with_index(m, old(self).target);
                if old(self).ready_in(m) {
                    &&& r matches Step::Ready(s) && s@ == m[k]
                    &&& final(self).attempts == old(self).attempts
                } else if old(self).attempts >= old(self).max_attempts {
                    &&& r is Exhausted
                    &&& final(self).attempts == old(self).attempts
                } else {
                    &&& final(self).attempts == old(self).attempts + 1
                    &&& k < 0 ==> r is Create
                    &&& k >= 0 ==> (r matches Step::MoveToDisplay { space, display } && space
                        == old(self).target && Some(display) == focused_display(m))
                }
            }),
    {
        let found = find_index(spaces, self.target);
        let focused = find_focused_display(spaces);
        match found {
            Some(k) => {
                let space = &spaces[k];
                if let Some(d) = focused {
                    if !is_active(space) && self.policy == InactivePolicy::Relocate && d
                        != space.display {
                        if self.attempts >= self.max_attempts {
                            return Step::Exhausted;
                        }
                        self.attempts = self.attempts + 1;
                        return Step::MoveToDisplay { space: self.target, display: d };
                    }
                }
                Step::Ready(space.copy())
            },
            None => {
                if self.attempts >= self.max_attempts {
                    return Step::Exhausted;
                }
                self.attempts = self.attempts + 1;
                Step::Create
            },
        }
    }
}

} // verus!
