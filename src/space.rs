//! Snapshots of spaces as the window manager reports them.
use vstd::prelude::*;

verus! {

/// A space as a mathematical value: what the contracts speak of.
pub struct SpaceModel {
    pub index: u32,
    pub display: u32,
    pub has_focus: bool,
    pub is_visible: bool,
    pub windows: Seq<u32>,
}

impl SpaceModel {
    /// A space is in use when it has focus, is visible, or holds a window.
    pub open spec fn is_active(self) -> bool {
        self.has_focus || self.is_visible || self.windows.len() > 0
    }
}

/// One virtual desktop as reported by the window manager at query time.
///
/// `index` is the space's current position, which the window manager
/// renumbers whenever a space is created or destroyed.
#[derive(Debug)]
pub struct Space {
    pub index: u32,
    pub display: u32,
    pub has_focus: bool,
    pub is_visible: bool,
    pub windows: Vec<u32>,
}

impl View for Space {
    type V = SpaceModel;

    open spec fn view(&self) -> SpaceModel {
        SpaceModel {
            index: self.index,
            display: self.display,
            has_focus: self.has_focus,
            is_visible: self.is_visible,
            windows: self.windows@,
        }
    }
}

/// The models of a sequence of spaces, in the same order.
pub open spec fn models(spaces: Seq<Space>) -> Seq<SpaceModel> {
    spaces.map_values(|s: Space| s@)
}

impl Space {
    pub fn new(
        index: u32,
        display: u32,
        has_focus: bool,
        is_visible: bool,
        windows: Vec<u32>,
    ) -> (r: Space)
        ensures
            r@ == (SpaceModel { index, display, has_focus, is_visible, windows: windows@ }),
    {
        Space { index, display, has_focus, is_visible, windows }
    }

    /// A copy of this snapshot, window list included.
    pub fn copy(&self) -> (r: Space)
        ensures
            r@ == self@,
    {
        let mut windows: Vec<u32> = Vec::new();
        let mut i: usize = 0;
        while i < self.windows.len()
            invariant
                i <= self.windows.len(),
                windows@ == self.windows@.subrange(0, i as int),
            decreases self.windows.len() - i,
        {
            windows.push(self.windows[i]);
            i = i + 1;
            assert(windows@ =~= self.windows@.subrange(0, i as int));
        }
        assert(windows@ =~= self.windows@);
        Space {
            index: self.index,
            display: self.display,
            has_focus: self.has_focus,
            is_visible: self.is_visible,
            windows,
        }
    }
}

/// Whether the space is in use: focused, visible, or holding a window.
pub fn is_active(space: &Space) -> (r: bool)
    ensures
        r == space@.is_active(),
{
    space.has_focus || space.is_visible || space.windows.len() > 0
}

} // verus!
