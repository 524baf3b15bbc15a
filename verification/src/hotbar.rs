use vstd::prelude::*;

verus! {

/// Number of hotbar slots.
pub const HOTBAR_SLOTS: usize = 9;

/// Which hotbar slot is selected.
pub struct HotbarSelection {
    pub selected: usize,
}

/// Scroll-wheel movement in one frame, already sorted by its sign.
#[derive(Clone, Copy, PartialEq, Eq, Structural, Debug)]
pub enum ScrollDirection {
    /// Wheel moved up: select the previous slot.
    Up,
    /// Wheel moved down: select the next slot.
    Down,
    /// Wheel did not move enough to count.
    Still,
}

impl Default for HotbarSelection {
    /// The first hotbar slot is selected.
    fn default() -> (h: HotbarSelection)
        ensures
            h.selected == 0,
    {
        HotbarSelection { selected: 0 }
    }
}

/// The slot selected after restoring a saved selection: the saved slot,
/// limited to the last one.
pub open spec fn spec_restored(saved: usize) -> usize {
    if saved < 8 { saved } else { 8 }
}

impl HotbarSelection {
    /// The selection names a hotbar slot.
    pub open spec fn wf(&self) -> bool {
        self.selected < HOTBAR_SLOTS
    }

    /// Selection restored from a save file: values past the last slot select
    /// the last slot.
    pub fn restore(saved: usize) -> (h: HotbarSelection)
        ensures
            h.wf(),
            h.selected == spec_restored(saved),
    {
        HotbarSelection { selected: if saved < 8 { saved } else { 8 } }
    }

    /// Apply one frame of input: a pressed number key (0 for key 1, up to 8
    /// for key 9) selects that slot; otherwise the wheel moves the selection
    /// one slot back (up) or forward (down), wrapping around.
    pub fn apply_input(&mut self, digit: Option<usize>, scroll: ScrollDirection)
        requires
            old(self).wf(),
            digit matches Some(d) ==> d < HOTBAR_SLOTS,
        ensures
            final(self).wf(),
            digit matches Some(d) ==> final(self).selected == d,
            digit is None && scroll == ScrollDirection::Up ==> final(self).selected == (old(self).selected + 8) % 9,
            digit is None && scroll == ScrollDirection::Down ==> final(self).selected == (old(self).selected + 1) % 9,
            digit is None && scroll == ScrollDirection::Still ==> final(self).selected == old(self).selected,
    {
        if let Some(d) = digit {
            self.selected = d;
            return;
        }
        match scroll {
            ScrollDirection::Up => {
                self.selected = (self.selected + 8) % 9;
            },
            ScrollDirection::Down => {
                self.selected = (self.selected + 1) % 9;
            },
            ScrollDirection::Still => {},
        }
    }
}

/// Saving a selection and restoring it gives the same slot.
pub proof fn lemma_restore_saved(selected: usize)
    requires
        selected < HOTBAR_SLOTS,
    ensures
        spec_restored(selected) == selected,
{
}

/// Scrolling down and then up returns to the same slot.
pub proof fn lemma_scroll_down_up(selected: usize)
    requires
        selected < HOTBAR_SLOTS,
    ensures
        ((selected + 1) % 9 + 8) % 9 == selected,
{
}

} // verus!
