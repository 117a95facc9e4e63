//! Window surfaces: their format and size, and what follows from trying to
//! draw on one.

use vstd::prelude::*;

use crate::seqs::{first_at, first_at_is};

verus! {

/// Selects formats without the sRGB transfer curve.
pub open spec fn is_plain() -> spec_fn(bool) -> bool {
    |srgb: bool| !srgb
}

/// The surface format, given which of those on offer are sRGB: the first that is
/// not, or the first of all.
pub open spec fn chosen_format(srgb: Seq<bool>) -> int {
    if first_at(srgb, is_plain()) < srgb.len() {
        first_at(srgb, is_plain())
    } else {
        0
    }
}

/// Picks the surface format, given which of those on offer are sRGB.
pub fn pick_format(srgb: &Vec<bool>) -> (r: usize)
    requires
        srgb@.len() > 0,
    ensures
        r == chosen_format(srgb@),
        r < srgb@.len(),
{
    let mut i: usize = 0;
    while i < srgb.len() && srgb[i]
        invariant
            i <= srgb@.len(),
            forall|j: int| 0 <= j < i ==> #[trigger] srgb@[j],
        decreases srgb@.len() - i,
    {
        i += 1;
    }
    proof {
        first_at_is(srgb@, is_plain(), i as int);
    }
    if i < srgb.len() {
        i
    } else {
        0
    }
}

/// The monitor that the output goes full screen on, by its place among those
/// connected: the one asked for, if it is there; otherwise the first that is
/// not the primary one, or else the primary one.
pub open spec fn chosen_monitor(count: int, primary: Option<usize>, asked: Option<usize>) -> Option<usize> {
    match asked {
        Some(i) => if i < count {
            Some(i)
        } else {
            None
        },
        None => if count > 0 && primary != Some(0usize) {
            Some(0)
        } else if count > 1 {
            Some(1)
        } else {
            primary
        },
    }
}

/// The monitor that the output goes full screen on.
pub fn pick_monitor(count: usize, primary: Option<usize>, asked: Option<usize>) -> (r: Option<usize>)
    ensures
        r == chosen_monitor(count as int, primary, asked),
{
    match asked {
        Some(i) => if i < count {
            Some(i)
        } else {
            None
        },
        None => {
            let mut i: usize = 0;
            while i < count
                invariant
                    i <= count,
                    asked is None,
                    i > 0 ==> primary == Some(0usize),
                    i <= 1,
                decreases count - i,
            {
                let is_primary = match primary {
                    Some(p) => p == i,
                    None => false,
                };
                if !is_primary {
                    return Some(i);
                }
                i += 1;
            }
            primary
        },
    }
}

/// The size of a surface in pixels.
#[derive(Clone, Copy, Debug, PartialEq, Eq, Structural)]
pub struct SurfaceSize {
    pub width: u32,
    pub height: u32,
}

/// `x`, one at least.
pub open spec fn at_least_one(x: u32) -> u32 {
    if x == 0 {
        1
    } else {
        x
    }
}

impl SurfaceSize {
    /// A surface has an area.
    pub open spec fn wf(self) -> bool {
        self.width > 0 && self.height > 0
    }

    /// The size of a new surface: one pixel each way at least.
    pub fn new(width: u32, height: u32) -> (r: SurfaceSize)
        ensures
            r == (SurfaceSize { width: at_least_one(width), height: at_least_one(height) }),
            r.wf(),
    {
        SurfaceSize {
            width: if width == 0 {
                1
            } else {
                width
            },
            height: if height == 0 {
                1
            } else {
                height
            },
        }
    }

    /// The size after a window took another one; a size without an area is ignored.
    pub open spec fn resized(self, width: u32, height: u32) -> SurfaceSize {
        if width > 0 && height > 0 {
            SurfaceSize { width, height }
        } else {
            self
        }
    }

    /// Takes over a window's size and tells whether the surface has to be
    /// configured again. A size without an area is ignored.
    pub fn resize(&mut self, width: u32, height: u32) -> (r: bool)
        ensures
            r == (width > 0 && height > 0),
            *final(self) == old(self).resized(width, height),
            old(self).wf() ==> final(self).wf(),
    {
        if width > 0 && height > 0 {
            self.width = width;
            self.height = height;
            true
        } else {
            false
        }
    }
}

/// What asking a surface for its next picture came to.
#[derive(Clone, Copy, Debug, PartialEq, Eq, Structural)]
pub enum SurfaceStatus {
    Success,
    Suboptimal,
    Outdated,
    Lost,
    Timeout,
    Occluded,
    Validation,
}

/// What to do then.
#[derive(Clone, Copy, Debug, PartialEq, Eq, Structural)]
pub enum SurfaceAction {
    Draw,
    /// Configure the surface again and skip this frame.
    Reconfigure,
    Skip,
    /// Skip this frame and report an error.
    Report,
}

/// What to do with a surface's answer.
pub open spec fn action_on(status: SurfaceStatus) -> SurfaceAction {
    match status {
        SurfaceStatus::Success | SurfaceStatus::Suboptimal => SurfaceAction::Draw,
        SurfaceStatus::Outdated | SurfaceStatus::Lost => SurfaceAction::Reconfigure,
        SurfaceStatus::Timeout | SurfaceStatus::Occluded => SurfaceAction::Skip,
        SurfaceStatus::Validation => SurfaceAction::Report,
    }
}

/// What to do with a surface's answer.
pub fn acquire(status: SurfaceStatus) -> (r: SurfaceAction)
    ensures
        r == action_on(status),
{
    match status {
        SurfaceStatus::Success | SurfaceStatus::Suboptimal => SurfaceAction::Draw,
        SurfaceStatus::Outdated | SurfaceStatus::Lost => SurfaceAction::Reconfigure,
        SurfaceStatus::Timeout | SurfaceStatus::Occluded => SurfaceAction::Skip,
        SurfaceStatus::Validation => SurfaceAction::Report,
    }
}

/// What the loop does after a tick.
#[derive(Clone, Copy, Debug, PartialEq, Eq, Structural)]
pub struct RedrawPlan {
    pub output: bool,
    pub control: bool,
    /// Whether to sleep for a frame: nothing else paces the loop while both
    /// windows are hidden.
    pub rest: bool,
}

/// Which windows are drawn again: a hidden one is not, since no picture would
/// ever come back from it.
pub open spec fn redrawn(output_occluded: bool, control_occluded: bool) -> RedrawPlan {
    RedrawPlan {
        output: !output_occluded,
        control: !control_occluded,
        rest: output_occluded && control_occluded,
    }
}

/// Which windows are drawn again.
pub fn redraw(output_occluded: bool, control_occluded: bool) -> (r: RedrawPlan)
    ensures
        r == redrawn(output_occluded, control_occluded),
{
    RedrawPlan {
        output: !output_occluded,
        control: !control_occluded,
        rest: output_occluded && control_occluded,
    }
}

} // verus!
