//! The state of a running presentation and its transitions.

use vstd::prelude::*;
use crate::document::Slide;

verus! {

/// Time between two console refreshes, in microseconds.
pub const REFRESH_PERIOD: i64 = 1_000_000;

/// What the console should show on a refresh: the current slide, and the
/// following one when the preview is on and there is one.
#[derive(Clone, Copy, Debug, PartialEq, Eq, Structural)]
pub struct Refresh {
    pub current: usize,
    pub next: Option<usize>,
}

/// A deck being shown: the current slide, the console refresh timer and the
/// display toggles.
pub struct Presentation {
    pub slides: Vec<Slide>,
    pub current_index: usize,
    /// Microseconds until the console is refreshed; at or below zero it is due.
    pub preview_timer: i64,
    /// Whether the console also shows the slide after the current one.
    pub preview_enabled: bool,
    /// Whether the slide number is drawn on the slide.
    pub numbering_enabled: bool,
}

/// The current index after one move forward in a deck of `n` slides.
pub open spec fn advanced(i: int, n: int) -> int {
    if i + 1 < n {
        i + 1
    } else {
        i
    }
}

/// The current index after one move back.
pub open spec fn retreated(i: int) -> int {
    if i > 0 {
        i - 1
    } else {
        i
    }
}

/// The current index after `k` moves forward.
pub open spec fn advanced_times(i: int, n: int, k: nat) -> int
    decreases k,
{
    if k == 0 {
        i
    } else {
        advanced_times(advanced(i, n), n, (k - 1) as nat)
    }
}

/// The current index after `k` moves back.
pub open spec fn retreated_times(i: int, k: nat) -> int
    decreases k,
{
    if k == 0 {
        i
    } else {
        retreated_times(retreated(i), (k - 1) as nat)
    }
}

/// Moving back from the first slide, any number of times, stays on the
/// first slide; moving forward from the last, any number of times, stays on
/// the last.
pub proof fn lemma_navigation_clamp(n: int, k: nat)
    requires
        n >= 1,
    ensures
        retreated_times(0, k) == 0,
        advanced_times(n - 1, n, k) == n - 1,
    decreases k,
{
    if k > 0 {
        lemma_navigation_clamp(n, (k - 1) as nat);
    }
}

impl Presentation {
    /// The current index lies in the deck (or is 0 for an empty deck), and the
    /// timer lies between 0 and one refresh period.
    pub open spec fn wf(&self) -> bool {
        &&& (self.current_index < self.slides@.len() || self.current_index == 0)
        &&& 0 <= self.preview_timer <= REFRESH_PERIOD
    }

    /// The first slide of `slides`, with a console refresh due at once.
    pub fn new(slides: Vec<Slide>, preview_enabled: bool, numbering_enabled: bool) -> (r: Presentation)
        ensures
            r.wf(),
            r.slides@ == slides@,
            r.current_index == 0,
            r.preview_timer == 0,
            r.preview_enabled == preview_enabled,
            r.numbering_enabled == numbering_enabled,
    {
        Presentation { slides, current_index: 0, preview_timer: 0, preview_enabled, numbering_enabled }
    }

    /// Moves to the next slide, if there is one, and makes a console refresh
    /// due; on the last slide it does nothing.
    pub fn next_slide(&mut self)
        requires
            old(self).wf(),
        ensures
            final(self).wf(),
            final(self).slides@ == old(self).slides@,
            final(self).preview_enabled == old(self).preview_enabled,
            final(self).numbering_enabled == old(self).numbering_enabled,
            final(self).current_index == advanced(
                old(self).current_index as int,
                old(self).slides@.len() as int,
            ),
            old(self).current_index + 1 < old(self).slides@.len() ==> {
                &&& final(self).current_index == old(self).current_index + 1
                &&& final(self).preview_timer == 0
            },
            old(self).current_index + 1 >= old(self).slides@.len() ==> *final(self) == *old(self),
            old(self).current_index + 1 == old(self).slides@.len() ==> final(self).current_index
                == old(self).current_index,
    {
        let n = self.slides.len();
        if self.current_index < n && self.current_index + 1 < n {
            self.current_index += 1;
            self.preview_timer = 0;
        }
    }

    /// Moves to the previous slide, if there is one, and makes a console
    /// refresh due; on the first slide it does nothing.
    pub fn previous_slide(&mut self)
        requires
            old(self).wf(),
        ensures
            final(self).wf(),
            final(self).slides@ == old(self).slides@,
            final(self).preview_enabled == old(self).preview_enabled,
            final(self).numbering_enabled == old(self).numbering_enabled,
            final(self).current_index == retreated(old(self).current_index as int),
            old(self).current_index > 0 ==> {
                &&& final(self).current_index == old(self).current_index - 1
                &&& final(self).preview_timer == 0
            },
            old(self).current_index == 0 ==> *final(self) == *old(self),
            old(self).current_index == 0 ==> final(self).current_index == 0,
    {
        if self.current_index > 0 {
            self.current_index -= 1;
            self.preview_timer = 0;
        }
    }

    /// The slide being shown, or `None` for an empty deck.
    pub fn current_slide(&self) -> (r: Option<&Slide>)
        requires
            self.wf(),
        ensures
            self.slides@.len() == 0 <==> r is None,
            r matches Some(s) ==> *s == self.slides@[self.current_index as int],
    {
        if self.current_index < self.slides.len() {
            Some(&self.slides[self.current_index])
        } else {
            None
        }
    }

    /// Lets `dt` microseconds pass. When the timer runs out and there is a
    /// slide, a console refresh is due: it is returned and the timer starts a
    /// new period. With no slide the timer stays at zero.
    pub fn tick(&mut self, dt: u32) -> (r: Option<Refresh>)
        requires
            old(self).wf(),
        ensures
            final(self).wf(),
            final(self).slides@ == old(self).slides@,
            final(self).current_index == old(self).current_index,
            final(self).preview_enabled == old(self).preview_enabled,
            final(self).numbering_enabled == old(self).numbering_enabled,
            old(self).preview_timer - dt > 0 ==> {
                &&& r is None
                &&& final(self).preview_timer == old(self).preview_timer - dt
            },
            old(self).preview_timer - dt <= 0 && old(self).slides@.len() == 0 ==> {
                &&& r is None
                &&& final(self).preview_timer == 0
            },
            old(self).preview_timer - dt <= 0 && old(self).slides@.len() > 0 ==> {
                &&& final(self).preview_timer == REFRESH_PERIOD
                &&& r == Some(
                    Refresh {
                        current: old(self).current_index,
                        next: if old(self).preview_enabled && old(self).current_index + 1
                            < old(self).slides@.len() {
                            Some((old(self).current_index + 1) as usize)
                        } else {
                            None
                        },
                    },
                )
            },
    {
        let t = self.preview_timer - dt as i64;
        if t > 0 {
            self.preview_timer = t;
            None
        } else if self.slides.len() == 0 {
            self.preview_timer = 0;
            None
        } else {
            self.preview_timer = REFRESH_PERIOD;
            let next = if self.preview_enabled && self.current_index + 1 < self.slides.len() {
                Some(self.current_index + 1)
            } else {
                None
            };
            Some(Refresh { current: self.current_index, next })
        }
    }

    /// Turns the preview of the next slide on or off, and makes a console
    /// refresh due so that the change shows at once.
    pub fn toggle_preview(&mut self)
        requires
            old(self).wf(),
        ensures
            final(self).wf(),
            final(self).slides@ == old(self).slides@,
            final(self).current_index == old(self).current_index,
            final(self).preview_enabled == !old(self).preview_enabled,
            final(self).numbering_enabled == old(self).numbering_enabled,
            final(self).preview_timer == 0,
    {
        self.preview_enabled = !self.preview_enabled;
        self.preview_timer = 0;
    }

    /// Turns the slide number on or off.
    pub fn toggle_numbering(&mut self)
        requires
            old(self).wf(),
        ensures
            final(self).wf(),
            final(self).slides@ == old(self).slides@,
            final(self).current_index == old(self).current_index,
            final(self).preview_enabled == old(self).preview_enabled,
            final(self).numbering_enabled == !old(self).numbering_enabled,
            final(self).preview_timer == old(self).preview_timer,
    {
        self.numbering_enabled = !self.numbering_enabled;
    }
}

} // verus!
