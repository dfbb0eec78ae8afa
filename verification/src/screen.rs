//! What all bars share: the row registry, the cap on visible rows, and the
//! bytes waiting to be written to the terminal.

use vstd::prelude::*;
use crate::registry::{allocated, dense, Registry};

verus! {

/// What the terminal and the clock report at the moment of a call.
#[derive(Clone, Copy, Debug)]
pub struct Reading {
    /// Whether the output stream is an interactive terminal.
    pub tty: bool,
    /// Columns and rows of the terminal, where it tells them.
    pub size: Option<(u16, u16)>,
    /// Nanoseconds on a clock that never runs backwards.
    pub now: u64,
}

/// The state all bars share.
pub struct Screen {
    /// Which bar is on which row.
    pub positions: Registry,
    /// The number of bars that may be shown in full, where one was set.
    pub max_bars: Option<u16>,
    /// What has been drawn and not yet been taken out to be written.
    pub output: String,
}

/// The shared state as plain values.
pub struct ScreenView {
    pub rows: Map<u64, u16>,
    pub live: nat,
    pub next_id: u64,
    pub max_bars: Option<u16>,
    pub output: Seq<char>,
}

impl View for Screen {
    type V = ScreenView;

    open spec fn view(&self) -> ScreenView {
        ScreenView {
            rows: self.positions@,
            live: self.positions.live(),
            next_id: self.positions.next_id(),
            max_bars: self.max_bars,
            output: self.output@,
        }
    }
}

impl ScreenView {
    /// The rows are a permutation of `0 .. live` and only identities below
    /// `next_id` are in use.
    pub open spec fn wf(self) -> bool {
        &&& dense(self.rows, self.live)
        &&& forall|id: u64| #[trigger] self.rows.dom().contains(id) ==> id < self.next_id
    }

    /// This state with the bar `id` entered on the row after the last one.
    pub open spec fn entered(self, id: u64) -> ScreenView {
        ScreenView {
            rows: allocated(self.rows, self.live, id),
            live: self.live + 1,
            next_id: (id + 1) as u64,
            ..self
        }
    }

    /// This state with `text` added to what waits to be written.
    pub open spec fn wrote(self, text: Seq<char>) -> ScreenView {
        ScreenView { output: self.output + text, ..self }
    }
}

/// The size to go by: the terminal's own, or 80 columns and 64 rows where
/// it tells none.
pub open spec fn spec_terminal_size(size: Option<(u16, u16)>) -> (u16, u16) {
    match size {
        Some(s) => s,
        None => (80u16, 64u16),
    }
}

/// The number of rows bars may be drawn on: the height of the terminal, and
/// where a number of bars was set, no more than one row above that number,
/// and no more than two rows when that number is 0.
pub open spec fn visible_rows(max_bars: Option<u16>, height: u16) -> u16 {
    match max_bars {
        Some(k) => {
            let cap: int = if k + 1 > 2 {
                k + 1
            } else {
                2
            };
            if cap < height {
                cap as u16
            } else {
                height
            }
        },
        None => height,
    }
}

/// The size to go by: the terminal's own, or 80 columns and 64 rows where
/// it tells none.
pub fn terminal_size(size: Option<(u16, u16)>) -> (s: (u16, u16))
    ensures
        s == spec_terminal_size(size),
{
    match size {
        Some(s) => s,
        None => (80, 64),
    }
}

/// Sets how many bars may be shown in full. One more row is kept for the
/// line that says that bars are hidden.
pub fn set_max_progress_bars(screen: &mut Screen, nbars: u16)
    ensures
        final(screen)@ == (ScreenView { max_bars: Some(nbars), ..old(screen)@ }),
        final(screen).positions == old(screen).positions,
        final(screen).output == old(screen).output,
{
    screen.max_bars = Some(nbars);
}

/// The number of rows bars may be drawn on.
pub fn nrows(screen: &Screen, env: &Reading) -> (n: u16)
    ensures
        n == visible_rows(screen.max_bars, spec_terminal_size(env.size).1),
{
    let height = terminal_size(env.size).1;
    match screen.max_bars {
        Some(k) => {
            let cap: u32 = if k as u32 + 1 > 2 {
                k as u32 + 1
            } else {
                2
            };
            if cap < height as u32 {
                cap as u16
            } else {
                height
            }
        },
        None => height,
    }
}

impl Screen {
    /// The registry is well-formed.
    pub open spec fn wf(&self) -> bool {
        self.positions.wf()
    }

    /// A screen without bars, without a cap, with nothing to write.
    pub fn new() -> (s: Screen)
        ensures
            s.wf(),
            s@ == (ScreenView {
                rows: Map::<u64, u16>::empty(),
                live: 0,
                next_id: 0,
                max_bars: None,
                output: Seq::<char>::empty(),
            }),
    {
        Screen { positions: Registry::new(), max_bars: None, output: String::new() }
    }

    /// Whether one more bar can be entered: a row and an identity are left.
    pub fn has_room(&self) -> (b: bool)
        ensures
            b == (self@.live <= u16::MAX && self@.next_id < u64::MAX),
    {
        self.positions.has_room()
    }

    /// Hands out what waits to be written, and forgets it.
    pub fn take_output(&mut self) -> (text: String)
        ensures
            text@ == old(self).output@,
            final(self)@ == (ScreenView { output: Seq::<char>::empty(), ..old(self)@ }),
            final(self).positions == old(self).positions,
    {
        let mut text = String::new();
        std::mem::swap(&mut self.output, &mut text);
        text
    }

    /// Row uniqueness and density hold of every well-formed screen: the
    /// rows of its live bars are a permutation of `0 .. live`, whatever calls
    /// made it, and no identity in use is still to be handed out.
    pub proof fn lemma_wf_view(&self)
        requires
            self.wf(),
        ensures
            self@.wf(),
            self@.live <= u16::MAX + 1,
    {
        self.positions.lemma_wf_view();
    }
}

} // verus!
