//! The progress bar.

use vstd::prelude::*;
use vstd::string::*;
use crate::screen::{Reading, Screen};
use crate::state::{BarView, State};
use crate::style::Style;

verus! {

/// The progress bar.
///
/// Every call takes the screen that all bars share and what the terminal and
/// the clock report at that moment. What a call draws is added to the
/// screen's output, for the caller to write out.
#[derive(Debug)]
pub struct AvanceBar {
    state: State,
}

impl View for AvanceBar {
    type V = BarView;

    closed spec fn view(&self) -> BarView {
        self.state@
    }
}

impl AvanceBar {
    /// With no bound, the counts fit in 64 bits together.
    pub open spec fn wf(&self) -> bool {
        self@.fits(0)
    }

    /// Create a new progress bar with a bound, on the next free row, and
    /// draw it.
    pub fn new(screen: &mut Screen, env: &Reading, total: u64) -> (pb: AvanceBar)
        requires
            old(screen).wf(),
            old(screen)@.live <= u16::MAX,
            old(screen)@.next_id < u64::MAX,
        ensures
            pb@ == BarView::fresh(old(screen)@.next_id, env.now, Some(total)),
            pb.wf(),
            final(screen).wf(),
            !old(screen)@.rows.dom().contains(pb@.id),
            final(screen)@ == pb@.shown(old(screen)@.entered(pb@.id), *env),
    {
        let pb = AvanceBar { state: State::new(screen, env, Some(total)) };
        pb.refresh(screen, env);
        pb
    }

    /// Creates a progress bar from an iterator's size hint, on the next free
    /// row, without drawing it.
    pub fn with_hint(screen: &mut Screen, env: &Reading, size_hint: Option<usize>) -> (pb:
        AvanceBar)
        requires
            old(screen).wf(),
            old(screen)@.live <= u16::MAX,
            old(screen)@.next_id < u64::MAX,
        ensures
            pb@ == BarView::fresh(
                old(screen)@.next_id,
                env.now,
                match size_hint {
                    Some(s) => Some(s as u64),
                    None => None,
                },
            ),
            pb.wf(),
            final(screen).wf(),
            !old(screen)@.rows.dom().contains(pb@.id),
            final(screen)@ == old(screen)@.entered(pb@.id),
    {
        let total = match size_hint {
            Some(s) => Some(s as u64),
            None => None,
        };
        AvanceBar { state: State::new(screen, env, total) }
    }

    /// Build a new progress bar after the looks of another one: its style
    /// and width are kept; the counts start at zero, and bound, description
    /// and postfix are left to be set.
    pub fn with_config_of(pb: &AvanceBar, screen: &mut Screen, env: &Reading) -> (new_pb: AvanceBar)
        requires
            old(screen).wf(),
            old(screen)@.live <= u16::MAX,
            old(screen)@.next_id < u64::MAX,
        ensures
            new_pb@ == pb@.derived(old(screen)@.next_id, env.now),
            new_pb.wf(),
            final(screen).wf(),
            !old(screen)@.rows.dom().contains(new_pb@.id),
            final(screen)@ == new_pb@.shown(old(screen)@.entered(new_pb@.id), *env),
    {
        let new_pb = AvanceBar { state: pb.state.derived(screen, env) };
        new_pb.refresh(screen, env);
        new_pb
    }

    /// Refresh the progress bar.
    pub fn refresh(&self, screen: &mut Screen, env: &Reading)
        requires
            old(screen).wf(),
        ensures
            final(screen)@ == self@.shown(old(screen)@, *env),
            final(screen).positions == old(screen).positions,
            final(screen).wf(),
    {
        self.state.draw(screen, env, None);
    }

    /// Advance the progress bar by n steps.
    pub fn update(&mut self, screen: &mut Screen, env: &Reading, n: u64)
        requires
            old(screen).wf(),
            old(self)@.fits(n),
        ensures
            (final(self)@, final(screen)@) == old(self)@.updated(old(screen)@, *env, n),
            final(self).wf(),
            final(screen).wf(),
            final(screen).positions == old(screen).positions,
    {
        self.state.update(screen, env, n);
    }

    /// Advance the progress bar by one step.
    pub fn inc(&mut self, screen: &mut Screen, env: &Reading)
        requires
            old(screen).wf(),
            old(self)@.fits(1),
        ensures
            (final(self)@, final(screen)@) == old(self)@.updated(old(screen)@, *env, 1),
            final(self).wf(),
            final(screen).wf(),
            final(screen).positions == old(screen).positions,
    {
        self.update(screen, env, 1);
    }

    /// Whether `n` more steps can be taken in: with no bound, the counts
    /// and `n` still fit in 64 bits.
    pub fn fits(&self, n: u64) -> (b: bool)
        ensures
            b == self@.fits(n),
    {
        match self.state.total {
            Some(_) => true,
            None => self.state.n as u128 + self.state.cached as u128 + n as u128 <= u64::MAX as u128,
        }
    }

    /// Set the description (prefix) of a progress bar, and draw the bar.
    pub fn set_desc(&mut self, screen: &mut Screen, env: &Reading, desc: &str)
        requires
            old(screen).wf(),
        ensures
            final(self)@ == (BarView { desc: Some(desc@), ..old(self)@ }),
            final(screen)@ == final(self)@.shown(old(screen)@, *env),
            final(screen).positions == old(screen).positions,
            final(screen).wf(),
    {
        self.state.config.desc = Some(String::from_str(desc));
        self.state.draw(screen, env, None);
    }

    /// Set the postfix of a progress bar, and draw the bar.
    pub fn set_postfix(&mut self, screen: &mut Screen, env: &Reading, postfix: &str)
        requires
            old(screen).wf(),
        ensures
            final(self)@ == (BarView { postfix: Some(postfix@), ..old(self)@ }),
            final(screen)@ == final(self)@.shown(old(screen)@, *env),
            final(screen).positions == old(screen).positions,
            final(screen).wf(),
    {
        self.state.config.postfix = Some(String::from_str(postfix));
        self.state.draw(screen, env, None);
    }

    /// Set a progress bar's width, erase its row and draw the bar.
    pub fn set_width(&mut self, screen: &mut Screen, env: &Reading, width: u16)
        requires
            old(screen).wf(),
        ensures
            final(self)@ == (BarView { width: Some(width), ..old(self)@ }),
            final(screen)@ == final(self)@.shown(
                old(screen)@.wrote(final(self)@.erasure(old(screen)@, *env)),
                *env,
            ),
            final(screen).positions == old(screen).positions,
            final(screen).wf(),
    {
        self.state.config.width = Some(width);
        self.state.clear(screen, env);
        self.state.draw(screen, env, None);
    }

    /// Set the style of a progress bar, and draw the bar.
    pub fn set_style(&mut self, screen: &mut Screen, env: &Reading, style: Style)
        requires
            old(screen).wf(),
        ensures
            final(self)@ == (BarView { style: style, ..old(self)@ }),
            final(screen)@ == final(self)@.shown(old(screen)@, *env),
            final(screen).positions == old(screen).positions,
            final(screen).wf(),
    {
        self.state.config.style = style;
        self.state.draw(screen, env, None);
    }

    /// Set the length of a progress bar, and draw the bar.
    pub fn set_total(&mut self, screen: &mut Screen, env: &Reading, total: u64)
        requires
            old(screen).wf(),
        ensures
            final(self)@ == (BarView { total: Some(total), ..old(self)@ }),
            final(self).wf(),
            final(screen)@ == final(self)@.shown(old(screen)@, *env),
            final(screen).positions == old(screen).positions,
            final(screen).wf(),
    {
        self.state.total = Some(total);
        self.state.draw(screen, env, None);
    }

    /// Builder-like function for a progress bar with description.
    pub fn with_desc(self, screen: &mut Screen, env: &Reading, desc: &str) -> (pb: AvanceBar)
        requires
            old(screen).wf(),
        ensures
            pb@ == (BarView { desc: Some(desc@), ..self@ }),
            final(screen)@ == pb@.shown(old(screen)@, *env),
            final(screen).positions == old(screen).positions,
            final(screen).wf(),
    {
        let mut pb = self;
        pb.set_desc(screen, env, desc);
        pb
    }

    /// Builder-like function for a progress bar with width.
    pub fn with_width(self, screen: &mut Screen, env: &Reading, width: u16) -> (pb: AvanceBar)
        requires
            old(screen).wf(),
        ensures
            pb@ == (BarView { width: Some(width), ..self@ }),
            final(screen)@ == pb@.shown(
                old(screen)@.wrote(pb@.erasure(old(screen)@, *env)),
                *env,
            ),
            final(screen).positions == old(screen).positions,
            final(screen).wf(),
    {
        let mut pb = self;
        pb.set_width(screen, env, width);
        pb
    }

    /// Builder-like function for a progress bar with style.
    pub fn with_style(self, screen: &mut Screen, env: &Reading, style: Style) -> (pb: AvanceBar)
        requires
            old(screen).wf(),
        ensures
            pb@ == (BarView { style: style, ..self@ }),
            final(screen)@ == pb@.shown(old(screen)@, *env),
            final(screen).positions == old(screen).positions,
            final(screen).wf(),
    {
        let mut pb = self;
        pb.set_style(screen, env, style);
        pb
    }

    /// Builder-like function for a progress bar with length.
    pub fn with_total(self, screen: &mut Screen, env: &Reading, total: u64) -> (pb: AvanceBar)
        requires
            old(screen).wf(),
        ensures
            pb@ == (BarView { total: Some(total), ..self@ }),
            pb.wf(),
            final(screen)@ == pb@.shown(old(screen)@, *env),
            final(screen).positions == old(screen).positions,
            final(screen).wf(),
    {
        let mut pb = self;
        pb.set_total(screen, env, total);
        pb
    }

    /// Stop the progress bar: settle it, draw it a last time at the top,
    /// end the line and give up its row. Closing a closed bar does nothing.
    pub fn close(&mut self, screen: &mut Screen, env: &Reading)
        requires
            old(screen).wf(),
            old(self).wf(),
        ensures
            (final(self)@, final(screen)@) == old(self)@.closed(old(screen)@, *env),
            final(self).wf(),
            final(screen).wf(),
    {
        self.state.close(screen, env);
    }

    /// The progress that is committed and shown.
    pub fn n(&self) -> (n: u64)
        ensures
            n == self@.n,
    {
        self.state.n
    }

    /// The identity of the bar.
    pub fn id(&self) -> (id: u64)
        ensures
            id == self@.id,
    {
        self.state.id
    }

    /// Whether the bar still has a row: it has not been closed.
    pub fn is_open(&self, screen: &Screen) -> (b: bool)
        requires
            screen.wf(),
        ensures
            b == screen@.rows.dom().contains(self@.id),
    {
        self.state.try_get_pos(screen).is_some()
    }
}

} // verus!
