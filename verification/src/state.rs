//! One bar's state: its counts, its times and its looks, and what each call
//! makes of them.

use vstd::prelude::*;
use vstd::string::*;
use crate::cursor::{clear_frame, draw_frame, queue_clear, queue_draw};
use crate::registry::released;
use crate::render::{
    bounded_line, bounded_text, fit, fitted, opt_text, unbounded_line, unbounded_text,
};
use crate::screen::{nrows, spec_terminal_size, terminal_size, visible_rows, Reading, Screen, ScreenView};
use crate::style::Style;

verus! {

/// The time between two redraws that progress alone brings about: a
/// fifteenth of a second, in nanoseconds.
pub const INTERVAL: u64 = 66_666_667;

/// How a bar is displayed.
#[derive(Debug)]
pub struct Config {
    pub style: Style,
    pub width: Option<u16>,
    pub desc: Option<String>,
    pub postfix: Option<String>,
}

impl Config {
    /// The default looks: the default style, as wide as the terminal, no
    /// description and no postfix.
    pub fn new() -> (c: Config)
        ensures
            c.style == Style::ASCII,
            c.width is None,
            c.desc is None,
            c.postfix is None,
    {
        Config { style: Style::default(), desc: None, width: None, postfix: None }
    }
}

/// The state of one bar.
#[derive(Debug)]
pub struct State {
    pub config: Config,
    /// When the bar was made.
    pub begin: u64,
    /// When progress was last committed.
    pub last: u64,
    /// The least time between two redraws that progress alone brings about.
    pub interval: u64,
    pub id: u64,
    /// The progress that is committed and shown.
    pub n: u64,
    /// The progress that has come in since.
    pub cached: u64,
    /// The bound, where there is one.
    pub total: Option<u64>,
}

/// A bar's state as plain values.
pub struct BarView {
    pub style: Style,
    pub width: Option<u16>,
    pub desc: Option<Seq<char>>,
    pub postfix: Option<Seq<char>>,
    pub begin: u64,
    pub last: u64,
    pub interval: u64,
    pub id: u64,
    pub n: u64,
    pub cached: u64,
    pub total: Option<u64>,
}

impl View for State {
    type V = BarView;

    open spec fn view(&self) -> BarView {
        BarView {
            style: self.config.style,
            width: self.config.width,
            desc: opt_text(self.config.desc),
            postfix: opt_text(self.config.postfix),
            begin: self.begin,
            last: self.last,
            interval: self.interval,
            id: self.id,
            n: self.n,
            cached: self.cached,
            total: self.total,
        }
    }
}

/// The time from `earlier` to `later`, and 0 where they are the other way round.
pub open spec fn since(later: u64, earlier: u64) -> u64 {
    if later >= earlier {
        (later - earlier) as u64
    } else {
        0
    }
}

/// The line shown in place of a bar on the last visible row while more bars
/// follow below it.
pub open spec fn marker() -> Seq<char> {
    "... (more hidden) ..."@
}

impl BarView {
    /// A bar as it is made: nothing done, nothing buffered, the default looks.
    pub open spec fn fresh(id: u64, now: u64, total: Option<u64>) -> BarView {
        BarView {
            style: Style::ASCII,
            width: None,
            desc: None,
            postfix: None,
            begin: now,
            last: now,
            interval: INTERVAL,
            id,
            n: 0,
            cached: 0,
            total,
        }
    }

    /// A bar made after the looks of this one: its style and width, and
    /// nothing else of it.
    pub open spec fn derived(self, id: u64, now: u64) -> BarView {
        BarView { style: self.style, width: self.width, ..BarView::fresh(id, now, None) }
    }

    /// With no bound, the counts and `delta` more still fit in 64 bits.
    pub open spec fn fits(self, delta: u64) -> bool {
        self.total is None ==> self.n + self.cached + delta <= u64::MAX
    }

    /// The bound is set and is reached once `delta` more has come in.
    pub open spec fn forced(self, delta: u64) -> bool {
        self.total matches Some(t) && self.n + self.cached + delta >= t
    }

    /// The interval has passed since progress was last committed.
    pub open spec fn due(self, now: u64) -> bool {
        since(now, self.last) >= self.interval
    }

    /// Whether `delta` more progress at `now` redraws the bar.
    pub open spec fn redraws(self, now: u64, delta: u64) -> bool {
        self.forced(delta) || self.due(now)
    }

    /// The state after all that is buffered has been committed at `now`,
    /// cut off at the bound.
    pub open spec fn committed(self, now: u64) -> BarView {
        BarView {
            n: match self.total {
                Some(t) if self.n + self.cached >= t => t,
                _ => (self.n + self.cached) as u64,
            },
            cached: 0,
            last: now,
            ..self
        }
    }

    /// The state after `delta` more progress at `now`. Where that reaches
    /// the bound, all is committed and cut off at the bound. Else, where the
    /// interval has passed, all is committed. Else `delta` is buffered.
    pub open spec fn advanced(self, now: u64, delta: u64) -> BarView {
        if self.forced(delta) {
            BarView { n: self.total->0, cached: 0, last: now, ..self }
        } else if self.due(now) {
            BarView { n: (self.n + self.cached + delta) as u64, cached: 0, last: now, ..self }
        } else {
            BarView { cached: (self.cached + delta) as u64, ..self }
        }
    }

    /// The width the line is made for: the terminal's, or the configured one
    /// where that is narrower.
    pub open spec fn line_width(self, terminal_width: u16) -> u16 {
        match self.width {
            Some(w) if w < terminal_width => w,
            _ => terminal_width,
        }
    }

    /// The bar's line of text, made for a terminal of `terminal_width` columns.
    pub open spec fn line(self, terminal_width: u16) -> Seq<char> {
        let elapsed = since(self.last, self.begin) as nat;
        match self.total {
            None => unbounded_line(self.desc, self.postfix, self.n as nat, elapsed),
            Some(total) => bounded_line(
                self.desc,
                self.postfix,
                self.style.spec_background(),
                self.style.spec_pattern(),
                self.line_width(terminal_width),
                self.n as nat,
                total as nat,
                elapsed,
            ),
        }
    }

    /// Whether anything is drawn for the bar: the output is a terminal and
    /// the bar has a row.
    pub open spec fn drawable(self, screen: ScreenView, env: Reading) -> bool {
        env.tty && screen.rows.dom().contains(self.id)
    }

    /// What is written to draw the bar on `pos`, or on its own row where
    /// `pos` is `None`. Nothing for a bar that is not drawable or whose row
    /// is not visible. On the last visible row, while more bars follow, the
    /// marker takes the place of the bar's line. The line is cut or filled up
    /// to the width of the terminal.
    pub open spec fn frame(self, screen: ScreenView, env: Reading, pos: Option<u16>) -> Seq<char> {
        let row = match pos {
            Some(p) => p,
            None => screen.rows[self.id],
        };
        let (cols, height) = spec_terminal_size(env.size);
        let limit = visible_rows(screen.max_bars, height);
        if !self.drawable(screen, env) || row >= limit {
            Seq::empty()
        } else if row == limit - 1 && screen.live > row + 1 {
            draw_frame(row, fitted(marker(), cols as nat))
        } else {
            draw_frame(row, fitted(self.line(cols), cols as nat))
        }
    }

    /// What is written to erase the bar's row. Nothing for a bar that is not
    /// drawable or whose row is not visible.
    pub open spec fn erasure(self, screen: ScreenView, env: Reading) -> Seq<char> {
        let row = screen.rows[self.id];
        let limit = visible_rows(screen.max_bars, spec_terminal_size(env.size).1);
        if !self.drawable(screen, env) || row >= limit {
            Seq::empty()
        } else {
            clear_frame(row)
        }
    }

    /// The screen after the bar has been drawn on its own row.
    pub open spec fn shown(self, screen: ScreenView, env: Reading) -> ScreenView {
        screen.wrote(self.frame(screen, env, None))
    }

    /// The bar as it is settled when it closes: what is buffered is
    /// committed, unless the bound is reached already.
    pub open spec fn settled(self, now: u64) -> BarView {
        if self.total == Some(self.n) {
            self
        } else {
            self.committed(now)
        }
    }

    /// Bar and screen after `delta` more progress: the state advances, and
    /// where that redraws, the new frame is written.
    pub open spec fn updated(self, screen: ScreenView, env: Reading, delta: u64) -> (
        BarView,
        ScreenView,
    ) {
        let next = self.advanced(env.now, delta);
        if self.redraws(env.now, delta) {
            (next, screen.wrote(next.frame(screen, env, None)))
        } else {
            (next, screen)
        }
    }

    /// Bar and screen after the bar has closed. A bar that is not drawable
    /// is closed already, and nothing changes. Else the bar is settled, drawn
    /// a last time on row 0 and followed by a line feed, and its row is given
    /// up.
    pub open spec fn closed(self, screen: ScreenView, env: Reading) -> (BarView, ScreenView) {
        if !self.drawable(screen, env) {
            (self, screen)
        } else {
            let last = self.settled(env.now);
            (
                last,
                ScreenView {
                    rows: released(screen.rows, self.id),
                    live: (screen.live - 1) as nat,
                    output: screen.output + last.frame(screen, env, Some(0)) + seq!['\n'],
                    ..screen
                },
            )
        }
    }
}

impl State {
    /// With no bound, the counts fit in 64 bits together.
    pub open spec fn wf(&self) -> bool {
        self@.fits(0)
    }

    /// Create a new state of a progress bar, on the next free row.
    pub fn new(screen: &mut Screen, env: &Reading, total: Option<u64>) -> (s: State)
        requires
            old(screen).wf(),
            old(screen)@.live <= u16::MAX,
            old(screen)@.next_id < u64::MAX,
        ensures
            s@ == BarView::fresh(old(screen)@.next_id, env.now, total),
            s.wf(),
            final(screen).wf(),
            !old(screen)@.rows.dom().contains(s.id),
            final(screen)@ == old(screen)@.entered(s.id),
            final(screen).output == old(screen).output,
    {
        State {
            config: Config::new(),
            begin: env.now,
            last: env.now,
            interval: INTERVAL,
            id: screen.positions.next_free_pos(),
            n: 0,
            cached: 0,
            total,
        }
    }

    /// A new state after the looks of this one: its style and width are
    /// kept, the counts start at zero, on the next free row.
    pub fn derived(&self, screen: &mut Screen, env: &Reading) -> (s: State)
        requires
            old(screen).wf(),
            old(screen)@.live <= u16::MAX,
            old(screen)@.next_id < u64::MAX,
        ensures
            s@ == self@.derived(old(screen)@.next_id, env.now),
            s.wf(),
            final(screen).wf(),
            !old(screen)@.rows.dom().contains(s.id),
            final(screen)@ == old(screen)@.entered(s.id),
            final(screen).output == old(screen).output,
    {
        let mut s = State::new(screen, env, None);
        s.config.style = self.config.style;
        s.config.width = self.config.width;
        s
    }

    /// Advance n steps for a progress bar.
    pub fn update(&mut self, screen: &mut Screen, env: &Reading, n: u64)
        requires
            old(screen).wf(),
            old(self)@.fits(n),
        ensures
            (final(self)@, final(screen)@) == old(self)@.updated(old(screen)@, *env, n),
            final(self).wf(),
            final(screen).wf(),
            final(screen).positions == old(screen).positions,
    {
        let sum: u128 = self.n as u128 + self.cached as u128 + n as u128;
        let forced = match self.total {
            Some(total) => sum >= total as u128,
            None => false,
        };
        if forced {
            self.n = self.total.unwrap();
            self.cached = 0;
            self.last = env.now;
            self.draw(screen, env, None);
        } else if env.now.saturating_sub(self.last) >= self.interval {
            self.n = sum as u64;
            self.cached = 0;
            self.last = env.now;
            self.draw(screen, env, None);
        } else {
            self.cached = self.cached + n;
        }
    }

    /// Make progress without caring the interval.
    pub fn force_update(&mut self, now: u64)
        requires
            old(self).wf(),
        ensures
            final(self)@ == old(self)@.committed(now),
            final(self).wf(),
    {
        let sum: u128 = self.n as u128 + self.cached as u128;
        self.n = match self.total {
            Some(total) if sum >= total as u128 => total,
            _ => sum as u64,
        };
        self.cached = 0;
        self.last = now;
    }

    /// The bar's line of text, made for a terminal of `terminal_width` columns.
    pub fn text(&self, terminal_width: u16) -> (line: String)
        ensures
            line@ == self@.line(terminal_width),
    {
        let elapsed = self.last.saturating_sub(self.begin);
        let width = match self.config.width {
            Some(w) if w < terminal_width => w,
            _ => terminal_width,
        };
        match self.total {
            None => unbounded_text(&self.config.desc, &self.config.postfix, self.n, elapsed),
            Some(total) => {
                let pattern = self.config.style.pattern();
                bounded_text(
                    &self.config.desc,
                    &self.config.postfix,
                    self.config.style.background(),
                    &pattern,
                    width,
                    self.n,
                    total,
                    elapsed,
                )
            },
        }
    }

    /// Try to find a progress bar's position. If none, the bar has been closed.
    pub fn try_get_pos(&self, screen: &Screen) -> (pos: Option<u16>)
        requires
            screen.wf(),
        ensures
            pos == (if screen@.rows.dom().contains(self.id) {
                Some(screen@.rows[self.id])
            } else {
                None
            }),
    {
        screen.positions.try_get_pos(self.id)
    }

    /// Get a progress bar's position; the bar is not closed.
    pub fn get_pos(&self, screen: &Screen) -> (pos: u16)
        requires
            screen.wf(),
            screen@.rows.dom().contains(self.id),
        ensures
            pos == screen@.rows[self.id],
    {
        self.try_get_pos(screen).unwrap()
    }

    /// Is a progress bar able to be displayed.
    pub fn drawable(&self, screen: &Screen, env: &Reading) -> (b: bool)
        requires
            screen.wf(),
        ensures
            b == self@.drawable(screen@, *env),
    {
        env.tty && self.try_get_pos(screen).is_some()
    }

    /// Draw the progress bar: its frame is added to what waits to be written.
    pub fn draw(&self, screen: &mut Screen, env: &Reading, pos: Option<u16>)
        requires
            old(screen).wf(),
        ensures
            final(screen)@ == old(screen)@.wrote(self@.frame(old(screen)@, *env, pos)),
            final(screen).positions == old(screen).positions,
            final(screen).wf(),
    {
        if !self.drawable(screen, env) {
            assert(screen@ =~= old(screen)@.wrote(Seq::empty()));
            return ;
        }
        let pos = match pos {
            Some(pos) => pos,
            None => self.get_pos(screen),
        };
        let ncols = terminal_size(env.size).0;
        let nrows = nrows(screen, env);
        if pos >= nrows {
            assert(screen@ =~= old(screen)@.wrote(Seq::empty()));
            return ;
        }
        let msg = if pos == nrows - 1 && screen.positions.len() > pos as usize + 1 {
            String::from_str("... (more hidden) ...")
        } else {
            self.text(ncols)
        };
        let msg = fit(msg, ncols);
        queue_draw(&mut screen.output, pos, msg.as_str());
    }

    /// Sweep a progress bar from the terminal: the frame that erases its
    /// row is added to what waits to be written.
    pub fn clear(&self, screen: &mut Screen, env: &Reading)
        requires
            old(screen).wf(),
        ensures
            final(screen)@ == old(screen)@.wrote(self@.erasure(old(screen)@, *env)),
            final(screen).positions == old(screen).positions,
            final(screen).wf(),
    {
        if !self.drawable(screen, env) {
            assert(screen@ =~= old(screen)@.wrote(Seq::empty()));
            return ;
        }
        let pos = self.get_pos(screen);
        let nrows = nrows(screen, env);
        if pos >= nrows {
            assert(screen@ =~= old(screen)@.wrote(Seq::empty()));
            return ;
        }
        queue_clear(&mut screen.output, pos);
    }

    /// Closes the bar: settles it, draws it a last time at the top, ends the
    /// line, and gives up its row. A bar that is closed already stays as it is.
    pub fn close(&mut self, screen: &mut Screen, env: &Reading)
        requires
            old(screen).wf(),
            old(self).wf(),
        ensures
            (final(self)@, final(screen)@) == old(self)@.closed(old(screen)@, *env),
            !old(self)@.drawable(old(screen)@, *env) ==> final(screen).positions == old(
                screen,
            ).positions,
            final(self).wf(),
            final(screen).wf(),
    {
        if !self.drawable(screen, env) {
            return ;
        }
        let done = match self.total {
            Some(t) => t == self.n,
            None => false,
        };
        if !done {
            self.force_update(env.now);
        }
        self.draw(screen, env, Some(0));
        screen.output.push('\n');
        screen.positions.reposition(self.id);
        assert(screen@.output =~= old(self)@.closed(old(screen)@, *env).1.output);
    }
}

} // verus!
