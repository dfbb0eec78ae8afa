use avance::screen::{nrows, terminal_size};
use avance::state::INTERVAL;
use avance::{set_max_progress_bars, AvanceBar, Reading, Screen, State, Style};

const MS: u64 = 1_000_000;

struct Desk {
    screen: Screen,
    env: Reading,
}

fn desk(cols: u16, rows: u16) -> Desk {
    Desk {
        screen: Screen::new(),
        env: Reading { tty: true, size: Some((cols, rows)), now: 0 },
    }
}

fn frame_at(row: u16, line: &str, cols: usize) -> String {
    let up = if row > 0 { format!("\x1b[{}A", row) } else { String::new() };
    format!("{}\x1b[1G{:cols$}{}\x1b[1G", "\n".repeat(row as usize), line, up, cols = cols)
}

fn progress_bar_ref(d: &mut Desk, pb: &mut AvanceBar, n: u64, interval: u64) {
    for _ in 0..n {
        pb.update(&mut d.screen, &d.env, 1);
        d.env.now += interval * MS;
    }
}

fn progress_bar(d: &mut Desk, n: u64, interval: u64) -> AvanceBar {
    let mut pb = AvanceBar::new(&mut d.screen, &d.env, n);
    progress_bar_ref(d, &mut pb, n, interval);
    pb.close(&mut d.screen, &d.env);
    pb
}

#[test]
fn basic_bar() {
    let mut d = desk(80, 24);
    let pb = progress_bar(&mut d, 100, 5);
    assert_eq!(pb.n(), 100);
    assert!(!pb.is_open(&d.screen));
    let out = d.screen.take_output();
    assert!(out.starts_with(&frame_at(
        0,
        &format!("  0%|{}| 0/100 [00:00<?, NaNit/s]", "0".repeat(49)),
        80
    )));
    // the hundredth step comes 495 ms after the start
    assert!(out.ends_with(&format!(
        "{}\n",
        frame_at(
            0,
            &format!("100%|{}| 100/100 [00:00<00:00, 202.02it/s]", "#".repeat(40)),
            80
        )
    )));
}

#[test]
fn bar_with_width() {
    let mut d = desk(80, 24);
    let mut pb = AvanceBar::new(&mut d.screen, &d.env, 100);
    d.screen.take_output();
    pb.set_width(&mut d.screen, &d.env, 60);
    let line = format!("  0%|{}| 0/100 [00:00<?, NaNit/s]", "0".repeat(29));
    assert_eq!(line.len(), 60);
    assert_eq!(
        d.screen.take_output(),
        format!("\x1b[2K\x1b[1G{}", frame_at(0, &line, 80))
    );

    progress_bar_ref(&mut d, &mut pb, 100, 5);
    assert_eq!(pb.n(), 100);
}

#[test]
fn reuse() {
    let mut d = desk(120, 24);
    let mut pb1 = AvanceBar::new(&mut d.screen, &d.env, 100)
        .with_style(&mut d.screen, &d.env, Style::Balloon)
        .with_width(&mut d.screen, &d.env, 90);
    progress_bar_ref(&mut d, &mut pb1, 100, 5);
    pb1.close(&mut d.screen, &d.env);
    assert_eq!(pb1.n(), 100);
    assert!(!pb1.is_open(&d.screen));
    d.screen.take_output();

    let mut pb2 = AvanceBar::with_config_of(&pb1, &mut d.screen, &d.env);
    // style and width come along, the bound does not
    assert_eq!(d.screen.take_output(), frame_at(0, "0it [00:00, NaNit/s]", 120));
    assert!(pb2.is_open(&d.screen));
    assert_ne!(pb2.id(), pb1.id());
    pb2 = pb2.with_total(&mut d.screen, &d.env, 200);
    let line = format!("  0%|{}| 0/200 [00:00<?, NaNit/s]", ".".repeat(59));
    assert_eq!(line.len(), 90);
    assert_eq!(d.screen.take_output(), frame_at(0, &line, 120));
    progress_bar_ref(&mut d, &mut pb2, 200, 5);
    assert_eq!(pb2.n(), 200);
}

#[test]
fn method_chain() {
    let mut d = desk(100, 24);
    let mut pb = AvanceBar::new(&mut d.screen, &d.env, 100)
        .with_style(&mut d.screen, &d.env, Style::Block)
        .with_width(&mut d.screen, &d.env, 90)
        .with_desc(&mut d.screen, &d.env, "task1");
    d.screen.take_output();

    progress_bar_ref(&mut d, &mut pb, 100, 5);
    assert_eq!(pb.n(), 100);
    let out = d.screen.take_output();
    let line = format!(
        "task1: 100%|{}| 100/100 [00:00<00:00, 202.02it/s]",
        "\u{2588}".repeat(43)
    );
    assert!(out.ends_with(&frame_at(0, &line, 100)));
}

#[test]
fn misc() {
    let mut d = desk(80, 24);
    let mut pb = AvanceBar::new(&mut d.screen, &d.env, 100);
    pb.set_desc(&mut d.screen, &d.env, "avance");
    pb.set_style(&mut d.screen, &d.env, Style::Balloon);
    pb.set_width(&mut d.screen, &d.env, 60);
    d.screen.take_output();

    progress_bar_ref(&mut d, &mut pb, 100, 10);
    assert_eq!(pb.n(), 100);
    let out = d.screen.take_output();
    // the hundredth step comes 990 ms after the start
    let line = format!(
        "avance: 100%|{}| 100/100 [00:00<00:00, 101.01it/s]",
        "*".repeat(12)
    );
    assert!(out.ends_with(&frame_at(0, &line, 80)));
}

#[test]
fn single_bar_multi_threads() {
    // three producers take turns on one bar
    let mut d = desk(80, 24);
    let mut pb = AvanceBar::new(&mut d.screen, &d.env, 300);
    for _ in 0..100 {
        for interval in [15, 10, 5] {
            pb.update(&mut d.screen, &d.env, 1);
            d.env.now += interval * MS;
            assert!(pb.n() <= 300);
        }
    }
    assert_eq!(pb.n(), 300);
}

#[test]
fn multiple_bars() {
    let mut d = desk(80, 24);
    let totals = [150u64, 300, 500];
    let mut bars: Vec<AvanceBar> = totals
        .iter()
        .map(|t| AvanceBar::new(&mut d.screen, &d.env, *t))
        .collect();
    for step in 0..500u64 {
        for (pb, total) in bars.iter_mut().zip(totals.iter()) {
            if step < *total {
                pb.update(&mut d.screen, &d.env, 1);
            }
        }
        d.env.now += 5 * MS;
    }
    for (pb, total) in bars.iter_mut().zip(totals.iter()) {
        assert_eq!(pb.n(), *total);
        pb.close(&mut d.screen, &d.env);
    }
    assert_eq!(d.screen.positions.len(), 0);
}

#[test]
fn overflowing() {
    let mut d = desk(80, 24);
    set_max_progress_bars(&mut d.screen, 3);

    let mut bars: Vec<(AvanceBar, u64)> = (0..15u64)
        .map(|i| {
            let total = 100 + 100 * (i % 5);
            (AvanceBar::new(&mut d.screen, &d.env, total), total)
        })
        .collect();
    assert_eq!(nrows(&d.screen, &d.env), 4);
    d.screen.take_output();

    // only rows 0 to 3 are ever written to
    for (pb, _) in bars.iter() {
        pb.refresh(&mut d.screen, &d.env);
    }
    let out = d.screen.take_output();
    assert_eq!(out.matches("\x1b[1G").count(), 2 * 4);
    assert!(out.contains("... (more hidden) ..."));
    assert!(!out.contains("\n\n\n\n"));

    for step in 0..500u64 {
        for (pb, total) in bars.iter_mut() {
            if step < *total {
                pb.update(&mut d.screen, &d.env, 1);
            }
        }
        d.env.now += 10 * MS;
    }
    for (pb, total) in bars.iter_mut() {
        assert_eq!(pb.n(), *total);
        pb.close(&mut d.screen, &d.env);
    }
    assert_eq!(d.screen.positions.len(), 0);
}

#[test]
fn new_bar_is_drawn_on_its_row() {
    let mut d = desk(40, 24);
    let a = AvanceBar::new(&mut d.screen, &d.env, 10);
    assert_eq!(a.id(), 0);
    assert_eq!(
        d.screen.take_output(),
        frame_at(0, "  0%|0000000000| 0/10 [00:00<?, NaNit/s]", 40)
    );
    let b = AvanceBar::new(&mut d.screen, &d.env, 10);
    assert_eq!(b.id(), 1);
    assert_eq!(
        d.screen.take_output(),
        frame_at(1, "  0%|0000000000| 0/10 [00:00<?, NaNit/s]", 40)
    );
}

#[test]
fn bound_is_reached_in_one_step_and_never_exceeded() {
    let mut d = desk(40, 24);
    let mut pb = AvanceBar::new(&mut d.screen, &d.env, 10);
    d.screen.take_output();

    pb.update(&mut d.screen, &d.env, 3);
    assert_eq!(pb.n(), 0);
    assert_eq!(d.screen.take_output(), "");
    pb.update(&mut d.screen, &d.env, 3);
    assert_eq!(pb.n(), 0);
    assert_eq!(d.screen.take_output(), "");
    pb.update(&mut d.screen, &d.env, 4);
    assert_eq!(pb.n(), 10);
    assert_eq!(
        d.screen.take_output(),
        frame_at(0, "100%|#####| 10/10 [00:00<00:00, infit/s]", 40)
    );
}

#[test]
fn a_large_step_is_cut_off_at_the_bound() {
    let mut d = desk(40, 24);
    let mut pb = AvanceBar::new(&mut d.screen, &d.env, 10);
    pb.update(&mut d.screen, &d.env, u64::MAX);
    assert_eq!(pb.n(), 10);
    pb.update(&mut d.screen, &d.env, u64::MAX);
    assert_eq!(pb.n(), 10);
}

#[test]
fn progress_is_committed_once_the_interval_has_passed() {
    let mut d = desk(40, 24);
    let mut pb = AvanceBar::new(&mut d.screen, &d.env, 1000);
    d.screen.take_output();

    d.env.now = INTERVAL - 1;
    pb.update(&mut d.screen, &d.env, 5);
    assert_eq!(pb.n(), 0);
    assert_eq!(d.screen.take_output(), "");

    d.env.now = INTERVAL;
    pb.update(&mut d.screen, &d.env, 5);
    assert_eq!(pb.n(), 10);
    // 10 steps in a fifteenth of a second
    assert_eq!(
        d.screen.take_output(),
        frame_at(0, "  1%|| 10/1000 [00:00<00:06, 150.00it/s]", 40)
    );

    d.env.now = 2 * INTERVAL - 1;
    pb.update(&mut d.screen, &d.env, 1);
    assert_eq!(pb.n(), 10);
    assert_eq!(d.screen.take_output(), "");
}

#[test]
fn redraws_are_throttled() {
    let mut d = desk(80, 24);
    let mut pb = AvanceBar::with_hint(&mut d.screen, &d.env, None);
    assert_eq!(d.screen.take_output(), "");
    let mut redraws = 0;
    // a burst of 1000 calls, one each millisecond
    for _ in 0..1000 {
        pb.update(&mut d.screen, &d.env, 1);
        if !d.screen.take_output().is_empty() {
            redraws += 1;
        }
        d.env.now += MS;
    }
    // 999 ms hold 14 intervals of a fifteenth of a second
    assert_eq!(redraws, 14);
    assert_eq!(pb.n(), 939);
}

#[test]
fn settings_redraw_at_once() {
    let mut d = desk(40, 24);
    let mut pb = AvanceBar::new(&mut d.screen, &d.env, 10);
    d.screen.take_output();
    pb.set_desc(&mut d.screen, &d.env, "a");
    assert_eq!(
        d.screen.take_output(),
        frame_at(0, "a:   0%|0000000| 0/10 [00:00<?, NaNit/s]", 40)
    );
    pb.set_postfix(&mut d.screen, &d.env, "b");
    assert_eq!(
        d.screen.take_output(),
        frame_at(0, "a:   0%|0000| 0/10 [00:00<?, NaNit/s, b]", 40)
    );
    pb.set_style(&mut d.screen, &d.env, Style::Balloon);
    assert_eq!(
        d.screen.take_output(),
        frame_at(0, "a:   0%|....| 0/10 [00:00<?, NaNit/s, b]", 40)
    );
    pb.set_total(&mut d.screen, &d.env, 20);
    assert_eq!(
        d.screen.take_output(),
        frame_at(0, "a:   0%|....| 0/20 [00:00<?, NaNit/s, b]", 40)
    );
}

#[test]
fn width_is_capped_by_the_terminal() {
    let mut d = desk(40, 24);
    let mut pb = AvanceBar::new(&mut d.screen, &d.env, 10);
    d.screen.take_output();
    pb.set_width(&mut d.screen, &d.env, 200);
    assert_eq!(
        d.screen.take_output(),
        format!(
            "\x1b[2K\x1b[1G{}",
            frame_at(0, "  0%|0000000000| 0/10 [00:00<?, NaNit/s]", 40)
        )
    );
}

#[test]
fn a_line_wider_than_the_terminal_is_cut() {
    let mut d = desk(20, 24);
    AvanceBar::new(&mut d.screen, &d.env, 10);
    assert_eq!(d.screen.take_output(), "\x1b[1G  0%|| 0/10 [00:00<?\x1b[1G");
}

#[test]
fn close_settles_at_the_top_and_frees_the_row() {
    let mut d = desk(40, 24);
    let mut a = AvanceBar::new(&mut d.screen, &d.env, 10);
    let mut b = AvanceBar::new(&mut d.screen, &d.env, 10);
    let c = AvanceBar::new(&mut d.screen, &d.env, 10);
    b.update(&mut d.screen, &d.env, 4);
    d.screen.take_output();

    b.close(&mut d.screen, &d.env);
    assert_eq!(b.n(), 4);
    assert_eq!(
        d.screen.take_output(),
        format!(
            "{}\n",
            frame_at(0, " 40%|##4000| 4/10 [00:00<00:00, infit/s]", 40)
        )
    );
    assert!(!b.is_open(&d.screen));
    assert_eq!(d.screen.positions.try_get_pos(a.id()), Some(0));
    assert_eq!(d.screen.positions.try_get_pos(c.id()), Some(1));

    a.close(&mut d.screen, &d.env);
    assert_eq!(d.screen.positions.try_get_pos(c.id()), Some(0));
}

#[test]
fn close_is_idempotent() {
    let mut d = desk(40, 24);
    let mut a = AvanceBar::new(&mut d.screen, &d.env, 10);
    let b = AvanceBar::new(&mut d.screen, &d.env, 10);
    d.screen.take_output();

    a.close(&mut d.screen, &d.env);
    let once = d.screen.take_output();
    assert!(once.ends_with("\n"));
    assert_eq!(once.matches('\n').count(), 1);

    d.env.now += 500 * MS;
    a.close(&mut d.screen, &d.env);
    assert_eq!(d.screen.take_output(), "");
    assert_eq!(d.screen.positions.len(), 1);
    assert_eq!(d.screen.positions.try_get_pos(b.id()), Some(0));

    // a closed bar draws nothing any more
    a.refresh(&mut d.screen, &d.env);
    a.update(&mut d.screen, &d.env, 10);
    a.set_desc(&mut d.screen, &d.env, "late");
    assert_eq!(d.screen.take_output(), "");
}

#[test]
fn close_of_a_finished_bar_keeps_its_last_time() {
    let mut d = desk(40, 24);
    let mut pb = AvanceBar::new(&mut d.screen, &d.env, 2);
    d.env.now = 1000 * MS;
    pb.update(&mut d.screen, &d.env, 2);
    d.screen.take_output();
    d.env.now = 5000 * MS;
    pb.close(&mut d.screen, &d.env);
    assert_eq!(
        d.screen.take_output(),
        format!(
            "{}\n",
            frame_at(0, "100%|######| 2/2 [00:01<00:00, 2.00it/s]", 40)
        )
    );
}

#[test]
fn close_commits_what_is_buffered() {
    let mut d = desk(40, 24);
    let mut pb = AvanceBar::with_hint(&mut d.screen, &d.env, None);
    pb.update(&mut d.screen, &d.env, 7);
    assert_eq!(pb.n(), 0);
    d.env.now = 2000 * MS;
    pb.close(&mut d.screen, &d.env);
    assert_eq!(pb.n(), 7);
    assert_eq!(
        d.screen.take_output(),
        format!("{}\n", frame_at(0, "7it [00:02, 3.50it/s]", 40))
    );
}

#[test]
fn nothing_is_drawn_when_output_is_no_terminal() {
    let mut d = desk(40, 24);
    d.env.tty = false;
    let mut pb = AvanceBar::new(&mut d.screen, &d.env, 10);
    pb.set_desc(&mut d.screen, &d.env, "x");
    pb.set_width(&mut d.screen, &d.env, 30);
    pb.update(&mut d.screen, &d.env, 10);
    assert_eq!(pb.n(), 10);
    pb.close(&mut d.screen, &d.env);
    assert_eq!(d.screen.take_output(), "");
    assert!(pb.is_open(&d.screen));
}

#[test]
fn hidden_rows_and_the_marker() {
    // five bars on a terminal of three rows, with three bars allowed
    let mut d = desk(30, 3);
    set_max_progress_bars(&mut d.screen, 3);
    assert_eq!(nrows(&d.screen, &d.env), 3);
    let bars: Vec<AvanceBar> = (0..5)
        .map(|_| AvanceBar::with_hint(&mut d.screen, &d.env, None))
        .collect();

    bars[0].refresh(&mut d.screen, &d.env);
    assert_eq!(d.screen.take_output(), frame_at(0, "0it [00:00, NaNit/s]", 30));
    bars[1].refresh(&mut d.screen, &d.env);
    assert_eq!(d.screen.take_output(), frame_at(1, "0it [00:00, NaNit/s]", 30));
    bars[2].refresh(&mut d.screen, &d.env);
    assert_eq!(d.screen.take_output(), frame_at(2, "... (more hidden) ...", 30));
    bars[3].refresh(&mut d.screen, &d.env);
    assert_eq!(d.screen.take_output(), "");
    bars[4].refresh(&mut d.screen, &d.env);
    assert_eq!(d.screen.take_output(), "");
}

#[test]
fn hidden_rows_on_a_tall_terminal() {
    let mut d = desk(30, 50);
    set_max_progress_bars(&mut d.screen, 2);
    assert_eq!(nrows(&d.screen, &d.env), 3);
    let bars: Vec<AvanceBar> = (0..5)
        .map(|_| AvanceBar::with_hint(&mut d.screen, &d.env, None))
        .collect();
    let mut frames = Vec::new();
    for pb in bars.iter() {
        pb.refresh(&mut d.screen, &d.env);
        frames.push(d.screen.take_output());
    }
    assert_eq!(frames[0], frame_at(0, "0it [00:00, NaNit/s]", 30));
    assert_eq!(frames[1], frame_at(1, "0it [00:00, NaNit/s]", 30));
    assert_eq!(frames[2], frame_at(2, "... (more hidden) ...", 30));
    assert_eq!(frames[3], "");
    assert_eq!(frames[4], "");
}

#[test]
fn the_last_visible_row_shows_its_bar_when_none_follows() {
    let mut d = desk(30, 3);
    let bars: Vec<AvanceBar> = (0..3)
        .map(|_| AvanceBar::with_hint(&mut d.screen, &d.env, None))
        .collect();
    bars[2].refresh(&mut d.screen, &d.env);
    assert_eq!(d.screen.take_output(), frame_at(2, "0it [00:00, NaNit/s]", 30));
}

#[test]
fn a_hidden_bar_shows_once_the_rows_above_close() {
    let mut d = desk(30, 2);
    let mut a = AvanceBar::with_hint(&mut d.screen, &d.env, None);
    let b = AvanceBar::with_hint(&mut d.screen, &d.env, None);
    let c = AvanceBar::with_hint(&mut d.screen, &d.env, None);
    c.refresh(&mut d.screen, &d.env);
    assert_eq!(d.screen.take_output(), "");
    b.refresh(&mut d.screen, &d.env);
    assert_eq!(d.screen.take_output(), frame_at(1, "... (more hidden) ...", 30));
    a.close(&mut d.screen, &d.env);
    d.screen.take_output();
    c.refresh(&mut d.screen, &d.env);
    assert_eq!(d.screen.take_output(), frame_at(1, "0it [00:00, NaNit/s]", 30));
}

#[test]
fn visible_rows_limit() {
    let mut d = desk(80, 40);
    assert_eq!(nrows(&d.screen, &d.env), 40);
    set_max_progress_bars(&mut d.screen, 0);
    assert_eq!(nrows(&d.screen, &d.env), 2);
    set_max_progress_bars(&mut d.screen, 1);
    assert_eq!(nrows(&d.screen, &d.env), 2);
    set_max_progress_bars(&mut d.screen, 9);
    assert_eq!(nrows(&d.screen, &d.env), 10);
    set_max_progress_bars(&mut d.screen, 39);
    assert_eq!(nrows(&d.screen, &d.env), 40);
    set_max_progress_bars(&mut d.screen, 100);
    assert_eq!(nrows(&d.screen, &d.env), 40);
    set_max_progress_bars(&mut d.screen, u16::MAX);
    assert_eq!(nrows(&d.screen, &d.env), 40);
    d.env.size = Some((80, 1));
    assert_eq!(nrows(&d.screen, &d.env), 1);
}

#[test]
fn terminal_size_falls_back() {
    assert_eq!(terminal_size(Some((132, 43))), (132, 43));
    assert_eq!(terminal_size(None), (80, 64));
    let mut d = desk(1, 1);
    d.env.size = None;
    assert_eq!(nrows(&d.screen, &d.env), 64);
    AvanceBar::with_hint(&mut d.screen, &d.env, None).refresh(&mut d.screen, &d.env);
    assert_eq!(d.screen.take_output(), frame_at(0, "0it [00:00, NaNit/s]", 80));
}

#[test]
fn with_hint_takes_the_size_as_bound() {
    let mut d = desk(40, 24);
    let pb = AvanceBar::with_hint(&mut d.screen, &d.env, Some(10));
    assert_eq!(d.screen.take_output(), "");
    pb.refresh(&mut d.screen, &d.env);
    assert_eq!(
        d.screen.take_output(),
        frame_at(0, "  0%|0000000000| 0/10 [00:00<?, NaNit/s]", 40)
    );
}

#[test]
fn inc_is_one_step() {
    let mut d = desk(40, 24);
    let mut pb = AvanceBar::new(&mut d.screen, &d.env, 3);
    pb.inc(&mut d.screen, &d.env);
    pb.inc(&mut d.screen, &d.env);
    assert_eq!(pb.n(), 0);
    pb.inc(&mut d.screen, &d.env);
    assert_eq!(pb.n(), 3);
}

#[test]
fn fits_tells_when_counts_overflow() {
    let mut d = desk(40, 24);
    let mut pb = AvanceBar::with_hint(&mut d.screen, &d.env, None);
    assert!(pb.fits(u64::MAX));
    pb.update(&mut d.screen, &d.env, 1);
    assert!(!pb.fits(u64::MAX));
    assert!(pb.fits(u64::MAX - 1));
    let bounded = AvanceBar::new(&mut d.screen, &d.env, 5);
    assert!(bounded.fits(u64::MAX));
}

#[test]
fn state_counts_and_times() {
    let mut d = desk(40, 24);
    d.env.now = 7;
    let mut s = State::new(&mut d.screen, &d.env, Some(100));
    assert_eq!((s.id, s.n, s.cached, s.total), (0, 0, 0, Some(100)));
    assert_eq!((s.begin, s.last, s.interval), (7, 7, INTERVAL));
    assert_eq!(INTERVAL, 66_666_667);
    assert_eq!(s.get_pos(&d.screen), 0);
    assert!(s.drawable(&d.screen, &d.env));

    s.update(&mut d.screen, &d.env, 30);
    assert_eq!((s.n, s.cached, s.last), (0, 30, 7));
    s.force_update(99);
    assert_eq!((s.n, s.cached, s.last), (30, 0, 99));
    s.cached = 500;
    s.force_update(100);
    assert_eq!((s.n, s.cached, s.last), (100, 0, 100));

    let t = s.derived(&mut d.screen, &d.env);
    assert_eq!((t.id, t.n, t.cached, t.total), (1, 0, 0, None));
    assert_eq!(t.try_get_pos(&d.screen), Some(1));
    assert!(t.config.desc.is_none());
}

#[test]
fn state_text_follows_style_and_width() {
    let mut d = desk(40, 24);
    let mut s = State::new(&mut d.screen, &d.env, Some(8));
    s.n = 3;
    s.last = 3_000_000_000;
    s.config.style = Style::Block;
    s.config.width = Some(38);
    // 3 of 8 in 3 s: 1 step per second, 5 s left; 4 cells hold one full
    // cell and a half
    assert_eq!(
        s.text(40),
        " 37%|\u{2588}\u{258c}  | 3/8 [00:03<00:05, 1.00it/s]"
    );
    // one cell holds three eighths
    assert_eq!(s.text(35), " 37%|\u{258d}| 3/8 [00:03<00:05, 1.00it/s]");
}

#[test]
fn clear_erases_the_row() {
    let mut d = desk(40, 24);
    let _a = State::new(&mut d.screen, &d.env, None);
    let b = State::new(&mut d.screen, &d.env, None);
    b.clear(&mut d.screen, &d.env);
    assert_eq!(d.screen.take_output(), "\n\x1b[2K\x1b[1A\x1b[1G");
    d.env.size = Some((40, 1));
    b.clear(&mut d.screen, &d.env);
    assert_eq!(d.screen.take_output(), "");
}
