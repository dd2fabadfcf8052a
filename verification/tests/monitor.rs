use procmon::app::{App, REFRESH_INTERVAL};
use procmon::filter::filter_records;
use procmon::history::History;
use procmon::input::{Key, KeyPress, QueryBuffer, ViewMode};
use procmon::rank::rank;
use procmon::record::{render_cpu, render_pid, ProcessRecord};
use procmon::text::{contains_sub, to_lower};

fn rec(pid: u64, name: &str, cpu: u32) -> ProcessRecord {
    ProcessRecord::new(pid, name.as_bytes().to_vec(), cpu)
}

fn press(code: Key) -> KeyPress {
    KeyPress { code, ctrl: false }
}

fn ctrl(code: Key) -> KeyPress {
    KeyPress { code, ctrl: true }
}

fn pids(rows: &[ProcessRecord]) -> Vec<u64> {
    rows.iter().map(|r| r.pid).collect()
}

#[test]
fn rank_is_descending() {
    let snapshot = vec![rec(1, "a", 5000), rec(2, "bash", 1000), rec(3, "cat", 9000)];
    let ranked = rank(snapshot);
    assert_eq!(pids(&ranked), vec![3, 1, 2]);
    for w in ranked.windows(2) {
        assert!(w[0].cpu >= w[1].cpu);
    }
}

#[test]
fn rank_is_stable_on_ties() {
    let snapshot = vec![
        rec(10, "x", 500),
        rec(11, "y", 500),
        rec(12, "z", 700),
        rec(13, "w", 500),
    ];
    let ranked = rank(snapshot);
    assert_eq!(pids(&ranked), vec![12, 10, 11, 13]);
}

#[test]
fn rank_empty_snapshot() {
    let ranked = rank(Vec::new());
    assert!(ranked.is_empty());
}

#[test]
fn filter_matches_name_case_insensitively() {
    let rows = vec![rec(1, "Bash", 1000), rec(2, "cargo", 2000)];
    let out = filter_records(rows, &b"ASH".to_vec());
    assert_eq!(pids(&out), vec![1]);
}

#[test]
fn filter_matches_pid_and_cpu_cells() {
    let rows = vec![rec(42, "alpha", 1000), rec(7, "beta", 9000)];
    // "42" occurs only in the pid cell of the first row.
    let out = filter_records(rows, &b"42".to_vec());
    assert_eq!(pids(&out), vec![42]);
    // "90.00" is the CPU cell of the second row.
    let rows = vec![rec(42, "alpha", 1000), rec(7, "beta", 9000)];
    let out = filter_records(rows, &b"90.0".to_vec());
    assert_eq!(pids(&out), vec![7]);
}

#[test]
fn filter_empty_query_keeps_everything() {
    let rows = vec![rec(1, "a", 5000), rec(2, "bash", 1000), rec(3, "cat", 9000)];
    let out = filter_records(rows, &Vec::new());
    assert_eq!(pids(&out), vec![1, 2, 3]);
}

#[test]
fn filter_no_match_yields_empty() {
    let rows = vec![rec(1, "a", 5000)];
    let out = filter_records(rows, &b"zzz".to_vec());
    assert!(out.is_empty());
}

#[test]
fn ranked_then_filtered_scenario() {
    // Snapshot (1,"a",50%), (2,"bash",10%), (3,"cat",90%), query "a":
    // ranking puts the busiest first; every name contains an "a", so
    // the filter keeps all three in ranked order.
    let snapshot = vec![rec(1, "a", 5000), rec(2, "bash", 1000), rec(3, "cat", 9000)];
    let out = filter_records(rank(snapshot), &b"a".to_vec());
    assert_eq!(pids(&out), vec![3, 1, 2]);
    // A query matching only one name narrows the ranked list to it.
    let snapshot = vec![rec(1, "a", 5000), rec(2, "bash", 1000), rec(3, "cat", 9000)];
    let out = filter_records(rank(snapshot), &b"ba".to_vec());
    assert_eq!(pids(&out), vec![2]);
}

#[test]
fn cell_text_rendering() {
    assert_eq!(render_pid(0), b"0".to_vec());
    assert_eq!(render_pid(1047), b"1047".to_vec());
    assert_eq!(render_cpu(0), b"0.00".to_vec());
    assert_eq!(render_cpu(1275), b"12.75".to_vec());
    assert_eq!(render_cpu(10000), b"100.00".to_vec());
    assert_eq!(render_cpu(905), b"9.05".to_vec());
}

#[test]
fn substring_search() {
    assert!(contains_sub(&b"hello".to_vec(), &b"ell".to_vec()));
    assert!(contains_sub(&b"hello".to_vec(), &Vec::new()));
    assert!(!contains_sub(&b"hello".to_vec(), &b"elo".to_vec()));
    assert!(!contains_sub(&Vec::new(), &b"x".to_vec()));
    assert_eq!(to_lower(&b"MiXeD-42".to_vec()), b"mixed-42".to_vec());
}

#[test]
fn history_grows_by_one_with_increasing_ticks() {
    let mut h = History::new();
    assert_eq!(h.len(), 0);
    h.append(0, 1200);
    assert_eq!(h.len(), 1);
    h.append(1, 3400);
    h.append(5, 10000);
    assert_eq!(h.len(), 3);
    let series = h.as_series();
    assert_eq!(series.len(), 3);
    assert_eq!((series[0].tick, series[0].cpu), (0, 1200));
    assert_eq!((series[1].tick, series[1].cpu), (1, 3400));
    assert_eq!((series[2].tick, series[2].cpu), (5, 10000));
    for w in series.windows(2) {
        assert!(w[0].tick < w[1].tick);
    }
}

#[test]
fn ticks_drive_history_and_refresh_cadence() {
    let mut app = App::new();
    assert!(app.needs_process_refresh());
    app.on_tick(500, Some(vec![rec(1, "init", 100)]));
    for t in 1..REFRESH_INTERVAL {
        assert!(!app.needs_process_refresh(), "tick {t} must not refresh");
        app.on_tick(600, None);
    }
    assert!(app.needs_process_refresh());
    assert_eq!(app.history.samples.len() as u64, REFRESH_INTERVAL);
    assert_eq!(app.procs.len(), 1);
}

#[test]
fn selection_clamps_at_both_ends() {
    let mut app = App::new();
    app.on_tick(0, Some(vec![rec(1, "a", 100), rec(2, "b", 300), rec(3, "c", 200)]));
    let rows = app.display_rows();
    assert_eq!(rows.len(), 3);
    assert_eq!(app.selection, 0);
    // `k` at the top stays at the top.
    app.on_key(press(Key::Char(b'k')));
    assert_eq!(app.selection, 0);
    // `j` walks down and then sticks at the last row.
    for _ in 0..10 {
        app.on_key(press(Key::Char(b'j')));
        assert!(app.selection < rows.len());
    }
    assert_eq!(app.selection, 2);
    app.on_key(press(Key::Char(b'k')));
    assert_eq!(app.selection, 1);
}

#[test]
fn selection_reclamped_when_list_shrinks() {
    let mut app = App::new();
    app.on_tick(0, Some(vec![rec(1, "aa", 100), rec(2, "ab", 300), rec(3, "b", 200)]));
    app.display_rows();
    app.on_key(press(Key::Char(b'j')));
    app.on_key(press(Key::Char(b'j')));
    assert_eq!(app.selection, 2);
    // Narrow the list to the two names containing "a".
    app.on_key(press(Key::Char(b's')));
    app.on_key(press(Key::Char(b'a')));
    let rows = app.display_rows();
    assert_eq!(rows.len(), 2);
    assert_eq!(app.selection, 1);
    // An empty list resets the selection.
    app.on_key(press(Key::Char(b'z')));
    app.on_key(press(Key::Char(b'z')));
    let rows = app.display_rows();
    assert_eq!(rows.len(), 0);
    assert_eq!(app.selection, 0);
}

#[test]
fn quit_keys_work_in_normal_mode() {
    for k in [press(Key::Esc), press(Key::Char(b'q')), ctrl(Key::Char(b'c')), ctrl(Key::Char(b'C'))]
    {
        let mut app = App::new();
        assert!(app.running);
        app.on_key(k);
        assert!(!app.running, "{k:?} must quit");
    }
}

#[test]
fn quit_takes_precedence_over_search_entry() {
    // Esc while entering a query quits instead of being swallowed.
    let mut app = App::new();
    app.on_key(press(Key::Char(b's')));
    assert_eq!(app.mode, ViewMode::SearchEntry);
    for b in *b"my text" {
        app.on_key(press(Key::Char(b)));
    }
    assert!(app.running);
    app.on_key(press(Key::Esc));
    assert!(!app.running);
    assert_eq!(app.query.text, b"my text".to_vec());

    // So does Control+c.
    let mut app = App::new();
    app.on_key(press(Key::Char(b's')));
    app.on_key(press(Key::Char(b'x')));
    app.on_key(ctrl(Key::Char(b'c')));
    assert!(!app.running);
}

#[test]
fn q_while_searching_is_buffered_and_still_quits() {
    let mut app = App::new();
    app.on_key(press(Key::Char(b's')));
    app.on_key(press(Key::Char(b'q')));
    assert!(!app.running);
    assert_eq!(app.query.text, b"q".to_vec());
}

#[test]
fn unknown_keys_are_no_ops() {
    let mut app = App::new();
    app.on_tick(100, Some(vec![rec(1, "a", 100)]));
    app.display_rows();
    app.on_key(press(Key::Other));
    app.on_key(ctrl(Key::Char(b'x')));
    assert!(app.running);
    assert_eq!(app.mode, ViewMode::Normal);
    assert_eq!(app.selection, 0);
    assert!(app.query.text.is_empty());
}

#[test]
fn toggle_preserves_query_and_forwards_the_toggle_key() {
    let mut app = App::new();
    app.on_key(press(Key::Char(b's')));
    assert_eq!(app.mode, ViewMode::SearchEntry);
    app.on_key(press(Key::Char(b'a')));
    // While searching, `s` is first forwarded to the buffer and then
    // still toggles the mode back.
    app.on_key(press(Key::Char(b's')));
    assert_eq!(app.mode, ViewMode::Normal);
    assert_eq!(app.query.text, b"as".to_vec());
    // Toggling again from normal mode does not clear, nor touch, the
    // buffered query.
    app.on_key(press(Key::Char(b's')));
    assert_eq!(app.mode, ViewMode::SearchEntry);
    assert_eq!(app.query.text, b"as".to_vec());
}

#[test]
fn query_buffer_editing() {
    let mut q = QueryBuffer::new();
    q.apply(press(Key::Char(b'a')));
    q.apply(press(Key::Char(b'c')));
    q.apply(press(Key::Left));
    q.apply(press(Key::Char(b'b')));
    assert_eq!(q.text, b"abc".to_vec());
    assert_eq!(q.cursor, 2);
    q.apply(press(Key::Backspace));
    assert_eq!(q.text, b"ac".to_vec());
    assert_eq!(q.cursor, 1);
    q.apply(press(Key::Right));
    q.apply(press(Key::Right));
    assert_eq!(q.cursor, 2);
    q.apply(press(Key::Left));
    q.apply(press(Key::Left));
    q.apply(press(Key::Left));
    assert_eq!(q.cursor, 0);
    q.apply(press(Key::Backspace));
    assert_eq!(q.text, b"ac".to_vec());
    // Control chords and unknown keys edit nothing.
    q.apply(ctrl(Key::Char(b'a')));
    q.apply(press(Key::Other));
    assert_eq!(q.text, b"ac".to_vec());
}

#[test]
fn navigation_keys_do_not_move_selection_while_searching() {
    let mut app = App::new();
    app.on_tick(0, Some(vec![rec(1, "aj", 100), rec(2, "bj", 300)]));
    app.display_rows();
    app.on_key(press(Key::Char(b's')));
    app.on_key(press(Key::Char(b'j')));
    assert_eq!(app.selection, 0);
    assert_eq!(app.query.text, b"j".to_vec());
}
