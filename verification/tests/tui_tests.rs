//! The dashboard state machine and the rendered frame.

use testsuite::connections::handle_message;
use testsuite::connections::ConnectionLog;
use testsuite::message::Message;
use testsuite::message::Peer;
use testsuite::tui::elements::AddressList;
use testsuite::tui::elements::DetailWindow;
use testsuite::tui::elements::ProgramHeader;
use testsuite::tui::elements::StyleVariants;
use testsuite::tui::InputEvent;
use testsuite::tui::InputOutcome;
use testsuite::tui::Rect;
use testsuite::tui::Screen;
use testsuite::tui::Select;
use testsuite::tui::TuiState;

fn log_with(peers: &[&str]) -> ConnectionLog {
    let mut log = ConnectionLog::new();
    for ip in peers {
        handle_message(
            Message::ConnectionReceived(Some(Peer::new(ip.to_string(), 1))),
            &mut log,
        );
    }
    log
}

fn state_with(peers: &[&str]) -> TuiState {
    TuiState::new(Rect::new((1, 20), (1, 6)), log_with(peers))
}

#[test]
fn new_state_shows_address_list() {
    let s = state_with(&[]);
    assert_eq!(s.history.current, (Screen::List, Select::Addr(0)));
    assert!(!s.needs_update);
    assert_eq!(s.screen, Screen::List);
}

#[test]
fn enter_on_empty_log_stays_on_list() {
    let mut s = state_with(&[]);
    let out = s.handle_input(&InputEvent::Enter);
    assert!(matches!(out, InputOutcome::Continue));
    assert_eq!(s.history.current, (Screen::List, Select::Addr(0)));
}

#[test]
fn enter_descends_to_details_then_detail() {
    let mut s = state_with(&["10.0.0.1"]);
    s.handle_input(&InputEvent::Enter);
    assert_eq!(s.history.current, (Screen::Details, Select::Member(0)));
    s.handle_input(&InputEvent::Enter);
    assert_eq!(s.history.current, (Screen::Detail, Select::Unselectable));
    s.handle_input(&InputEvent::Enter);
    assert_eq!(s.history.current, (Screen::Detail, Select::Unselectable));
}

#[test]
fn escape_climbs_back_and_bottoms_out() {
    let mut s = state_with(&["10.0.0.1"]);
    s.handle_input(&InputEvent::Enter);
    s.handle_input(&InputEvent::Enter);
    s.handle_input(&InputEvent::Escape);
    assert_eq!(s.history.current, (Screen::Details, Select::Member(0)));
    s.handle_input(&InputEvent::Escape);
    assert_eq!(s.history.current, (Screen::List, Select::Addr(0)));
    s.handle_input(&InputEvent::Escape);
    assert_eq!(s.history.current, (Screen::List, Select::Addr(0)));
}

#[test]
fn down_clamps_to_peer_count() {
    let mut s = state_with(&["a", "b", "c"]);
    assert_eq!(s.get_max_select_size(), 2);
    s.handle_input(&InputEvent::Down);
    assert_eq!(s.history.current.1, Select::Addr(1));
    s.handle_input(&InputEvent::Down);
    s.handle_input(&InputEvent::Down);
    s.handle_input(&InputEvent::Down);
    assert_eq!(s.history.current.1, Select::Addr(2));
    s.handle_input(&InputEvent::Up);
    assert_eq!(s.history.current.1, Select::Addr(1));
}

#[test]
fn max_select_on_details_counts_entries() {
    let mut log = log_with(&["x"]);
    handle_message(Message::ConnectionReceived(Some(Peer::new("x".to_string(), 2))), &mut log);
    let mut s = TuiState::new(Rect::new((1, 20), (1, 6)), log);
    s.handle_input(&InputEvent::Enter);
    assert_eq!(s.get_max_select_size(), 1);
}

#[test]
fn ctrl_c_asks_for_exit_without_moving() {
    let mut s = state_with(&["a"]);
    let out = s.handle_input(&InputEvent::CtrlC);
    assert!(matches!(out, InputOutcome::Exit));
    assert_eq!(s.history.current, (Screen::List, Select::Addr(0)));
}

#[test]
fn resize_replaces_window_geometry() {
    let mut s = state_with(&[]);
    s.handle_input(&InputEvent::Resize(80, 24));
    assert_eq!(s.window_size.cols, (0, 80));
    assert_eq!(s.window_size.rows, (0, 24));
}

#[test]
fn inert_inputs_change_nothing() {
    let mut s = state_with(&["a"]);
    for e in [
        InputEvent::Left,
        InputEvent::Right,
        InputEvent::OtherKey,
        InputEvent::FocusGained,
        InputEvent::FocusLost,
        InputEvent::Mouse,
        InputEvent::Paste,
    ] {
        let out = s.handle_input(&e);
        assert!(matches!(out, InputOutcome::Continue));
        assert_eq!(s.history.current, (Screen::List, Select::Addr(0)));
    }
}

#[test]
fn refresh_swaps_cache_and_clears_mark() {
    let mut s = state_with(&[]);
    s.needs_update = true;
    s.refresh(log_with(&["fresh"]));
    assert!(!s.needs_update);
    assert_eq!(s.connections_cache.len(), 1);
}

#[test]
fn frame_starts_with_centered_title() {
    let s = state_with(&[]);
    let frame = s.render();
    assert_eq!(frame[0].col, 0);
    assert_eq!(frame[0].row, 0);
    assert_eq!(frame[0].line.text, "     Testsuite      ");
    assert!(matches!(frame[0].line.style, StyleVariants::Title));
}

#[test]
fn list_frame_shows_peers_padded_and_selected() {
    let s = state_with(&["1.2.3.4"]);
    let frame = s.render();
    assert_eq!(frame[1].row, 1);
    assert_eq!(frame[1].line.text, "      Address       ");
    assert!(matches!(frame[1].line.style, StyleVariants::Header(true)));
    assert_eq!(frame[2].row, 2);
    assert_eq!(frame[2].line.text, "1.2.3.4             ");
    assert!(matches!(frame[2].line.style, StyleVariants::Selected(true)));
    assert_eq!(frame[3].line.text, "                    ");
    assert!(matches!(frame[3].line.style, StyleVariants::Selected(false)));
    assert_eq!(frame.last().unwrap().row, 5);
}

#[test]
fn render_reclamps_selection_to_shrunken_list() {
    let mut s = state_with(&["a", "b"]);
    s.history.current = (Screen::List, Select::Addr(9));
    let frame = s.render();
    let a_row = frame.iter().find(|p| p.line.text.starts_with("a ")).unwrap();
    assert!(matches!(a_row.line.style, StyleVariants::Selected(false)));
    let b_row = frame.iter().find(|p| p.line.text.starts_with("b ")).unwrap();
    assert!(matches!(b_row.line.style, StyleVariants::Selected(true)));
}

#[test]
fn details_render_reclamps_both_panes() {
    let mut s = TuiState::new(
        Rect::new((1, 60), (1, 8)),
        log_with(&["1.1.1.1", "2.2.2.2"]),
    );
    s.history.current = (Screen::List, Select::Addr(9));
    s.history.push((Screen::Details, Select::Member(9)));
    let frame = s.render();
    let first = frame.iter().find(|p| p.line.text.starts_with("1.1.1.1")).unwrap();
    assert!(matches!(first.line.style, StyleVariants::Selected(false)));
    let second = frame.iter().find(|p| p.line.text.starts_with("2.2.2.2")).unwrap();
    assert!(matches!(second.line.style, StyleVariants::Selected(true)));
    let entry = frame
        .iter()
        .find(|p| p.line.text.contains("Established connection"))
        .unwrap();
    assert!(matches!(entry.line.style, StyleVariants::Selected(true)));
}

#[test]
fn identical_states_render_identical_frames() {
    let a = state_with(&["1.2.3.4", "5.6.7.8"]);
    let b = state_with(&["1.2.3.4", "5.6.7.8"]);
    let fa = a.render();
    let fb = b.render();
    assert_eq!(fa.len(), fb.len());
    for (x, y) in fa.iter().zip(fb.iter()) {
        assert_eq!(x.col, y.col);
        assert_eq!(x.row, y.row);
        assert_eq!(x.line.text, y.line.text);
        assert_eq!(x.line.style, y.line.style);
    }
}

#[test]
fn details_frame_shows_both_panes() {
    let mut s = TuiState::new(Rect::new((1, 40), (1, 6)), log_with(&["9.9.9.9"]));
    s.handle_input(&InputEvent::Enter);
    let frame = s.render();
    let address_header = frame.iter().find(|p| p.line.text.contains("Address")).unwrap();
    assert!(matches!(address_header.line.style, StyleVariants::Header(false)));
    let connections_header = frame.iter().find(|p| p.line.text.contains("Connections")).unwrap();
    assert!(matches!(connections_header.line.style, StyleVariants::Header(true)));
    assert!(frame.iter().any(|p| p.line.text.contains("Established connection")));
}

#[test]
fn detail_frame_shows_entry_text_under_peer_header() {
    let mut s = TuiState::new(Rect::new((1, 30), (1, 8)), log_with(&["9.9.9.9"]));
    s.handle_input(&InputEvent::Enter);
    s.handle_input(&InputEvent::Enter);
    let frame = s.render();
    assert!(frame.iter().any(|p| p.line.text.contains("9.9.9.9")));
    assert!(frame.iter().any(|p| p.line.text.contains("Established connection")));
}

#[test]
fn address_list_truncates_to_height() {
    let bounds = Rect::new((0, 10), (1, 4));
    let list = AddressList::default(
        bounds,
        vec!["a".to_string(), "b".to_string(), "c".to_string(), "d".to_string(), "e".to_string()],
        true,
        0,
    );
    let lines = list.print();
    assert_eq!(lines.len(), 3);
    let placed = list.render();
    assert_eq!(placed.len(), 3);
    assert_eq!(placed[0].row, 1);
    assert_eq!(placed[placed.len() - 1].row, 3);
}

#[test]
fn detail_window_keeps_leading_spaces() {
    let bounds = Rect::new((0, 8), (1, 5));
    let w = DetailWindow::default(
        bounds,
        vec!["  in".to_string()],
        true,
        "peer".to_string(),
    );
    let lines = w.print();
    assert_eq!(lines[0].text, "  in    ");
    assert!(matches!(lines[0].style, StyleVariants::Selected(false)));
}

#[test]
fn program_header_renders_at_origin() {
    let h = ProgramHeader { bounds: Rect::new((0, 11), (0, 0)) };
    let placed = h.render();
    assert_eq!(placed.len(), 1);
    assert_eq!((placed[0].col, placed[0].row), (0, 0));
    assert_eq!(placed[0].line.text, " Testsuite ");
}
