use sshdash::dashboard::{Dashboard, FocusPanel, FocusState, NavDirection};
use sshdash::metrics::MetricType;
use sshdash::session::{SessionData, SessionState};

type Session = SessionData<&'static str, u8>;

fn dashboard(hosts: usize, cols: usize) -> Dashboard<Session> {
    Dashboard::new(vec!["host"; hosts], cols, 80, 24)
}

/// Helper: the panel highlighted after one move.
fn test_move(start: FocusPanel, dir: NavDirection) -> FocusPanel {
    let mut dash = dashboard(1, 1);
    dash.focus_panel = start;
    dash.move_focus(dir);
    dash.focus_panel
}

#[test]
fn sidebar_right_goes_to_disk() {
    assert_eq!(test_move(FocusPanel::Sidebar, NavDirection::Right), FocusPanel::Disk);
}

#[test]
fn sidebar_down_goes_to_terminal() {
    assert_eq!(test_move(FocusPanel::Sidebar, NavDirection::Down), FocusPanel::Terminal);
}

#[test]
fn sidebar_up_is_noop() {
    assert_eq!(test_move(FocusPanel::Sidebar, NavDirection::Up), FocusPanel::Sidebar);
}

#[test]
fn sidebar_left_is_noop() {
    assert_eq!(test_move(FocusPanel::Sidebar, NavDirection::Left), FocusPanel::Sidebar);
}

#[test]
fn disk_left_goes_to_sidebar() {
    assert_eq!(test_move(FocusPanel::Disk, NavDirection::Left), FocusPanel::Sidebar);
}

#[test]
fn disk_right_goes_to_sysinfo() {
    assert_eq!(test_move(FocusPanel::Disk, NavDirection::Right), FocusPanel::SysInfo);
}

#[test]
fn disk_down_goes_to_main() {
    assert_eq!(test_move(FocusPanel::Disk, NavDirection::Down), FocusPanel::Main);
}

#[test]
fn sysinfo_left_goes_to_disk() {
    assert_eq!(test_move(FocusPanel::SysInfo, NavDirection::Left), FocusPanel::Disk);
}

#[test]
fn sysinfo_down_goes_to_main() {
    assert_eq!(test_move(FocusPanel::SysInfo, NavDirection::Down), FocusPanel::Main);
}

#[test]
fn sysinfo_right_is_noop() {
    assert_eq!(test_move(FocusPanel::SysInfo, NavDirection::Right), FocusPanel::SysInfo);
}

#[test]
fn main_left_goes_to_sidebar() {
    assert_eq!(test_move(FocusPanel::Main, NavDirection::Left), FocusPanel::Sidebar);
}

#[test]
fn main_up_goes_to_disk() {
    assert_eq!(test_move(FocusPanel::Main, NavDirection::Up), FocusPanel::Disk);
}

#[test]
fn main_down_goes_to_terminal() {
    assert_eq!(test_move(FocusPanel::Main, NavDirection::Down), FocusPanel::Terminal);
}

#[test]
fn terminal_up_goes_to_main() {
    assert_eq!(test_move(FocusPanel::Terminal, NavDirection::Up), FocusPanel::Main);
}

#[test]
fn terminal_down_is_noop() {
    assert_eq!(test_move(FocusPanel::Terminal, NavDirection::Down), FocusPanel::Terminal);
}

#[test]
fn terminal_left_is_noop() {
    assert_eq!(test_move(FocusPanel::Terminal, NavDirection::Left), FocusPanel::Terminal);
}

#[test]
fn terminal_right_is_noop() {
    assert_eq!(test_move(FocusPanel::Terminal, NavDirection::Right), FocusPanel::Terminal);
}

#[test]
fn disk_and_sysinfo_up_are_noops() {
    assert_eq!(test_move(FocusPanel::Disk, NavDirection::Up), FocusPanel::Disk);
    assert_eq!(test_move(FocusPanel::SysInfo, NavDirection::Up), FocusPanel::SysInfo);
    assert_eq!(test_move(FocusPanel::Main, NavDirection::Right), FocusPanel::Main);
}

#[test]
fn down_twice_leads_to_the_terminal() {
    let mut dash = dashboard(1, 1);
    dash.focus_panel = FocusPanel::SysInfo;
    dash.move_focus(NavDirection::Down);
    dash.move_focus(NavDirection::Down);
    assert_eq!(dash.focus_panel, FocusPanel::Terminal);
}

#[test]
fn right_and_left_come_back() {
    let mut dash = dashboard(1, 1);
    dash.focus_panel = FocusPanel::Disk;
    dash.move_focus(NavDirection::Right);
    dash.move_focus(NavDirection::Left);
    assert_eq!(dash.focus_panel, FocusPanel::Disk);
}

#[test]
fn new_dashboard_is_in_grid_view() {
    let dash: Dashboard<Session> = Dashboard::new(vec!["a", "b", "c"], 2, 80, 24);
    assert_eq!(dash.total(), 3);
    assert_eq!(dash.cols, 2);
    assert_eq!(dash.selected, 0);
    assert_eq!(dash.focused, None);
    assert_eq!(dash.password_input, "");
    assert!(!dash.entering_password);
    assert_eq!((dash.term_cols, dash.term_rows), (80, 24));
    assert_eq!(dash.active_metric, MetricType::Cpu);
    assert_eq!(dash.focus_panel, FocusPanel::Terminal);
    assert_eq!(dash.focus_state, FocusState::PanelSelect);
}

#[test]
fn new_sessions_have_the_terminal_size_less_the_frame() {
    let dash: Dashboard<Session> = Dashboard::new(vec!["a", "b"], 2, 80, 24);
    assert_eq!(dash.sessions[0].host, "a");
    assert_eq!(dash.sessions[1].host, "b");
    for session in &dash.sessions {
        assert_eq!(session.screen.screen().size(), (21, 78));
        assert_eq!(session.screen.screen().contents(), "");
        assert!(matches!(session.state, SessionState::Idle));
        assert!(session.input_tx.is_none());
    }
}

#[test]
fn narrow_terminals_saturate() {
    let dash: Dashboard<Session> = Dashboard::new(vec!["a"], 1, 1, 4);
    assert_eq!(dash.sessions[0].screen.screen().size(), (1, 0));
}

#[test]
fn no_hosts_need_no_screen() {
    let dash: Dashboard<Session> = Dashboard::new(vec![], 3, 0, 0);
    assert_eq!(dash.total(), 0);
    assert_eq!(dash.rows(), 0);
}

#[test]
fn rows_round_up() {
    assert_eq!(dashboard(5, 2).rows(), 3);
    assert_eq!(dashboard(4, 2).rows(), 2);
    assert_eq!(dashboard(1, 4).rows(), 1);
}

#[test]
fn grid_moves_stop_at_the_edges() {
    let mut dash = dashboard(5, 2);
    dash.move_up();
    assert_eq!(dash.selected, 0);
    dash.move_left();
    assert_eq!(dash.selected, 0);
    dash.move_down();
    assert_eq!(dash.selected, 2);
    dash.move_down();
    assert_eq!(dash.selected, 4);
    dash.move_down();
    assert_eq!(dash.selected, 4);
    dash.move_right();
    assert_eq!(dash.selected, 4);
    dash.move_left();
    assert_eq!(dash.selected, 3);
    dash.move_down();
    assert_eq!(dash.selected, 3);
    dash.move_up();
    assert_eq!(dash.selected, 1);
}

#[test]
fn opposite_moves_undo_each_other() {
    let mut dash = dashboard(6, 3);
    dash.selected = 1;
    dash.move_down();
    dash.move_up();
    dash.move_right();
    dash.move_left();
    assert_eq!(dash.selected, 1);
}

#[test]
fn vertical_moves_keep_the_column() {
    let mut dash = dashboard(9, 3);
    dash.selected = 5;
    dash.move_down();
    assert_eq!((dash.selected / 3, dash.selected % 3), (2, 2));
    dash.move_up();
    dash.move_up();
    assert_eq!((dash.selected / 3, dash.selected % 3), (0, 2));
    assert!(dash.selected / 3 < dash.rows());
}

#[test]
fn an_empty_grid_has_nothing_to_move_to() {
    let mut dash = dashboard(0, 2);
    dash.move_right();
    dash.move_down();
    assert_eq!(dash.selected, 0);
}

#[test]
fn focus_leaves_a_connected_session_alone() {
    let mut dash = dashboard(2, 2);
    dash.selected = 1;
    dash.focus_panel = FocusPanel::Disk;
    dash.focus_state = FocusState::PanelFocused;
    let mut data: Session = SessionData::new("b", 10, 5);
    data.state = SessionState::Active;
    data.input_tx = Some(7);
    data.screen.process(b"hello");
    assert!(!dash.focus(&mut data));
    assert_eq!(dash.focused, Some(1));
    assert_eq!(dash.focus_panel, FocusPanel::Terminal);
    assert_eq!(dash.focus_state, FocusState::PanelSelect);
    assert!(matches!(data.state, SessionState::Active));
    assert_eq!(data.input_tx, Some(7));
    assert_eq!(data.screen.screen().contents(), "hello");
}

#[test]
fn focus_resets_a_disconnected_session() {
    let mut dash = dashboard(2, 2);
    let mut data: Session = SessionData::new("a", 10, 5);
    data.state = SessionState::Disconnected("broken pipe".to_string());
    data.input_tx = Some(7);
    data.screen.process(b"hello");
    assert!(dash.focus(&mut data));
    assert_eq!(dash.focused, Some(0));
    assert_eq!(data.host, "a");
    assert!(matches!(data.state, SessionState::Idle));
    assert!(data.input_tx.is_none());
    assert_eq!(data.screen.screen().contents(), "");
    assert_eq!(data.screen.screen().size(), (21, 78));
}

#[test]
fn blank_screens_keep_two_hundred_lines() {
    let mut data: Session = SessionData::new("a", 10, 2);
    for _ in 0..500 {
        data.screen.process(b"line\r\n");
    }
    data.screen.set_scrollback(1000);
    assert_eq!(data.screen.screen().scrollback(), 200);
}

#[test]
fn unfocus_undoes_focus() {
    let mut dash = dashboard(2, 2);
    dash.selected = 1;
    let mut data: Session = SessionData::new("b", 10, 5);
    dash.focus(&mut data);
    dash.move_focus(NavDirection::Up);
    dash.focus_state = FocusState::PanelFocused;
    dash.entering_password = true;
    dash.password_input = "sec".to_string();
    dash.unfocus();
    assert_eq!(dash.focused, None);
    assert_eq!(dash.selected, 1);
    assert!(!dash.entering_password);
    assert_eq!(dash.password_input, "");
    assert_eq!(dash.focus_panel, FocusPanel::Terminal);
    assert_eq!(dash.focus_state, FocusState::PanelSelect);
}

#[test]
fn input_goes_to_the_focused_session_only() {
    let mut dash = dashboard(3, 3);
    assert!(dash.send_input(vec![1, 2]).is_none());
    dash.focused = Some(2);
    let delivery = dash.send_input(vec![1, 2]).unwrap();
    assert_eq!(delivery.session, 2);
    assert_eq!(delivery.bytes, vec![1, 2]);
}

#[test]
fn a_session_without_a_channel_takes_no_input() {
    let mut data: Session = SessionData::new("a", 10, 5);
    assert!(data.outgoing(vec![1]).is_none());
    data.input_tx = Some(9);
    assert_eq!(data.outgoing(vec![1]), Some((&9, vec![1])));
}

#[test]
fn a_password_is_sent_as_one_line_and_forgotten() {
    let mut dash = dashboard(3, 3);
    dash.focused = Some(1);
    dash.entering_password = true;
    dash.password_input = "p\u{e4}ss".to_string();
    let delivery = dash.submit_password().unwrap();
    assert_eq!(delivery.session, 1);
    assert_eq!(delivery.bytes, "p\u{e4}ss\n".as_bytes().to_vec());
    assert_eq!(dash.password_input, "");
    assert!(!dash.entering_password);
    assert_eq!(dash.focused, Some(1));
    assert_eq!(dash.submit_password().unwrap().bytes, vec![b'\n']);
}

#[test]
fn a_password_without_a_focused_session_is_forgotten() {
    let mut dash = dashboard(1, 1);
    dash.entering_password = true;
    dash.password_input = "pw".to_string();
    assert!(dash.submit_password().is_none());
    assert_eq!(dash.password_input, "");
    assert!(!dash.entering_password);
}

#[test]
fn a_password_stays_until_it_is_forgotten() {
    let mut dash = dashboard(2, 2);
    dash.password_input = "pw".to_string();
    dash.entering_password = true;
    assert!(dash.password_delivery().is_none());
    dash.focused = Some(1);
    let delivery = dash.password_delivery().unwrap();
    assert_eq!(delivery.session, 1);
    assert_eq!(delivery.bytes, b"pw\n".to_vec());
    assert_eq!(dash.password_input, "pw");
    assert!(dash.entering_password);
    dash.forget_password();
    assert_eq!(dash.password_input, "");
    assert!(!dash.entering_password);
    assert_eq!(dash.focused, Some(1));
}

#[test]
fn other_sessions_leave_the_rest_alone() {
    let mut dash = dashboard(3, 2);
    dash.selected = 1;
    dash.focused = Some(2);
    dash.password_input = "pw".to_string();
    dash.entering_password = true;
    dash.active_metric = MetricType::Net;
    dash.focus_panel = FocusPanel::Disk;
    dash.focus_state = FocusState::PanelFocused;
    dash.sessions.clear();
    let dash = dash.with_sessions(vec!['a', 'b', 'c']);
    assert_eq!(dash.sessions, vec!['a', 'b', 'c']);
    assert_eq!(dash.cols, 2);
    assert_eq!(dash.selected, 1);
    assert_eq!(dash.focused, Some(2));
    assert_eq!(dash.password_input, "pw");
    assert!(dash.entering_password);
    assert_eq!(dash.term_cols, 80);
    assert_eq!(dash.term_rows, 24);
    assert_eq!(dash.active_metric, MetricType::Net);
    assert_eq!(dash.focus_panel, FocusPanel::Disk);
    assert_eq!(dash.focus_state, FocusState::PanelFocused);
}

#[test]
fn metrics_cycle() {
    let mut dash = dashboard(1, 1);
    dash.cycle_metric();
    assert_eq!(dash.active_metric, MetricType::Mem);
    dash.cycle_metric();
    assert_eq!(dash.active_metric, MetricType::Net);
    dash.cycle_metric();
    assert_eq!(dash.active_metric, MetricType::Cpu);
    dash.set_metric(MetricType::Net);
    assert_eq!(dash.active_metric, MetricType::Net);
}
