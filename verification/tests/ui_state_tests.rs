use portlist::records::PortInfo;
use portlist::ui_state::AppState;

fn record(port: u16) -> PortInfo {
    PortInfo {
        port,
        inode: port as u64,
        is_ipv6: false,
        host: String::from("127.0.0.1"),
        pid: Some(1),
        process: None,
        full_command: None,
        cwd: None,
        service: None,
        is_privileged: port < 1024,
        user: None,
    }
}

fn records(n: u16) -> Vec<PortInfo> {
    (0..n).map(record).collect()
}

#[test]
fn new_state_starts_at_origin() {
    let s = AppState::new(records(5));
    assert_eq!(s.scroll_position, 0);
    assert_eq!(s.horizontal_scroll, 0);
    assert_eq!(s.ports.len(), 5);
}

#[test]
fn scroll_down_stops_at_last_record() {
    let mut s = AppState::new(records(3));
    s.scroll_down();
    s.scroll_down();
    s.scroll_down();
    s.scroll_down();
    assert_eq!(s.scroll_position, 2);
}

#[test]
fn scroll_up_stops_at_zero() {
    let mut s = AppState::new(records(3));
    s.scroll_down();
    s.scroll_up();
    s.scroll_up();
    assert_eq!(s.scroll_position, 0);
}

#[test]
fn horizontal_scroll_moves_and_clamps() {
    let mut s = AppState::new(records(1));
    s.scroll_left();
    assert_eq!(s.horizontal_scroll, 0);
    s.scroll_right();
    s.scroll_right();
    assert_eq!(s.horizontal_scroll, 2);
    s.scroll_left();
    assert_eq!(s.horizontal_scroll, 1);
}

#[test]
fn page_movement_clamps_to_window() {
    let mut s = AppState::new(records(10));
    s.page_down(4);
    assert_eq!(s.scroll_position, 4);
    s.page_down(4);
    assert_eq!(s.scroll_position, 6, "clamped to len - visible");
    s.page_up(4);
    assert_eq!(s.scroll_position, 2);
    s.page_up(4);
    assert_eq!(s.scroll_position, 0);
}

#[test]
fn home_and_end_jump() {
    let mut s = AppState::new(records(10));
    s.scroll_end(3);
    assert_eq!(s.scroll_position, 7);
    s.scroll_home();
    assert_eq!(s.scroll_position, 0);
    s.scroll_end(20);
    assert_eq!(s.scroll_position, 0, "window larger than the records");
}

#[test]
fn clamp_to_view_pulls_offset_back() {
    let mut s = AppState::new(records(10));
    s.scroll_end(1);
    assert_eq!(s.scroll_position, 9);
    s.clamp_to_view(4);
    assert_eq!(s.scroll_position, 6);
    s.clamp_to_view(4);
    assert_eq!(s.scroll_position, 6);
}

#[test]
fn set_ports_adjusts_scroll_on_shrink() {
    let mut s = AppState::new(records(10));
    s.scroll_end(1);
    assert_eq!(s.scroll_position, 9);
    s.set_ports(records(4));
    assert_eq!(s.scroll_position, 3);
    s.set_ports(records(0));
    assert_eq!(s.scroll_position, 0);
}
