use portlist::correlate::{correlate, create_inode_map, find_process};
use portlist::records::{FdTarget, ProcessRecord, SocketEntry, TcpState};
use portlist::services::{build_registry, load_nmap_services};

fn sock(port: u16, inode: u64, state: TcpState, is_ipv6: bool) -> SocketEntry {
    SocketEntry {
        port,
        inode,
        is_ipv6,
        host: String::from(if is_ipv6 { "::1" } else { "127.0.0.1" }),
        state,
    }
}

fn proc_with_sockets(pid: i32, inodes: &[u64]) -> ProcessRecord {
    let mut fds = vec![FdTarget::File, FdTarget::Other];
    for ino in inodes {
        fds.push(FdTarget::Socket(*ino));
    }
    ProcessRecord {
        pid,
        fds,
        name: Some(format!("proc{}", pid)),
        cmdline: Some(vec![format!("/bin/proc{}", pid), String::from("--flag")]),
        cwd: Some(String::from("/tmp")),
        user: Some(String::from("root")),
    }
}

#[test]
fn single_listen_entry_is_correlated() {
    let socks = vec![sock(22, 100, TcpState::Listen, false)];
    let procs = vec![proc_with_sockets(50, &[100])];
    let index = create_inode_map(&procs);
    let reg = load_nmap_services();
    let out = correlate(&socks, &index, &procs, &reg);
    assert_eq!(out.len(), 1);
    let r = &out[0];
    assert_eq!(r.port, 22);
    assert_eq!(r.inode, 100);
    assert_eq!(r.pid, Some(50));
    assert_eq!(r.process, Some(String::from("proc50")));
    assert_eq!(r.full_command, Some(String::from("/bin/proc50 --flag")));
    assert_eq!(r.cwd, Some(String::from("/tmp")));
    assert_eq!(r.user, Some(String::from("root")));
    assert_eq!(r.service, Some(String::from("ssh")));
    assert!(r.is_privileged);
    assert!(!r.is_ipv6);
}

#[test]
fn non_listen_entries_are_discarded() {
    let socks = vec![
        sock(22, 100, TcpState::Established, false),
        sock(23, 101, TcpState::CloseWait, false),
        sock(24, 102, TcpState::Other, false),
    ];
    let procs = vec![proc_with_sockets(50, &[100, 101, 102])];
    let index = create_inode_map(&procs);
    let reg = load_nmap_services();
    let out = correlate(&socks, &index, &procs, &reg);
    assert!(out.is_empty());
}

#[test]
fn unresolved_inode_is_dropped() {
    let socks = vec![
        sock(22, 100, TcpState::Listen, false),
        sock(80, 999, TcpState::Listen, false),
    ];
    let procs = vec![proc_with_sockets(50, &[100])];
    let index = create_inode_map(&procs);
    let reg = load_nmap_services();
    let out = correlate(&socks, &index, &procs, &reg);
    assert_eq!(out.len(), 1);
    assert_eq!(out[0].port, 22);
    for r in &out {
        assert!(r.pid.is_some());
    }
}

#[test]
fn dual_stack_pair_collapses_to_one_record() {
    let socks = vec![
        sock(8080, 100, TcpState::Listen, false),
        sock(8080, 200, TcpState::Listen, true),
    ];
    let procs = vec![proc_with_sockets(50, &[100, 200])];
    let index = create_inode_map(&procs);
    let reg = load_nmap_services();
    let out = correlate(&socks, &index, &procs, &reg);
    assert_eq!(out.len(), 1);
    assert_eq!(out[0].inode, 100, "the first-observed kernel identifier is kept");
    assert!(!out[0].is_ipv6);
}

#[test]
fn distinct_pairs_all_emitted_in_input_order() {
    let socks = vec![
        sock(8080, 100, TcpState::Listen, false),
        sock(8081, 101, TcpState::Listen, false),
        sock(8080, 102, TcpState::Listen, false),
    ];
    let procs = vec![proc_with_sockets(50, &[100, 101]), proc_with_sockets(60, &[102])];
    let index = create_inode_map(&procs);
    let reg = load_nmap_services();
    let out = correlate(&socks, &index, &procs, &reg);
    assert_eq!(out.len(), 3);
    assert_eq!(out[0].port, 8080);
    assert_eq!(out[0].pid, Some(50));
    assert_eq!(out[1].port, 8081);
    assert_eq!(out[1].pid, Some(50));
    assert_eq!(out[2].port, 8080);
    assert_eq!(out[2].pid, Some(60));
    for i in 0..out.len() {
        for j in i + 1..out.len() {
            assert!(!(out[i].port == out[j].port && out[i].pid == out[j].pid));
        }
    }
}

#[test]
fn privileged_flag_matches_port() {
    let socks = vec![
        sock(1023, 100, TcpState::Listen, false),
        sock(1024, 101, TcpState::Listen, false),
    ];
    let procs = vec![proc_with_sockets(50, &[100, 101])];
    let index = create_inode_map(&procs);
    let reg = load_nmap_services();
    let out = correlate(&socks, &index, &procs, &reg);
    assert_eq!(out.len(), 2);
    assert!(out[0].is_privileged);
    assert!(!out[1].is_privileged);
    for r in &out {
        assert_eq!(r.is_privileged, r.port < 1024);
    }
}

#[test]
fn missing_metadata_degrades_fields_only() {
    let socks = vec![sock(8080, 100, TcpState::Listen, false)];
    let procs = vec![ProcessRecord {
        pid: 50,
        fds: vec![FdTarget::Socket(100)],
        name: None,
        cmdline: None,
        cwd: None,
        user: None,
    }];
    let index = create_inode_map(&procs);
    let reg = build_registry("");
    let out = correlate(&socks, &index, &procs, &reg);
    assert_eq!(out.len(), 1);
    let r = &out[0];
    assert_eq!(r.pid, Some(50));
    assert_eq!(r.process, None);
    assert_eq!(r.full_command, None);
    assert_eq!(r.cwd, None);
    assert_eq!(r.user, None);
    assert_eq!(r.service, None);
}

#[test]
fn last_process_in_scan_order_wins_the_inode() {
    let procs = vec![proc_with_sockets(50, &[100]), proc_with_sockets(60, &[100])];
    let index = create_inode_map(&procs);
    assert_eq!(index.get(&100), Some(&60));
    let socks = vec![sock(8080, 100, TcpState::Listen, false)];
    let reg = load_nmap_services();
    let out = correlate(&socks, &index, &procs, &reg);
    assert_eq!(out.len(), 1);
    assert_eq!(out[0].pid, Some(60));
}

#[test]
fn inode_map_ignores_non_socket_descriptors() {
    let procs = vec![ProcessRecord {
        pid: 50,
        fds: vec![FdTarget::File, FdTarget::Other],
        name: None,
        cmdline: None,
        cwd: None,
        user: None,
    }];
    let index = create_inode_map(&procs);
    assert!(index.is_empty());
}

#[test]
fn correlation_is_idempotent_on_identical_snapshots() {
    let make = || {
        let socks = vec![
            sock(22, 100, TcpState::Listen, false),
            sock(8080, 101, TcpState::Listen, false),
            sock(8080, 102, TcpState::Listen, true),
        ];
        let procs = vec![proc_with_sockets(50, &[100, 101, 102])];
        (socks, procs)
    };
    let reg = load_nmap_services();
    let (socks1, procs1) = make();
    let index1 = create_inode_map(&procs1);
    let out1 = correlate(&socks1, &index1, &procs1, &reg);
    let (socks2, procs2) = make();
    let index2 = create_inode_map(&procs2);
    let out2 = correlate(&socks2, &index2, &procs2, &reg);
    assert_eq!(out1, out2);
}

#[test]
fn find_process_returns_first_match() {
    let procs = vec![proc_with_sockets(50, &[]), proc_with_sockets(60, &[])];
    assert_eq!(find_process(&procs, 60).unwrap().pid, 60);
    assert!(find_process(&procs, 70).is_none());
}
