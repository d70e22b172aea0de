use portlist::records::{ScanError, TcpState};
use portlist::scan::{get_listening_ports, tcp_entrys};
use portlist::services::load_nmap_services;
use portlist::{is_privileged_port, PRIVILEGED_PORT_BOUND};

#[test]
fn privileged_bound() {
    assert_eq!(PRIVILEGED_PORT_BOUND, 1024);
    assert!(is_privileged_port(0));
    assert!(is_privileged_port(1023));
    assert!(!is_privileged_port(1024));
    assert!(!is_privileged_port(65535));
}

#[test]
fn error_messages() {
    assert_eq!(ScanError::InvalidMethod.message(), "Invalid method specified");
    assert_eq!(ScanError::RemoteUnavailable.message(), "Remote method is not enabled");
    assert_eq!(ScanError::SocketTable.message(), "Failed to read the TCP socket tables");
    assert_eq!(ScanError::ProcessList.message(), "Failed to enumerate processes");
}

#[test]
fn invalid_method_is_rejected() {
    let reg = load_nmap_services();
    let r = get_listening_ports(&String::from("bogus"), &reg);
    assert_eq!(r.unwrap_err(), ScanError::InvalidMethod);
}

#[test]
fn remote_method_is_unavailable() {
    let reg = load_nmap_services();
    let r = get_listening_ports(&String::from("remote"), &reg);
    assert_eq!(r.unwrap_err(), ScanError::RemoteUnavailable);
}

#[test]
fn local_scan_records_satisfy_invariants() {
    let reg = load_nmap_services();
    match get_listening_ports(&String::from("local"), &reg) {
        Ok(records) => {
            for r in &records {
                assert_eq!(r.is_privileged, r.port < 1024);
                assert!(r.pid.is_some());
            }
            for i in 0..records.len() {
                for j in i + 1..records.len() {
                    assert!(
                        !(records[i].port == records[j].port && records[i].pid == records[j].pid)
                    );
                }
            }
        },
        Err(e) => {
            assert!(e == ScanError::SocketTable || e == ScanError::ProcessList);
        },
    }
}

#[test]
fn tcp_entrys_yields_only_listening_entries() {
    match tcp_entrys() {
        Ok(entries) => {
            for e in &entries {
                assert_eq!(e.state, TcpState::Listen);
            }
        },
        Err(e) => {
            assert_eq!(e, ScanError::SocketTable);
        },
    }
}
