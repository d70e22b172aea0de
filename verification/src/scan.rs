//! The scan: reads the kernel's TCP socket tables and the process
//! snapshot through the operating system, then correlates them. Only the
//! reads themselves are trusted; everything around them is verified.

use vstd::prelude::*;

use crate::correlate::{correlate, create_inode_map, lemma_correlate_dedup,
    lemma_correlate_drop_policy, lemma_correlate_privileged, lemma_correlate_service,
    spec_service_name};
use crate::records::{FdTarget, PortInfo, PortInfoView, ProcessRecord, ScanError, SocketEntry,
    TcpState};
use crate::services::{ServiceRegistry, ServiceView};
use crate::text::str_eq;
use crate::PRIVILEGED_PORT_BOUND;

verus! {

#[verifier::external_type_specification]
#[verifier::external_body]
pub struct ExProcess(procfs::process::Process);

#[verifier::external_type_specification]
#[verifier::external_body]
pub struct ExTcpNetEntry(procfs::net::TcpNetEntry);

/// Relies on procfs::net::tcp: the IPv4 TCP socket table, one entry per
/// socket, read from the kernel. What comes back depends on the host, so
/// nothing is claimed of the entries; a failure to read the table at all
/// is the socket-table error.
#[verifier::external_body]
fn read_tcp_table() -> (r: Result<Vec<SocketEntry>, ScanError>)
    ensures
        r matches Err(e) ==> e == ScanError::SocketTable,
{
    match procfs::net::tcp() {
        Ok(entries) => Ok(entries.into_iter().map(conv_entry).collect()),
        Err(_) => Err(ScanError::SocketTable),
    }
}

/// Relies on procfs::net::tcp6: the IPv6 TCP socket table, as
/// `read_tcp_table` reads the IPv4 one.
#[verifier::external_body]
fn read_tcp6_table() -> (r: Result<Vec<SocketEntry>, ScanError>)
    ensures
        r matches Err(e) ==> e == ScanError::SocketTable,
{
    match procfs::net::tcp6() {
        Ok(entries) => Ok(entries.into_iter().map(conv_entry).collect()),
        Err(_) => Err(ScanError::SocketTable),
    }
}

/// Relies on the fields of procfs_core::net::TcpNetEntry: copies port,
/// kernel socket identifier, address family, address text and state into
/// plain values, one for one.
#[verifier::external_body]
fn conv_entry(e: procfs::net::TcpNetEntry) -> (r: SocketEntry)
{
    SocketEntry {
        port: e.local_address.port(),
        inode: e.inode,
        is_ipv6: e.local_address.is_ipv6(),
        host: e.local_address.ip().to_string(),
        state: match e.state {
            procfs::net::TcpState::Listen => TcpState::Listen,
            procfs::net::TcpState::Established => TcpState::Established,
            procfs::net::TcpState::CloseWait => TcpState::CloseWait,
            _ => TcpState::Other,
        },
    }
}

/// Relies on procfs::process::all_processes: every process visible under
/// the process filesystem right now; one that vanished while being listed
/// is skipped.
#[verifier::external_body]
fn list_processes() -> (r: Result<Vec<procfs::process::Process>, ScanError>)
    ensures
        r matches Err(e) ==> e == ScanError::ProcessList,
{
    match procfs::process::all_processes() {
        Ok(iter) => Ok(iter.filter_map(|p| p.ok()).collect()),
        Err(_) => Err(ScanError::ProcessList),
    }
}

/// Relies on the pid field of procfs::process::Process.
#[verifier::external_body]
fn proc_pid(p: &procfs::process::Process) -> (r: i32)
{
    p.pid
}

/// Relies on procfs::process::Process::fd: the open file descriptors of
/// one process, each target reduced to its kind; a process whose table
/// cannot be read (gone, or permission denied) yields the empty list.
#[verifier::external_body]
fn proc_fd_targets(p: &procfs::process::Process) -> (r: Vec<FdTarget>)
{
    match p.fd() {
        Ok(iter) => iter.filter_map(|f| f.ok()).map(|f| match f.target {
            procfs::process::FDTarget::Socket(ino) => FdTarget::Socket(ino),
            procfs::process::FDTarget::Path(_) => FdTarget::File,
            _ => FdTarget::Other,
        }).collect(),
        Err(_) => Vec::new(),
    }
}

/// Relies on procfs::process::Process::stat: the short command name, or
/// nothing when the process is gone or unreadable.
#[verifier::external_body]
fn proc_comm(p: &procfs::process::Process) -> (r: Option<String>)
{
    p.stat().ok().map(|s| s.comm)
}

/// Relies on procfs::process::Process::cmdline: the command line, one
/// argument per element, or nothing when unreadable.
#[verifier::external_body]
fn proc_cmdline(p: &procfs::process::Process) -> (r: Option<Vec<String>>)
{
    p.cmdline().ok()
}

/// Relies on procfs::process::Process::cwd: the working directory, or
/// nothing when unreadable or not valid text.
#[verifier::external_body]
fn proc_cwd(p: &procfs::process::Process) -> (r: Option<String>)
{
    p.cwd().ok().and_then(|path| path.into_os_string().into_string().ok())
}

/// Relies on procfs::process::Process::uid: the owning user id, or
/// nothing when unreadable.
#[verifier::external_body]
fn proc_uid(p: &procfs::process::Process) -> (r: Option<u32>)
{
    p.uid().ok()
}

/// Relies on users::get_user_by_uid: the name of the user with this id,
/// or nothing when the id is unknown or the name is not valid text.
#[verifier::external_body]
fn lookup_user_name(uid: u32) -> (r: Option<String>)
{
    users::get_user_by_uid(uid).and_then(|u| u.name().to_os_string().into_string().ok())
}

/// Reads one process's snapshot record: its descriptors and metadata,
/// each metadata field absent when its read fails.
fn read_process_record(p: &procfs::process::Process) -> ProcessRecord {
    let uid = proc_uid(p);
    let user = match uid {
        Some(id) => lookup_user_name(id),
        None => None,
    };
    ProcessRecord {
        pid: proc_pid(p),
        fds: proc_fd_targets(p),
        name: proc_comm(p),
        cmdline: proc_cmdline(p),
        cwd: proc_cwd(p),
        user,
    }
}

/// Reads the full process snapshot: one record per visible process.
/// Fails only when the process list itself cannot be enumerated.
fn read_process_snapshot() -> (r: Result<Vec<ProcessRecord>, ScanError>)
    ensures
        r is Err ==> r == Err::<Vec<ProcessRecord>, ScanError>(ScanError::ProcessList),
{
    let procs = match list_processes() {
        Ok(procs) => procs,
        Err(_) => {
            return Err(ScanError::ProcessList);
        },
    };
    let mut records: Vec<ProcessRecord> = Vec::new();
    let mut i: usize = 0;
    while i < procs.len()
        decreases procs.len() - i,
    {
        let rec = read_process_record(&procs[i]);
        records.push(rec);
        i += 1;
    }
    Ok(records)
}

/// The entries of `s` in `Listen` state, in order.
pub open spec fn spec_listen_only(s: Seq<SocketEntry>) -> Seq<SocketEntry>
    decreases s.len(),
{
    if s.len() == 0 {
        Seq::empty()
    } else if s[0].state == TcpState::Listen {
        seq![s[0]] + spec_listen_only(s.drop_first())
    } else {
        spec_listen_only(s.drop_first())
    }
}

/// Every retained entry is in `Listen` state.
proof fn lemma_listen_only_all(s: Seq<SocketEntry>)
    ensures
        forall|i: int|
            0 <= i < spec_listen_only(s).len() ==> (#[trigger] spec_listen_only(s)[i]).state
                == TcpState::Listen,
    decreases s.len(),
{
    if s.len() == 0 {
    } else {
        lemma_listen_only_all(s.drop_first());
        if s[0].state == TcpState::Listen {
            assert forall|i: int|
                0 <= i < spec_listen_only(s).len() implies (#[trigger] spec_listen_only(
                s,
            )[i]).state == TcpState::Listen by {
                if i > 0 {
                    assert(spec_listen_only(s)[i] == spec_listen_only(s.drop_first())[i - 1]);
                }
            }
        }
    }
}

/// Copies one socket entry.
fn clone_socket_entry(e: &SocketEntry) -> (r: SocketEntry)
    ensures
        r == *e,
{
    SocketEntry {
        port: e.port,
        inode: e.inode,
        is_ipv6: e.is_ipv6,
        host: e.host.clone(),
        state: e.state,
    }
}

/// Appends every `Listen` entry of `src` to `dst`, keeping their order.
fn push_listening(dst: &mut Vec<SocketEntry>, src: &Vec<SocketEntry>)
    ensures
        final(dst)@ == old(dst)@ + spec_listen_only(src@),
{
    let ghost sv = src@;
    let mut i: usize = 0;
    proof {
        assert(sv.skip(0) =~= sv);
    }
    while i < src.len()
        invariant
            0 <= i <= src@.len(),
            sv == src@,
            old(dst)@ + spec_listen_only(sv) == dst@ + spec_listen_only(sv.skip(i as int)),
        decreases src@.len() - i,
    {
        proof {
            assert(sv.skip(i as int)[0] == sv[i as int]);
            assert(sv.skip(i as int).drop_first() =~= sv.skip(i as int + 1));
        }
        let ghost pre = dst@;
        let e = &src[i];
        if e.state == TcpState::Listen {
            let copy = clone_socket_entry(e);
            dst.push(copy);
            proof {
                assert((pre + seq![sv[i as int]]) + spec_listen_only(sv.skip(i as int + 1)) =~= pre
                    + (seq![sv[i as int]] + spec_listen_only(sv.skip(i as int + 1))));
            }
        }
        i += 1;
    }
    proof {
        assert(spec_listen_only(sv.skip(sv.len() as int)) =~= Seq::<SocketEntry>::empty());
        assert(dst@ + Seq::<SocketEntry>::empty() =~= dst@);
    }
}

/// Reads both TCP socket tables and retains the listening entries, IPv4
/// entries before IPv6 entries, each table in kernel order.
pub fn tcp_entrys() -> (r: Result<Vec<SocketEntry>, ScanError>)
    ensures
        r matches Ok(v) ==> forall|i: int|
            0 <= i < v@.len() ==> (#[trigger] v@[i]).state == TcpState::Listen,
        r matches Err(e) ==> e == ScanError::SocketTable,
{
    let t4 = match read_tcp_table() {
        Ok(t4) => t4,
        Err(_) => {
            return Err(ScanError::SocketTable);
        },
    };
    let t6 = match read_tcp6_table() {
        Ok(t6) => t6,
        Err(_) => {
            return Err(ScanError::SocketTable);
        },
    };
    let mut all: Vec<SocketEntry> = Vec::new();
    push_listening(&mut all, &t4);
    push_listening(&mut all, &t6);
    proof {
        lemma_listen_only_all(t4@);
        lemma_listen_only_all(t6@);
    }
    Ok(all)
}

/// What a successful scan promises of its records, whatever the operating
/// system returned: ports carry the right privileged flag, every record's
/// owner was resolved (the drop policy), no (port, process id) pair
/// repeats, and the service field is exactly the registry's answer for
/// the record's port over TCP.
pub open spec fn scan_records_wf(recs: Seq<PortInfoView>, reg: Seq<ServiceView>) -> bool {
    &&& forall|i: int|
        0 <= i < recs.len() ==> (#[trigger] recs[i]).is_privileged == (recs[i].port
            < PRIVILEGED_PORT_BOUND)
    &&& forall|i: int| 0 <= i < recs.len() ==> (#[trigger] recs[i]).pid is Some
    &&& forall|i: int|
        0 <= i < recs.len() ==> (#[trigger] recs[i]).service == spec_service_name(reg, recs[i].port)
    &&& forall|i: int, j: int|
        0 <= i < j < recs.len() ==> !(recs[i].port == recs[j].port && recs[i].pid == recs[j].pid)
}

/// Scans the host: reads both socket tables and the process snapshot,
/// builds the inode index, and correlates. The `local` method performs
/// the scan; `remote` is not available in this build; any other method is
/// invalid. A successful scan's records satisfy [`scan_records_wf`] with
/// respect to the given registry.
pub fn get_listening_ports(method: &String, services: &ServiceRegistry) -> (r: Result<
    Vec<PortInfo>,
    ScanError,
>)
    ensures
        method@ != "local"@ && method@ != "remote"@ ==> r == Err::<Vec<PortInfo>, ScanError>(
            ScanError::InvalidMethod,
        ),
        method@ == "remote"@ ==> r == Err::<Vec<PortInfo>, ScanError>(
            ScanError::RemoteUnavailable,
        ),
        r matches Ok(v) ==> method@ == "local"@ && scan_records_wf(v.deep_view(), services@),
        method@ == "local"@ ==> (r matches Err(e) ==> (e == ScanError::SocketTable || e
            == ScanError::ProcessList)),
{
    proof {
        reveal_strlit("local");
        reveal_strlit("remote");
        assert("local"@ != "remote"@) by {
            assert("local"@.len() == 5 && "remote"@.len() == 6);
        }
    }
    if str_eq(method.as_str(), "local") {
        let socks = match tcp_entrys() {
            Ok(socks) => socks,
            Err(_) => {
                return Err(ScanError::SocketTable);
            },
        };
        let procs = match read_process_snapshot() {
            Ok(procs) => procs,
            Err(_) => {
                return Err(ScanError::ProcessList);
            },
        };
        let index = create_inode_map(&procs);
        let recs = correlate(&socks, &index, &procs, services);
        proof {
            lemma_correlate_privileged(socks.deep_view(), index@, procs.deep_view(), services@);
            lemma_correlate_dedup(socks.deep_view(), index@, procs.deep_view(), services@);
            lemma_correlate_drop_policy(socks.deep_view(), index@, procs.deep_view(), services@);
            lemma_correlate_service(socks.deep_view(), index@, procs.deep_view(), services@);
        }
        Ok(recs)
    } else if str_eq(method.as_str(), "remote") {
        Err(ScanError::RemoteUnavailable)
    } else {
        Err(ScanError::InvalidMethod)
    }
}

} // verus!
