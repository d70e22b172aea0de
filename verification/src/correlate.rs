//! The correlation engine: builds the inode index from the process
//! snapshot, joins it against the listening-socket table, deduplicates by
//! (port, process id), and enriches each surviving pair with process and
//! service metadata.

use std::collections::HashMap;
use vstd::prelude::*;

use crate::records::{FdTarget, PortInfo, PortInfoView, ProcessRecord, ProcessRecordView,
    SocketEntry, SocketEntryView, TcpState, opt_view};
use crate::services::{ServiceRegistry, ServiceView, get_service, spec_find_service};
use crate::text::{join_spaces, spec_join_spaces};
use crate::PRIVILEGED_PORT_BOUND;

verus! {

broadcast use vstd::std_specs::hash::group_hash_axioms;

/// The index after scanning the descriptors of one process with id `pid`,
/// starting from `acc`: every socket descriptor maps its kernel socket
/// identifier to `pid`, later descriptors overwriting earlier ones.
pub open spec fn proc_fds_index(fds: Seq<FdTarget>, pid: i32, acc: Map<u64, i32>) -> Map<u64, i32>
    decreases fds.len(),
{
    if fds.len() == 0 {
        acc
    } else {
        let acc2 = match fds[0] {
            FdTarget::Socket(ino) => acc.insert(ino, pid),
            _ => acc,
        };
        proc_fds_index(fds.drop_first(), pid, acc2)
    }
}

/// The index after scanning the processes in order, starting from `acc`.
pub open spec fn index_go(procs: Seq<ProcessRecordView>, acc: Map<u64, i32>) -> Map<u64, i32>
    decreases procs.len(),
{
    if procs.len() == 0 {
        acc
    } else {
        index_go(procs.drop_first(), proc_fds_index(procs[0].fds, procs[0].pid, acc))
    }
}

/// The inode index of a snapshot: kernel socket identifier to owning
/// process id. When several processes claim one identifier, the process
/// observed later in scan order wins (an explicit last-write-wins
/// tie-break, not an error).
pub open spec fn spec_inode_index(procs: Seq<ProcessRecordView>) -> Map<u64, i32> {
    index_go(procs, Map::empty())
}

/// Builds the inode index by one pass over every process's descriptors.
pub fn create_inode_map(procs: &Vec<ProcessRecord>) -> (m: HashMap<u64, i32>)
    ensures
        m@ == spec_inode_index(procs.deep_view()),
{
    let ghost pv = procs.deep_view();
    let mut m: HashMap<u64, i32> = HashMap::new();
    let mut i: usize = 0;
    proof {
        assert(pv.skip(0) =~= pv);
    }
    while i < procs.len()
        invariant
            0 <= i <= procs@.len(),
            pv == procs.deep_view(),
            pv.len() == procs@.len(),
            spec_inode_index(pv) == index_go(pv.skip(i as int), m@),
        decreases procs@.len() - i,
    {
        proof {
            assert(pv.skip(i as int)[0] == pv[i as int]);
            assert(pv.skip(i as int).drop_first() =~= pv.skip(i as int + 1));
        }
        let p = &procs[i];
        let pid = p.pid;
        let ghost fv = pv[i as int].fds;
        let ghost m0 = m@;
        proof {
            assert(fv.skip(0) =~= fv);
        }
        let mut j: usize = 0;
        while j < p.fds.len()
            invariant
                0 <= j <= p.fds@.len(),
                fv == p.fds@,
                pid == pv[i as int].pid,
                proc_fds_index(fv, pid, m0) == proc_fds_index(fv.skip(j as int), pid, m@),
            decreases p.fds@.len() - j,
        {
            proof {
                assert(fv.skip(j as int)[0] == fv[j as int]);
                assert(fv.skip(j as int).drop_first() =~= fv.skip(j as int + 1));
            }
            match p.fds[j] {
                FdTarget::Socket(ino) => {
                    m.insert(ino, pid);
                },
                FdTarget::File => {},
                FdTarget::Other => {},
            }
            j += 1;
        }
        proof {
            assert(fv.skip(p.fds@.len() as int) =~= Seq::<FdTarget>::empty());
        }
        i += 1;
    }
    proof {
        assert(pv.skip(pv.len() as int) =~= Seq::<ProcessRecordView>::empty());
    }
    m
}

/// The first snapshot record of the process with the given id, if any.
pub open spec fn spec_find_proc(procs: Seq<ProcessRecordView>, pid: i32) -> Option<
    ProcessRecordView,
>
    decreases procs.len(),
{
    if procs.len() == 0 {
        None
    } else if procs[0].pid == pid {
        Some(procs[0])
    } else {
        spec_find_proc(procs.drop_first(), pid)
    }
}

proof fn lemma_find_proc_at(procs: Seq<ProcessRecordView>, pid: i32, k: int)
    requires
        0 <= k < procs.len(),
        procs[k].pid == pid,
        forall|j: int| 0 <= j < k ==> procs[j].pid != pid,
    ensures
        spec_find_proc(procs, pid) == Some(procs[k]),
    decreases k,
{
    if k == 0 {
    } else {
        assert forall|j: int| 0 <= j < k - 1 implies procs.drop_first()[j].pid != pid by {
            assert(procs.drop_first()[j] == procs[j + 1]);
        }
        lemma_find_proc_at(procs.drop_first(), pid, k - 1);
    }
}

proof fn lemma_find_proc_none(procs: Seq<ProcessRecordView>, pid: i32)
    requires
        forall|j: int| 0 <= j < procs.len() ==> procs[j].pid != pid,
    ensures
        spec_find_proc(procs, pid) is None,
    decreases procs.len(),
{
    if procs.len() == 0 {
    } else {
        assert forall|j: int| 0 <= j < procs.drop_first().len() implies procs.drop_first()[j].pid
            != pid by {
            assert(procs.drop_first()[j] == procs[j + 1]);
        }
        lemma_find_proc_none(procs.drop_first(), pid);
    }
}

/// The first snapshot record of the process with the given id, if any.
pub fn find_process<'a>(procs: &'a Vec<ProcessRecord>, pid: i32) -> (r: Option<&'a ProcessRecord>)
    ensures
        match r {
            Some(p) => spec_find_proc(procs.deep_view(), pid) == Some(p.deep_view()),
            None => spec_find_proc(procs.deep_view(), pid) is None,
        },
{
    let ghost pv = procs.deep_view();
    let mut j: usize = 0;
    while j < procs.len()
        invariant
            0 <= j <= procs@.len(),
            pv == procs.deep_view(),
            pv.len() == procs@.len(),
            forall|j2: int| 0 <= j2 < j ==> pv[j2].pid != pid,
        decreases procs@.len() - j,
    {
        if procs[j].pid == pid {
            proof {
                lemma_find_proc_at(pv, pid, j as int);
            }
            return Some(&procs[j]);
        }
        j += 1;
    }
    proof {
        lemma_find_proc_none(pv, pid);
    }
    None
}

/// The service name the registry resolves for a port over TCP, if any.
pub open spec fn spec_service_name(reg: Seq<ServiceView>, port: u16) -> Option<Seq<char>> {
    match spec_find_service(reg, port, "tcp"@) {
        Some(s) => Some(s.name),
        None => None,
    }
}

/// The enriched record for a listening socket entry owned by `pid`: the
/// socket's own values, the metadata of the owning process (each field
/// absent when the process is gone or the field unreadable), the resolved
/// service name, and the privileged flag.
pub open spec fn spec_enrich(
    s: SocketEntryView,
    pid: i32,
    procs: Seq<ProcessRecordView>,
    reg: Seq<ServiceView>,
) -> PortInfoView {
    let pr = spec_find_proc(procs, pid);
    PortInfoView {
        port: s.port,
        inode: s.inode,
        is_ipv6: s.is_ipv6,
        host: s.host,
        pid: Some(pid),
        process: match pr {
            Some(p) => p.name,
            None => None,
        },
        full_command: match pr {
            Some(p) => match p.cmdline {
                Some(parts) => Some(spec_join_spaces(parts)),
                None => None,
            },
            None => None,
        },
        cwd: match pr {
            Some(p) => p.cwd,
            None => None,
        },
        service: spec_service_name(reg, s.port),
        is_privileged: s.port < PRIVILEGED_PORT_BOUND,
        user: match pr {
            Some(p) => p.user,
            None => None,
        },
    }
}

/// Clones an optional string.
fn clone_opt_string(o: &Option<String>) -> (r: Option<String>)
    ensures
        opt_view(r) == opt_view(*o),
{
    match o {
        Some(s) => Some(s.clone()),
        None => None,
    }
}

/// Builds the enriched record for one listening socket entry and its
/// owning process id.
fn enrich(s: &SocketEntry, pid: i32, procs: &Vec<ProcessRecord>, services: &ServiceRegistry) -> (r:
    PortInfo)
    ensures
        r@ == spec_enrich(s@, pid, procs.deep_view(), services@),
{
    let pr = find_process(procs, pid);
    let process: Option<String>;
    let full_command: Option<String>;
    let cwd: Option<String>;
    let user: Option<String>;
    match pr {
        Some(p) => {
            process = clone_opt_string(&p.name);
            full_command = match &p.cmdline {
                Some(parts) => Some(join_spaces(parts)),
                None => None,
            };
            cwd = clone_opt_string(&p.cwd);
            user = clone_opt_string(&p.user);
        },
        None => {
            process = None;
            full_command = None;
            cwd = None;
            user = None;
        },
    }
    let service: Option<String> = match get_service(services, s.port, "tcp") {
        Some(svc) => Some(svc.name.clone()),
        None => None,
    };
    let r = PortInfo {
        port: s.port,
        inode: s.inode,
        is_ipv6: s.is_ipv6,
        host: s.host.clone(),
        pid: Some(pid),
        process,
        full_command,
        cwd,
        service,
        is_privileged: crate::is_privileged_port(s.port),
        user,
    };
    proof {
        assert(r@ =~= spec_enrich(s@, pid, procs.deep_view(), services@));
    }
    r
}

/// The records the correlation emits for the remaining socket entries,
/// `seen` holding the (port, process id) pairs already emitted: entries
/// not in `Listen` state are discarded; an entry whose kernel socket
/// identifier is absent from the index is dropped (the chosen policy for
/// an unresolvable owner); an entry whose (port, process id) pair was
/// already emitted is discarded; every other entry yields one enriched
/// record, in input order.
pub open spec fn corr_go(
    socks: Seq<SocketEntryView>,
    seen: Seq<(u16, i32)>,
    index: Map<u64, i32>,
    procs: Seq<ProcessRecordView>,
    reg: Seq<ServiceView>,
) -> Seq<PortInfoView>
    decreases socks.len(),
{
    if socks.len() == 0 {
        Seq::empty()
    } else {
        let s = socks[0];
        let rest = socks.drop_first();
        if s.state != TcpState::Listen {
            corr_go(rest, seen, index, procs, reg)
        } else if !index.contains_key(s.inode) {
            corr_go(rest, seen, index, procs, reg)
        } else {
            let pid = index[s.inode];
            if seen.contains((s.port, pid)) {
                corr_go(rest, seen, index, procs, reg)
            } else {
                seq![spec_enrich(s, pid, procs, reg)] + corr_go(
                    rest,
                    seen.push((s.port, pid)),
                    index,
                    procs,
                    reg,
                )
            }
        }
    }
}

/// What correlating a socket table against an inode index, a process
/// snapshot and a service registry yields.
pub open spec fn spec_correlate(
    socks: Seq<SocketEntryView>,
    index: Map<u64, i32>,
    procs: Seq<ProcessRecordView>,
    reg: Seq<ServiceView>,
) -> Seq<PortInfoView> {
    corr_go(socks, Seq::empty(), index, procs, reg)
}

/// Whether the pair (port, pid) occurs in `seen`.
fn contains_pair(seen: &Vec<(u16, i32)>, port: u16, pid: i32) -> (r: bool)
    ensures
        r == seen@.contains((port, pid)),
{
    let mut j: usize = 0;
    while j < seen.len()
        invariant
            0 <= j <= seen@.len(),
            forall|j2: int| 0 <= j2 < j ==> seen@[j2] != (port, pid),
        decreases seen@.len() - j,
    {
        let pair = seen[j];
        if pair.0 == port && pair.1 == pid {
            proof {
                assert(seen@[j as int] == (port, pid));
            }
            return true;
        }
        j += 1;
    }
    proof {
        if seen@.contains((port, pid)) {
            let k = choose|k: int| 0 <= k < seen@.len() && seen@[k] == (port, pid);
            assert(seen@[k] != (port, pid));
        }
    }
    false
}

/// Correlates the socket table with the inode index and the process
/// snapshot: retains `Listen` entries, drops entries whose owner cannot be
/// resolved, deduplicates by (port, process id) keeping the first-observed
/// entry, and enriches each survivor. Output order follows input order;
/// nothing is re-sorted.
pub fn correlate(
    sockets: &Vec<SocketEntry>,
    index: &HashMap<u64, i32>,
    procs: &Vec<ProcessRecord>,
    services: &ServiceRegistry,
) -> (r: Vec<PortInfo>)
    ensures
        r.deep_view() == spec_correlate(sockets.deep_view(), index@, procs.deep_view(), services@),
{
    let ghost sv = sockets.deep_view();
    let ghost iv = index@;
    let ghost pv = procs.deep_view();
    let ghost rv = services@;
    let mut out: Vec<PortInfo> = Vec::new();
    let mut seen: Vec<(u16, i32)> = Vec::new();
    let mut i: usize = 0;
    proof {
        assert(sv.skip(0) =~= sv);
        assert(out.deep_view() =~= Seq::<PortInfoView>::empty());
        assert(out.deep_view() + corr_go(sv, seen@, iv, pv, rv) =~= corr_go(sv, seen@, iv, pv, rv));
    }
    while i < sockets.len()
        invariant
            0 <= i <= sockets@.len(),
            sv == sockets.deep_view(),
            sv.len() == sockets@.len(),
            iv == index@,
            pv == procs.deep_view(),
            rv == services@,
            spec_correlate(sv, iv, pv, rv) == out.deep_view() + corr_go(
                sv.skip(i as int),
                seen@,
                iv,
                pv,
                rv,
            ),
        decreases sockets@.len() - i,
    {
        proof {
            assert(sv.skip(i as int)[0] == sv[i as int]);
            assert(sv.skip(i as int).drop_first() =~= sv.skip(i as int + 1));
        }
        let s = &sockets[i];
        if s.state == TcpState::Listen {
            match index.get(&s.inode) {
                Some(pid_ref) => {
                    let pid: i32 = *pid_ref;
                    if !contains_pair(&seen, s.port, pid) {
                        let rec = enrich(s, pid, procs, services);
                        let ghost pre = out.deep_view();
                        out.push(rec);
                        seen.push((s.port, pid));
                        proof {
                            assert(out.deep_view() =~= pre.push(
                                spec_enrich(sv[i as int], pid, pv, rv),
                            ));
                            assert(pre.push(spec_enrich(sv[i as int], pid, pv, rv)) + corr_go(
                                sv.skip(i as int + 1),
                                seen@,
                                iv,
                                pv,
                                rv,
                            ) =~= pre + (seq![spec_enrich(sv[i as int], pid, pv, rv)] + corr_go(
                                sv.skip(i as int + 1),
                                seen@,
                                iv,
                                pv,
                                rv,
                            )));
                        }
                    }
                },
                None => {},
            }
        }
        i += 1;
    }
    proof {
        assert(sv.skip(sv.len() as int) =~= Seq::<SocketEntryView>::empty());
        assert(out.deep_view() + Seq::<PortInfoView>::empty() =~= out.deep_view());
    }
    out
}

/// The deduplication key of an emitted record: its port and its process
/// id (every emitted record carries one under the drop policy).
pub open spec fn rec_pair(r: PortInfoView) -> (u16, i32) {
    (
        r.port,
        match r.pid {
            Some(p) => p,
            None => 0,
        },
    )
}

proof fn lemma_contains_push(s: Seq<(u16, i32)>, x: (u16, i32), y: (u16, i32))
    ensures
        s.push(y).contains(x) <==> (s.contains(x) || x == y),
{
    if s.push(y).contains(x) {
        let k = choose|k: int| 0 <= k < s.push(y).len() && s.push(y)[k] == x;
        if k < s.len() {
            assert(s[k] == x);
        }
    }
    if s.contains(x) {
        let k = choose|k: int| 0 <= k < s.len() && s[k] == x;
        assert(s.push(y)[k] == x);
    }
    if x == y {
        assert(s.push(y)[s.len() as int] == x);
    }
}

/// Every record that the correlation emits, continued from the already
/// emitted pairs `seen`, satisfies the record invariants: the privileged
/// flag is exactly "port below the bound"; the owner was resolved through
/// the index (the drop policy leaves no placeholder records); its pair is
/// new with respect to `seen`; and no two emitted records share a pair.
proof fn lemma_corr_go_invariants(
    socks: Seq<SocketEntryView>,
    seen: Seq<(u16, i32)>,
    index: Map<u64, i32>,
    procs: Seq<ProcessRecordView>,
    reg: Seq<ServiceView>,
)
    ensures
        forall|i: int|
            #![trigger corr_go(socks, seen, index, procs, reg)[i]]
            0 <= i < corr_go(socks, seen, index, procs, reg).len() ==> {
                let r = corr_go(socks, seen, index, procs, reg)[i];
                &&& r.is_privileged == (r.port < PRIVILEGED_PORT_BOUND)
                &&& r.pid is Some
                &&& index.contains_key(r.inode)
                &&& r.pid == Some(index[r.inode])
                &&& r.service == spec_service_name(reg, r.port)
                &&& !seen.contains(rec_pair(r))
            },
        forall|i: int, j: int|
            0 <= i < j < corr_go(socks, seen, index, procs, reg).len() ==> rec_pair(
                corr_go(socks, seen, index, procs, reg)[i],
            ) != rec_pair(corr_go(socks, seen, index, procs, reg)[j]),
    decreases socks.len(),
{
    if socks.len() == 0 {
    } else {
        let s = socks[0];
        let rest = socks.drop_first();
        if s.state != TcpState::Listen || !index.contains_key(s.inode) {
            lemma_corr_go_invariants(rest, seen, index, procs, reg);
        } else {
            let pid = index[s.inode];
            if seen.contains((s.port, pid)) {
                lemma_corr_go_invariants(rest, seen, index, procs, reg);
            } else {
                let e = spec_enrich(s, pid, procs, reg);
                let seen2 = seen.push((s.port, pid));
                let tail = corr_go(rest, seen2, index, procs, reg);
                let out = corr_go(socks, seen, index, procs, reg);
                lemma_corr_go_invariants(rest, seen2, index, procs, reg);
                assert(out =~= seq![e] + tail);
                assert(rec_pair(e) == (s.port, pid));
                assert forall|i: int| #![trigger out[i]] 0 <= i < out.len() implies {
                    let r = out[i];
                    &&& r.is_privileged == (r.port < PRIVILEGED_PORT_BOUND)
                    &&& r.pid is Some
                    &&& index.contains_key(r.inode)
                    &&& r.pid == Some(index[r.inode])
                    &&& r.service == spec_service_name(reg, r.port)
                    &&& !seen.contains(rec_pair(r))
                } by {
                    if i == 0 {
                        assert(out[0] == e);
                    } else {
                        assert(out[i] == tail[i - 1]);
                        lemma_contains_push(seen, rec_pair(tail[i - 1]), (s.port, pid));
                    }
                }
                assert forall|i: int, j: int| 0 <= i < j < out.len() implies rec_pair(out[i])
                    != rec_pair(out[j]) by {
                    if i == 0 {
                        assert(out[j] == tail[j - 1]);
                        assert(!seen2.contains(rec_pair(tail[j - 1])));
                        lemma_contains_push(seen, rec_pair(tail[j - 1]), (s.port, pid));
                        assert(seen2[seen.len() as int] == (s.port, pid));
                        assert(seen2.contains((s.port, pid)));
                    } else {
                        assert(out[i] == tail[i - 1]);
                        assert(out[j] == tail[j - 1]);
                    }
                }
            }
        }
    }
}

/// Every emitted record's port lies in the unsigned 16-bit range, and its
/// privileged flag holds exactly when the port lies below the privileged
/// bound.
pub proof fn lemma_correlate_privileged(
    socks: Seq<SocketEntryView>,
    index: Map<u64, i32>,
    procs: Seq<ProcessRecordView>,
    reg: Seq<ServiceView>,
)
    ensures
        forall|i: int|
            #![trigger spec_correlate(socks, index, procs, reg)[i]]
            0 <= i < spec_correlate(socks, index, procs, reg).len() ==> {
                let r = spec_correlate(socks, index, procs, reg)[i];
                &&& 0 <= r.port <= 65535
                &&& r.is_privileged == (r.port < PRIVILEGED_PORT_BOUND)
            },
{
    lemma_corr_go_invariants(socks, Seq::empty(), index, procs, reg);
}

/// No two emitted records share the same (port, process id) pair within
/// one scan.
pub proof fn lemma_correlate_dedup(
    socks: Seq<SocketEntryView>,
    index: Map<u64, i32>,
    procs: Seq<ProcessRecordView>,
    reg: Seq<ServiceView>,
)
    ensures
        forall|i: int, j: int|
            0 <= i < j < spec_correlate(socks, index, procs, reg).len() ==> !(spec_correlate(
                socks,
                index,
                procs,
                reg,
            )[i].port == spec_correlate(socks, index, procs, reg)[j].port && spec_correlate(
                socks,
                index,
                procs,
                reg,
            )[i].pid == spec_correlate(socks, index, procs, reg)[j].pid),
{
    lemma_corr_go_invariants(socks, Seq::empty(), index, procs, reg);
    let out = spec_correlate(socks, index, procs, reg);
    assert forall|i: int, j: int| 0 <= i < j < out.len() implies !(out[i].port == out[j].port
        && out[i].pid == out[j].pid) by {
        assert(rec_pair(out[i]) != rec_pair(out[j]));
        assert(out[i].pid is Some && out[j].pid is Some);
    }
}

/// The drop policy is applied consistently: an entry whose kernel socket
/// identifier the index does not know is dropped, never emitted as a
/// placeholder, so every emitted record carries the process id the index
/// resolved for its identifier.
pub proof fn lemma_correlate_drop_policy(
    socks: Seq<SocketEntryView>,
    index: Map<u64, i32>,
    procs: Seq<ProcessRecordView>,
    reg: Seq<ServiceView>,
)
    ensures
        forall|i: int|
            #![trigger spec_correlate(socks, index, procs, reg)[i]]
            0 <= i < spec_correlate(socks, index, procs, reg).len() ==> {
                let r = spec_correlate(socks, index, procs, reg)[i];
                &&& r.pid is Some
                &&& index.contains_key(r.inode)
                &&& r.pid == Some(index[r.inode])
            },
{
    lemma_corr_go_invariants(socks, Seq::empty(), index, procs, reg);
}

/// Every emitted record's service field is exactly what the registry
/// resolves for the record's port over TCP.
pub proof fn lemma_correlate_service(
    socks: Seq<SocketEntryView>,
    index: Map<u64, i32>,
    procs: Seq<ProcessRecordView>,
    reg: Seq<ServiceView>,
)
    ensures
        forall|i: int|
            #![trigger spec_correlate(socks, index, procs, reg)[i]]
            0 <= i < spec_correlate(socks, index, procs, reg).len() ==> {
                let r = spec_correlate(socks, index, procs, reg)[i];
                r.service == spec_service_name(reg, r.port)
            },
{
    lemma_corr_go_invariants(socks, Seq::empty(), index, procs, reg);
}

/// Correlation is a function of snapshot content alone: two runs over
/// snapshots with identical content yield identical output.
pub proof fn lemma_correlate_idempotent(
    socks1: Seq<SocketEntryView>,
    index1: Map<u64, i32>,
    procs1: Seq<ProcessRecordView>,
    reg1: Seq<ServiceView>,
    socks2: Seq<SocketEntryView>,
    index2: Map<u64, i32>,
    procs2: Seq<ProcessRecordView>,
    reg2: Seq<ServiceView>,
)
    requires
        socks1 == socks2,
        index1 == index2,
        procs1 == procs2,
        reg1 == reg2,
    ensures
        spec_correlate(socks1, index1, procs1, reg1) == spec_correlate(
            socks2,
            index2,
            procs2,
            reg2,
        ),
{
}

} // verus!
