//! Data model: socket table entries, process snapshot records, and the
//! enriched per-port record that a scan emits.

use vstd::prelude::*;

verus! {

/// Connection state of a TCP socket table entry. Only `Listen` entries are
/// retained by the correlation engine; the other states are discarded.
#[derive(Clone, Copy, Debug, PartialEq, Eq, Structural)]
pub enum TcpState {
    Listen,
    Established,
    CloseWait,
    Other,
}

/// The target of one open file descriptor, discriminated into the kinds the
/// scan cares about. A socket descriptor carries the kernel socket
/// identifier ("inode") it refers to.
#[derive(Clone, Copy, Debug, PartialEq, Eq, Structural)]
pub enum FdTarget {
    Socket(u64),
    File,
    Other,
}

/// One entry of the kernel's TCP socket table, reduced to plain values.
#[derive(Clone, Debug, PartialEq)]
pub struct SocketEntry {
    /// Local port the socket is bound to.
    pub port: u16,
    /// Kernel socket identifier, unique among currently open sockets.
    pub inode: u64,
    /// Whether the local address is an IPv6 address.
    pub is_ipv6: bool,
    /// Textual form of the local host address.
    pub host: String,
    /// Connection state of the entry.
    pub state: TcpState,
}

/// Ghost image of a [`SocketEntry`], with strings as character sequences.
#[verifier::ext_equal]
pub struct SocketEntryView {
    pub port: u16,
    pub inode: u64,
    pub is_ipv6: bool,
    pub host: Seq<char>,
    pub state: TcpState,
}

impl View for SocketEntry {
    type V = SocketEntryView;

    open spec fn view(&self) -> SocketEntryView {
        SocketEntryView {
            port: self.port,
            inode: self.inode,
            is_ipv6: self.is_ipv6,
            host: self.host@,
            state: self.state,
        }
    }
}

impl DeepView for SocketEntry {
    type V = SocketEntryView;

    open spec fn deep_view(&self) -> SocketEntryView {
        self.view()
    }
}

/// The view of an optional string.
pub open spec fn opt_view(o: Option<String>) -> Option<Seq<char>> {
    match o {
        Some(s) => Some(s@),
        None => None,
    }
}

/// The view of an optional list of strings.
pub open spec fn opt_seq_view(o: Option<Vec<String>>) -> Option<Seq<Seq<char>>> {
    match o {
        Some(v) => Some(v.deep_view()),
        None => None,
    }
}

/// One process of the snapshot: its id, the targets of its open file
/// descriptors, and the metadata used to enrich matched records. A metadata
/// field that could not be read is `None`; a process whose descriptor table
/// could not be read contributes an empty `fds` list.
#[derive(Clone, Debug, PartialEq)]
pub struct ProcessRecord {
    /// Process id.
    pub pid: i32,
    /// Targets of the open file descriptors of this process.
    pub fds: Vec<FdTarget>,
    /// Short command name.
    pub name: Option<String>,
    /// Command line, one argument per element.
    pub cmdline: Option<Vec<String>>,
    /// Working directory.
    pub cwd: Option<String>,
    /// Name of the owning user.
    pub user: Option<String>,
}

/// Ghost image of a [`ProcessRecord`].
#[verifier::ext_equal]
pub struct ProcessRecordView {
    pub pid: i32,
    pub fds: Seq<FdTarget>,
    pub name: Option<Seq<char>>,
    pub cmdline: Option<Seq<Seq<char>>>,
    pub cwd: Option<Seq<char>>,
    pub user: Option<Seq<char>>,
}

impl View for ProcessRecord {
    type V = ProcessRecordView;

    open spec fn view(&self) -> ProcessRecordView {
        ProcessRecordView {
            pid: self.pid,
            fds: self.fds@,
            name: opt_view(self.name),
            cmdline: opt_seq_view(self.cmdline),
            cwd: opt_view(self.cwd),
            user: opt_view(self.user),
        }
    }
}

impl DeepView for ProcessRecord {
    type V = ProcessRecordView;

    open spec fn deep_view(&self) -> ProcessRecordView {
        self.view()
    }
}

/// The enriched record the correlation engine emits: one per distinct
/// (port, owning process) pair found listening during a scan.
#[derive(Clone, Debug, PartialEq)]
pub struct PortInfo {
    pub port: u16,
    pub inode: u64,
    pub is_ipv6: bool,
    pub host: String,
    pub pid: Option<i32>,
    /// Process name.
    pub process: Option<String>,
    /// Full command line.
    pub full_command: Option<String>,
    /// Process working directory.
    pub cwd: Option<String>,
    pub service: Option<String>,
    pub is_privileged: bool,
    pub user: Option<String>,
}

/// Ghost image of a [`PortInfo`].
#[verifier::ext_equal]
pub struct PortInfoView {
    pub port: u16,
    pub inode: u64,
    pub is_ipv6: bool,
    pub host: Seq<char>,
    pub pid: Option<i32>,
    pub process: Option<Seq<char>>,
    pub full_command: Option<Seq<char>>,
    pub cwd: Option<Seq<char>>,
    pub service: Option<Seq<char>>,
    pub is_privileged: bool,
    pub user: Option<Seq<char>>,
}

impl View for PortInfo {
    type V = PortInfoView;

    open spec fn view(&self) -> PortInfoView {
        PortInfoView {
            port: self.port,
            inode: self.inode,
            is_ipv6: self.is_ipv6,
            host: self.host@,
            pid: self.pid,
            process: opt_view(self.process),
            full_command: opt_view(self.full_command),
            cwd: opt_view(self.cwd),
            service: opt_view(self.service),
            is_privileged: self.is_privileged,
            user: opt_view(self.user),
        }
    }
}

impl DeepView for PortInfo {
    type V = PortInfoView;

    open spec fn deep_view(&self) -> PortInfoView {
        self.view()
    }
}

/// Why a whole scan failed. Per-entry problems are absorbed as absent
/// fields and never surface here.
#[derive(Clone, Copy, Debug, PartialEq, Eq, Structural)]
pub enum ScanError {
    /// The TCP socket tables could not be read at all.
    SocketTable,
    /// The process list could not be enumerated at all.
    ProcessList,
    /// The scan method was neither `local` nor `remote`.
    InvalidMethod,
    /// The `remote` scan method is not available in this build.
    RemoteUnavailable,
}

impl ScanError {
    /// A descriptive message for the error.
    pub fn message(&self) -> (r: &'static str)
        ensures
            *self == ScanError::SocketTable ==> r@ == "Failed to read the TCP socket tables"@,
            *self == ScanError::ProcessList ==> r@ == "Failed to enumerate processes"@,
            *self == ScanError::InvalidMethod ==> r@ == "Invalid method specified"@,
            *self == ScanError::RemoteUnavailable ==> r@ == "Remote method is not enabled"@,
    {
        match self {
            ScanError::SocketTable => "Failed to read the TCP socket tables",
            ScanError::ProcessList => "Failed to enumerate processes",
            ScanError::InvalidMethod => "Invalid method specified",
            ScanError::RemoteUnavailable => "Remote method is not enabled",
        }
    }
}

} // verus!
