//! Local build-node orchestration: capability detection, the registry of
//! nodes with its lifecycle verbs, and the plans handed to the container
//! backend. Every backend action (pulling images, running containers) is
//! carried out by the caller; this module decides what to run and how the
//! registry changes for every possible outcome.

use vstd::prelude::*;
use crate::strutil::{
    all_dec_digits, dec_val, lines_str, parse_u64_digits, spec_lines, spec_starts_with,
    spec_tokens, split_str, str_eq_str, str_starts_with, tokens_str,
};

verus! {

/// Which virtualization technologies are usable on this host, one flag per
/// backend.
#[derive(Clone, Copy, Debug, PartialEq, Eq, Structural)]
pub struct VirtualizationSupport {
    pub docker: bool,
    pub wsl: bool,
    pub kvm: bool,
    pub qemu: bool,
    pub hyperv: bool,
    pub vmware: bool,
    pub virtualbox: bool,
    pub macos_vm: bool,
}

/// A snapshot of the host: operating system, architecture, memory in MB,
/// logical CPU count and usable virtualization backends.
pub struct SystemInfo {
    pub os: String,
    pub arch: String,
    pub memory: u64,
    pub cpu_cores: u32,
    pub virtualization_support: VirtualizationSupport,
}

/// The desired shape of a node to create.
pub struct LocalNodeConfig {
    pub name: String,
    pub platform: String,
    pub memory: u32,
    pub cpu_cores: u32,
    pub disk_size: u32,
    pub virtualization: String,
    pub capabilities: Vec<String>,
    pub languages: Vec<String>,
    pub install_build_tools: bool,
}

/// A managed build environment tracked by the registry.
pub struct LocalNode {
    pub id: String,
    pub name: String,
    pub node_type: String,
    pub status: String,
    pub platform: String,
    pub memory: u32,
    pub cpu_cores: u32,
    pub disk_size: u32,
    pub vm_type: String,
    pub capabilities: Vec<String>,
    pub container_id: Option<String>,
    pub vm_id: Option<String>,
    pub created_at: String,
    pub last_seen: Option<String>,
}

/// Deep equality of two nodes: every field agrees at the view level.
pub open spec fn node_eq(a: LocalNode, b: LocalNode) -> bool {
    &&& a.id@ == b.id@
    &&& a.name@ == b.name@
    &&& a.node_type@ == b.node_type@
    &&& a.status@ == b.status@
    &&& a.platform@ == b.platform@
    &&& a.memory == b.memory
    &&& a.cpu_cores == b.cpu_cores
    &&& a.disk_size == b.disk_size
    &&& a.vm_type@ == b.vm_type@
    &&& a.capabilities.deep_view() == b.capabilities.deep_view()
    &&& a.container_id.deep_view() == b.container_id.deep_view()
    &&& a.vm_id.deep_view() == b.vm_id.deep_view()
    &&& a.created_at@ == b.created_at@
    &&& a.last_seen.deep_view() == b.last_seen.deep_view()
}

impl Clone for LocalNode {
    fn clone(&self) -> (res: Self)
        ensures
            node_eq(res, *self),
    {
        let res = LocalNode {
            id: self.id.clone(),
            name: self.name.clone(),
            node_type: self.node_type.clone(),
            status: self.status.clone(),
            platform: self.platform.clone(),
            memory: self.memory,
            cpu_cores: self.cpu_cores,
            disk_size: self.disk_size,
            vm_type: self.vm_type.clone(),
            capabilities: self.capabilities.clone(),
            container_id: self.container_id.clone(),
            vm_id: self.vm_id.clone(),
            created_at: self.created_at.clone(),
            last_seen: self.last_seen.clone(),
        };
        proof {
            assert(res.capabilities.deep_view() =~= self.capabilities.deep_view());
            assert(res.container_id.deep_view() =~= self.container_id.deep_view());
            assert(res.vm_id.deep_view() =~= self.vm_id.deep_view());
            assert(res.last_seen.deep_view() =~= self.last_seen.deep_view());
        }
        res
    }
}

/// Why a node operation failed.
#[derive(Debug)]
pub enum NodeError {
    /// No node with the given identifier exists.
    NotFound,
    /// The requested virtualization technology is not recognized.
    Unsupported,
    /// The named technology has no implemented backend for this operation.
    NotImplemented(String),
    /// Automatic selection found no usable technology.
    NoSuitableBackend,
    /// The backend rejected the operation; the message describes it.
    BackendFailed(String),
}

impl Clone for NodeError {
    fn clone(&self) -> (res: Self)
        ensures
            res == *self,
    {
        match self {
            NodeError::NotFound => NodeError::NotFound,
            NodeError::Unsupported => NodeError::Unsupported,
            NodeError::NotImplemented(t) => NodeError::NotImplemented(t.clone()),
            NodeError::NoSuitableBackend => NodeError::NoSuitableBackend,
            NodeError::BackendFailed(m) => NodeError::BackendFailed(m.clone()),
        }
    }
}

impl NodeError {
    /// A human-readable description of the failure.
    pub fn message(&self) -> (r: String)
        ensures
            self is NotFound ==> r@ == "Node not found"@,
            self is Unsupported ==> r@ == "Unsupported virtualization technology"@,
            self is NoSuitableBackend ==> r@
                == "No suitable virtualization technology available"@,
            forall|t: String| *self == NodeError::NotImplemented(t) ==> r@ == t@
                + " backend not yet implemented"@,
            forall|m: String| *self == NodeError::BackendFailed(m) ==> r@ == m@,
    {
        match self {
            NodeError::NotFound => String::from_str("Node not found"),
            NodeError::Unsupported => String::from_str("Unsupported virtualization technology"),
            NodeError::NotImplemented(t) => crate::strutil::concat2(
                t.as_str(),
                " backend not yet implemented",
            ),
            NodeError::NoSuitableBackend => String::from_str(
                "No suitable virtualization technology available",
            ),
            NodeError::BackendFailed(m) => m.clone(),
        }
    }
}

/// Relies on num_cpus::get: the number of available logical CPUs, always at
/// least 1.
#[verifier::external_body]
fn cpu_count() -> (r: u32)
    ensures
        r >= 1,
{
    let n = num_cpus::get();
    if n > u32::MAX as usize {
        u32::MAX
    } else if n == 0 {
        1
    } else {
        n as u32
    }
}

/// Relies on uuid::Uuid::new_v4 and its Display impl: a fresh random
/// version-4 UUID in the standard 36-character hyphenated form. The value
/// is random; only its length is stated.
#[verifier::external_body]
fn uuid_string() -> (r: String)
    ensures
        r@.len() == 36,
{
    uuid::Uuid::new_v4().to_string()
}

/// Relies on chrono::Utc::now and DateTime::to_rfc3339: the current time as
/// a non-empty RFC 3339 timestamp. The value depends on the clock; only
/// non-emptiness is stated.
#[verifier::external_body]
fn now_rfc3339() -> (r: String)
    ensures
        r@.len() > 0,
{
    chrono::Utc::now().to_rfc3339()
}

/// The technology names reported for a set of probe outcomes, in the fixed
/// probe order.
pub open spec fn spec_supported_list(s: VirtualizationSupport) -> Seq<Seq<char>> {
    (if s.docker { seq!["docker"@] } else { Seq::empty() })
    + (if s.wsl { seq!["wsl"@] } else { Seq::empty() })
    + (if s.kvm { seq!["kvm"@] } else { Seq::empty() })
    + (if s.qemu { seq!["qemu"@] } else { Seq::empty() })
    + (if s.hyperv { seq!["hyperv"@] } else { Seq::empty() })
    + (if s.vmware { seq!["vmware"@] } else { Seq::empty() })
    + (if s.virtualbox { seq!["virtualbox"@] } else { Seq::empty() })
    + (if s.macos_vm { seq!["macos-vm"@] } else { Seq::empty() })
}

/// The technologies usable on this host, given each backend probe's outcome,
/// as a list of names in the fixed probe order. Each probe is independent: a
/// false flag omits that name and nothing else.
fn append_if(v: &mut Vec<String>, flag: bool, name: &str)
    ensures
        final(v).deep_view() == old(v).deep_view() + (if flag {
            seq![name@]
        } else {
            Seq::<Seq<char>>::empty()
        }),
{
    if flag {
        v.push(String::from_str(name));
        proof {
            assert(v.deep_view() =~= old(v).deep_view() + seq![name@]);
        }
    } else {
        proof {
            assert(v.deep_view() =~= old(v).deep_view() + Seq::<Seq<char>>::empty());
        }
    }
}

pub fn detect_virtualization_support(support: &VirtualizationSupport) -> (r: Vec<String>)
    ensures
        r.deep_view() == spec_supported_list(*support),
{
    let mut v: Vec<String> = Vec::new();
    proof {
        assert(v.deep_view() =~= Seq::<Seq<char>>::empty());
    }
    append_if(&mut v, support.docker, "docker");
    proof {
        assert(Seq::<Seq<char>>::empty() + (if support.docker {
            seq!["docker"@]
        } else {
            Seq::<Seq<char>>::empty()
        }) =~= (if support.docker {
            seq!["docker"@]
        } else {
            Seq::<Seq<char>>::empty()
        }));
    }
    append_if(&mut v, support.wsl, "wsl");
    append_if(&mut v, support.kvm, "kvm");
    append_if(&mut v, support.qemu, "qemu");
    append_if(&mut v, support.hyperv, "hyperv");
    append_if(&mut v, support.vmware, "vmware");
    append_if(&mut v, support.virtualbox, "virtualbox");
    append_if(&mut v, support.macos_vm, "macos-vm");
    v
}

/// Raw probe outcomes filtered by the host operating system: probes that are
/// meaningless on this OS short-circuit to false, whatever the raw probe
/// said.
pub fn effective_support(os: &str, raw: &VirtualizationSupport) -> (r: VirtualizationSupport)
    ensures
        r.docker == raw.docker,
        r.wsl == (os@ == "windows"@ && raw.wsl),
        r.kvm == (os@ == "linux"@ && raw.kvm),
        r.qemu == raw.qemu,
        r.hyperv == (os@ == "windows"@ && raw.hyperv),
        r.vmware == raw.vmware,
        r.virtualbox == raw.virtualbox,
        r.macos_vm == (os@ == "macos"@ && raw.macos_vm),
{
    let is_windows = str_eq_str(os, "windows");
    let is_linux = str_eq_str(os, "linux");
    let is_macos = str_eq_str(os, "macos");
    VirtualizationSupport {
        docker: raw.docker,
        wsl: is_windows && raw.wsl,
        kvm: is_linux && raw.kvm,
        qemu: raw.qemu,
        hyperv: is_windows && raw.hyperv,
        vmware: raw.vmware,
        virtualbox: raw.virtualbox,
        macos_vm: is_macos && raw.macos_vm,
    }
}

/// The memory value of one meminfo line: present when the line starts with
/// `MemTotal:`, has a second whitespace token, and that token is a decimal
/// number fitting a u64.
pub open spec fn line_mem_value(l: Seq<char>) -> Option<nat> {
    let toks = spec_tokens(l);
    if spec_starts_with(l, "MemTotal:"@) && toks.len() >= 2 && toks[1].len() > 0
        && all_dec_digits(toks[1]) && dec_val(toks[1]) <= u64::MAX {
        Some(dec_val(toks[1]))
    } else {
        None
    }
}

/// The memory in MB reported by a meminfo text: the first line carrying a
/// total, in KB, divided by 1024 — or 8192 when no line carries one.
pub open spec fn spec_meminfo_mb(lines: Seq<Seq<char>>) -> nat
    decreases lines.len(),
{
    if lines.len() == 0 {
        8192
    } else {
        match line_mem_value(lines[0]) {
            Some(kb) => kb / 1024,
            None => spec_meminfo_mb(lines.drop_first()),
        }
    }
}

/// Parses a meminfo text (one `Name: value unit` entry per line) into the
/// host's memory in MB, defaulting to 8192 when no total is found.
pub fn parse_meminfo_mb(meminfo: &str) -> (r: u64)
    ensures
        r as nat == spec_meminfo_mb(spec_lines(meminfo@)),
{
    let lines = lines_str(meminfo);
    let ghost lspec = spec_lines(meminfo@);
    let n = lines.len();
    let mut i: usize = 0;
    proof {
        assert(lspec.skip(0) =~= lspec);
    }
    while i < n
        invariant
            lspec == spec_lines(meminfo@),
            lines@.map_values(|t: String| t@) == lspec,
            n == lines@.len(),
            i <= n,
            spec_meminfo_mb(lspec) == spec_meminfo_mb(lspec.skip(i as int)),
        decreases n - i,
    {
        proof {
            assert(lspec.skip(i as int)[0] == lspec[i as int]);
            assert(lspec.skip(i as int).drop_first() =~= lspec.skip(i + 1));
            assert(lspec[i as int] == lines@[i as int]@);
        }
        let line = &lines[i];
        if str_starts_with(line.as_str(), "MemTotal:") {
            let toks = tokens_str(line.as_str());
            if toks.len() >= 2 {
                proof {
                    assert(toks.deep_view()[1] == toks@[1]@);
                }
                match parse_u64_digits(toks[1].as_str()) {
                    Some(kb) => {
                        proof {
                            assert(spec_tokens(lspec[i as int])[1] == toks@[1]@);
                            assert(line_mem_value(lspec[i as int]) == Some(dec_val(toks@[1]@)));
                            assert(lspec.skip(i as int).len() > 0);
                            assert(spec_meminfo_mb(lspec.skip(i as int)) == dec_val(toks@[1]@)
                                / 1024);
                            assert(kb as nat == dec_val(toks@[1]@));
                            assert((kb / 1024) as nat == spec_meminfo_mb(lspec));
                        }
                        return kb / 1024;
                    },
                    None => {},
                }
            }
        }
        i += 1;
    }
    proof {
        assert(lspec.skip(n as int) =~= Seq::<Seq<char>>::empty());
    }
    8192
}

/// Assembles the host snapshot: the operating system and architecture as
/// observed by the caller, the memory read from the given meminfo text (8192
/// MB when it carries no total, as on hosts without one), the logical CPU
/// count, and the given probe outcomes.
pub fn get_system_info(
    os: String,
    arch: String,
    meminfo: &str,
    support: VirtualizationSupport,
) -> (r: SystemInfo)
    ensures
        r.os == os,
        r.arch == arch,
        r.memory as nat == spec_meminfo_mb(spec_lines(meminfo@)),
        r.cpu_cores >= 1,
        r.virtualization_support == support,
{
    let memory = parse_meminfo_mb(meminfo);
    let cpu_cores = cpu_count();
    SystemInfo { os, arch, memory, cpu_cores, virtualization_support: support }
}

/// Some node in `nodes` carries this identifier.
pub open spec fn spec_has_node(nodes: Seq<LocalNode>, id: Seq<char>) -> bool {
    exists|j: int| 0 <= j < nodes.len() && #[trigger] nodes[j].id@ == id
}

/// Node identifiers are pairwise distinct.
pub open spec fn wf_nodes(nodes: Seq<LocalNode>) -> bool {
    forall|j: int, k: int|
        0 <= j < k < nodes.len() ==> #[trigger] nodes[j].id@ != #[trigger] nodes[k].id@
}

/// The deterministic container name for a node identifier.
pub open spec fn spec_container_name(id: Seq<char>) -> Seq<char> {
    "build-studio-"@ + id
}

/// Builds the deterministic container name for a node identifier.
pub fn container_name_for(id: &str) -> (r: String)
    ensures
        r@ == spec_container_name(id@),
{
    crate::strutil::concat2("build-studio-", id)
}

/// The node kind recorded for a virtualization technology.
pub open spec fn spec_node_type_for(virt: Seq<char>) -> Seq<char> {
    if virt == "docker"@ {
        "local-docker"@
    } else {
        "local-vm"@
    }
}

/// The backend technology a node records at creation: an `auto` request
/// records the backend it resolved to — the container backend, the only one
/// creation can currently resolve to — so that later lifecycle verbs dispatch
/// to the backend that actually created the node. Any other request is
/// recorded as made.
pub open spec fn spec_recorded_tech(virt: Seq<char>) -> Seq<char> {
    if virt == "auto"@ {
        "docker"@
    } else {
        virt
    }
}

/// The fields of a node as the registry records it at creation.
pub open spec fn fresh_node_fields(n: LocalNode, id: Seq<char>, config: LocalNodeConfig) -> bool {
    &&& n.id@ == id
    &&& n.name@ == config.name@
    &&& n.node_type@ == spec_node_type_for(spec_recorded_tech(config.virtualization@))
    &&& n.status@ == "installing"@
    &&& n.platform@ == config.platform@
    &&& n.memory == config.memory
    &&& n.cpu_cores == config.cpu_cores
    &&& n.disk_size == config.disk_size
    &&& n.vm_type@ == spec_recorded_tech(config.virtualization@)
    &&& n.capabilities.deep_view() == config.capabilities.deep_view()
    &&& n.container_id is None
    &&& n.vm_id is None
    &&& n.created_at@.len() > 0
    &&& n.last_seen is None
}

/// Effect of registering a freshly created node: with a new identifier the
/// record is appended in Installing state and nothing else moves; a duplicate
/// identifier is refused and the registry is untouched.
pub open spec fn register_rel(
    pre: Seq<LocalNode>,
    post: Seq<LocalNode>,
    id: Seq<char>,
    config: LocalNodeConfig,
    accepted: bool,
) -> bool {
    if spec_has_node(pre, id) {
        post == pre && !accepted
    } else {
        &&& accepted
        &&& post.len() == pre.len() + 1
        &&& (forall|j: int| 0 <= j < pre.len() ==> post[j] == pre[j])
        &&& fresh_node_fields(post.last(), id, config)
    }
}

/// `b` is `a` brought online: status Online, a fresh last-seen timestamp, and
/// every other field untouched.
pub open spec fn node_started(a: LocalNode, b: LocalNode) -> bool {
    &&& b.id == a.id
    &&& b.name == a.name
    &&& b.node_type == a.node_type
    &&& b.status@ == "online"@
    &&& b.platform == a.platform
    &&& b.memory == a.memory
    &&& b.cpu_cores == a.cpu_cores
    &&& b.disk_size == a.disk_size
    &&& b.vm_type == a.vm_type
    &&& b.capabilities == a.capabilities
    &&& b.container_id == a.container_id
    &&& b.vm_id == a.vm_id
    &&& b.created_at == a.created_at
    &&& match b.last_seen {
        Some(t) => t@.len() > 0,
        None => false,
    }
}

/// `b` is `a` taken offline: status Offline and every other field untouched.
pub open spec fn node_stopped(a: LocalNode, b: LocalNode) -> bool {
    &&& b.id == a.id
    &&& b.name == a.name
    &&& b.node_type == a.node_type
    &&& b.status@ == "offline"@
    &&& b.platform == a.platform
    &&& b.memory == a.memory
    &&& b.cpu_cores == a.cpu_cores
    &&& b.disk_size == a.disk_size
    &&& b.vm_type == a.vm_type
    &&& b.capabilities == a.capabilities
    &&& b.container_id == a.container_id
    &&& b.vm_id == a.vm_id
    &&& b.created_at == a.created_at
    &&& b.last_seen == a.last_seen
}

/// Case analysis of `start` on the node at `j`: only the container backend is
/// implemented, and the node changes only when that backend succeeded.
pub open spec fn start_case_rel(
    pre: Seq<LocalNode>,
    post: Seq<LocalNode>,
    j: int,
    backend_ok: bool,
    r: Result<(), NodeError>,
) -> bool {
    if pre[j].vm_type@ == "docker"@ {
        if backend_ok {
            &&& r is Ok
            &&& post.len() == pre.len()
            &&& (forall|k: int| 0 <= k < pre.len() && k != j ==> post[k] == pre[k])
            &&& node_started(pre[j], post[j])
        } else {
            &&& post == pre
            &&& match r {
                Err(NodeError::BackendFailed(m)) => m@ == "Failed to start Docker container"@,
                _ => false,
            }
        }
    } else {
        &&& post == pre
        &&& match r {
            Err(NodeError::NotImplemented(t)) => t@ == pre[j].vm_type@,
            _ => false,
        }
    }
}

/// Case analysis of `stop` on the node at `j`.
pub open spec fn stop_case_rel(
    pre: Seq<LocalNode>,
    post: Seq<LocalNode>,
    j: int,
    backend_ok: bool,
    r: Result<(), NodeError>,
) -> bool {
    if pre[j].vm_type@ == "docker"@ {
        if backend_ok {
            &&& r is Ok
            &&& post.len() == pre.len()
            &&& (forall|k: int| 0 <= k < pre.len() && k != j ==> post[k] == pre[k])
            &&& node_stopped(pre[j], post[j])
        } else {
            &&& post == pre
            &&& match r {
                Err(NodeError::BackendFailed(m)) => m@ == "Failed to stop Docker container"@,
                _ => false,
            }
        }
    } else {
        &&& post == pre
        &&& match r {
            Err(NodeError::NotImplemented(t)) => t@ == pre[j].vm_type@,
            _ => false,
        }
    }
}

/// Effect of `start`: an unknown identifier fails with NotFound and mutates
/// nothing; a known one follows the per-technology case analysis.
pub open spec fn start_rel(
    pre: Seq<LocalNode>,
    post: Seq<LocalNode>,
    id: Seq<char>,
    backend_ok: bool,
    r: Result<(), NodeError>,
) -> bool {
    if !spec_has_node(pre, id) {
        post == pre && r == Err::<(), NodeError>(NodeError::NotFound)
    } else {
        forall|j: int|
            0 <= j < pre.len() && #[trigger] pre[j].id@ == id ==> start_case_rel(
                pre,
                post,
                j,
                backend_ok,
                r,
            )
    }
}

/// Effect of `stop`, the mirror of `start_rel`.
pub open spec fn stop_rel(
    pre: Seq<LocalNode>,
    post: Seq<LocalNode>,
    id: Seq<char>,
    backend_ok: bool,
    r: Result<(), NodeError>,
) -> bool {
    if !spec_has_node(pre, id) {
        post == pre && r == Err::<(), NodeError>(NodeError::NotFound)
    } else {
        forall|j: int|
            0 <= j < pre.len() && #[trigger] pre[j].id@ == id ==> stop_case_rel(
                pre,
                post,
                j,
                backend_ok,
                r,
            )
    }
}

/// The teardown owed for a removed node: container removal arguments for the
/// container backend; a technology without an implemented teardown is
/// success, with nothing to clean up.
pub open spec fn remove_result_rel(n: LocalNode, r: Result<Option<Vec<String>>, NodeError>) -> bool {
    if n.vm_type@ == "docker"@ {
        match r {
            Ok(Some(args)) => args.deep_view() == seq![
                "rm"@,
                "-f"@,
                spec_container_name(n.id@),
            ],
            _ => false,
        }
    } else {
        r == Ok::<Option<Vec<String>>, NodeError>(None)
    }
}

/// Effect of `remove`: an unknown identifier fails with NotFound and mutates
/// nothing; a known one is removed from the registry first, whatever the
/// teardown then does.
pub open spec fn remove_rel(
    pre: Seq<LocalNode>,
    post: Seq<LocalNode>,
    id: Seq<char>,
    r: Result<Option<Vec<String>>, NodeError>,
) -> bool {
    if !spec_has_node(pre, id) {
        post == pre && r == Err::<Option<Vec<String>>, NodeError>(NodeError::NotFound)
    } else {
        forall|j: int|
            0 <= j < pre.len() && #[trigger] pre[j].id@ == id ==> post == pre.remove(j)
                && remove_result_rel(pre[j], r)
    }
}

/// The in-memory registry of local nodes. It lives for the process only; the
/// caller serializes access (one lock around every verb, read and write
/// together).
pub struct LocalNodeManager {
    nodes: Vec<LocalNode>,
}

impl View for LocalNodeManager {
    type V = Seq<LocalNode>;

    closed spec fn view(&self) -> Seq<LocalNode> {
        self.nodes@
    }
}

impl LocalNodeManager {
    /// Node identifiers in the registry are pairwise distinct.
    pub open spec fn wf(&self) -> bool {
        wf_nodes(self@)
    }

    /// An empty registry.
    pub fn new() -> (r: Self)
        ensures
            r@ == Seq::<LocalNode>::empty(),
            r.wf(),
    {
        let r = LocalNodeManager { nodes: Vec::new() };
        proof {
            assert(r@ =~= Seq::<LocalNode>::empty());
        }
        r
    }

    /// The index of the node carrying `id`, if any.
    fn find_index(&self, id: &str) -> (r: Option<usize>)
        ensures
            match r {
                Some(j) => j < self@.len() && self@[j as int].id@ == id@,
                None => !spec_has_node(self@, id@),
            },
    {
        let n = self.nodes.len();
        let mut i: usize = 0;
        while i < n
            invariant
                n == self@.len(),
                i <= n,
                forall|j: int| 0 <= j < i ==> #[trigger] self@[j].id@ != id@,
            decreases n - i,
        {
            if str_eq_str(self.nodes[i].id.as_str(), id) {
                return Some(i);
            }
            i += 1;
        }
        None
    }

    /// Registers a node that the backend just created: appends its record in
    /// Installing state with a fresh creation timestamp, recording the
    /// technology the creation resolved to (an `auto` request resolves to the
    /// container backend), so later verbs dispatch to the backend that
    /// created it. A duplicate identifier is refused and the registry is
    /// untouched; backend failure is handled by never calling this.
    pub fn register_created(&mut self, node_id: String, config: &LocalNodeConfig) -> (r: bool)
        requires
            old(self).wf(),
        ensures
            final(self).wf(),
            register_rel(old(self)@, final(self)@, node_id@, *config, r),
    {
        match self.find_index(node_id.as_str()) {
            Some(_) => false,
            None => {
                let vm_type = if str_eq_str(config.virtualization.as_str(), "auto") {
                    String::from_str("docker")
                } else {
                    config.virtualization.clone()
                };
                let node_type = if str_eq_str(vm_type.as_str(), "docker") {
                    String::from_str("local-docker")
                } else {
                    String::from_str("local-vm")
                };
                let node = LocalNode {
                    id: node_id,
                    name: config.name.clone(),
                    node_type,
                    status: String::from_str("installing"),
                    platform: config.platform.clone(),
                    memory: config.memory,
                    cpu_cores: config.cpu_cores,
                    disk_size: config.disk_size,
                    vm_type,
                    capabilities: config.capabilities.clone(),
                    container_id: None,
                    vm_id: None,
                    created_at: now_rfc3339(),
                    last_seen: None,
                };
                proof {
                    assert(node.capabilities.deep_view() =~= config.capabilities.deep_view());
                }
                self.nodes.push(node);
                proof {
                    assert forall|j: int, k: int| 0 <= j < k < self@.len()
                        implies #[trigger] self@[j].id@ != #[trigger] self@[k].id@ by {
                        if k < self@.len() - 1 {
                            assert(old(self)@[j].id@ != old(self)@[k].id@);
                        } else {
                            assert(self@[j] == old(self)@[j]);
                        }
                    }
                }
                true
            },
        }
    }

    /// A point-in-time copy of every node; later mutations do not affect it.
    pub fn list_build_nodes(&self) -> (r: Vec<LocalNode>)
        ensures
            r@.len() == self@.len(),
            forall|j: int| 0 <= j < self@.len() ==> node_eq(#[trigger] r@[j], self@[j]),
    {
        let n = self.nodes.len();
        let mut out: Vec<LocalNode> = Vec::new();
        let mut i: usize = 0;
        while i < n
            invariant
                n == self@.len(),
                i <= n,
                out@.len() == i,
                forall|j: int| 0 <= j < i ==> node_eq(#[trigger] out@[j], self@[j]),
            decreases n - i,
        {
            out.push(self.nodes[i].clone());
            i += 1;
        }
        out
    }

    /// The container-backend command owed before reporting a verb's outcome:
    /// `start` or `stop` on the node's deterministic container name. Fails
    /// exactly as the verb itself would, without touching the registry.
    fn plan_verb(&self, id: &str, verb: &str) -> (r: Result<Vec<String>, NodeError>)
        requires
            self.wf(),
            verb@ == "start"@ || verb@ == "stop"@,
        ensures
            match r {
                Ok(args) => exists|j: int|
                    0 <= j < self@.len() && #[trigger] self@[j].id@ == id@ && self@[j].vm_type@
                        == "docker"@ && args.deep_view() == seq![
                        verb@,
                        spec_container_name(self@[j].id@),
                    ],
                Err(NodeError::NotFound) => !spec_has_node(self@, id@),
                Err(NodeError::NotImplemented(t)) => exists|j: int|
                    0 <= j < self@.len() && #[trigger] self@[j].id@ == id@ && t@ == self@[j].vm_type@
                        && self@[j].vm_type@ != "docker"@,
                _ => false,
            },
    {
        let j = match self.find_index(id) {
            None => {
                return Err(NodeError::NotFound);
            },
            Some(j) => j,
        };
        if str_eq_str(self.nodes[j].vm_type.as_str(), "docker") {
            let mut args: Vec<String> = Vec::new();
            args.push(String::from_str(verb));
            args.push(container_name_for(self.nodes[j].id.as_str()));
            proof {
                assert(args.deep_view() =~= seq![
                    verb@,
                    spec_container_name(self@[j as int].id@),
                ]);
            }
            Ok(args)
        } else {
            Err(NodeError::NotImplemented(self.nodes[j].vm_type.clone()))
        }
    }

    /// The container-backend command to run before `start_node`.
    pub fn plan_start_node(&self, id: &str) -> (r: Result<Vec<String>, NodeError>)
        requires
            self.wf(),
        ensures
            match r {
                Ok(args) => exists|j: int|
                    0 <= j < self@.len() && #[trigger] self@[j].id@ == id@ && self@[j].vm_type@
                        == "docker"@ && args.deep_view() == seq![
                        "start"@,
                        spec_container_name(self@[j].id@),
                    ],
                Err(NodeError::NotFound) => !spec_has_node(self@, id@),
                Err(NodeError::NotImplemented(t)) => exists|j: int|
                    0 <= j < self@.len() && #[trigger] self@[j].id@ == id@ && t@ == self@[j].vm_type@,
                _ => false,
            },
    {
        self.plan_verb(id, "start")
    }

    /// The container-backend command to run before `stop_node`.
    pub fn plan_stop_node(&self, id: &str) -> (r: Result<Vec<String>, NodeError>)
        requires
            self.wf(),
        ensures
            match r {
                Ok(args) => exists|j: int|
                    0 <= j < self@.len() && #[trigger] self@[j].id@ == id@ && self@[j].vm_type@
                        == "docker"@ && args.deep_view() == seq![
                        "stop"@,
                        spec_container_name(self@[j].id@),
                    ],
                Err(NodeError::NotFound) => !spec_has_node(self@, id@),
                Err(NodeError::NotImplemented(t)) => exists|j: int|
                    0 <= j < self@.len() && #[trigger] self@[j].id@ == id@ && t@ == self@[j].vm_type@,
                _ => false,
            },
    {
        self.plan_verb(id, "stop")
    }

    /// Starts a node: unknown identifiers fail with NotFound and mutate
    /// nothing; only the container backend is implemented, and the node goes
    /// Online (with a fresh last-seen timestamp) exactly when that backend
    /// succeeded — otherwise the registry is unchanged and the error is
    /// surfaced.
    pub fn start_node(&mut self, id: &str, backend_ok: bool) -> (r: Result<(), NodeError>)
        requires
            old(self).wf(),
        ensures
            final(self).wf(),
            start_rel(old(self)@, final(self)@, id@, backend_ok, r),
    {
        let j = match self.find_index(id) {
            None => {
                return Err(NodeError::NotFound);
            },
            Some(j) => j,
        };
        let ghost pre = self@;
        proof {
            assert forall|k: int| 0 <= k < pre.len() && #[trigger] pre[k].id@ == id@
                implies k == j by {
                if k != j {
                    assert(pre[k].id@ != pre[j as int].id@);
                }
            }
        }
        if str_eq_str(self.nodes[j].vm_type.as_str(), "docker") {
            if backend_ok {
                let node = self.nodes.remove(j);
                let started = LocalNode {
                    status: String::from_str("online"),
                    last_seen: Some(now_rfc3339()),
                    ..node
                };
                self.nodes.insert(j, started);
                proof {
                    assert(self@ =~= pre.update(j as int, self@[j as int]));
                    assert(node_started(pre[j as int], self@[j as int]));
                }
                Ok(())
            } else {
                Err(NodeError::BackendFailed(String::from_str("Failed to start Docker container")))
            }
        } else {
            Err(NodeError::NotImplemented(self.nodes[j].vm_type.clone()))
        }
    }

    /// Stops a node, the mirror of `start_node`: Offline on backend success,
    /// unchanged plus an error otherwise.
    pub fn stop_node(&mut self, id: &str, backend_ok: bool) -> (r: Result<(), NodeError>)
        requires
            old(self).wf(),
        ensures
            final(self).wf(),
            stop_rel(old(self)@, final(self)@, id@, backend_ok, r),
    {
        let j = match self.find_index(id) {
            None => {
                return Err(NodeError::NotFound);
            },
            Some(j) => j,
        };
        let ghost pre = self@;
        proof {
            assert forall|k: int| 0 <= k < pre.len() && #[trigger] pre[k].id@ == id@
                implies k == j by {
                if k != j {
                    assert(pre[k].id@ != pre[j as int].id@);
                }
            }
        }
        if str_eq_str(self.nodes[j].vm_type.as_str(), "docker") {
            if backend_ok {
                let node = self.nodes.remove(j);
                let stopped = LocalNode { status: String::from_str("offline"), ..node };
                self.nodes.insert(j, stopped);
                proof {
                    assert(self@ =~= pre.update(j as int, self@[j as int]));
                    assert(node_stopped(pre[j as int], self@[j as int]));
                }
                Ok(())
            } else {
                Err(NodeError::BackendFailed(String::from_str("Failed to stop Docker container")))
            }
        } else {
            Err(NodeError::NotImplemented(self.nodes[j].vm_type.clone()))
        }
    }

    /// Removes a node: the record leaves the registry first, and the returned
    /// value says what teardown the caller owes the backend — so the node is
    /// absent even if that teardown subsequently fails. A technology without
    /// an implemented teardown owes nothing and is success. Unknown
    /// identifiers fail with NotFound and mutate nothing.
    pub fn remove_node(&mut self, id: &str) -> (r: Result<Option<Vec<String>>, NodeError>)
        requires
            old(self).wf(),
        ensures
            final(self).wf(),
            remove_rel(old(self)@, final(self)@, id@, r),
    {
        let j = match self.find_index(id) {
            None => {
                return Err(NodeError::NotFound);
            },
            Some(j) => j,
        };
        let ghost pre = self@;
        proof {
            assert forall|k: int| 0 <= k < pre.len() && #[trigger] pre[k].id@ == id@
                implies k == j by {
                if k != j {
                    assert(pre[k].id@ != pre[j as int].id@);
                }
            }
        }
        let node = self.nodes.remove(j);
        proof {
            assert forall|a: int, b: int| 0 <= a < b < self@.len()
                implies #[trigger] self@[a].id@ != #[trigger] self@[b].id@ by {
                let a0 = if a < j { a } else { a + 1 };
                let b0 = if b < j { b } else { b + 1 };
                assert(self@[a] == pre[a0] && self@[b] == pre[b0]);
                assert(pre[a0].id@ != pre[b0].id@);
            }
        }
        if str_eq_str(node.vm_type.as_str(), "docker") {
            let mut args: Vec<String> = Vec::new();
            args.push(String::from_str("rm"));
            args.push(String::from_str("-f"));
            args.push(container_name_for(node.id.as_str()));
            proof {
                assert(args.deep_view() =~= seq!["rm"@, "-f"@, spec_container_name(node.id@)]);
            }
            Ok(Some(args))
        } else {
            Ok(None)
        }
    }
}

/// The base image for a target platform; unknown platforms fall back to a
/// fixed default.
pub open spec fn spec_base_image(platform: Seq<char>) -> Seq<char> {
    if platform == "ubuntu-22.04"@ {
        "ubuntu:22.04"@
    } else if platform == "ubuntu-20.04"@ {
        "ubuntu:20.04"@
    } else if platform == "debian-11"@ {
        "debian:11"@
    } else if platform == "alpine-3.18"@ {
        "alpine:3.18"@
    } else if platform == "centos-8"@ {
        "centos:8"@
    } else {
        "ubuntu:22.04"@
    }
}

/// Resolves a platform to its base container image.
pub fn base_image_for(platform: &str) -> (r: String)
    ensures
        r@ == spec_base_image(platform@),
{
    if str_eq_str(platform, "ubuntu-22.04") {
        String::from_str("ubuntu:22.04")
    } else if str_eq_str(platform, "ubuntu-20.04") {
        String::from_str("ubuntu:20.04")
    } else if str_eq_str(platform, "debian-11") {
        String::from_str("debian:11")
    } else if str_eq_str(platform, "alpine-3.18") {
        String::from_str("alpine:3.18")
    } else if str_eq_str(platform, "centos-8") {
        String::from_str("centos:8")
    } else {
        String::from_str("ubuntu:22.04")
    }
}

/// The per-node workspace bind mount.
pub open spec fn spec_volume_arg(id: Seq<char>) -> Seq<char> {
    "/tmp/build-studio-"@ + id + ":/workspace"@
}

/// The arguments that create and start a detached container for the node:
/// deterministic name, memory and CPU limits from the resource budget, the
/// workspace volume, and the platform's image kept alive indefinitely.
pub open spec fn spec_run_args(id: Seq<char>, platform: Seq<char>, mem: u32, cpus: u32) -> Seq<
    Seq<char>,
> {
    seq![
        "run"@,
        "-d"@,
        "--name"@,
        spec_container_name(id),
        "--memory"@,
        crate::strutil::spec_dec(mem as nat).push('m'),
        "--cpus"@,
        crate::strutil::spec_dec(cpus as nat),
        "-v"@,
        spec_volume_arg(id),
        spec_base_image(platform),
        "sleep"@,
        "infinity"@,
    ]
}

/// The package-index refresh run inside the container.
pub open spec fn spec_update_args(name: Seq<char>) -> Seq<Seq<char>> {
    seq!["exec"@, name, "apt"@, "update"@]
}

/// The baseline toolset installation run inside the container.
pub open spec fn spec_basic_tools_args(name: Seq<char>) -> Seq<Seq<char>> {
    seq!["exec"@, name, "apt"@, "install"@, "-y"@, "build-essential"@, "git"@, "curl"@, "wget"@]
}

/// The installation command for one requested language, when the language is
/// known; unknown languages install nothing.
pub open spec fn spec_lang_args(name: Seq<char>, lang: Seq<char>) -> Option<Seq<Seq<char>>> {
    if lang == "rust"@ {
        Some(
            seq![
                "exec"@,
                name,
                "sh"@,
                "-c"@,
                "curl --proto '=https' --tlsv1.2 -sSf https://sh.rustup.rs | sh -s -- -y"@,
            ],
        )
    } else if lang == "node"@ {
        Some(seq!["exec"@, name, "apt"@, "install"@, "-y"@, "nodejs"@, "npm"@])
    } else if lang == "python"@ {
        Some(seq!["exec"@, name, "apt"@, "install"@, "-y"@, "python3"@, "python3-pip"@])
    } else if lang == "java"@ {
        Some(seq!["exec"@, name, "apt"@, "install"@, "-y"@, "openjdk-11-jdk"@])
    } else if lang == "go"@ {
        Some(seq!["exec"@, name, "apt"@, "install"@, "-y"@, "golang-go"@])
    } else {
        None
    }
}

/// The best-effort language installation steps, one per known requested
/// language, in request order.
pub open spec fn spec_lang_steps(name: Seq<char>, langs: Seq<Seq<char>>) -> Seq<
    (Seq<Seq<char>>, bool),
>
    decreases langs.len(),
{
    if langs.len() == 0 {
        Seq::empty()
    } else {
        spec_lang_steps(name, langs.drop_last()) + match spec_lang_args(name, langs.last()) {
            Some(a) => seq![(a, true)],
            None => Seq::empty(),
        }
    }
}

/// Every in-container step owed after creation: nothing unless build tools
/// were requested; otherwise the index refresh and baseline toolset (which
/// must succeed) followed by one best-effort step per known language.
pub open spec fn spec_install_steps(name: Seq<char>, config: LocalNodeConfig) -> Seq<
    (Seq<Seq<char>>, bool),
> {
    if config.install_build_tools {
        seq![(spec_update_args(name), false), (spec_basic_tools_args(name), false)]
            + spec_lang_steps(name, config.languages.deep_view())
    } else {
        Seq::empty()
    }
}

/// One command to run inside the container after creation. A best-effort
/// step's failure is logged and swallowed; any other step's failure fails the
/// node creation.
pub struct InstallStep {
    pub args: Vec<String>,
    pub best_effort: bool,
}

/// Everything the container backend must do to create a node: pull the
/// image, run the container, then the in-container steps in order.
pub struct DockerCreatePlan {
    pub image: String,
    pub container_name: String,
    pub pull_args: Vec<String>,
    pub run_args: Vec<String>,
    pub install_steps: Vec<InstallStep>,
}

/// The view of the in-container steps: arguments and whether each is
/// best-effort.
pub open spec fn steps_view(steps: Seq<InstallStep>) -> Seq<(Seq<Seq<char>>, bool)> {
    steps.map_values(|s: InstallStep| (s.args.deep_view(), s.best_effort))
}

/// The plan is exactly what the container backend owes this node.
pub open spec fn docker_plan_ok(plan: DockerCreatePlan, id: Seq<char>, config: LocalNodeConfig) -> bool {
    &&& plan.image@ == spec_base_image(config.platform@)
    &&& plan.container_name@ == spec_container_name(id)
    &&& plan.pull_args.deep_view() == seq!["pull"@, spec_base_image(config.platform@)]
    &&& plan.run_args.deep_view() == spec_run_args(
        id,
        config.platform@,
        config.memory,
        config.cpu_cores,
    )
    &&& steps_view(plan.install_steps@) == spec_install_steps(spec_container_name(id), config)
}

fn build_lang_step(name: &String, lang: &String) -> (r: Option<InstallStep>)
    ensures
        match r {
            Some(s) => spec_lang_args(name@, lang@) == Some(s.args.deep_view()) && s.best_effort,
            None => spec_lang_args(name@, lang@) is None,
        },
{
    let mut args: Vec<String> = Vec::new();
    args.push(String::from_str("exec"));
    args.push(name.clone());
    if str_eq_str(lang.as_str(), "rust") {
        args.push(String::from_str("sh"));
        args.push(String::from_str("-c"));
        args.push(
            String::from_str(
                "curl --proto '=https' --tlsv1.2 -sSf https://sh.rustup.rs | sh -s -- -y",
            ),
        );
        proof {
            assert(args.deep_view() =~= spec_lang_args(name@, lang@).unwrap());
        }
        Some(InstallStep { args, best_effort: true })
    } else if str_eq_str(lang.as_str(), "node") {
        args.push(String::from_str("apt"));
        args.push(String::from_str("install"));
        args.push(String::from_str("-y"));
        args.push(String::from_str("nodejs"));
        args.push(String::from_str("npm"));
        proof {
            assert(args.deep_view() =~= spec_lang_args(name@, lang@).unwrap());
        }
        Some(InstallStep { args, best_effort: true })
    } else if str_eq_str(lang.as_str(), "python") {
        args.push(String::from_str("apt"));
        args.push(String::from_str("install"));
        args.push(String::from_str("-y"));
        args.push(String::from_str("python3"));
        args.push(String::from_str("python3-pip"));
        proof {
            assert(args.deep_view() =~= spec_lang_args(name@, lang@).unwrap());
        }
        Some(InstallStep { args, best_effort: true })
    } else if str_eq_str(lang.as_str(), "java") {
        args.push(String::from_str("apt"));
        args.push(String::from_str("install"));
        args.push(String::from_str("-y"));
        args.push(String::from_str("openjdk-11-jdk"));
        proof {
            assert(args.deep_view() =~= spec_lang_args(name@, lang@).unwrap());
        }
        Some(InstallStep { args, best_effort: true })
    } else if str_eq_str(lang.as_str(), "go") {
        args.push(String::from_str("apt"));
        args.push(String::from_str("install"));
        args.push(String::from_str("-y"));
        args.push(String::from_str("golang-go"));
        proof {
            assert(args.deep_view() =~= spec_lang_args(name@, lang@).unwrap());
        }
        Some(InstallStep { args, best_effort: true })
    } else {
        None
    }
}

fn build_install_steps(name: &String, config: &LocalNodeConfig) -> (r: Vec<InstallStep>)
    ensures
        steps_view(r@) == spec_install_steps(name@, *config),
{
    let mut steps: Vec<InstallStep> = Vec::new();
    if !config.install_build_tools {
        proof {
            assert(steps_view(steps@) =~= spec_install_steps(name@, *config));
        }
        return steps;
    }
    let mut upd: Vec<String> = Vec::new();
    upd.push(String::from_str("exec"));
    upd.push(name.clone());
    upd.push(String::from_str("apt"));
    upd.push(String::from_str("update"));
    proof {
        assert(upd.deep_view() =~= spec_update_args(name@));
    }
    steps.push(InstallStep { args: upd, best_effort: false });
    let mut basic: Vec<String> = Vec::new();
    basic.push(String::from_str("exec"));
    basic.push(name.clone());
    basic.push(String::from_str("apt"));
    basic.push(String::from_str("install"));
    basic.push(String::from_str("-y"));
    basic.push(String::from_str("build-essential"));
    basic.push(String::from_str("git"));
    basic.push(String::from_str("curl"));
    basic.push(String::from_str("wget"));
    proof {
        assert(basic.deep_view() =~= spec_basic_tools_args(name@));
    }
    steps.push(InstallStep { args: basic, best_effort: false });
    let ghost head: Seq<(Seq<Seq<char>>, bool)> = seq![
        (spec_update_args(name@), false),
        (spec_basic_tools_args(name@), false),
    ];
    let ghost langs = config.languages.deep_view();
    proof {
        assert(steps_view(steps@) =~= head + spec_lang_steps(name@, langs.take(0)));
    }
    let n = config.languages.len();
    let mut i: usize = 0;
    while i < n
        invariant
            n == config.languages@.len(),
            langs == config.languages.deep_view(),
            i <= n,
            steps_view(steps@) == head + spec_lang_steps(name@, langs.take(i as int)),
        decreases n - i,
    {
        proof {
            assert(langs.take(i + 1).drop_last() =~= langs.take(i as int));
            assert(langs.take(i + 1).last() == langs[i as int]);
            assert(langs[i as int] == config.languages@[i as int]@);
        }
        match build_lang_step(name, &config.languages[i]) {
            Some(step) => {
                proof {
                    assert(steps_view(steps@.push(step)) =~= steps_view(steps@).push(
                        (step.args.deep_view(), step.best_effort),
                    ));
                    assert(steps_view(steps@).push((step.args.deep_view(), step.best_effort))
                        =~= head + spec_lang_steps(name@, langs.take(i + 1)));
                }
                steps.push(step);
            },
            None => {
                proof {
                    assert(head + spec_lang_steps(name@, langs.take(i + 1)) =~= head
                        + spec_lang_steps(name@, langs.take(i as int)));
                }
            },
        }
        i += 1;
    }
    proof {
        assert(langs.take(n as int) =~= langs);
    }
    steps
}

fn build_docker_plan(id: &String, config: &LocalNodeConfig) -> (r: DockerCreatePlan)
    ensures
        docker_plan_ok(r, id@, *config),
{
    let image = base_image_for(config.platform.as_str());
    let name = container_name_for(id.as_str());
    let mut pull_args: Vec<String> = Vec::new();
    pull_args.push(String::from_str("pull"));
    pull_args.push(image.clone());
    proof {
        assert(pull_args.deep_view() =~= seq!["pull"@, spec_base_image(config.platform@)]);
    }
    let mut memory_arg = crate::strutil::u32_to_dec_string(config.memory);
    memory_arg.append("m");
    proof {
        reveal_strlit("m");
        assert(memory_arg@ =~= crate::strutil::spec_dec(config.memory as nat).push('m'));
    }
    let cpu_arg = crate::strutil::u32_to_dec_string(config.cpu_cores);
    let mut volume_arg = crate::strutil::concat2("/tmp/build-studio-", id.as_str());
    volume_arg.append(":/workspace");
    let mut run_args: Vec<String> = Vec::new();
    run_args.push(String::from_str("run"));
    run_args.push(String::from_str("-d"));
    run_args.push(String::from_str("--name"));
    run_args.push(name.clone());
    run_args.push(String::from_str("--memory"));
    run_args.push(memory_arg);
    run_args.push(String::from_str("--cpus"));
    run_args.push(cpu_arg);
    run_args.push(String::from_str("-v"));
    run_args.push(volume_arg);
    run_args.push(image.clone());
    run_args.push(String::from_str("sleep"));
    run_args.push(String::from_str("infinity"));
    proof {
        assert(run_args.deep_view() =~= spec_run_args(
            id@,
            config.platform@,
            config.memory,
            config.cpu_cores,
        ));
    }
    let install_steps = build_install_steps(&name, config);
    DockerCreatePlan { image, container_name: name, pull_args, run_args, install_steps }
}

/// The named technology is recognized but its backend is not implemented.
pub open spec fn spec_unimplemented_tech(v: Seq<char>) -> bool {
    v == "wsl"@ || v == "kvm"@ || v == "qemu"@ || v == "hyperv"@ || v == "vmware"@ || v
        == "virtualbox"@ || v == "macos-vm"@
}

/// Plans the creation of a node: draws a fresh identifier and, for the
/// container backend (requested directly, or picked by `auto` when the probe
/// found it available), returns everything the backend must run. A recognized
/// technology without an implemented backend fails as not implemented; `auto`
/// with nothing available fails with no suitable backend; anything else is
/// unsupported. Nothing is registered here: registration follows backend
/// success.
pub fn plan_create_local_node(config: &LocalNodeConfig, caps: &VirtualizationSupport) -> (r: Result<
    (String, DockerCreatePlan),
    NodeError,
>)
    ensures
        match r {
            Ok(p) => (config.virtualization@ == "docker"@ || (config.virtualization@ == "auto"@
                && caps.docker)) && p.0@.len() == 36 && docker_plan_ok(p.1, p.0@, *config),
            Err(e) => match e {
                NodeError::NotImplemented(t) => t@ == config.virtualization@
                    && spec_unimplemented_tech(config.virtualization@),
                NodeError::NoSuitableBackend => config.virtualization@ == "auto"@ && !caps.docker,
                NodeError::Unsupported => config.virtualization@ != "docker"@
                    && config.virtualization@ != "auto"@ && !spec_unimplemented_tech(
                    config.virtualization@,
                ),
                _ => false,
            },
        },
{
    let virt = config.virtualization.as_str();
    if str_eq_str(virt, "docker") {
        let id = uuid_string();
        let plan = build_docker_plan(&id, config);
        Ok((id, plan))
    } else if str_eq_str(virt, "auto") {
        if caps.docker {
            let id = uuid_string();
            let plan = build_docker_plan(&id, config);
            Ok((id, plan))
        } else {
            Err(NodeError::NoSuitableBackend)
        }
    } else if str_eq_str(virt, "wsl") || str_eq_str(virt, "kvm") || str_eq_str(virt, "qemu")
        || str_eq_str(virt, "hyperv") || str_eq_str(virt, "vmware") || str_eq_str(
        virt,
        "virtualbox",
    ) || str_eq_str(virt, "macos-vm") {
        Err(NodeError::NotImplemented(config.virtualization.clone()))
    } else {
        Err(NodeError::Unsupported)
    }
}

/// A container-listing line that belongs to this application: at least four
/// tab-separated fields, the name carrying the deterministic prefix.
pub open spec fn spec_scan_match(l: Seq<char>) -> bool {
    crate::strutil::spec_split(l, '\t').len() >= 4 && spec_starts_with(
        crate::strutil::spec_split(l, '\t')[1],
        "build-studio-"@,
    )
}

pub open spec fn scan_match_pred() -> spec_fn(Seq<char>) -> bool {
    |l: Seq<char>| spec_scan_match(l)
}

/// The node record constructed purely from one matching listing line: id and
/// name from the listing, Online exactly when the status field says the
/// container is up, and placeholder resources — discovery knows nothing of
/// the original budget.
pub open spec fn scanned_node_ok(n: LocalNode, l: Seq<char>) -> bool {
    let parts = crate::strutil::spec_split(l, '\t');
    &&& n.id@ == parts[0]
    &&& n.name@ == parts[1]
    &&& n.node_type@ == "local-docker"@
    &&& n.status@ == (if crate::strutil::spec_contains(parts[3], "Up"@) {
        "online"@
    } else {
        "offline"@
    })
    &&& n.platform@ == "unknown"@
    &&& n.memory == 0
    &&& n.cpu_cores == 0
    &&& n.disk_size == 0
    &&& n.vm_type@ == "docker"@
    &&& n.capabilities.deep_view() == seq!["build"@]
    &&& n.container_id.deep_view() == Some(parts[0])
    &&& n.vm_id is None
    &&& n.created_at@.len() > 0
    &&& n.last_seen is None
}

/// Reads a container listing (one container per line: id, name, image and
/// status separated by tabs) and constructs a node record from every line
/// whose name carries this application's prefix, in listing order.
pub fn scan_docker_containers(listing: &str) -> (r: Vec<LocalNode>)
    ensures
        ({
            let matched = spec_lines(listing@).filter(scan_match_pred());
            &&& r@.len() == matched.len()
            &&& forall|k: int|
                0 <= k < matched.len() ==> scanned_node_ok(#[trigger] r@[k], matched[k])
        }),
{
    let lines = lines_str(listing);
    let ghost lspec = spec_lines(listing@);
    let n = lines.len();
    let mut out: Vec<LocalNode> = Vec::new();
    proof {
        assert(lspec.take(0) =~= Seq::<Seq<char>>::empty());
        assert(lspec.take(0).filter(scan_match_pred()) =~= Seq::<Seq<char>>::empty()) by {
            reveal(Seq::filter);
        }
    }
    let mut i: usize = 0;
    while i < n
        invariant
            lspec == spec_lines(listing@),
            lines@.map_values(|t: String| t@) == lspec,
            n == lines@.len(),
            i <= n,
            out@.len() == lspec.take(i as int).filter(scan_match_pred()).len(),
            forall|k: int|
                0 <= k < out@.len() ==> scanned_node_ok(
                    #[trigger] out@[k],
                    lspec.take(i as int).filter(scan_match_pred())[k],
                ),
        decreases n - i,
    {
        proof {
            assert(lspec.take(i + 1) =~= lspec.take(i as int).push(lspec[i as int]));
            crate::strutil::lemma_filter_push(
                lspec.take(i as int),
                scan_match_pred(),
                lspec[i as int],
            );
            assert(lspec[i as int] == lines@[i as int]@);
        }
        let line = &lines[i];
        let parts = split_str(line.as_str(), '\t');
        proof {
            assert(parts.deep_view().len() == parts@.len());
        }
        if parts.len() >= 4 && str_starts_with(parts[1].as_str(), "build-studio-") {
            proof {
                assert(parts.deep_view()[1] == parts@[1]@);
                assert(parts.deep_view()[0] == parts@[0]@);
                assert(parts.deep_view()[3] == parts@[3]@);
            }
            let online = crate::strutil::str_contains(parts[3].as_str(), "Up");
            let status = if online {
                String::from_str("online")
            } else {
                String::from_str("offline")
            };
            let mut capabilities: Vec<String> = Vec::new();
            capabilities.push(String::from_str("build"));
            let node = LocalNode {
                id: parts[0].clone(),
                name: parts[1].clone(),
                node_type: String::from_str("local-docker"),
                status,
                platform: String::from_str("unknown"),
                memory: 0,
                cpu_cores: 0,
                disk_size: 0,
                vm_type: String::from_str("docker"),
                capabilities,
                container_id: Some(parts[0].clone()),
                vm_id: None,
                created_at: now_rfc3339(),
                last_seen: None,
            };
            proof {
                assert(node.capabilities.deep_view() =~= seq!["build"@]);
                assert(scanned_node_ok(node, lspec[i as int]));
            }
            out.push(node);
        }
        i += 1;
    }
    proof {
        assert(lspec.take(n as int) =~= lspec);
    }
    out
}

/// Merges the per-backend discovery results: each backend that answered
/// contributes its nodes in order, and a failed backend contributes nothing
/// without hiding the others.
pub fn scan_local_nodes(
    docker_nodes: Option<Vec<LocalNode>>,
    vm_nodes: Option<Vec<LocalNode>>,
) -> (r: Vec<LocalNode>)
    ensures
        r@ == (match docker_nodes {
            Some(d) => d@,
            None => Seq::<LocalNode>::empty(),
        }) + (match vm_nodes {
            Some(v) => v@,
            None => Seq::<LocalNode>::empty(),
        }),
{
    let mut out: Vec<LocalNode> = Vec::new();
    let ghost dpart = match docker_nodes {
        Some(ref d) => d@,
        None => Seq::<LocalNode>::empty(),
    };
    match docker_nodes {
        Some(mut d) => {
            out.append(&mut d);
            proof {
                assert(out@ =~= dpart);
            }
        },
        None => {
            proof {
                assert(out@ =~= dpart);
            }
        },
    }
    match vm_nodes {
        Some(mut v) => {
            out.append(&mut v);
            out
        },
        None => {
            proof {
                assert(out@ =~= dpart + Seq::<LocalNode>::empty());
            }
            out
        },
    }
}

/// Creating a node in an empty registry and then listing shows exactly one
/// node, in Installing state, carrying the requested configuration.
pub proof fn lemma_create_then_list(
    post: Seq<LocalNode>,
    id: Seq<char>,
    config: LocalNodeConfig,
    accepted: bool,
)
    requires
        register_rel(Seq::empty(), post, id, config, accepted),
    ensures
        accepted,
        post.len() == 1,
        post[0].status@ == "installing"@,
        fresh_node_fields(post[0], id, config),
{
    assert(!spec_has_node(Seq::empty(), id));
}

/// `start` changes the registry only when the backend succeeded: on any
/// error the registry is exactly as before, and on success the named node —
/// and only it — is Online.
pub proof fn lemma_start_changes_only_on_success(
    pre: Seq<LocalNode>,
    post: Seq<LocalNode>,
    id: Seq<char>,
    backend_ok: bool,
    r: Result<(), NodeError>,
)
    requires
        wf_nodes(pre),
        spec_has_node(pre, id),
        start_rel(pre, post, id, backend_ok, r),
    ensures
        r is Err ==> post == pre,
        r is Ok ==> forall|j: int|
            0 <= j < pre.len() && #[trigger] pre[j].id@ == id ==> node_started(pre[j], post[j])
                && (forall|k: int| 0 <= k < pre.len() && k != j ==> post[k] == pre[k]),
{
    let j0 = choose|j: int| 0 <= j < pre.len() && #[trigger] pre[j].id@ == id;
    assert(start_case_rel(pre, post, j0, backend_ok, r));
}

/// `remove` makes the node absent from every later listing, even if the
/// backend teardown that follows fails: the record is gone from the registry
/// before any teardown runs.
pub proof fn lemma_remove_makes_absent(
    pre: Seq<LocalNode>,
    post: Seq<LocalNode>,
    id: Seq<char>,
    r: Result<Option<Vec<String>>, NodeError>,
)
    requires
        wf_nodes(pre),
        spec_has_node(pre, id),
        remove_rel(pre, post, id, r),
    ensures
        !spec_has_node(post, id),
{
    let j0 = choose|j: int| 0 <= j < pre.len() && #[trigger] pre[j].id@ == id;
    assert(post == pre.remove(j0));
    assert forall|k: int| 0 <= k < post.len() implies #[trigger] post[k].id@ != id by {
        let k0 = if k < j0 {
            k
        } else {
            k + 1
        };
        assert(post[k] == pre[k0]);
        if k0 < j0 {
            assert(pre[k0].id@ != pre[j0].id@);
        } else {
            assert(pre[j0].id@ != pre[k0].id@);
        }
    }
}

/// `start`, `stop` and `remove` on an identifier the registry does not hold
/// always fail with NotFound and never mutate the registry.
pub proof fn lemma_unknown_id_rejected(
    pre: Seq<LocalNode>,
    post_start: Seq<LocalNode>,
    post_stop: Seq<LocalNode>,
    post_remove: Seq<LocalNode>,
    id: Seq<char>,
    backend_ok: bool,
    r_start: Result<(), NodeError>,
    r_stop: Result<(), NodeError>,
    r_remove: Result<Option<Vec<String>>, NodeError>,
)
    requires
        !spec_has_node(pre, id),
        start_rel(pre, post_start, id, backend_ok, r_start),
        stop_rel(pre, post_stop, id, backend_ok, r_stop),
        remove_rel(pre, post_remove, id, r_remove),
    ensures
        post_start == pre && r_start == Err::<(), NodeError>(NodeError::NotFound),
        post_stop == pre && r_stop == Err::<(), NodeError>(NodeError::NotFound),
        post_remove == pre && r_remove == Err::<Option<Vec<String>>, NodeError>(
            NodeError::NotFound,
        ),
{
}

} // verus!
