//! The typed profile tree.
//!
//! Every numeric leaf that the document string-encodes is held decoded
//! here; fractional values are held exactly, as [`Decimal`] fixed-point
//! numbers in millionths. The tree is immutable once decoded.

use vstd::prelude::*;
use crate::numeric::Decimal;

verus! {

/// The root of one profile document.
pub struct Profile {
    pub json_type: String,
    pub versions: Versions,
    pub kernels: Nodes,
    pub boards: Nodes,
    pub memory_transfers: Nodes,
    pub channels: Nodes,
    pub run_information: Nodes,
}

pub struct Versions {
    pub profiler_json_version: String,
    pub aocx_version: String,
}

/// A node collection: in the document either an array of tagged objects or
/// the empty-string sentinel, which stands for an empty collection.
pub struct Nodes {
    pub nodes: Vec<Node>,
}

/// A top-level record, discriminated by its `type` tag.
pub enum Node {
    Kernel(Kernel),
    Board(Board),
    MemoryTransfers(MemoryTransfers),
    RunInformation(RunInformation),
}

/// One compiled kernel invocation with its sampling timeline.
pub struct Kernel {
    pub name: String,
    pub compute_unit: u32,
    pub source_file: FileReference,
    pub device_ids: Vec<u32>,
    pub command_queue_ids: Vec<u32>,
    pub start_time: u64,
    pub end_time: u64,
    pub num_samples: u32,
    pub shared_counter_run_type: i32,
    pub sample_timestamps: Vec<u64>,
    pub total_cycles_between_samples: Vec<u64>,
    pub is_autorun: bool,
    pub children: Vec<Child>,
}

pub struct Board {
    pub board_type: String,
    pub children: Vec<Child>,
}

pub struct MemoryTransfers {
    pub type_transfer: String,
    pub device_id: u32,
    pub command_queue_id: u32,
    pub start_time: u64,
    pub end_time: u64,
}

/// The achieved clock frequency, in MHz millionths.
pub struct RunInformation {
    pub fmax: Decimal,
}

/// A kernel- or board-level child record, discriminated by its `type` tag.
pub enum Child {
    ModuleInstance(ModuleInstance),
    GlobalMemory(GlobalMemory),
    ExternalMemory(ExternalMemory),
}

/// One instantiated hardware block, attributed to source locations.
pub struct ModuleInstance {
    pub name: String,
    pub source_files: Vec<FileReference>,
    pub module_instance_details: ModuleInstanceDetails,
}

/// A board-level global-memory capability descriptor.
pub struct GlobalMemory {
    pub global_memory_name: String,
    pub maximum_theoretical_global_memory_bandwidth: Decimal,
    pub maximum_burst_count: Decimal,
}

/// Per-port bandwidth and burst samples aligned to the owning kernel's
/// timeline.
pub struct ExternalMemory {
    pub name: String,
    pub interface: String,
    pub port: String,
    pub global_used_bandwidth: Vec<Decimal>,
    pub average_write_burst: Vec<Decimal>,
    pub average_read_burst: Vec<Decimal>,
}

/// A source location with its call chain, most specific first; the chain is
/// empty for a top-level location.
pub struct FileReference {
    pub file_name: String,
    pub line: u32,
    pub column_number: Option<u32>,
    pub callsite: Vec<FileReference>,
}

/// The sample-kind variant of a module instance, discriminated by its
/// `mem_type` tag.
pub enum ModuleInstanceDetails {
    Global(Global),
    Local(Local),
    Channel(Channel),
    Loop(Loop),
}

pub struct Global {
    pub operation_type: OperationType,
    pub occupancy_samples: Vec<u64>,
    pub stall_samples: Vec<u64>,
    pub idle_samples: Vec<u64>,
    pub activity_samples: Vec<u64>,
    pub bandwidth_samples: Vec<Decimal>,
    pub bandwidth_effective_samples: Vec<Decimal>,
    pub cache_hit_samples: Vec<Decimal>,
    pub coalesced_memory: bool,
    pub global_memory_name: String,
    pub average_burst_size: Vec<Decimal>,
}

pub struct Local {
    pub operation_type: OperationType,
    pub occupancy_samples: Vec<u64>,
    pub stall_samples: Vec<u64>,
    pub idle_samples: Vec<u64>,
    pub activity_samples: Vec<u64>,
    pub coalesced_memory: bool,
}

pub struct Channel {
    pub operation_type: OperationType,
    pub occupancy_samples: Vec<u64>,
    pub stall_samples: Vec<u64>,
    pub idle_samples: Vec<u64>,
    pub average_channel_depth_samples: Vec<Decimal>,
    pub maximum_channel_depth_samples: Vec<u32>,
    pub activity_samples: Vec<u64>,
    pub bandwidth_samples: Vec<Decimal>,
    pub coalesced_memory: bool,
}

pub struct Loop {
    pub occupancy_samples: Vec<u64>,
}

#[derive(Clone, Copy, PartialEq, Eq, Structural, Debug)]
pub enum OperationType {
    Read,
    Write,
}

/// The abstract form of the profile tree: the same shape with mathematical
/// sequences for vectors. The decoder's contracts are stated over it.
pub struct SpecProfile {
    pub json_type: String,
    pub versions: Versions,
    pub kernels: Seq<SpecNode>,
    pub boards: Seq<SpecNode>,
    pub memory_transfers: Seq<SpecNode>,
    pub channels: Seq<SpecNode>,
    pub run_information: Seq<SpecNode>,
}

pub enum SpecNode {
    Kernel(SpecKernel),
    Board(SpecBoard),
    MemoryTransfers(MemoryTransfers),
    RunInformation(RunInformation),
}

pub struct SpecKernel {
    pub name: String,
    pub compute_unit: u32,
    pub source_file: SpecFileReference,
    pub device_ids: Seq<u32>,
    pub command_queue_ids: Seq<u32>,
    pub start_time: u64,
    pub end_time: u64,
    pub num_samples: u32,
    pub shared_counter_run_type: i32,
    pub sample_timestamps: Seq<u64>,
    pub total_cycles_between_samples: Seq<u64>,
    pub is_autorun: bool,
    pub children: Seq<SpecChild>,
}

pub struct SpecBoard {
    pub board_type: String,
    pub children: Seq<SpecChild>,
}

pub enum SpecChild {
    ModuleInstance(SpecModuleInstance),
    GlobalMemory(GlobalMemory),
    ExternalMemory(SpecExternalMemory),
}

pub struct SpecModuleInstance {
    pub name: String,
    pub source_files: Seq<SpecFileReference>,
    pub module_instance_details: SpecModuleInstanceDetails,
}

pub struct SpecExternalMemory {
    pub name: String,
    pub interface: String,
    pub port: String,
    pub global_used_bandwidth: Seq<Decimal>,
    pub average_write_burst: Seq<Decimal>,
    pub average_read_burst: Seq<Decimal>,
}

pub struct SpecFileReference {
    pub file_name: String,
    pub line: u32,
    pub column_number: Option<u32>,
    pub callsite: Seq<SpecFileReference>,
}

pub enum SpecModuleInstanceDetails {
    Global(SpecGlobal),
    Local(SpecLocal),
    Channel(SpecChannel),
    Loop(SpecLoop),
}

pub struct SpecGlobal {
    pub operation_type: OperationType,
    pub occupancy_samples: Seq<u64>,
    pub stall_samples: Seq<u64>,
    pub idle_samples: Seq<u64>,
    pub activity_samples: Seq<u64>,
    pub bandwidth_samples: Seq<Decimal>,
    pub bandwidth_effective_samples: Seq<Decimal>,
    pub cache_hit_samples: Seq<Decimal>,
    pub coalesced_memory: bool,
    pub global_memory_name: String,
    pub average_burst_size: Seq<Decimal>,
}

pub struct SpecLocal {
    pub operation_type: OperationType,
    pub occupancy_samples: Seq<u64>,
    pub stall_samples: Seq<u64>,
    pub idle_samples: Seq<u64>,
    pub activity_samples: Seq<u64>,
    pub coalesced_memory: bool,
}

pub struct SpecChannel {
    pub operation_type: OperationType,
    pub occupancy_samples: Seq<u64>,
    pub stall_samples: Seq<u64>,
    pub idle_samples: Seq<u64>,
    pub average_channel_depth_samples: Seq<Decimal>,
    pub maximum_channel_depth_samples: Seq<u32>,
    pub activity_samples: Seq<u64>,
    pub bandwidth_samples: Seq<Decimal>,
    pub coalesced_memory: bool,
}

pub struct SpecLoop {
    pub occupancy_samples: Seq<u64>,
}

pub open spec fn view_fr_seq(s: Seq<FileReference>, n: int) -> Seq<SpecFileReference>
    decreases s, n,
{
    if n <= 0 || n > s.len() {
        Seq::empty()
    } else {
        view_fr_seq(s, n - 1).push(view_file_reference(s[n - 1]))
    }
}

pub open spec fn view_file_reference(f: FileReference) -> SpecFileReference
    decreases f,
{
    SpecFileReference {
        file_name: f.file_name,
        line: f.line,
        column_number: f.column_number,
        callsite: view_fr_seq(f.callsite@, f.callsite@.len() as int),
    }
}

pub open spec fn view_external_memory(e: ExternalMemory) -> SpecExternalMemory {
    SpecExternalMemory {
        name: e.name,
        interface: e.interface,
        port: e.port,
        global_used_bandwidth: e.global_used_bandwidth@,
        average_write_burst: e.average_write_burst@,
        average_read_burst: e.average_read_burst@,
    }
}

pub open spec fn view_global(g: Global) -> SpecGlobal {
    SpecGlobal {
        operation_type: g.operation_type,
        occupancy_samples: g.occupancy_samples@,
        stall_samples: g.stall_samples@,
        idle_samples: g.idle_samples@,
        activity_samples: g.activity_samples@,
        bandwidth_samples: g.bandwidth_samples@,
        bandwidth_effective_samples: g.bandwidth_effective_samples@,
        cache_hit_samples: g.cache_hit_samples@,
        coalesced_memory: g.coalesced_memory,
        global_memory_name: g.global_memory_name,
        average_burst_size: g.average_burst_size@,
    }
}

pub open spec fn view_local(l: Local) -> SpecLocal {
    SpecLocal {
        operation_type: l.operation_type,
        occupancy_samples: l.occupancy_samples@,
        stall_samples: l.stall_samples@,
        idle_samples: l.idle_samples@,
        activity_samples: l.activity_samples@,
        coalesced_memory: l.coalesced_memory,
    }
}

pub open spec fn view_channel(c: Channel) -> SpecChannel {
    SpecChannel {
        operation_type: c.operation_type,
        occupancy_samples: c.occupancy_samples@,
        stall_samples: c.stall_samples@,
        idle_samples: c.idle_samples@,
        average_channel_depth_samples: c.average_channel_depth_samples@,
        maximum_channel_depth_samples: c.maximum_channel_depth_samples@,
        activity_samples: c.activity_samples@,
        bandwidth_samples: c.bandwidth_samples@,
        coalesced_memory: c.coalesced_memory,
    }
}

pub open spec fn view_loop(l: Loop) -> SpecLoop {
    SpecLoop { occupancy_samples: l.occupancy_samples@ }
}

pub open spec fn view_details(d: ModuleInstanceDetails) -> SpecModuleInstanceDetails {
    match d {
        ModuleInstanceDetails::Global(g) => SpecModuleInstanceDetails::Global(view_global(g)),
        ModuleInstanceDetails::Local(l) => SpecModuleInstanceDetails::Local(view_local(l)),
        ModuleInstanceDetails::Channel(c) => SpecModuleInstanceDetails::Channel(view_channel(c)),
        ModuleInstanceDetails::Loop(l) => SpecModuleInstanceDetails::Loop(view_loop(l)),
    }
}

pub open spec fn view_module_instance(m: ModuleInstance) -> SpecModuleInstance {
    SpecModuleInstance {
        name: m.name,
        source_files: view_fr_seq(m.source_files@, m.source_files@.len() as int),
        module_instance_details: view_details(m.module_instance_details),
    }
}

pub open spec fn view_child(c: Child) -> SpecChild {
    match c {
        Child::ModuleInstance(m) => SpecChild::ModuleInstance(view_module_instance(m)),
        Child::GlobalMemory(g) => SpecChild::GlobalMemory(g),
        Child::ExternalMemory(e) => SpecChild::ExternalMemory(view_external_memory(e)),
    }
}

pub open spec fn view_child_seq(s: Seq<Child>) -> Seq<SpecChild> {
    s.map_values(|c: Child| view_child(c))
}

pub open spec fn view_kernel(k: Kernel) -> SpecKernel {
    SpecKernel {
        name: k.name,
        compute_unit: k.compute_unit,
        source_file: view_file_reference(k.source_file),
        device_ids: k.device_ids@,
        command_queue_ids: k.command_queue_ids@,
        start_time: k.start_time,
        end_time: k.end_time,
        num_samples: k.num_samples,
        shared_counter_run_type: k.shared_counter_run_type,
        sample_timestamps: k.sample_timestamps@,
        total_cycles_between_samples: k.total_cycles_between_samples@,
        is_autorun: k.is_autorun,
        children: view_child_seq(k.children@),
    }
}

pub open spec fn view_node(n: Node) -> SpecNode {
    match n {
        Node::Kernel(k) => SpecNode::Kernel(view_kernel(k)),
        Node::Board(b) => SpecNode::Board(
            SpecBoard { board_type: b.board_type, children: view_child_seq(b.children@) },
        ),
        Node::MemoryTransfers(m) => SpecNode::MemoryTransfers(m),
        Node::RunInformation(r) => SpecNode::RunInformation(r),
    }
}

pub open spec fn view_node_seq(s: Seq<Node>) -> Seq<SpecNode> {
    s.map_values(|n: Node| view_node(n))
}

pub open spec fn view_profile(p: Profile) -> SpecProfile {
    SpecProfile {
        json_type: p.json_type,
        versions: p.versions,
        kernels: view_node_seq(p.kernels.nodes@),
        boards: view_node_seq(p.boards.nodes@),
        memory_transfers: view_node_seq(p.memory_transfers.nodes@),
        channels: view_node_seq(p.channels.nodes@),
        run_information: view_node_seq(p.run_information.nodes@),
    }
}

/// The timestamp at which a kernel's sample interval `i` begins: the kernel
/// start for the first interval, else the previous sample timestamp.
pub open spec fn spec_interval_start(k: Kernel, i: int) -> u64 {
    if i == 0 {
        k.start_time
    } else {
        k.sample_timestamps@[i - 1]
    }
}

/// The sampling timeline is ascending. The aggregation engine counts a
/// non-ascending gap as zero duration; this predicate lets a caller detect
/// such data beforehand.
pub open spec fn spec_timeline_wf(k: Kernel) -> bool {
    &&& k.start_time <= k.end_time
    &&& forall|i: int|
        0 <= i < k.sample_timestamps@.len() ==> spec_interval_start(k, i)
            <= k.sample_timestamps@[i]
}

pub open spec fn spec_profile_timelines_wf(p: Profile) -> bool {
    forall|i: int|
        0 <= i < p.kernels.nodes@.len() ==> (#[trigger] p.kernels.nodes@[i] matches Node::Kernel(
            k,
        ) ==> spec_timeline_wf(k))
}

/// Checks that one kernel's sampling timeline is ascending.
pub fn kernel_timeline_wf(k: &Kernel) -> (r: bool)
    ensures
        r == spec_timeline_wf(*k),
{
    if k.start_time > k.end_time {
        return false;
    }
    let mut i: usize = 0;
    let mut prev: u64 = k.start_time;
    while i < k.sample_timestamps.len()
        invariant
            0 <= i <= k.sample_timestamps@.len(),
            prev == spec_interval_start(*k, i as int),
            forall|j: int|
                0 <= j < i ==> spec_interval_start(*k, j) <= k.sample_timestamps@[j],
        decreases k.sample_timestamps@.len() - i,
    {
        let cur = k.sample_timestamps[i];
        if prev > cur {
            return false;
        }
        prev = cur;
        i += 1;
    }
    true
}

/// Checks every kernel node's timeline.
pub fn profile_timelines_wf(p: &Profile) -> (r: bool)
    ensures
        r == spec_profile_timelines_wf(*p),
{
    let mut i: usize = 0;
    while i < p.kernels.nodes.len()
        invariant
            0 <= i <= p.kernels.nodes@.len(),
            forall|j: int|
                0 <= j < i ==> (#[trigger] p.kernels.nodes@[j] matches Node::Kernel(k)
                    ==> spec_timeline_wf(k)),
        decreases p.kernels.nodes@.len() - i,
    {
        match &p.kernels.nodes[i] {
            Node::Kernel(k) => {
                if !kernel_timeline_wf(k) {
                    return false;
                }
            },
            _ => {},
        }
        i += 1;
    }
    true
}

} // verus!
