//! Report sections: grouped, aggregated results ready for rendering.
//!
//! Each module-instance section selects its sample kind, groups by source
//! chain and aggregates each group; the renderer only formats what stands
//! here. A group names its first item, whose instance carries the source
//! chain the group is keyed by.

use vstd::prelude::*;
use crate::aggregate::{
    BandwidthStat, ChannelDepthStat, EffectivenessStat, OccupancyStat, StallStat,
    compute_bandwidth, compute_channel_depth, compute_effectiveness, compute_occupancy,
    compute_stall, pairs_view, spec_compute_bandwidth, spec_compute_channel_depth,
    spec_compute_effectiveness, spec_compute_occupancy, spec_compute_stall,
};
use crate::aggregate::{add_sat, clamped_sub, micro_seq, micro_values, min2, sat_add};
use crate::data_model::{
    Channel, Child, ExternalMemory, Global, Kernel, Local, Loop, ModuleInstanceDetails, Node,
    Profile,
};
use crate::group::{kernel_allowed, spec_allowed};
use crate::numeric::Decimal;
use crate::order::{Rank, rank_then, spec_cmp_chars};
use crate::group::{
    SectionKind, groups_view, groups_wf, instance_at, kernel_at, select_items, group_by_source,
    spec_group_items, spec_select, valid_instance_item,
};

verus! {

pub open spec fn global_at(kernels: Seq<Node>, it: (usize, usize)) -> Global {
    instance_at(kernels, it.0 as int, it.1 as int).module_instance_details->Global_0
}

pub open spec fn local_at(kernels: Seq<Node>, it: (usize, usize)) -> Local {
    instance_at(kernels, it.0 as int, it.1 as int).module_instance_details->Local_0
}

pub open spec fn channel_at(kernels: Seq<Node>, it: (usize, usize)) -> Channel {
    instance_at(kernels, it.0 as int, it.1 as int).module_instance_details->Channel_0
}

pub open spec fn loop_at(kernels: Seq<Node>, it: (usize, usize)) -> Loop {
    instance_at(kernels, it.0 as int, it.1 as int).module_instance_details->Loop_0
}

/// One reported group: the first selected item (whose module instance
/// carries the group's source chain) and the group's aggregated figures.
pub struct SectionGroup<T> {
    pub first_item: (usize, usize),
    pub stats: T,
}

#[derive(Clone, Copy, PartialEq, Eq, Structural, Debug)]
pub struct GlobalStats {
    pub occupancy: OccupancyStat,
    pub stall: StallStat,
    pub bandwidth: BandwidthStat,
    pub effectiveness: EffectivenessStat,
}

#[derive(Clone, Copy, PartialEq, Eq, Structural, Debug)]
pub struct LocalStats {
    pub occupancy: OccupancyStat,
    pub stall: StallStat,
}

#[derive(Clone, Copy, PartialEq, Eq, Structural, Debug)]
pub struct ChannelStats {
    pub occupancy: OccupancyStat,
    pub stall: StallStat,
    pub bandwidth: BandwidthStat,
    pub channel_depth: ChannelDepthStat,
}

#[derive(Clone, Copy, PartialEq, Eq, Structural, Debug)]
pub struct LoopStats {
    pub occupancy: OccupancyStat,
}

pub open spec fn spec_resolved_global(kernels: Seq<Node>, g: Seq<(usize, usize)>) -> Seq<
    (Kernel, Global),
> {
    g.map_values(|it: (usize, usize)| (kernel_at(kernels, it.0 as int), global_at(kernels, it)))
}

pub open spec fn spec_resolved_local(kernels: Seq<Node>, g: Seq<(usize, usize)>) -> Seq<
    (Kernel, Local),
> {
    g.map_values(|it: (usize, usize)| (kernel_at(kernels, it.0 as int), local_at(kernels, it)))
}

pub open spec fn spec_resolved_channel(kernels: Seq<Node>, g: Seq<(usize, usize)>) -> Seq<
    (Kernel, Channel),
> {
    g.map_values(|it: (usize, usize)| (kernel_at(kernels, it.0 as int), channel_at(kernels, it)))
}

pub open spec fn spec_resolved_loop(kernels: Seq<Node>, g: Seq<(usize, usize)>) -> Seq<
    (Kernel, Loop),
> {
    g.map_values(|it: (usize, usize)| (kernel_at(kernels, it.0 as int), loop_at(kernels, it)))
}

/// The items of one group really borrowed out of the profile.
fn resolve_global<'a>(kernels: &'a Vec<Node>, g: &Vec<(usize, usize)>) -> (r: Vec<
    (&'a Kernel, &'a Global),
>)
    requires
        forall|t: int|
            0 <= t < g@.len() ==> valid_instance_item(kernels@, #[trigger] g@[t]) && instance_at(
                kernels@,
                g@[t].0 as int,
                g@[t].1 as int,
            ).module_instance_details is Global,
    ensures
        pairs_view(r@) == spec_resolved_global(kernels@, g@),
{
    let mut out: Vec<(&Kernel, &Global)> = Vec::new();
    let mut i: usize = 0;
    proof {
        assert(pairs_view(out@) =~= spec_resolved_global(kernels@, g@).take(0));
    }
    while i < g.len()
        invariant
            0 <= i <= g@.len(),
            forall|t: int|
                0 <= t < g@.len() ==> valid_instance_item(kernels@, #[trigger] g@[t])
                    && instance_at(
                    kernels@,
                    g@[t].0 as int,
                    g@[t].1 as int,
                ).module_instance_details is Global,
            out@.len() == i as int,
            pairs_view(out@) == spec_resolved_global(kernels@, g@).take(i as int),
        decreases g@.len() - i,
    {
        let it = g[i];
        match &kernels[it.0] {
            Node::Kernel(k) => match &k.children[it.1] {
                Child::ModuleInstance(m) => match &m.module_instance_details {
                    ModuleInstanceDetails::Global(d) => {
                        proof {
                            assert(kernels@[it.0 as int] == Node::Kernel(*k));
                            assert(kernel_at(kernels@, it.0 as int) == *k);
                            assert(k.children@[it.1 as int] == Child::ModuleInstance(*m));
                            assert(instance_at(kernels@, it.0 as int, it.1 as int) == *m);
                            assert(m.module_instance_details == ModuleInstanceDetails::Global(*d));
                            assert(global_at(kernels@, it) == *d);
                        }
                        let ghost prev = out@;
                        out.push((k, d));
                        proof {
                            let rs = spec_resolved_global(kernels@, g@);
                            assert(out@.len() == i + 1);
                            assert(pairs_view(out@).len() == i + 1);
                            assert(pairs_view(out@)[i as int] == (*k, *d));
                            assert(rs[i as int] == (
                                kernel_at(kernels@, g@[i as int].0 as int),
                                global_at(kernels@, g@[i as int]),
                            ));
                            assert(pairs_view(out@)[i as int] == rs.take(i + 1)[i as int]);
                            assert forall|j: int| 0 <= j < i implies pairs_view(out@)[j]
                                == rs.take(i + 1)[j] by {
                                assert(out@[j] == prev[j]);
                                assert(pairs_view(out@)[j] == pairs_view(prev)[j]);
                                assert(pairs_view(prev)[j] == rs.take(i as int)[j]);
                            }
                            assert(pairs_view(out@) =~= rs.take(i + 1));
                        }
                    },
                    _ => {
                        proof {
                            assert(false);
                        }
                    },
                },
                _ => {
                    proof {
                        assert(false);
                    }
                },
            },
            _ => {
                proof {
                    assert(false);
                }
            },
        }
        i += 1;
    }
    proof {
        assert(spec_resolved_global(kernels@, g@).take(g@.len() as int) =~= spec_resolved_global(
            kernels@,
            g@,
        ));
    }
    out
}

fn resolve_local<'a>(kernels: &'a Vec<Node>, g: &Vec<(usize, usize)>) -> (r: Vec<
    (&'a Kernel, &'a Local),
>)
    requires
        forall|t: int|
            0 <= t < g@.len() ==> valid_instance_item(kernels@, #[trigger] g@[t]) && instance_at(
                kernels@,
                g@[t].0 as int,
                g@[t].1 as int,
            ).module_instance_details is Local,
    ensures
        pairs_view(r@) == spec_resolved_local(kernels@, g@),
{
    let mut out: Vec<(&Kernel, &Local)> = Vec::new();
    let mut i: usize = 0;
    proof {
        assert(pairs_view(out@) =~= spec_resolved_local(kernels@, g@).take(0));
    }
    while i < g.len()
        invariant
            0 <= i <= g@.len(),
            forall|t: int|
                0 <= t < g@.len() ==> valid_instance_item(kernels@, #[trigger] g@[t])
                    && instance_at(
                    kernels@,
                    g@[t].0 as int,
                    g@[t].1 as int,
                ).module_instance_details is Local,
            out@.len() == i as int,
            pairs_view(out@) == spec_resolved_local(kernels@, g@).take(i as int),
        decreases g@.len() - i,
    {
        let it = g[i];
        match &kernels[it.0] {
            Node::Kernel(k) => match &k.children[it.1] {
                Child::ModuleInstance(m) => match &m.module_instance_details {
                    ModuleInstanceDetails::Local(d) => {
                        proof {
                            assert(kernels@[it.0 as int] == Node::Kernel(*k));
                            assert(kernel_at(kernels@, it.0 as int) == *k);
                            assert(k.children@[it.1 as int] == Child::ModuleInstance(*m));
                            assert(instance_at(kernels@, it.0 as int, it.1 as int) == *m);
                            assert(m.module_instance_details == ModuleInstanceDetails::Local(*d));
                            assert(local_at(kernels@, it) == *d);
                        }
                        out.push((k, d));
                        proof {
                            assert(pairs_view(out@) =~= spec_resolved_local(
                                kernels@,
                                g@,
                            ).take(i + 1));
                        }
                    },
                    _ => {
                        proof {
                            assert(false);
                        }
                    },
                },
                _ => {
                    proof {
                        assert(false);
                    }
                },
            },
            _ => {
                proof {
                    assert(false);
                }
            },
        }
        i += 1;
    }
    proof {
        assert(spec_resolved_local(kernels@, g@).take(g@.len() as int) =~= spec_resolved_local(
            kernels@,
            g@,
        ));
    }
    out
}

fn resolve_channel<'a>(kernels: &'a Vec<Node>, g: &Vec<(usize, usize)>) -> (r: Vec<
    (&'a Kernel, &'a Channel),
>)
    requires
        forall|t: int|
            0 <= t < g@.len() ==> valid_instance_item(kernels@, #[trigger] g@[t]) && instance_at(
                kernels@,
                g@[t].0 as int,
                g@[t].1 as int,
            ).module_instance_details is Channel,
    ensures
        pairs_view(r@) == spec_resolved_channel(kernels@, g@),
{
    let mut out: Vec<(&Kernel, &Channel)> = Vec::new();
    let mut i: usize = 0;
    proof {
        assert(pairs_view(out@) =~= spec_resolved_channel(kernels@, g@).take(0));
    }
    while i < g.len()
        invariant
            0 <= i <= g@.len(),
            forall|t: int|
                0 <= t < g@.len() ==> valid_instance_item(kernels@, #[trigger] g@[t])
                    && instance_at(
                    kernels@,
                    g@[t].0 as int,
                    g@[t].1 as int,
                ).module_instance_details is Channel,
            out@.len() == i as int,
            pairs_view(out@) == spec_resolved_channel(kernels@, g@).take(i as int),
        decreases g@.len() - i,
    {
        let it = g[i];
        match &kernels[it.0] {
            Node::Kernel(k) => match &k.children[it.1] {
                Child::ModuleInstance(m) => match &m.module_instance_details {
                    ModuleInstanceDetails::Channel(d) => {
                        proof {
                            assert(kernels@[it.0 as int] == Node::Kernel(*k));
                            assert(kernel_at(kernels@, it.0 as int) == *k);
                            assert(k.children@[it.1 as int] == Child::ModuleInstance(*m));
                            assert(instance_at(kernels@, it.0 as int, it.1 as int) == *m);
                            assert(m.module_instance_details == ModuleInstanceDetails::Channel(*d));
                            assert(channel_at(kernels@, it) == *d);
                        }
                        out.push((k, d));
                        proof {
                            assert(pairs_view(out@) =~= spec_resolved_channel(
                                kernels@,
                                g@,
                            ).take(i + 1));
                        }
                    },
                    _ => {
                        proof {
                            assert(false);
                        }
                    },
                },
                _ => {
                    proof {
                        assert(false);
                    }
                },
            },
            _ => {
                proof {
                    assert(false);
                }
            },
        }
        i += 1;
    }
    proof {
        assert(spec_resolved_channel(kernels@, g@).take(g@.len() as int) =~= spec_resolved_channel(
            kernels@,
            g@,
        ));
    }
    out
}

fn resolve_loop<'a>(kernels: &'a Vec<Node>, g: &Vec<(usize, usize)>) -> (r: Vec<
    (&'a Kernel, &'a Loop),
>)
    requires
        forall|t: int|
            0 <= t < g@.len() ==> valid_instance_item(kernels@, #[trigger] g@[t]) && instance_at(
                kernels@,
                g@[t].0 as int,
                g@[t].1 as int,
            ).module_instance_details is Loop,
    ensures
        pairs_view(r@) == spec_resolved_loop(kernels@, g@),
{
    let mut out: Vec<(&Kernel, &Loop)> = Vec::new();
    let mut i: usize = 0;
    proof {
        assert(pairs_view(out@) =~= spec_resolved_loop(kernels@, g@).take(0));
    }
    while i < g.len()
        invariant
            0 <= i <= g@.len(),
            forall|t: int|
                0 <= t < g@.len() ==> valid_instance_item(kernels@, #[trigger] g@[t])
                    && instance_at(
                    kernels@,
                    g@[t].0 as int,
                    g@[t].1 as int,
                ).module_instance_details is Loop,
            out@.len() == i as int,
            pairs_view(out@) == spec_resolved_loop(kernels@, g@).take(i as int),
        decreases g@.len() - i,
    {
        let it = g[i];
        match &kernels[it.0] {
            Node::Kernel(k) => match &k.children[it.1] {
                Child::ModuleInstance(m) => match &m.module_instance_details {
                    ModuleInstanceDetails::Loop(d) => {
                        proof {
                            assert(kernels@[it.0 as int] == Node::Kernel(*k));
                            assert(kernel_at(kernels@, it.0 as int) == *k);
                            assert(k.children@[it.1 as int] == Child::ModuleInstance(*m));
                            assert(instance_at(kernels@, it.0 as int, it.1 as int) == *m);
                            assert(m.module_instance_details == ModuleInstanceDetails::Loop(*d));
                            assert(loop_at(kernels@, it) == *d);
                        }
                        out.push((k, d));
                        proof {
                            assert(pairs_view(out@) =~= spec_resolved_loop(
                                kernels@,
                                g@,
                            ).take(i + 1));
                        }
                    },
                    _ => {
                        proof {
                            assert(false);
                        }
                    },
                },
                _ => {
                    proof {
                        assert(false);
                    }
                },
            },
            _ => {
                proof {
                    assert(false);
                }
            },
        }
        i += 1;
    }
    proof {
        assert(spec_resolved_loop(kernels@, g@).take(g@.len() as int) =~= spec_resolved_loop(
            kernels@,
            g@,
        ));
    }
    out
}

pub open spec fn spec_global_stats(kernels: Seq<Node>, g: Seq<(usize, usize)>) -> GlobalStats {
    let rs = spec_resolved_global(kernels, g);
    let n = rs.len() as int;
    let o = spec_compute_occupancy(rs, n);
    let s = spec_compute_stall(rs, n);
    let b = spec_compute_bandwidth(rs, n);
    let e = spec_compute_effectiveness(rs, n);
    GlobalStats {
        occupancy: OccupancyStat { occupancy_sum: o.0 as u128, cycles_sum: o.1 as u128 },
        stall: StallStat {
            stall_sum: s.0 as u128,
            idle_sum: s.1 as u128,
            activity_sum: s.2 as u128,
            cycles_sum: s.3 as u128,
        },
        bandwidth: BandwidthStat { integral_micro: b.0 as u128, merged_runtime: b.1 as u128 },
        effectiveness: EffectivenessStat {
            sample_count: e.0 as u128,
            effective_sum_micro: e.1 as u128,
            burst_sum_micro: e.2 as u128,
            cache_hit_present: e.3,
            cache_hit_sum_micro: e.4 as u128,
            occupancy_sum: e.5 as u128,
        },
    }
}

pub open spec fn spec_local_stats(kernels: Seq<Node>, g: Seq<(usize, usize)>) -> LocalStats {
    let rs = spec_resolved_local(kernels, g);
    let n = rs.len() as int;
    let o = spec_compute_occupancy(rs, n);
    let s = spec_compute_stall(rs, n);
    LocalStats {
        occupancy: OccupancyStat { occupancy_sum: o.0 as u128, cycles_sum: o.1 as u128 },
        stall: StallStat {
            stall_sum: s.0 as u128,
            idle_sum: s.1 as u128,
            activity_sum: s.2 as u128,
            cycles_sum: s.3 as u128,
        },
    }
}

pub open spec fn spec_channel_stats(kernels: Seq<Node>, g: Seq<(usize, usize)>) -> ChannelStats {
    let rs = spec_resolved_channel(kernels, g);
    let n = rs.len() as int;
    let o = spec_compute_occupancy(rs, n);
    let s = spec_compute_stall(rs, n);
    let b = spec_compute_bandwidth(rs, n);
    let c = spec_compute_channel_depth(rs, n);
    ChannelStats {
        occupancy: OccupancyStat { occupancy_sum: o.0 as u128, cycles_sum: o.1 as u128 },
        stall: StallStat {
            stall_sum: s.0 as u128,
            idle_sum: s.1 as u128,
            activity_sum: s.2 as u128,
            cycles_sum: s.3 as u128,
        },
        bandwidth: BandwidthStat { integral_micro: b.0 as u128, merged_runtime: b.1 as u128 },
        channel_depth: ChannelDepthStat {
            sample_count: c.0 as u128,
            average_sum_micro: c.1 as u128,
            maximum_depth: c.2 as u32,
        },
    }
}

pub open spec fn spec_loop_stats(kernels: Seq<Node>, g: Seq<(usize, usize)>) -> LoopStats {
    let rs = spec_resolved_loop(kernels, g);
    let n = rs.len() as int;
    let o = spec_compute_occupancy(rs, n);
    LoopStats { occupancy: OccupancyStat { occupancy_sum: o.0 as u128, cycles_sum: o.1 as u128 } }
}

pub open spec fn spec_global_memory_section(kernels: Seq<Node>, allow: Option<Vec<String>>) -> Seq<
    SectionGroup<GlobalStats>,
> {
    let sel = spec_select(kernels, allow, SectionKind::GlobalMemory, kernels.len() as int);
    let gs = spec_group_items(kernels, sel, sel.len() as int);
    gs.map_values(
        |g: Seq<(usize, usize)>|
            SectionGroup { first_item: g[0], stats: spec_global_stats(kernels, g) },
    )
}

pub open spec fn spec_local_memory_section(kernels: Seq<Node>, allow: Option<Vec<String>>) -> Seq<
    SectionGroup<LocalStats>,
> {
    let sel = spec_select(kernels, allow, SectionKind::LocalMemory, kernels.len() as int);
    let gs = spec_group_items(kernels, sel, sel.len() as int);
    gs.map_values(
        |g: Seq<(usize, usize)>|
            SectionGroup { first_item: g[0], stats: spec_local_stats(kernels, g) },
    )
}

pub open spec fn spec_channel_section(kernels: Seq<Node>, allow: Option<Vec<String>>) -> Seq<
    SectionGroup<ChannelStats>,
> {
    let sel = spec_select(kernels, allow, SectionKind::Channel, kernels.len() as int);
    let gs = spec_group_items(kernels, sel, sel.len() as int);
    gs.map_values(
        |g: Seq<(usize, usize)>|
            SectionGroup { first_item: g[0], stats: spec_channel_stats(kernels, g) },
    )
}

pub open spec fn spec_loop_section(kernels: Seq<Node>, allow: Option<Vec<String>>) -> Seq<
    SectionGroup<LoopStats>,
> {
    let sel = spec_select(kernels, allow, SectionKind::Loop, kernels.len() as int);
    let gs = spec_group_items(kernels, sel, sel.len() as int);
    gs.map_values(
        |g: Seq<(usize, usize)>|
            SectionGroup { first_item: g[0], stats: spec_loop_stats(kernels, g) },
    )
}

/// The global-memory section: occupancy, stall, bandwidth and effectiveness
/// per source-chain group.
#[verifier::loop_isolation(false)]
pub fn global_memory_section(p: &Profile, allow: &Option<Vec<String>>) -> (r: Vec<
    SectionGroup<GlobalStats>,
>)
    ensures
        r@ == spec_global_memory_section(p.kernels.nodes@, *allow),
{
    let kernels = &p.kernels.nodes;
    let items = select_items(kernels, allow, SectionKind::GlobalMemory);
    let groups = group_by_source(kernels, &items, SectionKind::GlobalMemory);
    let ghost gv = groups_view(groups@);
    let ghost section = spec_global_memory_section(p.kernels.nodes@, *allow);
    let mut out: Vec<SectionGroup<GlobalStats>> = Vec::new();
    let mut i: usize = 0;
    proof {
        assert(out@ =~= section.take(0));
    }
    while i < groups.len()
        invariant
            0 <= i <= groups@.len(),
            gv == groups_view(groups@),
            groups_wf(gv, p.kernels.nodes@, SectionKind::GlobalMemory),
            section == spec_global_memory_section(p.kernels.nodes@, *allow),
            section == gv.map_values(
                |g: Seq<(usize, usize)>|
                    SectionGroup { first_item: g[0], stats: spec_global_stats(p.kernels.nodes@, g) },
            ),
            out@ == section.take(i as int),
        decreases groups@.len() - i,
    {
        let g = &groups[i];
        proof {
            assert(gv.len() == groups@.len());
            assert(section.len() == gv.len());
            assert(gv[i as int] == groups@[i as int]@);
            crate::group::lemma_groups_wf_at(gv, p.kernels.nodes@, SectionKind::GlobalMemory, i as int);
            assert forall|t: int| 0 <= t < g@.len() implies valid_instance_item(
                kernels@,
                #[trigger] g@[t],
            ) && instance_at(
                kernels@,
                g@[t].0 as int,
                g@[t].1 as int,
            ).module_instance_details is Global by {
                assert(g@ == gv[i as int]);
                assert(gv[i as int][t] == g@[t]);
                assert(valid_instance_item(p.kernels.nodes@, gv[i as int][t]));
            }
        }
        let stats = global_group_stats(kernels, g);
        let first: (usize, usize) = g[0];
        out.push(SectionGroup { first_item: first, stats });
        proof {
            assert(out@ =~= section.take(i + 1));
        }
        i += 1;
    }
    proof {
        assert(section.take(groups@.len() as int) =~= section);
    }
    out
}

fn global_group_stats(kernels: &Vec<Node>, g: &Vec<(usize, usize)>) -> (r: GlobalStats)
    requires
        forall|t: int|
            0 <= t < g@.len() ==> valid_instance_item(kernels@, #[trigger] g@[t]) && instance_at(
                kernels@,
                g@[t].0 as int,
                g@[t].1 as int,
            ).module_instance_details is Global,
    ensures
        r == spec_global_stats(kernels@, g@),
{
    let pairs = resolve_global(kernels, g);
    let occupancy = compute_occupancy(&pairs);
    let stall = compute_stall(&pairs);
    let bandwidth = compute_bandwidth(&pairs);
    let effectiveness = compute_effectiveness(&pairs);
    GlobalStats { occupancy, stall, bandwidth, effectiveness }
}

/// The local-memory section: occupancy and stall per source-chain group.
#[verifier::loop_isolation(false)]
pub fn local_memory_section(p: &Profile, allow: &Option<Vec<String>>) -> (r: Vec<
    SectionGroup<LocalStats>,
>)
    ensures
        r@ == spec_local_memory_section(p.kernels.nodes@, *allow),
{
    let kernels = &p.kernels.nodes;
    let items = select_items(kernels, allow, SectionKind::LocalMemory);
    let groups = group_by_source(kernels, &items, SectionKind::LocalMemory);
    let ghost gv = groups_view(groups@);
    let ghost section = spec_local_memory_section(p.kernels.nodes@, *allow);
    let mut out: Vec<SectionGroup<LocalStats>> = Vec::new();
    let mut i: usize = 0;
    proof {
        assert(out@ =~= section.take(0));
    }
    while i < groups.len()
        invariant
            0 <= i <= groups@.len(),
            gv == groups_view(groups@),
            groups_wf(gv, p.kernels.nodes@, SectionKind::LocalMemory),
            section == spec_local_memory_section(p.kernels.nodes@, *allow),
            section == gv.map_values(
                |g: Seq<(usize, usize)>|
                    SectionGroup { first_item: g[0], stats: spec_local_stats(p.kernels.nodes@, g) },
            ),
            out@ == section.take(i as int),
        decreases groups@.len() - i,
    {
        let g = &groups[i];
        proof {
            assert(gv.len() == groups@.len());
            assert(section.len() == gv.len());
            assert(gv[i as int] == groups@[i as int]@);
            crate::group::lemma_groups_wf_at(gv, p.kernels.nodes@, SectionKind::LocalMemory, i as int);
            assert forall|t: int| 0 <= t < g@.len() implies valid_instance_item(
                kernels@,
                #[trigger] g@[t],
            ) && instance_at(
                kernels@,
                g@[t].0 as int,
                g@[t].1 as int,
            ).module_instance_details is Local by {
                assert(g@ == gv[i as int]);
                assert(gv[i as int][t] == g@[t]);
                assert(valid_instance_item(p.kernels.nodes@, gv[i as int][t]));
            }
        }
        let pairs = resolve_local(kernels, g);
        let occupancy = compute_occupancy(&pairs);
        let stall = compute_stall(&pairs);
        let stats = LocalStats { occupancy, stall };
        let first: (usize, usize) = g[0];
        out.push(SectionGroup { first_item: first, stats });
        proof {
            assert(out@ =~= section.take(i + 1));
        }
        i += 1;
    }
    proof {
        assert(section.take(groups@.len() as int) =~= section);
    }
    out
}

/// The channel section: occupancy, stall, bandwidth and channel depth per
/// source-chain group.
#[verifier::loop_isolation(false)]
pub fn channel_section(p: &Profile, allow: &Option<Vec<String>>) -> (r: Vec<
    SectionGroup<ChannelStats>,
>)
    ensures
        r@ == spec_channel_section(p.kernels.nodes@, *allow),
{
    let kernels = &p.kernels.nodes;
    let items = select_items(kernels, allow, SectionKind::Channel);
    let groups = group_by_source(kernels, &items, SectionKind::Channel);
    let ghost gv = groups_view(groups@);
    let ghost section = spec_channel_section(p.kernels.nodes@, *allow);
    let mut out: Vec<SectionGroup<ChannelStats>> = Vec::new();
    let mut i: usize = 0;
    proof {
        assert(out@ =~= section.take(0));
    }
    while i < groups.len()
        invariant
            0 <= i <= groups@.len(),
            gv == groups_view(groups@),
            groups_wf(gv, p.kernels.nodes@, SectionKind::Channel),
            section == spec_channel_section(p.kernels.nodes@, *allow),
            section == gv.map_values(
                |g: Seq<(usize, usize)>|
                    SectionGroup { first_item: g[0], stats: spec_channel_stats(p.kernels.nodes@, g) },
            ),
            out@ == section.take(i as int),
        decreases groups@.len() - i,
    {
        let g = &groups[i];
        proof {
            assert(gv.len() == groups@.len());
            assert(section.len() == gv.len());
            assert(gv[i as int] == groups@[i as int]@);
            crate::group::lemma_groups_wf_at(gv, p.kernels.nodes@, SectionKind::Channel, i as int);
            assert forall|t: int| 0 <= t < g@.len() implies valid_instance_item(
                kernels@,
                #[trigger] g@[t],
            ) && instance_at(
                kernels@,
                g@[t].0 as int,
                g@[t].1 as int,
            ).module_instance_details is Channel by {
                assert(g@ == gv[i as int]);
                assert(gv[i as int][t] == g@[t]);
                assert(valid_instance_item(p.kernels.nodes@, gv[i as int][t]));
            }
        }
        let pairs = resolve_channel(kernels, g);
        let occupancy = compute_occupancy(&pairs);
        let stall = compute_stall(&pairs);
        let bandwidth = compute_bandwidth(&pairs);
        let channel_depth = compute_channel_depth(&pairs);
        let stats = ChannelStats { occupancy, stall, bandwidth, channel_depth };
        let first: (usize, usize) = g[0];
        out.push(SectionGroup { first_item: first, stats });
        proof {
            assert(out@ =~= section.take(i + 1));
        }
        i += 1;
    }
    proof {
        assert(section.take(groups@.len() as int) =~= section);
    }
    out
}

/// The loop section: occupancy per source-chain group.
#[verifier::loop_isolation(false)]
pub fn loop_section(p: &Profile, allow: &Option<Vec<String>>) -> (r: Vec<SectionGroup<LoopStats>>)
    ensures
        r@ == spec_loop_section(p.kernels.nodes@, *allow),
{
    let kernels = &p.kernels.nodes;
    let items = select_items(kernels, allow, SectionKind::Loop);
    let groups = group_by_source(kernels, &items, SectionKind::Loop);
    let ghost gv = groups_view(groups@);
    let ghost section = spec_loop_section(p.kernels.nodes@, *allow);
    let mut out: Vec<SectionGroup<LoopStats>> = Vec::new();
    let mut i: usize = 0;
    proof {
        assert(out@ =~= section.take(0));
    }
    while i < groups.len()
        invariant
            0 <= i <= groups@.len(),
            gv == groups_view(groups@),
            groups_wf(gv, p.kernels.nodes@, SectionKind::Loop),
            section == spec_loop_section(p.kernels.nodes@, *allow),
            section == gv.map_values(
                |g: Seq<(usize, usize)>|
                    SectionGroup { first_item: g[0], stats: spec_loop_stats(p.kernels.nodes@, g) },
            ),
            out@ == section.take(i as int),
        decreases groups@.len() - i,
    {
        let g = &groups[i];
        proof {
            assert(gv.len() == groups@.len());
            assert(section.len() == gv.len());
            assert(gv[i as int] == groups@[i as int]@);
            crate::group::lemma_groups_wf_at(gv, p.kernels.nodes@, SectionKind::Loop, i as int);
            assert forall|t: int| 0 <= t < g@.len() implies valid_instance_item(
                kernels@,
                #[trigger] g@[t],
            ) && instance_at(
                kernels@,
                g@[t].0 as int,
                g@[t].1 as int,
            ).module_instance_details is Loop by {
                assert(g@ == gv[i as int]);
                assert(gv[i as int][t] == g@[t]);
                assert(valid_instance_item(p.kernels.nodes@, gv[i as int][t]));
            }
        }
        let pairs = resolve_loop(kernels, g);
        let occupancy = compute_occupancy(&pairs);
        let stats = LoopStats { occupancy };
        let first: (usize, usize) = g[0];
        out.push(SectionGroup { first_item: first, stats });
        proof {
            assert(out@ =~= section.take(i + 1));
        }
        i += 1;
    }
    proof {
        assert(section.take(groups@.len() as int) =~= section);
    }
    out
}

/// Per-port external-memory figures: a plain duration sum — deliberately not
/// overlap-merged, unlike module-instance bandwidth — and three
/// time-integrals.
#[derive(Clone, Copy, PartialEq, Eq, Structural, Debug)]
pub struct ExternalMemoryStat {
    pub duration_sum: u128,
    pub bandwidth_integral_micro: u128,
    pub write_burst_integral_micro: u128,
    pub read_burst_integral_micro: u128,
}

pub open spec fn external_at(kernels: Seq<Node>, it: (usize, usize)) -> ExternalMemory {
    kernel_at(kernels, it.0 as int).children@[it.1 as int]->ExternalMemory_0
}

/// An index pair that really points at an external-memory child of a kernel.
pub open spec fn valid_external_item(kernels: Seq<Node>, it: (usize, usize)) -> bool {
    &&& (it.0 as int) < kernels.len()
    &&& kernels[it.0 as int] is Kernel
    &&& (it.1 as int) < kernel_at(kernels, it.0 as int).children@.len()
    &&& kernel_at(kernels, it.0 as int).children@[it.1 as int] is ExternalMemory
}

/// The (memory name, port) key ordering external-memory groups.
pub open spec fn spec_cmp_port_key(kernels: Seq<Node>, a: (usize, usize), b: (usize, usize)) -> Rank {
    rank_then(
        spec_cmp_chars(external_at(kernels, a).name@, external_at(kernels, b).name@, 0),
        spec_cmp_chars(external_at(kernels, a).port@, external_at(kernels, b).port@, 0),
    )
}

/// The external-memory children of the first `n` children of kernel `ki`.
pub open spec fn spec_select_external_children(
    children: Seq<Child>,
    ki: usize,
    n: int,
) -> Seq<(usize, usize)>
    decreases n,
{
    if n <= 0 || n > children.len() {
        Seq::empty()
    } else {
        let pre = spec_select_external_children(children, ki, n - 1);
        match children[n - 1] {
            Child::ExternalMemory(e) => pre.push((ki, (n - 1) as usize)),
            _ => pre,
        }
    }
}

/// The external-memory items over the first `n` nodes, allowed kernels only.
pub open spec fn spec_select_external(
    kernels: Seq<Node>,
    allow: Option<Vec<String>>,
    n: int,
) -> Seq<(usize, usize)>
    decreases n,
{
    if n <= 0 || n > kernels.len() {
        Seq::empty()
    } else {
        let pre = spec_select_external(kernels, allow, n - 1);
        match kernels[n - 1] {
            Node::Kernel(k) => if spec_allowed(allow, k.name@) {
                pre + spec_select_external_children(
                    k.children@,
                    (n - 1) as usize,
                    k.children@.len() as int,
                )
            } else {
                pre
            },
            _ => pre,
        }
    }
}

/// Selects the external-memory items of every allowed kernel.
pub fn select_external_items(kernels: &Vec<Node>, allow: &Option<Vec<String>>) -> (r: Vec<
    (usize, usize),
>)
    ensures
        r@ == spec_select_external(kernels@, *allow, kernels@.len() as int),
        forall|t: int|
            0 <= t < r@.len() ==> valid_external_item(kernels@, #[trigger] r@[t]) && spec_allowed(
                *allow,
                kernel_at(kernels@, r@[t].0 as int).name@,
            ),
{
    let mut out: Vec<(usize, usize)> = Vec::new();
    let mut i: usize = 0;
    while i < kernels.len()
        invariant
            0 <= i <= kernels@.len(),
            out@ == spec_select_external(kernels@, *allow, i as int),
            forall|t: int|
                0 <= t < out@.len() ==> valid_external_item(kernels@, #[trigger] out@[t])
                    && spec_allowed(*allow, kernel_at(kernels@, out@[t].0 as int).name@),
        decreases kernels@.len() - i,
    {
        match &kernels[i] {
            Node::Kernel(k) => {
                if kernel_allowed(allow, k.name.as_str()) {
                    let mut j: usize = 0;
                    while j < k.children.len()
                        invariant
                            0 <= j <= k.children@.len(),
                            0 <= i < kernels@.len(),
                            kernels@[i as int] == Node::Kernel(*k),
                            spec_allowed(*allow, k.name@),
                            out@ == spec_select_external(kernels@, *allow, i as int)
                                + spec_select_external_children(k.children@, i, j as int),
                            forall|t: int|
                                0 <= t < out@.len() ==> valid_external_item(
                                    kernels@,
                                    #[trigger] out@[t],
                                ) && spec_allowed(
                                    *allow,
                                    kernel_at(kernels@, out@[t].0 as int).name@,
                                ),
                        decreases k.children@.len() - j,
                    {
                        match &k.children[j] {
                            Child::ExternalMemory(_e) => {
                                out.push((i, j));
                            },
                            _ => {},
                        }
                        j += 1;
                    }
                    proof {
                        assert(spec_select_external(kernels@, *allow, i + 1) == spec_select_external(
                            kernels@,
                            *allow,
                            i as int,
                        ) + spec_select_external_children(
                            k.children@,
                            i,
                            k.children@.len() as int,
                        ));
                    }
                } else {
                    proof {
                        assert(spec_select_external(kernels@, *allow, i + 1)
                            == spec_select_external(kernels@, *allow, i as int));
                    }
                }
            },
            _ => {},
        }
        i += 1;
    }
    out
}

/// Inserts one external-memory item into the per-port runs.
pub open spec fn spec_insert_ext(
    groups: Seq<Seq<(usize, usize)>>,
    kernels: Seq<Node>,
    it: (usize, usize),
) -> Seq<Seq<(usize, usize)>>
    decreases groups.len(),
{
    if groups.len() == 0 {
        seq![seq![it]]
    } else if spec_cmp_port_key(kernels, it, groups[0][0]) == Rank::Less {
        seq![seq![it]] + groups
    } else if spec_cmp_port_key(kernels, it, groups[0][0]) == Rank::Equal {
        seq![groups[0].push(it)] + groups.drop_first()
    } else {
        seq![groups[0]] + spec_insert_ext(groups.drop_first(), kernels, it)
    }
}

pub open spec fn spec_group_ext(
    kernels: Seq<Node>,
    items: Seq<(usize, usize)>,
    n: int,
) -> Seq<Seq<(usize, usize)>>
    decreases n,
{
    if n <= 0 || n > items.len() {
        Seq::empty()
    } else {
        spec_insert_ext(spec_group_ext(kernels, items, n - 1), kernels, items[n - 1])
    }
}

pub open spec fn ext_groups_wf(gs: Seq<Seq<(usize, usize)>>, kernels: Seq<Node>) -> bool {
    forall|g: int|
        0 <= g < gs.len() ==> (#[trigger] gs[g]).len() > 0 && forall|t: int|
            0 <= t < gs[g].len() ==> valid_external_item(kernels, #[trigger] gs[g][t])
}

proof fn lemma_insert_ext_split(
    groups: Seq<Seq<(usize, usize)>>,
    kernels: Seq<Node>,
    it: (usize, usize),
    k: int,
)
    requires
        0 <= k <= groups.len(),
        forall|j: int|
            0 <= j < k ==> spec_cmp_port_key(kernels, it, #[trigger] groups[j][0]) == Rank::Greater,
    ensures
        spec_insert_ext(groups, kernels, it) == groups.take(k) + spec_insert_ext(
            groups.skip(k),
            kernels,
            it,
        ),
    decreases k,
{
    if k == 0 {
        assert(groups.skip(0) =~= groups);
        assert(groups.take(0) + spec_insert_ext(groups, kernels, it) =~= spec_insert_ext(
            groups,
            kernels,
            it,
        ));
    } else {
        assert forall|j: int| 0 <= j < k - 1 implies spec_cmp_port_key(
            kernels,
            it,
            #[trigger] groups.drop_first()[j][0],
        ) == Rank::Greater by {
            assert(groups.drop_first()[j] == groups[j + 1]);
        }
        lemma_insert_ext_split(groups.drop_first(), kernels, it, k - 1);
        assert(groups.drop_first().take(k - 1) =~= groups.take(k).drop_first());
        assert(groups.drop_first().skip(k - 1) =~= groups.skip(k));
        assert(seq![groups[0]] + (groups.take(k).drop_first() + spec_insert_ext(
            groups.skip(k),
            kernels,
            it,
        )) =~= groups.take(k) + spec_insert_ext(groups.skip(k), kernels, it));
    }
}

/// Borrows the external-memory record an item points at.
fn external_of<'a>(kernels: &'a Vec<Node>, it: (usize, usize)) -> (r: (
    &'a Kernel,
    &'a ExternalMemory,
))
    requires
        valid_external_item(kernels@, it),
    ensures
        *r.0 == kernel_at(kernels@, it.0 as int),
        *r.1 == external_at(kernels@, it),
{
    match &kernels[it.0] {
        Node::Kernel(k) => match &k.children[it.1] {
            Child::ExternalMemory(e) => (k, e),
            _ => vstd::pervasive::unreached(),
        },
        _ => vstd::pervasive::unreached(),
    }
}

fn ext_cmp(kernels: &Vec<Node>, a: (usize, usize), b: (usize, usize)) -> (r: Rank)
    requires
        valid_external_item(kernels@, a),
        valid_external_item(kernels@, b),
    ensures
        r == spec_cmp_port_key(kernels@, a, b),
{
    let ea = external_of(kernels, a);
    let eb = external_of(kernels, b);
    let c = crate::order::cmp_str(ea.1.name.as_str(), eb.1.name.as_str());
    if matches!(c, Rank::Equal) {
        crate::order::cmp_str(ea.1.port.as_str(), eb.1.port.as_str())
    } else {
        c
    }
}

#[verifier::loop_isolation(false)]
fn insert_ext(
    kernels: &Vec<Node>,
    groups: &mut Vec<Vec<(usize, usize)>>,
    it: (usize, usize),
)
    requires
        valid_external_item(kernels@, it),
        ext_groups_wf(groups_view(old(groups)@), kernels@),
    ensures
        groups_view(final(groups)@) == spec_insert_ext(groups_view(old(groups)@), kernels@, it),
        ext_groups_wf(groups_view(final(groups)@), kernels@),
{
    let ghost gv = groups_view(groups@);
    proof {
        assert(gv.len() == groups@.len());
    }
    let mut k: usize = 0;
    let mut stop: bool = false;
    while !stop && k < groups.len()
        invariant
            0 <= k <= groups@.len(),
            forall|j: int|
                0 <= j < k ==> spec_cmp_port_key(kernels@, it, #[trigger] gv[j][0])
                    == Rank::Greater,
            stop ==> k < groups@.len() && spec_cmp_port_key(kernels@, it, gv[k as int][0])
                != Rank::Greater,
        decreases groups@.len() - k, if stop { 0int } else { 1int },
    {
        proof {
            assert(gv[k as int] == groups@[k as int]@);
        }
        let g0: (usize, usize) = groups[k][0];
        let c = ext_cmp(kernels, it, g0);
        if matches!(c, Rank::Greater) {
            k += 1;
        } else {
            stop = true;
        }
    }
    proof {
        lemma_insert_ext_split(gv, kernels@, it, k as int);
    }
    if k < groups.len() {
        proof {
            assert(gv[k as int] == groups@[k as int]@);
            assert(gv.skip(k as int)[0] == gv[k as int]);
        }
        let g0: (usize, usize) = groups[k][0];
        let c = ext_cmp(kernels, it, g0);
        if matches!(c, Rank::Equal) {
            let mut g = groups.remove(k);
            g.push(it);
            groups.insert(k, g);
            proof {
                assert(spec_insert_ext(gv.skip(k as int), kernels@, it) == seq![
                    gv[k as int].push(it),
                ] + gv.skip(k as int).drop_first());
                assert(groups_view(groups@) =~= gv.take(k as int) + (seq![gv[k as int].push(it)]
                    + gv.skip(k as int).drop_first()));
                assert(ext_groups_wf(groups_view(groups@), kernels@));
            }
        } else {
            let mut ng: Vec<(usize, usize)> = Vec::new();
            ng.push(it);
            groups.insert(k, ng);
            proof {
                assert(spec_cmp_port_key(kernels@, it, gv.skip(k as int)[0][0]) == Rank::Less);
                assert(spec_insert_ext(gv.skip(k as int), kernels@, it) == seq![seq![it]]
                    + gv.skip(k as int));
                assert(groups_view(groups@) =~= gv.take(k as int) + (seq![seq![it]] + gv.skip(
                    k as int,
                )));
                assert(ext_groups_wf(groups_view(groups@), kernels@));
            }
        }
    } else {
        let mut ng: Vec<(usize, usize)> = Vec::new();
        ng.push(it);
        groups.push(ng);
        proof {
            assert(gv.skip(k as int) =~= Seq::<Seq<(usize, usize)>>::empty());
            assert(spec_insert_ext(gv.skip(k as int), kernels@, it) =~= seq![seq![it]]);
            assert(groups_view(groups@) =~= gv.take(k as int) + seq![seq![it]]);
            assert(ext_groups_wf(groups_view(groups@), kernels@));
        }
    }
}

/// The integrals of one (kernel, external memory) pair over the first `n`
/// sample intervals.
pub open spec fn spec_ext_integrals(k: Kernel, e: ExternalMemory, n: int) -> (int, int, int)
    decreases n,
{
    let bw = micro_seq(e.global_used_bandwidth@);
    let wb = micro_seq(e.average_write_burst@);
    let rb = micro_seq(e.average_read_burst@);
    if n <= 0 || n > k.sample_timestamps@.len() || n > bw.len() || n > wb.len() || n > rb.len() {
        (0, 0, 0)
    } else {
        let (b, w, r) = spec_ext_integrals(k, e, n - 1);
        let prev = crate::data_model::spec_interval_start(k, n - 1) as int;
        let dur = clamped_sub(k.sample_timestamps@[n - 1] as int, prev);
        (
            sat_add(b, dur * bw[n - 1] as int),
            sat_add(w, dur * wb[n - 1] as int),
            sat_add(r, dur * rb[n - 1] as int),
        )
    }
}

pub open spec fn spec_ext_pair_count(k: Kernel, e: ExternalMemory) -> int {
    min2(
        min2(k.sample_timestamps@.len() as int, e.global_used_bandwidth@.len() as int),
        min2(e.average_write_burst@.len() as int, e.average_read_burst@.len() as int),
    )
}

/// The accumulated figures of the first `n` items of one (name, port) group:
/// a plain sum of each kernel's own end-minus-start duration, and the three
/// summed time-integrals.
pub open spec fn spec_ext_group_stat(
    kernels: Seq<Node>,
    g: Seq<(usize, usize)>,
    n: int,
) -> (int, int, int, int)
    decreases n,
{
    if n <= 0 || n > g.len() {
        (0, 0, 0, 0)
    } else {
        let (d, b, w, r) = spec_ext_group_stat(kernels, g, n - 1);
        let k = kernel_at(kernels, g[n - 1].0 as int);
        let e = external_at(kernels, g[n - 1]);
        let (pb, pw, pr) = spec_ext_integrals(k, e, spec_ext_pair_count(k, e));
        (
            sat_add(d, clamped_sub(k.end_time as int, k.start_time as int)),
            sat_add(b, pb),
            sat_add(w, pw),
            sat_add(r, pr),
        )
    }
}

pub open spec fn spec_external_memory_section(
    kernels: Seq<Node>,
    allow: Option<Vec<String>>,
) -> Seq<SectionGroup<ExternalMemoryStat>> {
    let sel = spec_select_external(kernels, allow, kernels.len() as int);
    let gs = spec_group_ext(kernels, sel, sel.len() as int);
    gs.map_values(
        |g: Seq<(usize, usize)>|
            SectionGroup {
                first_item: g[0],
                stats: (
                    {
                        let (d, b, w, r) = spec_ext_group_stat(kernels, g, g.len() as int);
                        ExternalMemoryStat {
                            duration_sum: d as u128,
                            bandwidth_integral_micro: b as u128,
                            write_burst_integral_micro: w as u128,
                            read_burst_integral_micro: r as u128,
                        }
                    }
                ),
            },
    )
}

/// One (kernel, external memory) pair's integrals, element by element.
fn ext_pair_integrals(k: &Kernel, e: &ExternalMemory) -> (r: (u128, u128, u128))
    ensures
        (r.0 as int, r.1 as int, r.2 as int) == spec_ext_integrals(
            *k,
            *e,
            spec_ext_pair_count(*k, *e),
        ),
{
    let bw = micro_values(e.global_used_bandwidth.as_slice());
    let wb = micro_values(e.average_write_burst.as_slice());
    let rb = micro_values(e.average_read_burst.as_slice());
    let m0 = if k.sample_timestamps.len() <= bw.len() {
        k.sample_timestamps.len()
    } else {
        bw.len()
    };
    let m1 = if wb.len() <= rb.len() {
        wb.len()
    } else {
        rb.len()
    };
    let m = if m0 <= m1 {
        m0
    } else {
        m1
    };
    let mut b: u128 = 0;
    let mut w: u128 = 0;
    let mut r: u128 = 0;
    let mut j: usize = 0;
    while j < m
        invariant
            0 <= j <= m,
            m == spec_ext_pair_count(*k, *e),
            bw@ == micro_seq(e.global_used_bandwidth@),
            wb@ == micro_seq(e.average_write_burst@),
            rb@ == micro_seq(e.average_read_burst@),
            (b as int, w as int, r as int) == spec_ext_integrals(*k, *e, j as int),
        decreases m - j,
    {
        let prev: u64 = if j == 0 {
            k.start_time
        } else {
            k.sample_timestamps[j - 1]
        };
        let ts = k.sample_timestamps[j];
        let dur: u64 = if ts >= prev {
            ts - prev
        } else {
            0
        };
        proof {
            lemma_ext_mul_bounds(dur, bw@[j as int]);
            lemma_ext_mul_bounds(dur, wb@[j as int]);
            lemma_ext_mul_bounds(dur, rb@[j as int]);
        }
        b = add_sat(b, dur as u128 * bw[j] as u128);
        w = add_sat(w, dur as u128 * wb[j] as u128);
        r = add_sat(r, dur as u128 * rb[j] as u128);
        j += 1;
    }
    (b, w, r)
}

proof fn lemma_ext_mul_bounds(a: u64, b: u64)
    by (nonlinear_arith)
    ensures
        0 <= a as int * b as int <= u128::MAX,
{
}

/// The external-memory section: per (memory name, port) key — ordered by
/// name, then port — a plain duration sum over the contributing kernels and
/// the three time-integrals. Unlike module-instance bandwidth, the
/// denominator deliberately performs no overlap merge.
#[verifier::loop_isolation(false)]
pub fn external_memory_section(p: &Profile, allow: &Option<Vec<String>>) -> (r: Vec<
    SectionGroup<ExternalMemoryStat>,
>)
    ensures
        r@ == spec_external_memory_section(p.kernels.nodes@, *allow),
{
    let kernels = &p.kernels.nodes;
    let items = select_external_items(kernels, allow);
    let mut groups: Vec<Vec<(usize, usize)>> = Vec::new();
    let mut i: usize = 0;
    proof {
        assert(groups_view(groups@) =~= Seq::<Seq<(usize, usize)>>::empty());
    }
    while i < items.len()
        invariant
            0 <= i <= items@.len(),
            groups_view(groups@) == spec_group_ext(kernels@, items@, i as int),
            ext_groups_wf(groups_view(groups@), kernels@),
        decreases items@.len() - i,
    {
        let it = items[i];
        insert_ext(kernels, &mut groups, it);
        i += 1;
    }
    let ghost gv = groups_view(groups@);
    let ghost section = spec_external_memory_section(p.kernels.nodes@, *allow);
    let mut out: Vec<SectionGroup<ExternalMemoryStat>> = Vec::new();
    let mut gi: usize = 0;
    proof {
        assert(gv.len() == groups@.len());
        assert(section.len() == gv.len());
        assert(out@ =~= section.take(0));
    }
    while gi < groups.len()
        invariant
            0 <= gi <= groups@.len(),
            out@ == section.take(gi as int),
        decreases groups@.len() - gi,
    {
        let g = &groups[gi];
        proof {
            assert(gv[gi as int] == groups@[gi as int]@);
        }
        let mut d: u128 = 0;
        let mut b: u128 = 0;
        let mut w: u128 = 0;
        let mut r: u128 = 0;
        let mut t: usize = 0;
        while t < g.len()
            invariant
                0 <= t <= g@.len(),
                gv[gi as int] == g@,
                0 <= gi < gv.len(),
                (d as int, b as int, w as int, r as int) == spec_ext_group_stat(
                    kernels@,
                    g@,
                    t as int,
                ),
            decreases g@.len() - t,
        {
            proof {
                assert(gv[gi as int][t as int] == g@[t as int]);
            }
            let it = g[t];
            let (ko, eo) = external_of(kernels, it);
            let dur: u64 = if ko.end_time >= ko.start_time {
                ko.end_time - ko.start_time
            } else {
                0
            };
            let (pb, pw, pr) = ext_pair_integrals(ko, eo);
            d = add_sat(d, dur as u128);
            b = add_sat(b, pb);
            w = add_sat(w, pw);
            r = add_sat(r, pr);
            t += 1;
        }
        let stats = ExternalMemoryStat {
            duration_sum: d,
            bandwidth_integral_micro: b,
            write_burst_integral_micro: w,
            read_burst_integral_micro: r,
        };
        let first: (usize, usize) = g[0];
        out.push(SectionGroup { first_item: first, stats });
        proof {
            assert(out@ =~= section.take(gi + 1));
        }
        gi += 1;
    }
    proof {
        assert(section.take(groups@.len() as int) =~= section);
    }
    out
}

/// The indices of the board nodes among the first `n` nodes.
pub open spec fn spec_board_indices(nodes: Seq<Node>, n: int) -> Seq<usize>
    decreases n,
{
    if n <= 0 || n > nodes.len() {
        Seq::empty()
    } else {
        let pre = spec_board_indices(nodes, n - 1);
        match nodes[n - 1] {
            Node::Board(b) => pre.push((n - 1) as usize),
            _ => pre,
        }
    }
}

/// Picks the board nodes out of the boards collection, in document order.
pub fn board_indices(nodes: &Vec<Node>) -> (r: Vec<usize>)
    ensures
        r@ == spec_board_indices(nodes@, nodes@.len() as int),
        forall|t: int|
            0 <= t < r@.len() ==> (#[trigger] r@[t] as int) < nodes@.len()
                && nodes@[r@[t] as int] is Board,
{
    let mut out: Vec<usize> = Vec::new();
    let mut i: usize = 0;
    while i < nodes.len()
        invariant
            0 <= i <= nodes@.len(),
            out@ == spec_board_indices(nodes@, i as int),
            forall|t: int|
                0 <= t < out@.len() ==> (#[trigger] out@[t] as int) < nodes@.len()
                    && nodes@[out@[t] as int] is Board,
        decreases nodes@.len() - i,
    {
        match &nodes[i] {
            Node::Board(_b) => {
                out.push(i);
            },
            _ => {},
        }
        i += 1;
    }
    out
}

/// The indices of the global-memory capability records among the first `n`
/// children of a board.
pub open spec fn spec_global_memory_indices(children: Seq<Child>, n: int) -> Seq<usize>
    decreases n,
{
    if n <= 0 || n > children.len() {
        Seq::empty()
    } else {
        let pre = spec_global_memory_indices(children, n - 1);
        match children[n - 1] {
            Child::GlobalMemory(g) => pre.push((n - 1) as usize),
            _ => pre,
        }
    }
}

pub fn global_memory_indices(children: &Vec<Child>) -> (r: Vec<usize>)
    ensures
        r@ == spec_global_memory_indices(children@, children@.len() as int),
        forall|t: int|
            0 <= t < r@.len() ==> (#[trigger] r@[t] as int) < children@.len()
                && children@[r@[t] as int] is GlobalMemory,
{
    let mut out: Vec<usize> = Vec::new();
    let mut i: usize = 0;
    while i < children.len()
        invariant
            0 <= i <= children@.len(),
            out@ == spec_global_memory_indices(children@, i as int),
            forall|t: int|
                0 <= t < out@.len() ==> (#[trigger] out@[t] as int) < children@.len()
                    && children@[out@[t] as int] is GlobalMemory,
        decreases children@.len() - i,
    {
        match &children[i] {
            Child::GlobalMemory(_g) => {
                out.push(i);
            },
            _ => {},
        }
        i += 1;
    }
    out
}

/// The achieved clock frequencies of the first `n` run-information nodes.
pub open spec fn spec_run_information_values(nodes: Seq<Node>, n: int) -> Seq<Decimal>
    decreases n,
{
    if n <= 0 || n > nodes.len() {
        Seq::empty()
    } else {
        let pre = spec_run_information_values(nodes, n - 1);
        match nodes[n - 1] {
            Node::RunInformation(ri) => pre.push(ri.fmax),
            _ => pre,
        }
    }
}

/// Reads the achieved clock frequency out of every run-information node.
pub fn run_information_values(p: &Profile) -> (r: Vec<Decimal>)
    ensures
        r@ == spec_run_information_values(
            p.run_information.nodes@,
            p.run_information.nodes@.len() as int,
        ),
{
    let nodes = &p.run_information.nodes;
    let mut out: Vec<Decimal> = Vec::new();
    let mut i: usize = 0;
    while i < nodes.len()
        invariant
            0 <= i <= nodes@.len(),
            out@ == spec_run_information_values(nodes@, i as int),
        decreases nodes@.len() - i,
    {
        match &nodes[i] {
            Node::RunInformation(ri) => {
                out.push(ri.fmax);
            },
            _ => {},
        }
        i += 1;
    }
    out
}

} // verus!
