//! Selection and grouping of module-instance samples.
//!
//! A report section selects, per sample kind, every (kernel, module
//! instance) pair whose kernel passes the optional allow-list, then groups
//! the pairs by the instance's source-attribution chain under the total
//! order of [`crate::order`]. Items are carried as `(kernel index, child
//! index)` pairs into the profile's kernel list, so nothing is copied.

use vstd::prelude::*;
use crate::data_model::{FileReference, Kernel, ModuleInstance, Node};
use crate::data_model::{Child, ModuleInstanceDetails};
use crate::order::{Rank, cmp_fr_vec, rank_then, spec_cmp_chars, spec_cmp_fr_list};

verus! {

/// Whether a kernel name passes the allow-list; no list admits every name.
pub open spec fn spec_allowed(allow: Option<Vec<String>>, name: Seq<char>) -> bool {
    match allow {
        None => true,
        Some(list) => exists|i: int| 0 <= i < list@.len() && list@[i]@ == name,
    }
}

pub fn kernel_allowed(allow: &Option<Vec<String>>, name: &str) -> (r: bool)
    ensures
        r == spec_allowed(*allow, name@),
{
    match allow.as_ref() {
        None => true,
        Some(list) => {
            proof {
                assert(*allow matches Some(l) && l == *list);
            }
            let mut i: usize = 0;
            while i < list.len()
                invariant
                    *allow matches Some(l) && l == *list,
                    0 <= i <= list@.len(),
                    forall|j: int| 0 <= j < i ==> list@[j]@ != name@,
                decreases list@.len() - i,
            {
                if crate::numeric::str_eq(list[i].as_str(), name) {
                    proof {
                        let wi = i as int;
                        assert(0 <= wi < list@.len() && list@[wi]@ == name@);
                        assert(exists|j: int| 0 <= j < list@.len() && list@[j]@ == name@);
                    }
                    return true;
                }
                i += 1;
            }
            false
        },
    }
}

/// The four module-instance report sections.
#[derive(Clone, Copy, PartialEq, Eq, Structural, Debug)]
pub enum SectionKind {
    GlobalMemory,
    LocalMemory,
    Channel,
    Loop,
}

pub open spec fn spec_kind_matches(kind: SectionKind, d: ModuleInstanceDetails) -> bool {
    match kind {
        SectionKind::GlobalMemory => d is Global,
        SectionKind::LocalMemory => d is Local,
        SectionKind::Channel => d is Channel,
        SectionKind::Loop => d is Loop,
    }
}

pub open spec fn kernel_at(kernels: Seq<Node>, i: int) -> Kernel {
    kernels[i]->Kernel_0
}

pub open spec fn instance_at(kernels: Seq<Node>, i: int, j: int) -> ModuleInstance {
    kernel_at(kernels, i).children@[j]->ModuleInstance_0
}

/// An index pair that really points at a module instance of a kernel.
pub open spec fn valid_instance_item(kernels: Seq<Node>, it: (usize, usize)) -> bool {
    &&& (it.0 as int) < kernels.len()
    &&& kernels[it.0 as int] is Kernel
    &&& (it.1 as int) < kernel_at(kernels, it.0 as int).children@.len()
    &&& kernel_at(kernels, it.0 as int).children@[it.1 as int] is ModuleInstance
}

/// The grouping key of an item: its instance's source-attribution chain.
pub open spec fn item_key(kernels: Seq<Node>, it: (usize, usize)) -> Vec<FileReference> {
    instance_at(kernels, it.0 as int, it.1 as int).source_files
}

pub open spec fn spec_cmp_key(kernels: Seq<Node>, a: (usize, usize), b: (usize, usize)) -> Rank {
    spec_cmp_fr_list(item_key(kernels, a)@, item_key(kernels, b)@, 0)
}

/// The kind-matching module instances of the first `n` children of kernel
/// `ki`, in child order.
pub open spec fn spec_select_children(
    children: Seq<Child>,
    ki: usize,
    kind: SectionKind,
    n: int,
) -> Seq<(usize, usize)>
    decreases n,
{
    if n <= 0 || n > children.len() {
        Seq::empty()
    } else {
        let pre = spec_select_children(children, ki, kind, n - 1);
        match children[n - 1] {
            Child::ModuleInstance(m) => if spec_kind_matches(kind, m.module_instance_details) {
                pre.push((ki, (n - 1) as usize))
            } else {
                pre
            },
            _ => pre,
        }
    }
}

/// The items of one section over the first `n` nodes: every kind-matching
/// module instance of every allowed kernel, in document order.
pub open spec fn spec_select(
    kernels: Seq<Node>,
    allow: Option<Vec<String>>,
    kind: SectionKind,
    n: int,
) -> Seq<(usize, usize)>
    decreases n,
{
    if n <= 0 || n > kernels.len() {
        Seq::empty()
    } else {
        let pre = spec_select(kernels, allow, kind, n - 1);
        match kernels[n - 1] {
            Node::Kernel(k) => if spec_allowed(allow, k.name@) {
                pre + spec_select_children(k.children@, (n - 1) as usize, kind, k.children@.len() as int)
            } else {
                pre
            },
            _ => pre,
        }
    }
}

fn kind_matches(kind: SectionKind, d: &ModuleInstanceDetails) -> (r: bool)
    ensures
        r == spec_kind_matches(kind, *d),
{
    match kind {
        SectionKind::GlobalMemory => matches!(d, ModuleInstanceDetails::Global(_)),
        SectionKind::LocalMemory => matches!(d, ModuleInstanceDetails::Local(_)),
        SectionKind::Channel => matches!(d, ModuleInstanceDetails::Channel(_)),
        SectionKind::Loop => matches!(d, ModuleInstanceDetails::Loop(_)),
    }
}

/// Selects one section's items: kernel filtering happens here, before any
/// grouping, so an excluded kernel contributes to nothing downstream.
pub fn select_items(kernels: &Vec<Node>, allow: &Option<Vec<String>>, kind: SectionKind) -> (r:
    Vec<(usize, usize)>)
    ensures
        r@ == spec_select(kernels@, *allow, kind, kernels@.len() as int),
        forall|t: int|
            0 <= t < r@.len() ==> valid_instance_item(kernels@, #[trigger] r@[t])
                && spec_kind_matches(
                kind,
                instance_at(kernels@, r@[t].0 as int, r@[t].1 as int).module_instance_details,
            ) && spec_allowed(*allow, kernel_at(kernels@, r@[t].0 as int).name@),
{
    let mut out: Vec<(usize, usize)> = Vec::new();
    let mut i: usize = 0;
    while i < kernels.len()
        invariant
            0 <= i <= kernels@.len(),
            out@ == spec_select(kernels@, *allow, kind, i as int),
            forall|t: int|
                0 <= t < out@.len() ==> valid_instance_item(kernels@, #[trigger] out@[t])
                    && spec_kind_matches(
                    kind,
                    instance_at(
                        kernels@,
                        out@[t].0 as int,
                        out@[t].1 as int,
                    ).module_instance_details,
                ) && spec_allowed(*allow, kernel_at(kernels@, out@[t].0 as int).name@),
        decreases kernels@.len() - i,
    {
        match &kernels[i] {
            Node::Kernel(k) => {
                if kernel_allowed(allow, k.name.as_str()) {
                    let mut j: usize = 0;
                    while j < k.children.len()
                        invariant
                            0 <= j <= k.children@.len(),
                            0 <= i < kernels@.len(),
                            kernels@[i as int] == Node::Kernel(*k),
                            spec_allowed(*allow, k.name@),
                            out@ == spec_select(kernels@, *allow, kind, i as int)
                                + spec_select_children(k.children@, i, kind, j as int),
                            forall|t: int|
                                0 <= t < out@.len() ==> valid_instance_item(
                                    kernels@,
                                    #[trigger] out@[t],
                                ) && spec_kind_matches(
                                    kind,
                                    instance_at(
                                        kernels@,
                                        out@[t].0 as int,
                                        out@[t].1 as int,
                                    ).module_instance_details,
                                ) && spec_allowed(
                                    *allow,
                                    kernel_at(kernels@, out@[t].0 as int).name@,
                                ),
                        decreases k.children@.len() - j,
                    {
                        match &k.children[j] {
                            Child::ModuleInstance(m) => {
                                if kind_matches(kind, &m.module_instance_details) {
                                    out.push((i, j));
                                }
                            },
                            _ => {},
                        }
                        j += 1;
                    }
                    proof {
                        assert(spec_select(kernels@, *allow, kind, i + 1) == spec_select(
                            kernels@,
                            *allow,
                            kind,
                            i as int,
                        ) + spec_select_children(
                            k.children@,
                            i,
                            kind,
                            k.children@.len() as int,
                        ));
                    }
                } else {
                    proof {
                        assert(spec_select(kernels@, *allow, kind, i + 1) == spec_select(
                            kernels@,
                            *allow,
                            kind,
                            i as int,
                        ));
                    }
                }
            },
            _ => {},
        }
        i += 1;
    }
    out
}

/// The groups as mathematical sequences.
pub open spec fn groups_view(gs: Seq<Vec<(usize, usize)>>) -> Seq<Seq<(usize, usize)>> {
    gs.map_values(|g: Vec<(usize, usize)>| g@)
}

/// Inserts one item into the grouped runs: before the first group with a
/// larger key, into the group with an equal key, else as a new group.
pub open spec fn spec_insert_item(
    groups: Seq<Seq<(usize, usize)>>,
    kernels: Seq<Node>,
    it: (usize, usize),
) -> Seq<Seq<(usize, usize)>>
    decreases groups.len(),
{
    if groups.len() == 0 {
        seq![seq![it]]
    } else if spec_cmp_key(kernels, it, groups[0][0]) == Rank::Less {
        seq![seq![it]] + groups
    } else if spec_cmp_key(kernels, it, groups[0][0]) == Rank::Equal {
        seq![groups[0].push(it)] + groups.drop_first()
    } else {
        seq![groups[0]] + spec_insert_item(groups.drop_first(), kernels, it)
    }
}

/// The grouping fold over the first `n` items.
pub open spec fn spec_group_items(
    kernels: Seq<Node>,
    items: Seq<(usize, usize)>,
    n: int,
) -> Seq<Seq<(usize, usize)>>
    decreases n,
{
    if n <= 0 || n > items.len() {
        Seq::empty()
    } else {
        spec_insert_item(spec_group_items(kernels, items, n - 1), kernels, items[n - 1])
    }
}

/// Groups whose scanned prefix has strictly smaller keys insert further
/// right.
proof fn lemma_insert_item_split(
    groups: Seq<Seq<(usize, usize)>>,
    kernels: Seq<Node>,
    it: (usize, usize),
    k: int,
)
    requires
        0 <= k <= groups.len(),
        forall|j: int|
            0 <= j < k ==> spec_cmp_key(kernels, it, #[trigger] groups[j][0]) == Rank::Greater,
    ensures
        spec_insert_item(groups, kernels, it) == groups.take(k) + spec_insert_item(
            groups.skip(k),
            kernels,
            it,
        ),
    decreases k,
{
    if k == 0 {
        assert(groups.skip(0) =~= groups);
        assert(groups.take(0) + spec_insert_item(groups, kernels, it) =~= spec_insert_item(
            groups,
            kernels,
            it,
        ));
    } else {
        assert forall|j: int| 0 <= j < k - 1 implies spec_cmp_key(
            kernels,
            it,
            #[trigger] groups.drop_first()[j][0],
        ) == Rank::Greater by {
            assert(groups.drop_first()[j] == groups[j + 1]);
        }
        lemma_insert_item_split(groups.drop_first(), kernels, it, k - 1);
        assert(groups.drop_first().take(k - 1) =~= groups.take(k).drop_first());
        assert(groups.drop_first().skip(k - 1) =~= groups.skip(k));
        assert(seq![groups[0]] + (groups.take(k).drop_first() + spec_insert_item(
            groups.skip(k),
            kernels,
            it,
        )) =~= groups.take(k) + spec_insert_item(groups.skip(k), kernels, it));
    }
}

/// Borrows the source chain an item points at.
pub fn source_files_of<'a>(kernels: &'a Vec<Node>, it: (usize, usize)) -> (r: &'a Vec<
    FileReference,
>)
    requires
        valid_instance_item(kernels@, it),
    ensures
        *r == item_key(kernels@, it),
{
    match &kernels[it.0] {
        Node::Kernel(k) => match &k.children[it.1] {
            Child::ModuleInstance(m) => &m.source_files,
            _ => vstd::pervasive::unreached(),
        },
        _ => vstd::pervasive::unreached(),
    }
}

/// Every group is non-empty and holds only real module-instance items of
/// the section's kind.
pub open spec fn groups_wf(gs: Seq<Seq<(usize, usize)>>, kernels: Seq<Node>, kind: SectionKind) -> bool {
    forall|g: int|
        0 <= g < gs.len() ==> (#[trigger] gs[g]).len() > 0 && forall|t: int|
            0 <= t < gs[g].len() ==> valid_instance_item(kernels, #[trigger] gs[g][t])
                && spec_kind_matches(
                kind,
                instance_at(kernels, gs[g][t].0 as int, gs[g][t].1 as int).module_instance_details,
            )
}

/// Extracts one group's facts from [`groups_wf`].
pub proof fn lemma_groups_wf_at(
    gs: Seq<Seq<(usize, usize)>>,
    kernels: Seq<Node>,
    kind: SectionKind,
    g: int,
)
    requires
        groups_wf(gs, kernels, kind),
        0 <= g < gs.len(),
    ensures
        gs[g].len() > 0,
        forall|t: int|
            0 <= t < gs[g].len() ==> valid_instance_item(kernels, #[trigger] gs[g][t])
                && spec_kind_matches(
                kind,
                instance_at(kernels, gs[g][t].0 as int, gs[g][t].1 as int).module_instance_details,
            ),
{
}

/// The position the item's group stands at or belongs before.
fn insert_position(
    kernels: &Vec<Node>,
    groups: &Vec<Vec<(usize, usize)>>,
    it: (usize, usize),
    Ghost(kind): Ghost<SectionKind>,
) -> (r: usize)
    requires
        valid_instance_item(kernels@, it),
        groups_wf(groups_view(groups@), kernels@, kind),
    ensures
        r <= groups@.len(),
        forall|j: int|
            0 <= j < r ==> spec_cmp_key(kernels@, it, #[trigger] groups_view(groups@)[j][0])
                == Rank::Greater,
        r < groups@.len() ==> spec_cmp_key(kernels@, it, groups_view(groups@)[r as int][0])
            != Rank::Greater,
{
    let ghost gv = groups_view(groups@);
    let mut k: usize = 0;
    while k < groups.len()
        invariant
            0 <= k <= groups@.len(),
            gv == groups_view(groups@),
            valid_instance_item(kernels@, it),
            groups_wf(gv, kernels@, kind),
            forall|j: int|
                0 <= j < k ==> spec_cmp_key(kernels@, it, #[trigger] gv[j][0]) == Rank::Greater,
        decreases groups@.len() - k,
    {
        proof {
            assert(gv[k as int] == groups@[k as int]@);
            assert(valid_instance_item(kernels@, gv[k as int][0]));
        }
        let g0: (usize, usize) = groups[k][0];
        let a = source_files_of(kernels, it);
        let b = source_files_of(kernels, g0);
        let c = cmp_fr_vec(a, b);
        if !matches!(c, Rank::Greater) {
            return k;
        }
        k += 1;
    }
    k
}

fn insert_item(
    kernels: &Vec<Node>,
    groups: &mut Vec<Vec<(usize, usize)>>,
    it: (usize, usize),
    Ghost(kind): Ghost<SectionKind>,
)
    requires
        valid_instance_item(kernels@, it),
        spec_kind_matches(
            kind,
            instance_at(kernels@, it.0 as int, it.1 as int).module_instance_details,
        ),
        groups_wf(groups_view(old(groups)@), kernels@, kind),
    ensures
        groups_view(final(groups)@) == spec_insert_item(groups_view(old(groups)@), kernels@, it),
        groups_wf(groups_view(final(groups)@), kernels@, kind),
{
    let ghost gv = groups_view(groups@);
    let k = insert_position(kernels, groups, it, Ghost(kind));
    proof {
        lemma_insert_item_split(gv, kernels@, it, k as int);
    }
    if k < groups.len() {
        proof {
            assert(gv[k as int] == groups@[k as int]@);
            assert(valid_instance_item(kernels@, gv[k as int][0]));
            assert(gv.skip(k as int)[0] == gv[k as int]);
        }
        let g0: (usize, usize) = groups[k][0];
        let a = source_files_of(kernels, it);
        let b = source_files_of(kernels, g0);
        let c = cmp_fr_vec(a, b);
        if matches!(c, Rank::Equal) {
            let mut g = groups.remove(k);
            g.push(it);
            groups.insert(k, g);
            proof {
                assert(spec_insert_item(gv.skip(k as int), kernels@, it) == seq![
                    gv[k as int].push(it),
                ] + gv.skip(k as int).drop_first());
                assert(groups_view(groups@) =~= gv.take(k as int) + (seq![gv[k as int].push(it)]
                    + gv.skip(k as int).drop_first()));
                assert(groups_wf(groups_view(groups@), kernels@, kind));
            }
        } else {
            let mut ng: Vec<(usize, usize)> = Vec::new();
            ng.push(it);
            groups.insert(k, ng);
            proof {
                assert(spec_cmp_key(kernels@, it, gv.skip(k as int)[0][0]) == Rank::Less);
                assert(spec_insert_item(gv.skip(k as int), kernels@, it) == seq![seq![it]]
                    + gv.skip(k as int));
                assert(groups_view(groups@) =~= gv.take(k as int) + (seq![seq![it]] + gv.skip(
                    k as int,
                )));
                assert(groups_wf(groups_view(groups@), kernels@, kind));
            }
        }
    } else {
        let mut ng: Vec<(usize, usize)> = Vec::new();
        ng.push(it);
        groups.push(ng);
        proof {
            assert(gv.skip(k as int) =~= Seq::<Seq<(usize, usize)>>::empty());
            assert(spec_insert_item(gv.skip(k as int), kernels@, it) =~= seq![seq![it]]);
            assert(groups_view(groups@) =~= gv.take(k as int) + seq![seq![it]]);
            assert(groups_wf(groups_view(groups@), kernels@, kind));
        }
    }
}

/// Groups one section's items by source chain: a pure fold with a
/// deterministic order, so the same items always group the same way.
pub fn group_by_source(
    kernels: &Vec<Node>,
    items: &Vec<(usize, usize)>,
    kind: SectionKind,
) -> (r: Vec<Vec<(usize, usize)>>)
    requires
        forall|t: int|
            0 <= t < items@.len() ==> valid_instance_item(kernels@, #[trigger] items@[t])
                && spec_kind_matches(
                kind,
                instance_at(
                    kernels@,
                    items@[t].0 as int,
                    items@[t].1 as int,
                ).module_instance_details,
            ),
    ensures
        groups_view(r@) == spec_group_items(kernels@, items@, items@.len() as int),
        groups_wf(groups_view(r@), kernels@, kind),
{
    let mut groups: Vec<Vec<(usize, usize)>> = Vec::new();
    let mut i: usize = 0;
    proof {
        assert(groups_view(groups@) =~= Seq::<Seq<(usize, usize)>>::empty());
    }
    while i < items.len()
        invariant
            0 <= i <= items@.len(),
            forall|t: int|
                0 <= t < items@.len() ==> valid_instance_item(kernels@, #[trigger] items@[t])
                    && spec_kind_matches(
                    kind,
                    instance_at(
                        kernels@,
                        items@[t].0 as int,
                        items@[t].1 as int,
                    ).module_instance_details,
                ),
            groups_view(groups@) == spec_group_items(kernels@, items@, i as int),
            groups_wf(groups_view(groups@), kernels@, kind),
        decreases items@.len() - i,
    {
        let it = items[i];
        insert_item(kernels, &mut groups, it, Ghost(kind));
        i += 1;
    }
    groups
}

/// The (kernel name, module-instance name) key ordering the fine-grained
/// breakdown inside one source-chain group.
pub open spec fn spec_cmp_expand_key(kernels: Seq<Node>, a: (usize, usize), b: (usize, usize)) -> Rank {
    rank_then(
        spec_cmp_chars(
            kernel_at(kernels, a.0 as int).name@,
            kernel_at(kernels, b.0 as int).name@,
            0,
        ),
        spec_cmp_chars(
            instance_at(kernels, a.0 as int, a.1 as int).name@,
            instance_at(kernels, b.0 as int, b.1 as int).name@,
            0,
        ),
    )
}

/// Inserts one item into the unroll-instance runs: before the first run
/// with a larger key, into the run with an equal key, else as a new run.
pub open spec fn spec_insert_unroll(
    groups: Seq<Seq<(usize, usize)>>,
    kernels: Seq<Node>,
    it: (usize, usize),
) -> Seq<Seq<(usize, usize)>>
    decreases groups.len(),
{
    if groups.len() == 0 {
        seq![seq![it]]
    } else if spec_cmp_expand_key(kernels, it, groups[0][0]) == Rank::Less {
        seq![seq![it]] + groups
    } else if spec_cmp_expand_key(kernels, it, groups[0][0]) == Rank::Equal {
        seq![groups[0].push(it)] + groups.drop_first()
    } else {
        seq![groups[0]] + spec_insert_unroll(groups.drop_first(), kernels, it)
    }
}

/// The unroll runs of the first `n` items, ordered by kernel name, then by
/// instance name.
pub open spec fn spec_group_unrolls(
    kernels: Seq<Node>,
    items: Seq<(usize, usize)>,
    n: int,
) -> Seq<Seq<(usize, usize)>>
    decreases n,
{
    if n <= 0 || n > items.len() {
        Seq::empty()
    } else {
        spec_insert_unroll(spec_group_unrolls(kernels, items, n - 1), kernels, items[n - 1])
    }
}

/// Every unroll run is non-empty and holds only real module-instance items.
pub open spec fn unrolls_wf(gs: Seq<Seq<(usize, usize)>>, kernels: Seq<Node>) -> bool {
    forall|g: int|
        0 <= g < gs.len() ==> (#[trigger] gs[g]).len() > 0 && forall|t: int|
            0 <= t < gs[g].len() ==> valid_instance_item(kernels, #[trigger] gs[g][t])
}

proof fn lemma_insert_unroll_split(
    groups: Seq<Seq<(usize, usize)>>,
    kernels: Seq<Node>,
    it: (usize, usize),
    k: int,
)
    requires
        0 <= k <= groups.len(),
        forall|j: int|
            0 <= j < k ==> spec_cmp_expand_key(kernels, it, #[trigger] groups[j][0])
                == Rank::Greater,
    ensures
        spec_insert_unroll(groups, kernels, it) == groups.take(k) + spec_insert_unroll(
            groups.skip(k),
            kernels,
            it,
        ),
    decreases k,
{
    if k == 0 {
        assert(groups.skip(0) =~= groups);
        assert(groups.take(0) + spec_insert_unroll(groups, kernels, it) =~= spec_insert_unroll(
            groups,
            kernels,
            it,
        ));
    } else {
        assert forall|j: int| 0 <= j < k - 1 implies spec_cmp_expand_key(
            kernels,
            it,
            #[trigger] groups.drop_first()[j][0],
        ) == Rank::Greater by {
            assert(groups.drop_first()[j] == groups[j + 1]);
        }
        lemma_insert_unroll_split(groups.drop_first(), kernels, it, k - 1);
        assert(groups.drop_first().take(k - 1) =~= groups.take(k).drop_first());
        assert(groups.drop_first().skip(k - 1) =~= groups.skip(k));
        assert(seq![groups[0]] + (groups.take(k).drop_first() + spec_insert_unroll(
            groups.skip(k),
            kernels,
            it,
        )) =~= groups.take(k) + spec_insert_unroll(groups.skip(k), kernels, it));
    }
}

/// Borrows the kernel and instance names an item points at.
fn names_of<'a>(kernels: &'a Vec<Node>, it: (usize, usize)) -> (r: (&'a String, &'a String))
    requires
        valid_instance_item(kernels@, it),
    ensures
        *r.0 == kernel_at(kernels@, it.0 as int).name,
        *r.1 == instance_at(kernels@, it.0 as int, it.1 as int).name,
{
    match &kernels[it.0] {
        Node::Kernel(k) => match &k.children[it.1] {
            Child::ModuleInstance(m) => (&k.name, &m.name),
            _ => vstd::pervasive::unreached(),
        },
        _ => vstd::pervasive::unreached(),
    }
}

fn expand_cmp(kernels: &Vec<Node>, a: (usize, usize), b: (usize, usize)) -> (r: Rank)
    requires
        valid_instance_item(kernels@, a),
        valid_instance_item(kernels@, b),
    ensures
        r == spec_cmp_expand_key(kernels@, a, b),
{
    let na = names_of(kernels, a);
    let nb = names_of(kernels, b);
    let c = crate::order::cmp_str(na.0.as_str(), nb.0.as_str());
    if matches!(c, Rank::Equal) {
        crate::order::cmp_str(na.1.as_str(), nb.1.as_str())
    } else {
        c
    }
}

#[verifier::loop_isolation(false)]
fn insert_unroll(kernels: &Vec<Node>, groups: &mut Vec<Vec<(usize, usize)>>, it: (usize, usize))
    requires
        valid_instance_item(kernels@, it),
        unrolls_wf(groups_view(old(groups)@), kernels@),
    ensures
        groups_view(final(groups)@) == spec_insert_unroll(groups_view(old(groups)@), kernels@, it),
        unrolls_wf(groups_view(final(groups)@), kernels@),
{
    let ghost gv = groups_view(groups@);
    proof {
        assert(gv.len() == groups@.len());
    }
    let mut k: usize = 0;
    let mut stop: bool = false;
    while !stop && k < groups.len()
        invariant
            0 <= k <= groups@.len(),
            forall|j: int|
                0 <= j < k ==> spec_cmp_expand_key(kernels@, it, #[trigger] gv[j][0])
                    == Rank::Greater,
            stop ==> k < groups@.len() && spec_cmp_expand_key(kernels@, it, gv[k as int][0])
                != Rank::Greater,
        decreases groups@.len() - k, if stop { 0int } else { 1int },
    {
        proof {
            assert(gv[k as int] == groups@[k as int]@);
        }
        let g0: (usize, usize) = groups[k][0];
        let c = expand_cmp(kernels, it, g0);
        if matches!(c, Rank::Greater) {
            k += 1;
        } else {
            stop = true;
        }
    }
    proof {
        lemma_insert_unroll_split(gv, kernels@, it, k as int);
    }
    if k < groups.len() {
        proof {
            assert(gv[k as int] == groups@[k as int]@);
            assert(gv.skip(k as int)[0] == gv[k as int]);
        }
        let g0: (usize, usize) = groups[k][0];
        let c = expand_cmp(kernels, it, g0);
        if matches!(c, Rank::Equal) {
            let mut g = groups.remove(k);
            g.push(it);
            groups.insert(k, g);
            proof {
                assert(spec_insert_unroll(gv.skip(k as int), kernels@, it) == seq![
                    gv[k as int].push(it),
                ] + gv.skip(k as int).drop_first());
                assert(groups_view(groups@) =~= gv.take(k as int) + (seq![gv[k as int].push(it)]
                    + gv.skip(k as int).drop_first()));
                assert(unrolls_wf(groups_view(groups@), kernels@));
            }
        } else {
            let mut ng: Vec<(usize, usize)> = Vec::new();
            ng.push(it);
            groups.insert(k, ng);
            proof {
                assert(spec_cmp_expand_key(kernels@, it, gv.skip(k as int)[0][0]) == Rank::Less);
                assert(spec_insert_unroll(gv.skip(k as int), kernels@, it) == seq![seq![it]]
                    + gv.skip(k as int));
                assert(groups_view(groups@) =~= gv.take(k as int) + (seq![seq![it]] + gv.skip(
                    k as int,
                )));
                assert(unrolls_wf(groups_view(groups@), kernels@));
            }
        }
    } else {
        let mut ng: Vec<(usize, usize)> = Vec::new();
        ng.push(it);
        groups.push(ng);
        proof {
            assert(gv.skip(k as int) =~= Seq::<Seq<(usize, usize)>>::empty());
            assert(spec_insert_unroll(gv.skip(k as int), kernels@, it) =~= seq![seq![it]]);
            assert(groups_view(groups@) =~= gv.take(k as int) + seq![seq![it]]);
            assert(unrolls_wf(groups_view(groups@), kernels@));
        }
    }
}

/// Extracts one run's facts from [`unrolls_wf`].
proof fn lemma_unrolls_wf_at(gs: Seq<Seq<(usize, usize)>>, kernels: Seq<Node>, g: int)
    requires
        unrolls_wf(gs, kernels),
        0 <= g < gs.len(),
    ensures
        gs[g].len() > 0,
        forall|t: int|
            0 <= t < gs[g].len() ==> valid_instance_item(kernels, #[trigger] gs[g][t]),
{
}

/// The unroll runs of the first `n`, gathered under their kernel names:
/// a run whose kernel name equals the last gathered name joins that kernel's
/// list, else it starts the next kernel's list.
pub open spec fn spec_nest_by_kernel(
    kernels: Seq<Node>,
    us: Seq<Seq<(usize, usize)>>,
    n: int,
) -> Seq<Seq<Seq<(usize, usize)>>>
    decreases n,
{
    if n <= 0 || n > us.len() {
        Seq::empty()
    } else {
        let acc = spec_nest_by_kernel(kernels, us, n - 1);
        let u = us[n - 1];
        if acc.len() > 0 && kernel_at(kernels, u[0].0 as int).name@ == kernel_at(
            kernels,
            acc.last()[0][0].0 as int,
        ).name@ {
            acc.drop_last().push(acc.last().push(u))
        } else {
            acc.push(seq![u])
        }
    }
}

/// Every gathered kernel list is non-empty, its first run is non-empty, and
/// that run's first item is a real module instance.
proof fn lemma_nest_wf(kernels: Seq<Node>, us: Seq<Seq<(usize, usize)>>, n: int)
    requires
        unrolls_wf(us, kernels),
        0 <= n <= us.len(),
    ensures
        forall|a: int|
            0 <= a < spec_nest_by_kernel(kernels, us, n).len() ==> (#[trigger] spec_nest_by_kernel(
                kernels,
                us,
                n,
            )[a]).len() > 0 && spec_nest_by_kernel(kernels, us, n)[a][0].len() > 0
                && valid_instance_item(kernels, spec_nest_by_kernel(kernels, us, n)[a][0][0]),
    decreases n,
{
    if n > 0 {
        lemma_nest_wf(kernels, us, n - 1);
        let acc = spec_nest_by_kernel(kernels, us, n - 1);
        let nest = spec_nest_by_kernel(kernels, us, n);
        let u = us[n - 1];
        lemma_unrolls_wf_at(us, kernels, n - 1);
        assert(valid_instance_item(kernels, u[0]));
        if acc.len() > 0 && kernel_at(kernels, u[0].0 as int).name@ == kernel_at(
            kernels,
            acc.last()[0][0].0 as int,
        ).name@ {
            assert forall|a: int| 0 <= a < nest.len() implies (#[trigger] nest[a]).len() > 0
                && nest[a][0].len() > 0 && valid_instance_item(kernels, nest[a][0][0]) by {
                if a < acc.len() - 1 {
                    assert(nest[a] == acc[a]);
                } else {
                    assert(nest[a] == acc.last().push(u));
                    assert(nest[a][0] == acc.last()[0]);
                }
            }
        } else {
            assert forall|a: int| 0 <= a < nest.len() implies (#[trigger] nest[a]).len() > 0
                && nest[a][0].len() > 0 && valid_instance_item(kernels, nest[a][0][0]) by {
                if a < acc.len() {
                    assert(nest[a] == acc[a]);
                } else {
                    assert(nest[a] == seq![u]);
                }
            }
        }
    }
}

/// The fine-grained breakdown of one source-chain group: runs of items
/// sharing kernel name and instance name, gathered per kernel name, both
/// names ascending. The position of a run under its kernel name, counted
/// from one, is the unroll-instance index.
pub open spec fn spec_expand_group(kernels: Seq<Node>, g: Seq<(usize, usize)>) -> Seq<
    Seq<Seq<(usize, usize)>>,
> {
    let us = spec_group_unrolls(kernels, g, g.len() as int);
    spec_nest_by_kernel(kernels, us, us.len() as int)
}

/// The nested groups as mathematical sequences.
pub open spec fn nested_view(gs: Seq<Vec<Vec<(usize, usize)>>>) -> Seq<Seq<Seq<(usize, usize)>>> {
    gs.map_values(|g: Vec<Vec<(usize, usize)>>| groups_view(g@))
}

fn copy_items(v: &Vec<(usize, usize)>) -> (r: Vec<(usize, usize)>)
    ensures
        r@ == v@,
{
    let mut out: Vec<(usize, usize)> = Vec::new();
    let mut i: usize = 0;
    while i < v.len()
        invariant
            0 <= i <= v@.len(),
            out@ == v@.take(i as int),
        decreases v@.len() - i,
    {
        out.push(v[i]);
        proof {
            assert(out@ =~= v@.take(i + 1));
        }
        i += 1;
    }
    proof {
        assert(v@.take(v@.len() as int) =~= v@);
    }
    out
}

/// Sub-groups one source-chain group for the fine-grained view: by kernel
/// name, then by module-instance name, both ascending; instances number
/// from one.
#[verifier::loop_isolation(false)]
pub fn expand_group(kernels: &Vec<Node>, g: &Vec<(usize, usize)>) -> (r: Vec<
    Vec<Vec<(usize, usize)>>,
>)
    requires
        forall|t: int| 0 <= t < g@.len() ==> valid_instance_item(kernels@, #[trigger] g@[t]),
    ensures
        nested_view(r@) == spec_expand_group(kernels@, g@),
{
    let mut unrolls: Vec<Vec<(usize, usize)>> = Vec::new();
    let mut i: usize = 0;
    proof {
        assert(groups_view(unrolls@) =~= Seq::<Seq<(usize, usize)>>::empty());
    }
    while i < g.len()
        invariant
            0 <= i <= g@.len(),
            groups_view(unrolls@) == spec_group_unrolls(kernels@, g@, i as int),
            unrolls_wf(groups_view(unrolls@), kernels@),
        decreases g@.len() - i,
    {
        let it = g[i];
        insert_unroll(kernels, &mut unrolls, it);
        i += 1;
    }
    let ghost us = groups_view(unrolls@);
    let mut out: Vec<Vec<Vec<(usize, usize)>>> = Vec::new();
    let mut j: usize = 0;
    proof {
        assert(us.len() == unrolls@.len());
        assert(nested_view(out@) =~= spec_nest_by_kernel(kernels@, us, 0));
    }
    while j < unrolls.len()
        invariant
            0 <= j <= unrolls@.len(),
            nested_view(out@) == spec_nest_by_kernel(kernels@, us, j as int),
            out@.len() > 0 ==> spec_nest_by_kernel(kernels@, us, j as int).len() > 0,
        decreases unrolls@.len() - j,
    {
        proof {
            assert(us[j as int] == unrolls@[j as int]@);
            lemma_unrolls_wf_at(us, kernels@, j as int);
        }
        let u = copy_items(&unrolls[j]);
        let ghost acc = nested_view(out@);
        let mut joined: bool = false;
        if out.len() > 0 {
            proof {
                assert(acc.len() == out@.len());
                assert(acc[out@.len() - 1] == groups_view(out@[out@.len() - 1]@));
                assert(groups_view(out@[out@.len() - 1]@)[0] == out@[out@.len() - 1]@[0]@);
                lemma_nest_wf(kernels@, us, j as int);
            }
            let probe: (usize, usize) = out[out.len() - 1][0][0];
            proof {
                assert(probe == acc.last()[0][0]);
            }
            let names_new = names_of(kernels, u[0]);
            let names_old = names_of(kernels, probe);
            if crate::numeric::str_eq(names_new.0.as_str(), names_old.0.as_str()) {
                proof {
                    assert(kernel_at(kernels@, us[j as int][0].0 as int).name@ == kernel_at(
                        kernels@,
                        acc.last()[0][0].0 as int,
                    ).name@);
                }
                joined = true;
            } else {
                proof {
                    assert(kernel_at(kernels@, us[j as int][0].0 as int).name@ != kernel_at(
                        kernels@,
                        acc.last()[0][0].0 as int,
                    ).name@);
                }
            }
        }
        if joined {
            let mut lastg = match out.pop() {
                Some(x) => x,
                None => vstd::pervasive::unreached(),
            };
            proof {
                assert(groups_view(lastg@) == acc.last());
                assert(nested_view(out@) =~= acc.drop_last());
            }
            lastg.push(u);
            proof {
                assert(groups_view(lastg@) =~= acc.last().push(us[j as int]));
            }
            out.push(lastg);
            proof {
                assert(nested_view(out@) =~= acc.drop_last().push(acc.last().push(us[j as int])));
                assert(nested_view(out@) =~= spec_nest_by_kernel(kernels@, us, j + 1));
            }
        } else {
            let mut ng: Vec<Vec<(usize, usize)>> = Vec::new();
            ng.push(u);
            out.push(ng);
            proof {
                assert(groups_view(ng@) =~= seq![us[j as int]]);
                assert(nested_view(out@) =~= acc.push(seq![us[j as int]]));
                assert(nested_view(out@) =~= spec_nest_by_kernel(kernels@, us, j + 1));
            }
        }
        j += 1;
    }
    out
}

} // verus!
