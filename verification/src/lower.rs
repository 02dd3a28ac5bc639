//! Lowering: expanding the pruned, artifact-annotated package graph into the
//! flat list of compilation units with resolved, index-valued dependency
//! references.

use vstd::prelude::*;
use vstd::string::StringExecFns;

use crate::graph::{CrateGraph, PackageNode, PackageNodeV, Target, TargetV};
use crate::paths::{parent_of, path_parent};
use crate::rust_project::{
    spec_target_kind, BuildInfo, BuildInfoV, Crate, CrateSource, CrateSourceV, CrateV, Dep, DepV,
    RawTargetKind, TargetKind,
};
use crate::util::{
    clone_opt_string, feature_cfg, feature_cfg_string, lemma_take_one_more, lemma_vec_deep_view,
    push_elem, underscore_name, underscored, EnvVar, EnvVarV,
};

verus! {

// ------------------------------------------------------------------
// The lowering spec: what the flat unit list is, unit by unit.
// ------------------------------------------------------------------

/// Whether a target's simplified kind is `Lib`: such targets are the
/// dependency-resolution anchors of their package.
pub open spec fn is_lib_target(t: TargetV) -> bool {
    spec_target_kind(t.kind) == TargetKind::Lib
}

/// The flat index of the first unit of package `k`: one unit exists per
/// target of every earlier package.
pub open spec fn base(g: Seq<PackageNodeV>, k: int) -> int
    decreases k,
{
    if k <= 0 {
        0
    } else {
        base(g, k - 1) + g[k - 1].targets.len()
    }
}

/// How many units the lowered output has.
pub open spec fn total_units(g: Seq<PackageNodeV>) -> int {
    base(g, g.len() as int)
}

/// The position of the last `Lib`-kind target among the first `j` targets.
pub open spec fn last_lib_slot_upto(targets: Seq<TargetV>, j: int) -> Option<int>
    decreases j,
{
    if j <= 0 {
        None
    } else if is_lib_target(targets[j - 1]) {
        Some(j - 1)
    } else {
        last_lib_slot_upto(targets, j - 1)
    }
}

/// The position of the package's canonical library target: its last
/// `Lib`-kind target ("last library wins").
pub open spec fn last_lib_slot(targets: Seq<TargetV>) -> Option<int> {
    last_lib_slot_upto(targets, targets.len() as int)
}

/// The unit index that dependency edges naming the given package id resolve
/// to: the canonical library unit of the last package with that id that has
/// one.
pub open spec fn lib_index_upto(g: Seq<PackageNodeV>, n: int, id: Seq<char>) -> Option<int>
    decreases n,
{
    if n <= 0 {
        None
    } else {
        let p = g[n - 1];
        if p.id == id && last_lib_slot(p.targets) is Some {
            Some(base(g, n - 1) + last_lib_slot(p.targets)->0)
        } else {
            lib_index_upto(g, n - 1, id)
        }
    }
}

/// The unit index the given package id resolves to, if any.
pub open spec fn lib_index_of(g: Seq<PackageNodeV>, id: Seq<char>) -> Option<int> {
    lib_index_upto(g, g.len() as int, id)
}

/// The implicit dependencies of a non-library unit on the library units of
/// its own package, built from the first `m` targets: this is what gives a
/// binary or test visibility into its package's own library code.
pub open spec fn own_deps_upto(p: PackageNodeV, b: int, m: int) -> Seq<DepV>
    decreases m,
{
    if m <= 0 {
        Seq::empty()
    } else {
        let rest = own_deps_upto(p, b, m - 1);
        if is_lib_target(p.targets[m - 1]) {
            rest.push(DepV { crate_index: b + m - 1, name: underscored(p.targets[m - 1].name) })
        } else {
            rest
        }
    }
}

/// The implicit own-library dependencies of a non-library unit of a package
/// whose first unit sits at flat index `b`.
pub open spec fn own_deps(p: PackageNodeV, b: int) -> Seq<DepV> {
    own_deps_upto(p, b, p.targets.len() as int)
}

/// The package's declared dependency edges resolved to unit indices, from
/// its first `m` edges; an edge whose package has no library unit is
/// silently dropped.
pub open spec fn ext_deps_upto(g: Seq<PackageNodeV>, p: PackageNodeV, m: int) -> Seq<DepV>
    decreases m,
{
    if m <= 0 {
        Seq::empty()
    } else {
        let rest = ext_deps_upto(g, p, m - 1);
        let d = p.dependencies[m - 1];
        match lib_index_of(g, d.id) {
            Some(ix) => rest.push(DepV { crate_index: ix, name: d.name }),
            None => rest,
        }
    }
}

/// The package's resolved dependency references.
pub open spec fn ext_deps(g: Seq<PackageNodeV>, p: PackageNodeV) -> Seq<DepV> {
    ext_deps_upto(g, p, p.dependencies.len() as int)
}

/// Stable insertion of a dependency into an index-sorted list: the new entry
/// goes after every entry whose index is less than or equal to its own.
pub open spec fn insert_dep(s: Seq<DepV>, d: DepV) -> Seq<DepV>
    decreases s.len(),
{
    if s.len() == 0 {
        seq![d]
    } else if d.crate_index < s.last().crate_index {
        insert_dep(s.drop_last(), d).push(s.last())
    } else {
        s.push(d)
    }
}

/// Stable sort of a dependency list by unit index.
pub open spec fn sort_deps(s: Seq<DepV>) -> Seq<DepV>
    decreases s.len(),
{
    if s.len() == 0 {
        Seq::empty()
    } else {
        insert_dep(sort_deps(s.drop_last()), s.last())
    }
}

/// The dependency list of unit `(k, j)` before sorting: the implicit
/// own-library references (for non-library units), then the resolved
/// declared edges.
pub open spec fn unit_deps_unsorted(g: Seq<PackageNodeV>, k: int, j: int) -> Seq<DepV> {
    let p = g[k];
    let own = if is_lib_target(p.targets[j]) {
        Seq::<DepV>::empty()
    } else {
        own_deps(p, base(g, k))
    };
    own + ext_deps(g, p)
}

/// The final dependency list of unit `(k, j)`, stably sorted by unit index.
pub open spec fn unit_deps(g: Seq<PackageNodeV>, k: int, j: int) -> Seq<DepV> {
    sort_deps(unit_deps_unsorted(g, k, j))
}

/// The include-directory set of a package's units: the manifest's parent
/// directory, plus the build-script output directory's parent when a
/// build-script record exists and that parent does.
pub open spec fn include_dirs_of(p: PackageNodeV) -> Seq<Seq<char>> {
    let first = seq![p.manifest_path.parent];
    match p.build_script {
        Some(bs) => match parent_of(bs.out_dir) {
            Some(par) => first.push(par),
            None => first,
        },
        None => first,
    }
}

/// The environment of a package's units: `OUT_DIR` plus the captured
/// build-script variables, which are merged only when the output directory
/// has a parent.
pub open spec fn env_of(p: PackageNodeV) -> Seq<EnvVarV> {
    match p.build_script {
        Some(bs) => {
            let head = seq![EnvVarV { name: "OUT_DIR"@, value: bs.out_dir }];
            if parent_of(bs.out_dir) is Some {
                head + bs.env
            } else {
                head
            }
        },
        None => Seq::empty(),
    }
}

/// The cfg list of a package's units: one feature predicate per enabled
/// feature, in order.
pub open spec fn cfg_of(p: PackageNodeV) -> Seq<Seq<char>> {
    Seq::new(p.features.len(), |i: int| feature_cfg(p.features[i]))
}

/// Unit `(k, j)` with the given dependency list.
pub open spec fn unit_core(g: Seq<PackageNodeV>, k: int, j: int, ds: Seq<DepV>) -> CrateV {
    unit_of(g[k], g[k].targets[j], ds)
}

/// The unit one target of one package produces, with the given dependency
/// list.
pub open spec fn unit_of(p: PackageNodeV, t: TargetV, ds: Seq<DepV>) -> CrateV {
    CrateV {
        display_name: Some(underscored(p.name)),
        root_module: t.root_module.text,
        edition: t.edition,
        version: Some(p.version),
        deps: ds,
        is_workspace_member: p.is_workspace_member,
        source: Some(
            CrateSourceV {
                include_dirs: include_dirs_of(p),
                exclude_dirs: seq![".git"@, "target"@],
            },
        ),
        cfg: cfg_of(p),
        target: None,
        env: env_of(p),
        is_proc_macro: t.kind.contains(RawTargetKind::ProcMacro),
        proc_macro_dylib_path: p.proc_macro_dylib,
        repository: p.repository,
        build: Some(
            BuildInfoV {
                label: t.name,
                build_file: p.manifest_path.text,
                target_kind: spec_target_kind(t.kind),
            },
        ),
        proc_macro_cwd: Some(p.manifest_path.parent),
    }
}

/// Unit `(k, j)` of the final output.
pub open spec fn unit_at(g: Seq<PackageNodeV>, k: int, j: int) -> CrateV {
    unit_core(g, k, j, unit_deps(g, k, j))
}

/// The units of package `k`, with or without their dependency lists.
pub open spec fn pkg_units(g: Seq<PackageNodeV>, k: int, with_deps: bool) -> Seq<CrateV> {
    Seq::new(
        g[k].targets.len(),
        |j: int|
            if with_deps {
                unit_at(g, k, j)
            } else {
                unit_core(g, k, j, Seq::empty())
            },
    )
}

/// The units of the first `k` packages, in package order then target order.
pub open spec fn lower_upto(g: Seq<PackageNodeV>, k: int, with_deps: bool) -> Seq<CrateV>
    decreases k,
{
    if k <= 0 {
        Seq::empty()
    } else {
        lower_upto(g, k - 1, with_deps) + pkg_units(g, k - 1, with_deps)
    }
}

/// The complete lowered output: one unit per target of every package, the
/// unit's position in the list being its permanent index.
pub open spec fn spec_lower(g: Seq<PackageNodeV>) -> Seq<CrateV> {
    lower_upto(g, g.len() as int, true)
}

// ------------------------------------------------------------------
// Index arithmetic over the flat unit list.
// ------------------------------------------------------------------

/// Unit bases never decrease.
pub proof fn lemma_base_monotonic(g: Seq<PackageNodeV>, k1: int, k2: int)
    requires
        k1 <= k2,
    ensures
        base(g, k1) <= base(g, k2),
    decreases k2 - k1,
{
    if k1 < k2 {
        lemma_base_monotonic(g, k1, k2 - 1);
    }
}

/// The length of the partially lowered output equals the next base.
pub proof fn lemma_lower_upto_len(g: Seq<PackageNodeV>, k: int, with_deps: bool)
    requires
        0 <= k <= g.len(),
    ensures
        lower_upto(g, k, with_deps).len() == base(g, k),
        base(g, k) >= 0,
    decreases k,
{
    if k > 0 {
        lemma_lower_upto_len(g, k - 1, with_deps);
    }
}

/// Indexing into the partially lowered output lands on the expected unit.
pub proof fn lemma_lower_upto_index(
    g: Seq<PackageNodeV>,
    kk: int,
    k: int,
    j: int,
    with_deps: bool,
)
    requires
        0 <= k < kk <= g.len(),
        0 <= j < g[k].targets.len(),
    ensures
        0 <= base(g, k) + j < lower_upto(g, kk, with_deps).len(),
        lower_upto(g, kk, with_deps)[base(g, k) + j] == (if with_deps {
            unit_at(g, k, j)
        } else {
            unit_core(g, k, j, Seq::empty())
        }),
    decreases kk,
{
    lemma_lower_upto_len(g, kk, with_deps);
    lemma_lower_upto_len(g, k, with_deps);
    if kk - 1 == k {
    } else {
        lemma_lower_upto_index(g, kk - 1, k, j, with_deps);
        lemma_lower_upto_len(g, kk - 1, with_deps);
    }
}

/// Every unit's flat index is below the total, and the lowered output
/// indexes as expected.
pub proof fn lemma_lower_index(g: Seq<PackageNodeV>, k: int, j: int)
    requires
        0 <= k < g.len(),
        0 <= j < g[k].targets.len(),
    ensures
        0 <= base(g, k) + j < total_units(g),
        spec_lower(g)[base(g, k) + j] == unit_at(g, k, j),
        spec_lower(g).len() == total_units(g),
{
    lemma_lower_upto_index(g, g.len() as int, k, j, true);
    lemma_lower_upto_len(g, g.len() as int, true);
}

/// A resolved library index is a valid unit index.
pub proof fn lemma_lib_index_in_range(g: Seq<PackageNodeV>, n: int, id: Seq<char>)
    requires
        0 <= n <= g.len(),
        lib_index_upto(g, n, id) is Some,
    ensures
        0 <= lib_index_upto(g, n, id)->0 < total_units(g),
    decreases n,
{
    if n > 0 {
        let p = g[n - 1];
        if p.id == id && last_lib_slot(p.targets) is Some {
            lemma_last_lib_slot_in_range(p.targets, p.targets.len() as int);
            lemma_base_monotonic(g, n, g.len() as int);
            lemma_lower_upto_len(g, n - 1, true);
        } else {
            lemma_lib_index_in_range(g, n - 1, id);
        }
    }
}

/// A last-library slot is a valid target position.
pub proof fn lemma_last_lib_slot_in_range(targets: Seq<TargetV>, j: int)
    requires
        0 <= j <= targets.len(),
        last_lib_slot_upto(targets, j) is Some,
    ensures
        0 <= last_lib_slot_upto(targets, j)->0 < j,
        is_lib_target(targets[last_lib_slot_upto(targets, j)->0]),
    decreases j,
{
    if j > 0 && !is_lib_target(targets[j - 1]) {
        lemma_last_lib_slot_in_range(targets, j - 1);
    }
}

// ------------------------------------------------------------------
// The laws of the lowered output.
// ------------------------------------------------------------------

/// Membership in a stable insertion: exactly the old elements plus the new
/// one.
proof fn lemma_insert_dep_contains(s: Seq<DepV>, d: DepV, x: DepV)
    ensures
        insert_dep(s, d).contains(x) <==> (s.contains(x) || x == d),
    decreases s.len(),
{
    broadcast use vstd::seq_lib::group_seq_properties;

    if s.len() == 0 {
        assert(insert_dep(s, d) == seq![d]);
        assert(seq![d][0] == d);
    } else if d.crate_index < s.last().crate_index {
        lemma_insert_dep_contains(s.drop_last(), d, x);
        assert(s =~= s.drop_last().push(s.last()));
    } else {
    }
}

/// Membership survives the stable sort unchanged.
proof fn lemma_sort_deps_contains(s: Seq<DepV>, x: DepV)
    ensures
        sort_deps(s).contains(x) <==> s.contains(x),
    decreases s.len(),
{
    broadcast use vstd::seq_lib::group_seq_properties;

    if s.len() > 0 {
        lemma_sort_deps_contains(s.drop_last(), x);
        lemma_insert_dep_contains(sort_deps(s.drop_last()), s.last(), x);
        assert(s =~= s.drop_last().push(s.last()));
    }
}

/// A dependency list ordered by unit index.
pub open spec fn deps_sorted(s: Seq<DepV>) -> bool {
    forall|a: int, b: int| 0 <= a < b < s.len() ==> s[a].crate_index <= s[b].crate_index
}

/// Stable insertion keeps a list ordered.
proof fn lemma_insert_dep_keeps_order(s: Seq<DepV>, d: DepV)
    requires
        deps_sorted(s),
    ensures
        deps_sorted(insert_dep(s, d)),
    decreases s.len(),
{
    if s.len() == 0 {
    } else if d.crate_index < s.last().crate_index {
        assert(deps_sorted(s.drop_last()));
        lemma_insert_dep_keeps_order(s.drop_last(), d);
        let inner = insert_dep(s.drop_last(), d);
        assert forall|x: DepV| inner.contains(x) implies x.crate_index
            <= s.last().crate_index by {
            lemma_insert_dep_contains(s.drop_last(), d, x);
            if s.drop_last().contains(x) {
                let w = choose|w: int| 0 <= w < s.drop_last().len() && s.drop_last()[w] == x;
                assert(s[w] == x);
            }
        }
        let r = inner.push(s.last());
        assert forall|a: int, b: int| 0 <= a < b < r.len() implies r[a].crate_index
            <= r[b].crate_index by {
            if b == r.len() - 1 {
                assert(inner.contains(inner[a]));
            }
        }
    } else {
        let r = s.push(d);
        assert forall|a: int, b: int| 0 <= a < b < r.len() implies r[a].crate_index
            <= r[b].crate_index by {
            if b == r.len() - 1 && a < s.len() {
                if a < s.len() - 1 {
                    assert(s[a].crate_index <= s[s.len() - 1].crate_index);
                }
            }
        }
    }
}

/// The stable sort orders a list by unit index.
proof fn lemma_sort_deps_sorted(s: Seq<DepV>)
    ensures
        deps_sorted(sort_deps(s)),
    decreases s.len(),
{
    if s.len() > 0 {
        lemma_sort_deps_sorted(s.drop_last());
        lemma_insert_dep_keeps_order(sort_deps(s.drop_last()), s.last());
    }
}

/// Every element of the implicit own-library list points into the package's
/// own unit range.
proof fn lemma_own_deps_range(p: PackageNodeV, b: int, m: int, x: DepV)
    requires
        0 <= m <= p.targets.len(),
        own_deps_upto(p, b, m).contains(x),
    ensures
        b <= x.crate_index < b + m,
    decreases m,
{
    broadcast use vstd::seq_lib::group_seq_properties;

    if m > 0 {
        let rest = own_deps_upto(p, b, m - 1);
        if is_lib_target(p.targets[m - 1]) {
            if !rest.contains(x) {
                assert(x == own_deps_upto(p, b, m).last());
            } else {
                lemma_own_deps_range(p, b, m - 1, x);
            }
        } else {
            lemma_own_deps_range(p, b, m - 1, x);
        }
    }
}

/// Every resolved declared edge points at a valid unit index.
proof fn lemma_ext_deps_range(g: Seq<PackageNodeV>, p: PackageNodeV, m: int, x: DepV)
    requires
        0 <= m <= p.dependencies.len(),
        ext_deps_upto(g, p, m).contains(x),
    ensures
        0 <= x.crate_index < total_units(g),
    decreases m,
{
    broadcast use vstd::seq_lib::group_seq_properties;

    if m > 0 {
        let rest = ext_deps_upto(g, p, m - 1);
        let d = p.dependencies[m - 1];
        match lib_index_of(g, d.id) {
            Some(ix) => {
                if !rest.contains(x) {
                    assert(x == ext_deps_upto(g, p, m).last());
                    lemma_lib_index_in_range(g, g.len() as int, d.id);
                } else {
                    lemma_ext_deps_range(g, p, m - 1, x);
                }
            },
            None => {
                lemma_ext_deps_range(g, p, m - 1, x);
            },
        }
    }
}

/// The flat position of target `j` of package `k`.
pub open spec fn flat_pos(g: Seq<PackageNodeV>, k: int, j: int) -> int {
    base(g, k) + j
}

/// Every flat index below the total belongs to some package and target.
proof fn lemma_unit_decompose(g: Seq<PackageNodeV>, kk: int, i: int)
    requires
        0 <= kk <= g.len(),
        0 <= i < base(g, kk),
    ensures
        exists|k: int, j: int|
            0 <= k < kk && 0 <= j < g[k].targets.len() && i == #[trigger] flat_pos(g, k, j),
    decreases kk,
{
    if kk > 0 {
        if i >= base(g, kk - 1) {
            let k = kk - 1;
            let j = i - base(g, k);
            assert(0 <= k < kk && 0 <= j < g[k].targets.len() && i == flat_pos(g, k, j));
        } else {
            lemma_unit_decompose(g, kk - 1, i);
            let (k, j) = choose|k: int, j: int|
                0 <= k < kk - 1 && 0 <= j < g[k].targets.len() && i == #[trigger] flat_pos(g, k, j);
            assert(0 <= k < kk && 0 <= j < g[k].targets.len() && i == flat_pos(g, k, j));
        }
    }
}

/// Index validity: every dependency reference of every unit in the lowered
/// output is a valid index into that same output.
pub proof fn lemma_lower_index_validity(g: Seq<PackageNodeV>)
    ensures
        forall|i: int, di: int|
            0 <= i < spec_lower(g).len() && 0 <= di < spec_lower(g)[i].deps.len() ==> 0
                <= #[trigger] spec_lower(g)[i].deps[di].crate_index < spec_lower(g).len(),
{
    lemma_lower_upto_len(g, g.len() as int, true);
    assert forall|i: int, di: int|
        0 <= i < spec_lower(g).len() && 0 <= di < spec_lower(g)[i].deps.len() implies 0
        <= #[trigger] spec_lower(g)[i].deps[di].crate_index < spec_lower(g).len() by {
        lemma_unit_decompose(g, g.len() as int, i);
        let (k, j) = choose|k: int, j: int|
            0 <= k < g.len() && 0 <= j < g[k].targets.len() && i == #[trigger] flat_pos(g, k, j);
        lemma_lower_index(g, k, j);
        let p = g[k];
        let un = unit_deps_unsorted(g, k, j);
        let x = spec_lower(g)[i].deps[di];
        assert(spec_lower(g)[i].deps.contains(x));
        lemma_sort_deps_contains(un, x);
        let own = if is_lib_target(p.targets[j]) {
            Seq::<DepV>::empty()
        } else {
            own_deps(p, base(g, k))
        };
        if own.contains(x) {
            lemma_own_deps_range(p, base(g, k), p.targets.len() as int, x);
            assert(base(g, k + 1) == base(g, k) + p.targets.len());
            lemma_base_monotonic(g, k + 1, g.len() as int);
            lemma_base_monotonic(g, 0, k);
        } else {
            let w = choose|w: int| 0 <= w < un.len() && un[w] == x;
            if w < own.len() {
                assert(own[w] == x);
                assert(own.contains(x));
                assert(false);
            } else {
                assert(ext_deps(g, p)[w - own.len()] == x);
                assert(ext_deps(g, p).contains(x));
                lemma_ext_deps_range(g, p, p.dependencies.len() as int, x);
            }
        }
    }
}

/// Determinism of dependency ordering: every unit's dependency list in the
/// lowered output is sorted by unit index. Together with the lowering
/// contract — the output is a function of the graph alone — this makes the
/// output identical across runs, whatever order internal structures were
/// filled in.
pub proof fn lemma_lower_deps_ordered(g: Seq<PackageNodeV>)
    ensures
        forall|i: int|
            0 <= i < spec_lower(g).len() ==> deps_sorted(#[trigger] spec_lower(g)[i].deps),
{
    lemma_lower_upto_len(g, g.len() as int, true);
    assert forall|i: int| 0 <= i < spec_lower(g).len() implies deps_sorted(
        #[trigger] spec_lower(g)[i].deps,
    ) by {
        lemma_unit_decompose(g, g.len() as int, i);
        let (k, j) = choose|k: int, j: int|
            0 <= k < g.len() && 0 <= j < g[k].targets.len() && i == #[trigger] flat_pos(g, k, j);
        lemma_lower_index(g, k, j);
        lemma_sort_deps_sorted(unit_deps_unsorted(g, k, j));
    }
}

/// The implicit own-library list of a non-library unit names every library
/// target of the package.
proof fn lemma_own_deps_has_lib(p: PackageNodeV, b: int, m: int, jl: int)
    requires
        0 <= jl < m <= p.targets.len(),
        is_lib_target(p.targets[jl]),
    ensures
        own_deps_upto(p, b, m).contains(
            DepV { crate_index: b + jl, name: underscored(p.targets[jl].name) },
        ),
    decreases m,
{
    broadcast use vstd::seq_lib::group_seq_properties;

    if jl == m - 1 {
        assert(own_deps_upto(p, b, m).last() == (DepV {
            crate_index: b + jl,
            name: underscored(p.targets[jl].name),
        }));
    } else {
        lemma_own_deps_has_lib(p, b, m - 1, jl);
    }
}

/// Own-library visibility: a non-library unit of a package always carries a
/// dependency reference to each library unit of the same package, even
/// though the metadata records no such edge.
pub proof fn lemma_own_library_visible(g: Seq<PackageNodeV>, k: int, jl: int, jb: int)
    requires
        0 <= k < g.len(),
        0 <= jl < g[k].targets.len(),
        0 <= jb < g[k].targets.len(),
        is_lib_target(g[k].targets[jl]),
        !is_lib_target(g[k].targets[jb]),
    ensures
        spec_lower(g)[base(g, k) + jb].deps.contains(
            DepV { crate_index: base(g, k) + jl, name: underscored(g[k].targets[jl].name) },
        ),
{
    broadcast use vstd::seq_lib::group_seq_properties;

    lemma_lower_index(g, k, jb);
    let p = g[k];
    let d = DepV { crate_index: base(g, k) + jl, name: underscored(p.targets[jl].name) };
    lemma_own_deps_has_lib(p, base(g, k), p.targets.len() as int, jl);
    let own = own_deps(p, base(g, k));
    let un = unit_deps_unsorted(g, k, jb);
    let w = choose|w: int| 0 <= w < own.len() && own[w] == d;
    assert(un[w] == d);
    assert(un.contains(d));
    lemma_sort_deps_contains(un, d);
}

/// One unit per target: a package contributes exactly as many units as it
/// has targets.
pub proof fn lemma_units_per_package(g: Seq<PackageNodeV>, k: int)
    requires
        0 <= k < g.len(),
    ensures
        pkg_units(g, k, true).len() == g[k].targets.len(),
{
}

// ------------------------------------------------------------------
// Executable helpers.
// ------------------------------------------------------------------

/// Finds the package's canonical library target: the last target whose
/// simplified kind is `Lib`.
fn find_last_lib_slot(targets: &Vec<Target>) -> (r: Option<usize>)
    ensures
        match r {
            Some(s) => Some(s as int) == last_lib_slot(targets.deep_view()),
            None => last_lib_slot(targets.deep_view()) is None,
        },
{
    let ghost tv = targets.deep_view();
    let mut j: usize = targets.len();
    proof {
        lemma_vec_deep_view(targets);
    }
    while j > 0
        invariant
            0 <= j <= targets@.len(),
            tv == targets.deep_view(),
            last_lib_slot(tv) == last_lib_slot_upto(tv, j as int),
        decreases j,
    {
        let t = &targets[j - 1];
        proof {
            lemma_vec_deep_view(&t.kind);
            assert(t.kind.deep_view() =~= t.kind@);
            assert(tv[j - 1] == t.deep_view());
        }
        let kind = TargetKind::new(t.kind.as_slice());
        if kind == TargetKind::Lib {
            proof {
                assert(is_lib_target(tv[j - 1]));
            }
            return Some(j - 1);
        }
        proof {
            assert(!is_lib_target(tv[j - 1]));
        }
        j = j - 1;
    }
    None
}

/// Resolves a package id to the unit index of its canonical library unit:
/// packages are searched from the end, matching the "last insertion wins"
/// behaviour of index-map construction.
#[verifier::loop_isolation(false)]
fn find_lib_index(inner: &Vec<PackageNode>, bases: &Vec<usize>, id: &String) -> (r: Option<usize>)
    requires
        bases@.len() == inner@.len(),
        forall|i: int| 0 <= i < bases@.len() ==> bases@[i] as int == base(inner.deep_view(), i),
        total_units(inner.deep_view()) <= usize::MAX,
    ensures
        match r {
            Some(ix) => Some(ix as int) == lib_index_of(inner.deep_view(), id@),
            None => lib_index_of(inner.deep_view(), id@) is None,
        },
{
    let ghost g = inner.deep_view();
    let mut n: usize = inner.len();
    proof {
        lemma_vec_deep_view(inner);
    }
    while n > 0
        invariant
            0 <= n <= inner@.len(),
            lib_index_of(g, id@) == lib_index_upto(g, n as int, id@),
        decreases n,
    {
        let p = &inner[n - 1];
        proof {
            assert(g[n - 1] == p.deep_view());
        }
        if p.id == *id {
            match find_last_lib_slot(&p.targets) {
                Some(s) => {
                    proof {
                        assert(last_lib_slot(g[n - 1].targets) == Some(s as int));
                        assert(lib_index_upto(g, n as int, id@) == Some(
                            base(g, n - 1 as int) + s,
                        ));
                        lemma_lib_index_in_range(g, n as int, id@);
                        assert(bases@[n - 1] as int + s <= usize::MAX);
                    }
                    return Some(bases[n - 1] + s);
                },
                None => {
                    proof {
                        assert(last_lib_slot(g[n - 1].targets) is None);
                    }
                    n = n - 1;
                },
            }
        } else {
            proof {
                assert(g[n - 1].id != id@);
            }
            n = n - 1;
        }
    }
    None
}

/// Where the insertion point sits, the stable insertion is a splice.
proof fn lemma_insert_dep_at(s: Seq<DepV>, d: DepV, p: int)
    requires
        0 <= p <= s.len(),
        forall|m: int| p <= m < s.len() ==> s[m].crate_index > d.crate_index,
        p > 0 ==> s[p - 1].crate_index <= d.crate_index,
    ensures
        insert_dep(s, d) == s.take(p) + seq![d] + s.skip(p),
    decreases s.len(),
{
    if s.len() == 0 {
        assert(insert_dep(s, d) =~= s.take(p) + seq![d] + s.skip(p));
    } else if p == s.len() {
        assert(!(d.crate_index < s.last().crate_index));
        assert(insert_dep(s, d) == s.push(d));
        assert(s.push(d) =~= s.take(p) + seq![d] + s.skip(p));
    } else {
        assert(s.last().crate_index > d.crate_index);
        lemma_insert_dep_at(s.drop_last(), d, p);
        assert((s.drop_last().take(p) + seq![d] + s.drop_last().skip(p)).push(s.last()) =~= s.take(
            p,
        ) + seq![d] + s.skip(p));
    }
}

/// Inserts one dependency into an index-sorted list, keeping the relative
/// order of equal indices.
#[verifier::loop_isolation(false)]
fn insert_dep_sorted(v: &mut Vec<Dep>, d: Dep)
    ensures
        final(v).deep_view() == insert_dep(old(v).deep_view(), d.deep_view()),
{
    let ghost s = v.deep_view();
    let ghost dv = d.deep_view();
    let mut p: usize = v.len();
    proof {
        lemma_vec_deep_view(v);
    }
    while p > 0 && v[p - 1].crate_index > d.crate_index
        invariant
            0 <= p <= v@.len(),
            forall|m: int| p <= m < v@.len() ==> s[m].crate_index > dv.crate_index,
        decreases p,
    {
        proof {
            assert(s[p - 1] == v@[p - 1].deep_view());
        }
        p = p - 1;
    }
    proof {
        if p > 0 {
            assert(s[p - 1] == v@[p - 1].deep_view());
            assert(s[p - 1].crate_index <= dv.crate_index);
        }
        lemma_insert_dep_at(s, dv, p as int);
    }
    v.insert(p, d);
    proof {
        lemma_vec_deep_view(v);
        assert(v.deep_view() =~= s.take(p as int) + seq![dv] + s.skip(p as int)) by {
            assert forall|m: int| 0 <= m < v@.len() implies v.deep_view()[m] == (s.take(p as int)
                + seq![dv] + s.skip(p as int))[m] by {
                if m < p as int {
                    assert(v@[m] == old(v)@[m]);
                    assert(old(v)@[m].deep_view() == s[m]);
                } else if m == p as int {
                    assert(v@[m] == d);
                } else {
                    assert(v@[m] == old(v)@[m - 1]);
                    assert(old(v)@[m - 1].deep_view() == s[m - 1]);
                }
            }
        }
    }
}

/// Stably sorts a dependency list by unit index.
#[verifier::loop_isolation(false)]
fn sort_deps_exec(input: Vec<Dep>) -> (r: Vec<Dep>)
    ensures
        r.deep_view() == sort_deps(input.deep_view()),
{
    let ghost iv = input.deep_view();
    let mut out: Vec<Dep> = Vec::new();
    let mut i: usize = 0;
    proof {
        lemma_vec_deep_view(&input);
    }
    while i < input.len()
        invariant
            0 <= i <= input@.len(),
            out.deep_view() == sort_deps(iv.take(i as int)),
        decreases input@.len() - i,
    {
        insert_dep_sorted(&mut out, input[i].clone());
        proof {
            lemma_take_one_more(iv, i as int);
            assert(iv.take(i as int + 1).drop_last() =~= iv.take(i as int));
        }
        i = i + 1;
    }
    proof {
        assert(iv.take(i as int) =~= iv);
    }
    out
}

/// Computes the final, sorted dependency list of unit `(k, j)`.
#[verifier::loop_isolation(false)]
fn unit_deps_exec(
    inner: &Vec<PackageNode>,
    bases: &Vec<usize>,
    total: usize,
    k: usize,
    j: usize,
) -> (r: Vec<Dep>)
    requires
        (k as int) < inner.deep_view().len(),
        (j as int) < inner.deep_view()[k as int].targets.len(),
        bases@.len() == inner@.len(),
        forall|i: int| 0 <= i < bases@.len() ==> bases@[i] as int == base(inner.deep_view(), i),
        total as int == total_units(inner.deep_view()),
    ensures
        r.deep_view() == unit_deps(inner.deep_view(), k as int, j as int),
{
    let ghost g = inner.deep_view();
    let ghost pv = g[k as int];
    proof {
        lemma_vec_deep_view(inner);
    }
    let p = &inner[k];
    proof {
        assert(p.deep_view() == pv);
        lemma_vec_deep_view(&p.targets);
    }
    let mut un: Vec<Dep> = Vec::new();
    let t = &p.targets[j];
    proof {
        assert(t.deep_view() == pv.targets[j as int]);
        lemma_vec_deep_view(&t.kind);
        assert(t.kind.deep_view() =~= t.kind@);
    }
    let tk = TargetKind::new(t.kind.as_slice());
    if !(tk == TargetKind::Lib) {
        proof {
            assert(!is_lib_target(pv.targets[j as int]));
        }
        let b = bases[k];
        let mut m: usize = 0;
        while m < p.targets.len()
            invariant
                0 <= m <= p.targets@.len(),
                un.deep_view() == own_deps_upto(pv, b as int, m as int),
            decreases p.targets@.len() - m,
        {
            let tm = &p.targets[m];
            proof {
                assert(tm.deep_view() == pv.targets[m as int]);
                lemma_vec_deep_view(&tm.kind);
                assert(tm.kind.deep_view() =~= tm.kind@);
            }
            let mtk = TargetKind::new(tm.kind.as_slice());
            if mtk == TargetKind::Lib {
                proof {
                    assert(is_lib_target(pv.targets[m as int]));
                    assert(base(g, k as int + 1) == base(g, k as int) + pv.targets.len());
                    lemma_base_monotonic(g, k as int + 1, g.len() as int);
                    assert(b as int + m < total as int);
                }
                push_elem(
                    &mut un,
                    Dep { crate_index: b + m, name: underscore_name(tm.name.as_str()) },
                );
            } else {
                proof {
                    assert(!is_lib_target(pv.targets[m as int]));
                }
            }
            m = m + 1;
        }
        proof {
            assert(un.deep_view() == own_deps(pv, base(g, k as int)));
        }
    } else {
        proof {
            assert(is_lib_target(pv.targets[j as int]));
        }
    }
    let ghost ownv = un.deep_view();
    proof {
        assert(ownv == (if is_lib_target(pv.targets[j as int]) {
            Seq::<DepV>::empty()
        } else {
            own_deps(pv, base(g, k as int))
        }));
        lemma_vec_deep_view(&p.dependencies);
    }
    let mut m: usize = 0;
    while m < p.dependencies.len()
        invariant
            0 <= m <= p.dependencies@.len(),
            un.deep_view() == ownv + ext_deps_upto(g, pv, m as int),
        decreases p.dependencies@.len() - m,
    {
        let dref = &p.dependencies[m];
        proof {
            assert(dref.deep_view() == pv.dependencies[m as int]);
        }
        match find_lib_index(inner, bases, &dref.id) {
            Some(ix) => {
                push_elem(&mut un, Dep { crate_index: ix, name: dref.name.clone() });
                proof {
                    assert(un.deep_view() =~= ownv + ext_deps_upto(g, pv, m as int + 1));
                }
            },
            None => {
                proof {
                    assert(ext_deps_upto(g, pv, m as int + 1) == ext_deps_upto(g, pv, m as int));
                }
            },
        }
        m = m + 1;
    }
    proof {
        assert(un.deep_view() == unit_deps_unsorted(g, k as int, j as int));
    }
    sort_deps_exec(un)
}

/// Builds the unit one target produces, its dependency list still empty.
#[verifier::loop_isolation(false)]
fn build_unit(p: &PackageNode, t: &Target) -> (r: Crate)
    ensures
        r.deep_view() == unit_of(p.deep_view(), t.deep_view(), Seq::empty()),
{
    let ghost pv = p.deep_view();
    let ghost tv = t.deep_view();

    let mut include_dirs: Vec<String> = Vec::new();
    push_elem(&mut include_dirs, String::from_str(p.manifest_path.parent_str()));
    let mut env: Vec<EnvVar> = Vec::new();
    match &p.build_script {
        Some(bs) => {
            let ghost bsv = bs.deep_view();
            proof {
                assert(pv.build_script == Some(bsv));
            }
            push_elem(&mut env, EnvVar::new(String::from_str("OUT_DIR"), bs.out_dir.clone()));
            let ghost head = seq![EnvVarV { name: "OUT_DIR"@, value: bsv.out_dir }];
            proof {
                assert(env.deep_view() =~= head);
            }
            match path_parent(&bs.out_dir) {
                Some(par) => {
                    proof {
                        assert(parent_of(bsv.out_dir) is Some);
                    }
                    push_elem(&mut include_dirs, par);
                    proof {
                        assert(include_dirs.deep_view() =~= include_dirs_of(pv));
                    }
                    let ghost ev = bs.env.deep_view();
                    proof {
                        lemma_vec_deep_view(&bs.env);
                    }
                    let mut q: usize = 0;
                    while q < bs.env.len()
                        invariant
                            0 <= q <= bs.env@.len(),
                            env.deep_view() == head + ev.take(q as int),
                        decreases bs.env@.len() - q,
                    {
                        push_elem(&mut env, bs.env[q].clone());
                        proof {
                            lemma_take_one_more(ev, q as int);
                            assert(env.deep_view() =~= head + ev.take(q as int + 1));
                        }
                        q = q + 1;
                    }
                    proof {
                        assert(ev.take(q as int) =~= ev);
                        assert(env.deep_view() == env_of(pv));
                    }
                },
                None => {
                    proof {
                        assert(parent_of(bsv.out_dir) is None);
                        assert(include_dirs.deep_view() =~= include_dirs_of(pv));
                        assert(env.deep_view() == env_of(pv));
                    }
                },
            }
        },
        None => {
            proof {
                assert(pv.build_script is None);
                assert(include_dirs.deep_view() =~= include_dirs_of(pv));
                assert(env.deep_view() =~= env_of(pv));
            }
        },
    }

    let mut cfg: Vec<String> = Vec::new();
    proof {
        lemma_vec_deep_view(&p.features);
    }
    let mut q: usize = 0;
    while q < p.features.len()
        invariant
            0 <= q <= p.features@.len(),
            cfg.deep_view() == cfg_of(pv).take(q as int),
        decreases p.features@.len() - q,
    {
        push_elem(&mut cfg, feature_cfg_string(&p.features[q]));
        proof {
            assert(cfg_of(pv)[q as int] == feature_cfg(pv.features[q as int]));
            lemma_take_one_more(cfg_of(pv), q as int);
        }
        q = q + 1;
    }
    proof {
        assert(cfg_of(pv).take(q as int) =~= cfg_of(pv));
    }

    let mut exclude_dirs: Vec<String> = Vec::new();
    push_elem(&mut exclude_dirs, String::from_str(".git"));
    push_elem(&mut exclude_dirs, String::from_str("target"));
    proof {
        assert(exclude_dirs.deep_view() =~= seq![".git"@, "target"@]);
        lemma_vec_deep_view(&t.kind);
        assert(t.kind.deep_view() =~= t.kind@);
    }

    let is_proc_macro = crate::graph::has_raw_kind(&t.kind, RawTargetKind::ProcMacro);
    let target_kind = TargetKind::new(t.kind.as_slice());
    let deps_empty: Vec<Dep> = Vec::new();
    proof {
        assert(deps_empty.deep_view() =~= Seq::<DepV>::empty());
    }

    let r = Crate {
        display_name: Some(underscore_name(p.name.as_str())),
        root_module: String::from_str(t.root_module.as_str()),
        edition: t.edition.clone(),
        version: Some(p.version.clone()),
        deps: deps_empty,
        is_workspace_member: p.is_workspace_member,
        source: Some(CrateSource { include_dirs, exclude_dirs }),
        cfg,
        target: None,
        env,
        is_proc_macro,
        proc_macro_dylib_path: clone_opt_string(&p.proc_macro_dylib),
        repository: clone_opt_string(&p.repository),
        build: Some(
            BuildInfo {
                label: t.name.clone(),
                build_file: String::from_str(p.manifest_path.as_str()),
                target_kind,
            },
        ),
        proc_macro_cwd: Some(String::from_str(p.manifest_path.parent_str())),
    };
    proof {
        assert(r.deep_view() == unit_of(pv, tv, Seq::empty()));
    }
    r
}

impl CrateGraph {
    /// Lowers the graph into the flat unit list.
    ///
    /// Packages are expanded in graph order, each target becoming one unit
    /// whose position is its permanent index. Non-library units implicitly
    /// depend on all library units of their own package; declared edges
    /// resolve to each target package's canonical library unit, edges with
    /// no such unit being silently dropped; every dependency list is stably
    /// sorted by unit index, so the output is deterministic whatever order
    /// the graph was assembled in.
    #[verifier::loop_isolation(false)]
    pub fn into_crates(self) -> (r: Vec<Crate>)
        ensures
            r.deep_view() == spec_lower(self.deep_view()),
    {
        let ghost g = self.deep_view();
        let mut crates: Vec<Crate> = Vec::new();
        let mut bases: Vec<usize> = Vec::new();
        let mut k: usize = 0;
        while k < self.inner.len()
            invariant
                0 <= k <= self.inner@.len(),
                bases@.len() == k,
                forall|i: int| 0 <= i < k ==> bases@[i] as int == base(g, i),
                crates@.len() == base(g, k as int),
                crates.deep_view() == lower_upto(g, k as int, false),
            decreases self.inner@.len() - k,
        {
            proof {
                lemma_vec_deep_view(&self.inner);
                lemma_lower_upto_len(g, k as int, false);
            }
            bases.push(crates.len());
            let p = &self.inner[k];
            let ghost pv = g[k as int];
            proof {
                assert(p.deep_view() == pv);
                lemma_vec_deep_view(&p.targets);
            }
            let mut j: usize = 0;
            while j < p.targets.len()
                invariant
                    0 <= j <= p.targets@.len(),
                    crates@.len() == base(g, k as int) + j,
                    crates.deep_view() == lower_upto(g, k as int, false) + pkg_units(
                        g,
                        k as int,
                        false,
                    ).take(j as int),
                decreases p.targets@.len() - j,
            {
                let c = build_unit(p, &p.targets[j]);
                proof {
                    assert(p.targets@[j as int].deep_view() == pv.targets[j as int]);
                    assert(c.deep_view() == unit_core(g, k as int, j as int, Seq::empty()));
                }
                push_elem(&mut crates, c);
                proof {
                    assert(pkg_units(g, k as int, false)[j as int] == unit_core(
                        g,
                        k as int,
                        j as int,
                        Seq::empty(),
                    ));
                    lemma_take_one_more(pkg_units(g, k as int, false), j as int);
                    assert(crates.deep_view() =~= lower_upto(g, k as int, false) + pkg_units(
                        g,
                        k as int,
                        false,
                    ).take(j as int + 1));
                }
                j = j + 1;
            }
            proof {
                assert(pkg_units(g, k as int, false).take(j as int) =~= pkg_units(
                    g,
                    k as int,
                    false,
                ));
            }
            k = k + 1;
        }
        proof {
            lemma_lower_upto_len(g, g.len() as int, false);
            assert(crates@.len() == total_units(g));
        }
        let total = crates.len();

        let mut i: usize = 0;
        let mut k2: usize = 0;
        while k2 < self.inner.len()
            invariant
                0 <= k2 <= self.inner@.len(),
                i as int == base(g, k2 as int),
                i <= total,
                crates@.len() == total,
                forall|m: int| 0 <= m < i ==> crates.deep_view()[m] == spec_lower(g)[m],
                forall|m: int|
                    i <= m < total ==> crates.deep_view()[m] == lower_upto(
                        g,
                        g.len() as int,
                        false,
                    )[m],
            decreases self.inner@.len() - k2,
        {
            proof {
                lemma_vec_deep_view(&self.inner);
                lemma_base_monotonic(g, k2 as int + 1, g.len() as int);
            }
            let tlen = self.inner[k2].targets.len();
            proof {
                assert(self.inner@[k2 as int].deep_view() == g[k2 as int]);
                assert(tlen == g[k2 as int].targets.len());
            }
            let mut j: usize = 0;
            while j < tlen
                invariant
                    0 <= j <= tlen,
                    i as int == base(g, k2 as int) + j,
                    i <= total,
                    crates@.len() == total,
                    forall|m: int| 0 <= m < i ==> crates.deep_view()[m] == spec_lower(g)[m],
                    forall|m: int|
                        i <= m < total ==> crates.deep_view()[m] == lower_upto(
                            g,
                            g.len() as int,
                            false,
                        )[m],
                decreases tlen - j,
            {
                let ds = unit_deps_exec(&self.inner, &bases, total, k2, j);
                proof {
                    lemma_lower_upto_index(g, g.len() as int, k2 as int, j as int, false);
                    lemma_lower_index(g, k2 as int, j as int);
                    assert(i < total);
                }
                proof {
                    lemma_vec_deep_view(&crates);
                }
                let ghost before = crates.deep_view();
                let ghost beforea = crates@;
                let ghost belem = crates@[i as int];
                let ii = i;
                crates[ii].deps = ds;
                proof {
                    lemma_vec_deep_view(&crates);
                    assert(crates@ == beforea.update(i as int, crates@[i as int]));
                    assert(crates@[i as int].deps == ds);
                    assert(belem.deep_view() == before[i as int]);
                    assert(belem.deep_view() == unit_core(g, k2 as int, j as int, Seq::empty()));
                    assert(crates@[i as int].deep_view() == unit_at(g, k2 as int, j as int));
                    assert forall|m: int| 0 <= m < total && m != i implies crates.deep_view()[m]
                        == before[m] by {
                        assert(crates@[m] == beforea[m]);
                        assert(beforea[m].deep_view() == before[m]);
                    }
                }
                i = i + 1;
                j = j + 1;
            }
            k2 = k2 + 1;
        }
        proof {
            assert(i as int == total_units(g));
            lemma_lower_upto_len(g, g.len() as int, true);
            assert(crates.deep_view() =~= spec_lower(g));
        }
        crates
    }
}

} // verus!
