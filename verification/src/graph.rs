//! The package graph: ingestion of the build tool's resolved metadata, and
//! reachability pruning.

use vstd::prelude::*;

use crate::error::{SubspaceError, SubspaceErrorV};
use crate::paths::{
    path_accepted, path_error, path_value, FilePathBuf, FilePathBufV, PathInput, PathInputV,
};
use crate::rust_project::RawTargetKind;
use crate::util::{
    clone_opt_string, lemma_take_one_more, lemma_vec_deep_view, pop_elem, push_elem, remove_first,
    EnvVar, EnvVarV,
};

verus! {

// ------------------------------------------------------------------
// The raw input model: the build tool's resolved workspace description,
// as plain values.
// ------------------------------------------------------------------

/// The spec-level shape of a [`MetaDep`].
pub ghost struct MetaDepV {
    pub name: Seq<char>,
    pub pkg: Seq<char>,
}

/// One resolved dependency edge of a resolve-graph node: the target package
/// id plus the import name (which may differ from the package's own name due
/// to renaming).
pub struct MetaDep {
    pub name: String,
    pub pkg: String,
}

impl DeepView for MetaDep {
    type V = MetaDepV;

    open spec fn deep_view(&self) -> MetaDepV {
        MetaDepV { name: self.name@, pkg: self.pkg@ }
    }
}

/// The spec-level shape of a [`ResolveNode`].
pub ghost struct ResolveNodeV {
    pub id: Seq<char>,
    pub features: Seq<Seq<char>>,
    pub deps: Seq<MetaDepV>,
}

/// One node of the build tool's resolution graph: a package id with its
/// enabled features and its resolved dependency edges.
pub struct ResolveNode {
    pub id: String,
    pub features: Vec<String>,
    pub deps: Vec<MetaDep>,
}

impl DeepView for ResolveNode {
    type V = ResolveNodeV;

    open spec fn deep_view(&self) -> ResolveNodeV {
        ResolveNodeV {
            id: self.id@,
            features: self.features.deep_view(),
            deps: self.deps.deep_view(),
        }
    }
}

/// The spec-level shape of a [`MetaTarget`].
pub ghost struct MetaTargetV {
    pub name: Seq<char>,
    pub kind: Seq<RawTargetKind>,
    pub src_path: PathInputV,
    pub edition: Seq<char>,
}

/// One buildable target of a package, as the build tool reports it.
pub struct MetaTarget {
    pub name: String,
    pub kind: Vec<RawTargetKind>,
    pub src_path: PathInput,
    pub edition: String,
}

impl DeepView for MetaTarget {
    type V = MetaTargetV;

    open spec fn deep_view(&self) -> MetaTargetV {
        MetaTargetV {
            name: self.name@,
            kind: self.kind.deep_view(),
            src_path: self.src_path.deep_view(),
            edition: self.edition@,
        }
    }
}

/// The spec-level shape of a [`MetaPackage`].
pub ghost struct MetaPackageV {
    pub id: Seq<char>,
    pub name: Seq<char>,
    pub version: Seq<char>,
    pub manifest_path: PathInputV,
    pub repository: Option<Seq<char>>,
    pub targets: Seq<MetaTargetV>,
}

/// One resolved package, as the build tool reports it.
pub struct MetaPackage {
    pub id: String,
    pub name: String,
    pub version: String,
    pub manifest_path: PathInput,
    pub repository: Option<String>,
    pub targets: Vec<MetaTarget>,
}

impl DeepView for MetaPackage {
    type V = MetaPackageV;

    open spec fn deep_view(&self) -> MetaPackageV {
        MetaPackageV {
            id: self.id@,
            name: self.name@,
            version: self.version@,
            manifest_path: self.manifest_path.deep_view(),
            repository: self.repository.deep_view(),
            targets: self.targets.deep_view(),
        }
    }
}

/// The spec-level shape of a [`MetaInput`].
pub ghost struct MetaInputV {
    pub packages: Seq<MetaPackageV>,
    pub workspace_members: Seq<Seq<char>>,
    pub resolve: Option<Seq<ResolveNodeV>>,
}

/// The build tool's complete resolved workspace description: the package
/// list, the workspace membership list, and the resolution graph.
pub struct MetaInput {
    pub packages: Vec<MetaPackage>,
    pub workspace_members: Vec<String>,
    pub resolve: Option<Vec<ResolveNode>>,
}

impl DeepView for MetaInput {
    type V = MetaInputV;

    open spec fn deep_view(&self) -> MetaInputV {
        MetaInputV {
            packages: self.packages.deep_view(),
            workspace_members: self.workspace_members.deep_view(),
            resolve: match self.resolve {
                Some(ns) => Some(ns.deep_view()),
                None => None,
            },
        }
    }
}

// ------------------------------------------------------------------
// The graph model.
// ------------------------------------------------------------------

/// The spec-level shape of a [`Dependency`].
pub ghost struct DependencyV {
    pub id: Seq<char>,
    pub name: Seq<char>,
}

/// One dependency edge of a package node: the target package id plus the
/// import name.
#[derive(Debug)]
pub struct Dependency {
    pub id: String,
    pub name: String,
}

impl DeepView for Dependency {
    type V = DependencyV;

    open spec fn deep_view(&self) -> DependencyV {
        DependencyV { id: self.id@, name: self.name@ }
    }
}

/// The spec-level shape of a [`Target`].
pub ghost struct TargetV {
    pub name: Seq<char>,
    pub edition: Seq<char>,
    pub kind: Seq<RawTargetKind>,
    pub root_module: FilePathBufV,
}

/// One buildable target of a package node.
#[derive(Debug)]
pub struct Target {
    pub name: String,
    pub edition: String,
    pub kind: Vec<RawTargetKind>,
    pub root_module: FilePathBuf,
}

impl DeepView for Target {
    type V = TargetV;

    open spec fn deep_view(&self) -> TargetV {
        TargetV {
            name: self.name@,
            edition: self.edition@,
            kind: self.kind.deep_view(),
            root_module: self.root_module.deep_view(),
        }
    }
}

/// The spec-level shape of a [`BuildScriptInfo`].
pub ghost struct BuildScriptInfoV {
    pub out_dir: Seq<char>,
    pub env: Seq<EnvVarV>,
}

/// What a build-script run exported: its output directory and the
/// environment variables it set.
#[derive(Debug)]
pub struct BuildScriptInfo {
    pub out_dir: String,
    pub env: Vec<EnvVar>,
}

impl DeepView for BuildScriptInfo {
    type V = BuildScriptInfoV;

    open spec fn deep_view(&self) -> BuildScriptInfoV {
        BuildScriptInfoV { out_dir: self.out_dir@, env: self.env.deep_view() }
    }
}

/// The spec-level shape of a [`PackageNode`].
pub ghost struct PackageNodeV {
    pub id: Seq<char>,
    pub name: Seq<char>,
    pub targets: Seq<TargetV>,
    pub manifest_path: FilePathBufV,
    pub version: Seq<char>,
    pub is_workspace_member: bool,
    pub repository: Option<Seq<char>>,
    pub features: Seq<Seq<char>>,
    pub dependencies: Seq<DependencyV>,
    pub build_script: Option<BuildScriptInfoV>,
    pub proc_macro_dylib: Option<Seq<char>>,
}

/// One package of the graph, with all the data the lowering stage reads.
#[derive(Debug)]
pub struct PackageNode {
    /// The package's stable opaque identifier, the graph's primary key.
    pub id: String,
    pub name: String,
    pub targets: Vec<Target>,
    pub manifest_path: FilePathBuf,
    pub version: String,
    pub is_workspace_member: bool,
    pub repository: Option<String>,
    pub features: Vec<String>,
    pub dependencies: Vec<Dependency>,
    /// Set by correlation when the package's build script ran.
    pub build_script: Option<BuildScriptInfo>,
    /// Set by correlation when a compile-time plugin artifact was built.
    pub proc_macro_dylib: Option<String>,
}

impl DeepView for PackageNode {
    type V = PackageNodeV;

    open spec fn deep_view(&self) -> PackageNodeV {
        PackageNodeV {
            id: self.id@,
            name: self.name@,
            targets: self.targets.deep_view(),
            manifest_path: self.manifest_path.deep_view(),
            version: self.version@,
            is_workspace_member: self.is_workspace_member,
            repository: self.repository.deep_view(),
            features: self.features.deep_view(),
            dependencies: self.dependencies.deep_view(),
            build_script: self.build_script.deep_view(),
            proc_macro_dylib: self.proc_macro_dylib.deep_view(),
        }
    }
}

/// The package graph: one node per resolved package.
#[derive(Debug)]
pub struct CrateGraph {
    pub inner: Vec<PackageNode>,
}

impl DeepView for CrateGraph {
    type V = Seq<PackageNodeV>;

    open spec fn deep_view(&self) -> Seq<PackageNodeV> {
        self.inner.deep_view()
    }
}

// ------------------------------------------------------------------
// Small exec helpers with exact contracts.
// ------------------------------------------------------------------

/// Whether a list of strings contains the given string.
pub fn contains_string(v: &Vec<String>, s: &String) -> (r: bool)
    ensures
        r == v.deep_view().contains(s@),
{
    let mut i: usize = 0;
    while i < v.len()
        invariant
            0 <= i <= v@.len(),
            forall|j: int| 0 <= j < i ==> v@[j]@ != s@,
        decreases v@.len() - i,
    {
        if v[i] == *s {
            proof {
                lemma_vec_deep_view(v);
                assert(v.deep_view()[i as int] == s@);
            }
            return true;
        }
        i = i + 1;
    }
    proof {
        lemma_vec_deep_view(v);
        if v.deep_view().contains(s@) {
            let k = choose|k: int| 0 <= k < v.deep_view().len() && v.deep_view()[k] == s@;
            assert(v@[k]@ == s@);
        }
    }
    false
}

/// Whether a raw-tag list contains the given tag.
pub fn has_raw_kind(kinds: &Vec<RawTargetKind>, k: RawTargetKind) -> (r: bool)
    ensures
        r == kinds@.contains(k),
{
    let mut i: usize = 0;
    while i < kinds.len()
        invariant
            0 <= i <= kinds@.len(),
            forall|j: int| 0 <= j < i ==> kinds@[j] != k,
        decreases kinds@.len() - i,
    {
        if kinds[i] == k {
            return true;
        }
        i = i + 1;
    }
    false
}

/// Clones a raw-tag list.
pub fn clone_kinds(v: &Vec<RawTargetKind>) -> (r: Vec<RawTargetKind>)
    ensures
        r@ == v@,
{
    let mut out: Vec<RawTargetKind> = Vec::new();
    let mut i: usize = 0;
    while i < v.len()
        invariant
            0 <= i <= v@.len(),
            out@ == v@.take(i as int),
        decreases v@.len() - i,
    {
        out.push(v[i]);
        i = i + 1;
        assert(out@ =~= v@.take(i as int));
    }
    assert(out@ =~= v@);
    out
}

// ------------------------------------------------------------------
// Ingestion: building the graph from the raw metadata.
// ------------------------------------------------------------------

/// The resolution-graph nodes of an input, or nothing when the build tool
/// reported no resolution graph.
pub open spec fn resolve_nodes(input: MetaInputV) -> Seq<ResolveNodeV> {
    match input.resolve {
        Some(ns) => ns,
        None => Seq::empty(),
    }
}

/// All features that the resolution nodes with the given id declare, in
/// order, duplicates included.
pub open spec fn concat_features(nodes: Seq<ResolveNodeV>, id: Seq<char>) -> Seq<Seq<char>>
    decreases nodes.len(),
{
    if nodes.len() == 0 {
        Seq::empty()
    } else {
        let tail = if nodes.last().id == id {
            nodes.last().features
        } else {
            Seq::empty()
        };
        concat_features(nodes.drop_last(), id) + tail
    }
}

/// The sequence with every repeated element dropped, keeping the first
/// occurrence of each.
pub open spec fn dedup_first(s: Seq<Seq<char>>) -> Seq<Seq<char>>
    decreases s.len(),
{
    if s.len() == 0 {
        Seq::empty()
    } else {
        let rest = dedup_first(s.drop_last());
        if rest.contains(s.last()) {
            rest
        } else {
            rest.push(s.last())
        }
    }
}

/// The enabled feature set of the package with the given id: the features of
/// its resolution nodes in declaration order, first occurrence of each kept.
pub open spec fn features_of(input: MetaInputV, id: Seq<char>) -> Seq<Seq<char>> {
    dedup_first(concat_features(resolve_nodes(input), id))
}

/// Resolve-graph dependency edges turned into graph edges.
pub open spec fn map_deps(ds: Seq<MetaDepV>) -> Seq<DependencyV> {
    Seq::new(ds.len(), |j: int| DependencyV { id: ds[j].pkg, name: ds[j].name })
}

/// All dependency edges that the resolution nodes with the given id declare,
/// in order.
pub open spec fn concat_deps(nodes: Seq<ResolveNodeV>, id: Seq<char>) -> Seq<DependencyV>
    decreases nodes.len(),
{
    if nodes.len() == 0 {
        Seq::empty()
    } else {
        let tail = if nodes.last().id == id {
            map_deps(nodes.last().deps)
        } else {
            Seq::empty()
        };
        concat_deps(nodes.drop_last(), id) + tail
    }
}

/// The dependency edges of the package with the given id.
pub open spec fn deps_of(input: MetaInputV, id: Seq<char>) -> Seq<DependencyV> {
    concat_deps(resolve_nodes(input), id)
}

/// Whether ingestion drops a target: packages outside the workspace keep no
/// test, example or bench targets.
pub open spec fn target_dropped(member: bool, t: MetaTargetV) -> bool {
    !member && (t.kind.contains(RawTargetKind::Test) || t.kind.contains(RawTargetKind::Example)
        || t.kind.contains(RawTargetKind::Bench))
}

/// A raw target turned into a graph target.
pub open spec fn conv_target(t: MetaTargetV) -> TargetV {
    TargetV { name: t.name, edition: t.edition, kind: t.kind, root_module: path_value(t.src_path) }
}

/// The kept-and-converted targets among the first `j` raw targets.
pub open spec fn conv_targets_upto(p: MetaPackageV, member: bool, j: int) -> Seq<TargetV>
    decreases j,
{
    if j <= 0 {
        Seq::empty()
    } else {
        let rest = conv_targets_upto(p, member, j - 1);
        if target_dropped(member, p.targets[j - 1]) {
            rest
        } else {
            rest.push(conv_target(p.targets[j - 1]))
        }
    }
}

/// The targets a package's node carries.
pub open spec fn conv_targets(p: MetaPackageV, member: bool) -> Seq<TargetV> {
    conv_targets_upto(p, member, p.targets.len() as int)
}

/// The graph node a raw package produces, assuming its paths are accepted.
pub open spec fn node_of(input: MetaInputV, p: MetaPackageV) -> PackageNodeV {
    let member = input.workspace_members.contains(p.id);
    PackageNodeV {
        id: p.id,
        name: p.name,
        targets: conv_targets(p, member),
        manifest_path: path_value(p.manifest_path),
        version: p.version,
        is_workspace_member: member,
        repository: p.repository,
        features: features_of(input, p.id),
        dependencies: deps_of(input, p.id),
        build_script: None,
        proc_macro_dylib: None,
    }
}

/// The first position at or after `i` whose node has the given id, or -1.
pub open spec fn find_id_from(g: Seq<PackageNodeV>, id: Seq<char>, i: int) -> int
    decreases g.len() - i when 0 <= i <= g.len()
{
    if i < 0 || i >= g.len() {
        -1
    } else if g[i].id == id {
        i
    } else {
        find_id_from(g, id, i + 1)
    }
}

/// The first position whose node has the given id, or -1.
pub open spec fn find_id(g: Seq<PackageNodeV>, id: Seq<char>) -> int {
    find_id_from(g, id, 0)
}

/// Keyed insertion: a node replaces the node with its id, or is appended
/// when the id is new.
pub open spec fn spec_insert(g: Seq<PackageNodeV>, n: PackageNodeV) -> Seq<PackageNodeV> {
    let f = find_id(g, n.id);
    if f == -1 {
        g.push(n)
    } else {
        g.update(f, n)
    }
}

/// The first path error of a package at or after target position `j`:
/// the kept targets' source paths are checked in order, then the manifest
/// path.
pub open spec fn pkg_err_from(p: MetaPackageV, member: bool, j: int) -> Option<SubspaceErrorV>
    decreases p.targets.len() - j when 0 <= j <= p.targets.len()
{
    if j < 0 || j >= p.targets.len() {
        if path_accepted(p.manifest_path) {
            None
        } else {
            Some(path_error(p.manifest_path))
        }
    } else if !target_dropped(member, p.targets[j]) && !path_accepted(p.targets[j].src_path) {
        Some(path_error(p.targets[j].src_path))
    } else {
        pkg_err_from(p, member, j + 1)
    }
}

/// The first path error of a package.
pub open spec fn pkg_err(input: MetaInputV, p: MetaPackageV) -> Option<SubspaceErrorV> {
    pkg_err_from(p, input.workspace_members.contains(p.id), 0)
}

/// The first path error of the input at or after package position `k`.
pub open spec fn ingest_err_from(input: MetaInputV, k: int) -> Option<SubspaceErrorV>
    decreases input.packages.len() - k when 0 <= k <= input.packages.len()
{
    if k < 0 || k >= input.packages.len() {
        None
    } else {
        match pkg_err(input, input.packages[k]) {
            Some(e) => Some(e),
            None => ingest_err_from(input, k + 1),
        }
    }
}

/// The first path error of the input, if any: ingestion fails exactly when
/// one exists.
pub open spec fn ingest_err(input: MetaInputV) -> Option<SubspaceErrorV> {
    ingest_err_from(input, 0)
}

/// The graph built from the first `k` packages.
pub open spec fn ingest_upto(input: MetaInputV, k: int) -> Seq<PackageNodeV>
    decreases k,
{
    if k <= 0 {
        Seq::empty()
    } else {
        spec_insert(ingest_upto(input, k - 1), node_of(input, input.packages[k - 1]))
    }
}

/// The graph ingestion produces on success.
pub open spec fn spec_ingest(input: MetaInputV) -> Seq<PackageNodeV> {
    ingest_upto(input, input.packages.len() as int)
}

/// Collects the enabled features of the package with the given id from the
/// resolution nodes, first occurrence of each kept.
fn collect_features(resolve: &Option<Vec<ResolveNode>>, id: &String) -> (r: Vec<String>)
    ensures
        r.deep_view() == dedup_first(
            concat_features(
                match resolve {
                    Some(ns) => ns.deep_view(),
                    None => Seq::empty(),
                },
                id@,
            ),
        ),
{
    let nodes = match resolve {
        Some(ns) => ns,
        None => {
            return Vec::new();
        },
    };
    let ghost nv = nodes.deep_view();
    let mut out: Vec<String> = Vec::new();
    let mut i: usize = 0;
    while i < nodes.len()
        invariant
            0 <= i <= nodes@.len(),
            nv == nodes.deep_view(),
            out.deep_view() == dedup_first(concat_features(nv.take(i as int), id@)),
        decreases nodes@.len() - i,
    {
        proof {
            lemma_vec_deep_view(nodes);
        }
        let node = &nodes[i];
        if node.id == *id {
            let ghost base = concat_features(nv.take(i as int), id@);
            let fs = &node.features;
            let ghost fv = fs.deep_view();
            let mut j: usize = 0;
            while j < fs.len()
                invariant
                    0 <= j <= fs@.len(),
                    fv == fs.deep_view(),
                    out.deep_view() == dedup_first(base + fv.take(j as int)),
                decreases fs@.len() - j,
            {
                proof {
                    lemma_vec_deep_view(fs);
                    lemma_take_one_more(fv, j as int);
                    assert(base + fv.take(j as int + 1) =~= (base + fv.take(j as int)).push(
                        fv[j as int],
                    ));
                    assert((base + fv.take(j as int + 1)).drop_last() =~= base + fv.take(j as int));
                }
                let present = contains_string(&out, &fs[j]);
                if !present {
                    push_elem(&mut out, fs[j].clone());
                }
                j = j + 1;
            }
            proof {
                assert(fv.take(j as int) =~= fv);
                lemma_take_one_more(nv, i as int);
                assert(nv.take(i as int + 1).drop_last() =~= nv.take(i as int));
                assert(concat_features(nv.take(i as int + 1), id@) =~= base + fv);
            }
        } else {
            proof {
                lemma_take_one_more(nv, i as int);
                assert(nv.take(i as int + 1).drop_last() =~= nv.take(i as int));
                assert(concat_features(nv.take(i as int + 1), id@) =~= concat_features(
                    nv.take(i as int),
                    id@,
                ) + Seq::<Seq<char>>::empty());
                assert(concat_features(nv.take(i as int + 1), id@) =~= concat_features(
                    nv.take(i as int),
                    id@,
                ));
            }
        }
        i = i + 1;
    }
    proof {
        assert(nv.take(i as int) =~= nv);
    }
    out
}

/// Collects the dependency edges of the package with the given id from the
/// resolution nodes, in order.
fn collect_deps(resolve: &Option<Vec<ResolveNode>>, id: &String) -> (r: Vec<Dependency>)
    ensures
        r.deep_view() == concat_deps(
            match resolve {
                Some(ns) => ns.deep_view(),
                None => Seq::empty(),
            },
            id@,
        ),
{
    let nodes = match resolve {
        Some(ns) => ns,
        None => {
            return Vec::new();
        },
    };
    let ghost nv = nodes.deep_view();
    let mut out: Vec<Dependency> = Vec::new();
    let mut i: usize = 0;
    while i < nodes.len()
        invariant
            0 <= i <= nodes@.len(),
            nv == nodes.deep_view(),
            out.deep_view() == concat_deps(nv.take(i as int), id@),
        decreases nodes@.len() - i,
    {
        proof {
            lemma_vec_deep_view(nodes);
        }
        let node = &nodes[i];
        if node.id == *id {
            let ghost base = concat_deps(nv.take(i as int), id@);
            let ds = &node.deps;
            let ghost dv = ds.deep_view();
            let mut j: usize = 0;
            while j < ds.len()
                invariant
                    0 <= j <= ds@.len(),
                    dv == ds.deep_view(),
                    out.deep_view() == base + map_deps(dv).take(j as int),
                decreases ds@.len() - j,
            {
                proof {
                    lemma_vec_deep_view(ds);
                }
                push_elem(
                    &mut out,
                    Dependency { id: ds[j].pkg.clone(), name: ds[j].name.clone() },
                );
                proof {
                    lemma_take_one_more(map_deps(dv), j as int);
                    assert(out.deep_view() =~= base + map_deps(dv).take(j as int + 1));
                }
                j = j + 1;
            }
            proof {
                assert(map_deps(dv).take(j as int) =~= map_deps(dv));
                lemma_take_one_more(nv, i as int);
                assert(nv.take(i as int + 1).drop_last() =~= nv.take(i as int));
                assert(concat_deps(nv.take(i as int + 1), id@) =~= base + map_deps(dv));
            }
        } else {
            proof {
                lemma_take_one_more(nv, i as int);
                assert(nv.take(i as int + 1).drop_last() =~= nv.take(i as int));
                assert(concat_deps(nv.take(i as int + 1), id@) =~= concat_deps(
                    nv.take(i as int),
                    id@,
                ));
            }
        }
        i = i + 1;
    }
    proof {
        assert(nv.take(i as int) =~= nv);
    }
    out
}

/// Inserts a node keyed by its id: the first node with the same id is
/// replaced, otherwise the node is appended.
#[verifier::loop_isolation(false)]
fn insert_node(inner: &mut Vec<PackageNode>, node: PackageNode)
    ensures
        final(inner).deep_view() == spec_insert(old(inner).deep_view(), node.deep_view()),
{
    let ghost g0 = inner.deep_view();
    let ghost nodev = node.deep_view();
    let ghost idv = node.deep_view().id;
    let mut i: usize = 0;
    while i < inner.len()
        invariant
            0 <= i <= inner@.len(),
            inner.deep_view() == g0,
            inner@.len() == g0.len(),
            find_id(g0, idv) == find_id_from(g0, idv, i as int),
            idv == node.deep_view().id,
        decreases inner@.len() - i,
    {
        proof {
            lemma_vec_deep_view(inner);
        }
        if inner[i].id == node.id {
            proof {
                assert(g0[i as int].id == idv);
                assert(find_id(g0, idv) == i as int);
            }
            let ghost prea = inner@;
            let gi = i;
            inner[gi] = node;
            proof {
                lemma_vec_deep_view(inner);
                assert(inner.deep_view() =~= g0.update(i as int, nodev)) by {
                    assert forall|j: int| 0 <= j < g0.len() implies inner.deep_view()[j]
                        == g0.update(i as int, nodev)[j] by {
                        if j != i as int {
                            assert(inner@[j] == prea[j]);
                            assert(prea[j].deep_view() == g0[j]);
                        }
                    }
                }
                assert(inner.deep_view() == spec_insert(g0, nodev));
            }
            return ;
        }
        proof {
            assert(g0[i as int].id != idv);
        }
        i = i + 1;
    }
    proof {
        assert(find_id(g0, idv) == -1);
    }
    push_elem(inner, node);
}

impl CrateGraph {
    /// Builds the package graph from the build tool's resolved workspace
    /// description.
    ///
    /// Every package becomes one node keyed by its id; packages outside the
    /// workspace lose their test, example and bench targets first; each kept
    /// target's source path and each package's manifest path must name a
    /// regular file, else ingestion fails with the first such error in
    /// package order. Feature sets keep their declaration order, first
    /// occurrence of each feature.
    #[verifier::loop_isolation(false)]
    pub fn from_metadata(input: MetaInput) -> (r: Result<CrateGraph, SubspaceError>)
        ensures
            r is Ok <==> ingest_err(input.deep_view()) is None,
            r is Ok ==> r->Ok_0.deep_view() == spec_ingest(input.deep_view()),
            r is Err ==> Some(r->Err_0.deep_view()) == ingest_err(input.deep_view()),
    {
        let ghost inp = input.deep_view();
        let mut inner: Vec<PackageNode> = Vec::new();
        let mut k: usize = 0;
        while k < input.packages.len()
            invariant
                0 <= k <= input.packages@.len(),
                inp == input.deep_view(),
                inner.deep_view() == ingest_upto(inp, k as int),
                ingest_err(inp) == ingest_err_from(inp, k as int),
            decreases input.packages@.len() - k,
        {
            proof {
                lemma_vec_deep_view(&input.packages);
            }
            let p = &input.packages[k];
            let ghost pv = inp.packages[k as int];
            assert(p.deep_view() == pv);
            let member = contains_string(&input.workspace_members, &p.id);
            proof {
                assert(member == inp.workspace_members.contains(pv.id));
            }

            let mut targets: Vec<Target> = Vec::new();
            let mut j: usize = 0;
            while j < p.targets.len()
                invariant
                    0 <= j <= p.targets@.len(),
                    p.deep_view() == pv,
                    targets.deep_view() == conv_targets_upto(pv, member, j as int),
                    pkg_err_from(pv, member, 0) == pkg_err_from(pv, member, j as int),
                decreases p.targets@.len() - j,
            {
                proof {
                    lemma_vec_deep_view(&p.targets);
                }
                let t = &p.targets[j];
                let ghost tv = pv.targets[j as int];
                assert(t.deep_view() == tv);
                let dropped = !member && (has_raw_kind(&t.kind, RawTargetKind::Test)
                    || has_raw_kind(&t.kind, RawTargetKind::Example) || has_raw_kind(
                    &t.kind,
                    RawTargetKind::Bench,
                ));
                proof {
                    lemma_vec_deep_view(&t.kind);
                    assert(t.kind.deep_view() =~= t.kind@);
                    assert(dropped == target_dropped(member, tv));
                }
                if !dropped {
                    let rm = match FilePathBuf::from_input(t.src_path.clone()) {
                        Ok(x) => x,
                        Err(e) => {
                            proof {
                                assert(pkg_err_from(pv, member, j as int) == Some(
                                    path_error(tv.src_path),
                                ));
                                assert(ingest_err(inp) == Some(e.deep_view()));
                            }
                            return Err(e);
                        },
                    };
                    push_elem(
                        &mut targets,
                        Target {
                            name: t.name.clone(),
                            edition: t.edition.clone(),
                            kind: clone_kinds(&t.kind),
                            root_module: rm,
                        },
                    );
                    proof {
                        assert(targets.deep_view() =~= conv_targets_upto(
                            pv,
                            member,
                            j as int + 1,
                        ));
                    }
                }
                j = j + 1;
            }
            proof {
                assert(conv_targets_upto(pv, member, j as int) == conv_targets(pv, member));
            }

            let manifest = match FilePathBuf::from_input(p.manifest_path.clone()) {
                Ok(x) => x,
                Err(e) => {
                    proof {
                        assert(pkg_err_from(pv, member, pv.targets.len() as int) == Some(
                            path_error(pv.manifest_path),
                        ));
                        assert(ingest_err(inp) == Some(e.deep_view()));
                    }
                    return Err(e);
                },
            };

            let features = collect_features(&input.resolve, &p.id);
            let dependencies = collect_deps(&input.resolve, &p.id);
            proof {
                assert(features.deep_view() == features_of(inp, pv.id));
                assert(dependencies.deep_view() == deps_of(inp, pv.id));
            }

            let node = PackageNode {
                id: p.id.clone(),
                name: p.name.clone(),
                targets,
                manifest_path: manifest,
                version: p.version.clone(),
                is_workspace_member: member,
                repository: clone_opt_string(&p.repository),
                features,
                dependencies,
                build_script: None,
                proc_macro_dylib: None,
            };
            proof {
                assert(node.deep_view() == node_of(inp, pv));
            }
            insert_node(&mut inner, node);
            k = k + 1;
        }
        Ok(CrateGraph { inner })
    }
}

// ------------------------------------------------------------------
// Pruning: reachability over dependency edges.
// ------------------------------------------------------------------

/// The first node with the given id, as id lookup resolves it.
pub open spec fn node_with_id(g: Seq<PackageNodeV>, id: Seq<char>) -> Option<PackageNodeV> {
    let f = find_id(g, id);
    if f == -1 {
        None
    } else {
        Some(g[f])
    }
}

/// Whether the node with id `x` declares a dependency edge to id `y`.
pub open spec fn dep_edge(g: Seq<PackageNodeV>, x: Seq<char>, y: Seq<char>) -> bool {
    match node_with_id(g, x) {
        Some(n) => exists|j: int| 0 <= j < n.dependencies.len() && n.dependencies[j].id == y,
        None => false,
    }
}

/// Whether `y` is reachable from `s` in at most `n` dependency-edge steps.
pub open spec fn reaches_within(g: Seq<PackageNodeV>, s: Seq<char>, y: Seq<char>, n: nat) -> bool
    decreases n,
{
    if y == s {
        true
    } else if n == 0 {
        false
    } else {
        exists|x: Seq<char>| reaches_within(g, s, x, (n - 1) as nat) && dep_edge(g, x, y)
    }
}

/// Whether `y` is reachable from `s` over dependency edges; `s` reaches
/// itself.
pub open spec fn reachable(g: Seq<PackageNodeV>, s: Seq<char>, y: Seq<char>) -> bool {
    exists|n: nat| reaches_within(g, s, y, n)
}

/// The first position at or after `i` whose node has the given manifest
/// path, or -1.
pub open spec fn find_manifest_from(g: Seq<PackageNodeV>, m: Seq<char>, i: int) -> int
    decreases g.len() - i when 0 <= i <= g.len()
{
    if i < 0 || i >= g.len() {
        -1
    } else if g[i].manifest_path.text == m {
        i
    } else {
        find_manifest_from(g, m, i + 1)
    }
}

/// The first position whose node has the given manifest path, or -1.
pub open spec fn find_manifest_idx(g: Seq<PackageNodeV>, m: Seq<char>) -> int {
    find_manifest_from(g, m, 0)
}

/// The id pruning starts from: that of the first node with the given
/// manifest path.
pub open spec fn start_id(g: Seq<PackageNodeV>, m: Seq<char>) -> Seq<char> {
    g[find_manifest_idx(g, m)].id
}

/// What pruning leaves: exactly the nodes whose id is reachable from the
/// start node's id.
pub open spec fn prune_spec(g: Seq<PackageNodeV>, m: Seq<char>) -> Seq<PackageNodeV> {
    g.filter(|n: PackageNodeV| reachable(g, start_id(g, m), n.id))
}

/// The set of ids in a list of ids.
pub open spec fn id_set(ids: Seq<Seq<char>>) -> Set<Seq<char>> {
    ids.to_set()
}

/// The set of ids of the graph's nodes.
pub open spec fn ids_of(g: Seq<PackageNodeV>) -> Set<Seq<char>> {
    g.map_values(|n: PackageNodeV| n.id).to_set()
}

/// A node's id is always found by id lookup.
pub proof fn lemma_id_present(g: Seq<PackageNodeV>, j: int)
    requires
        0 <= j < g.len(),
    ensures
        node_with_id(g, g[j].id) is Some,
        ids_of(g).contains(g[j].id),
{
    lemma_find_id_from_present(g, g[j].id, 0, j);
    assert(g.map_values(|n: PackageNodeV| n.id)[j] == g[j].id);
    assert(g.map_values(|n: PackageNodeV| n.id).contains(g[j].id));
}

/// A successful id lookup lands on a node with that id.
proof fn lemma_find_id_props(g: Seq<PackageNodeV>, id: Seq<char>, i: int)
    requires
        0 <= i <= g.len(),
    ensures
        ({
            let f = find_id_from(g, id, i);
            f == -1 || (i <= f < g.len() && g[f].id == id)
        }),
    decreases g.len() - i,
{
    if i < g.len() && g[i].id != id {
        lemma_find_id_props(g, id, i + 1);
    }
}

/// One dependency-edge step preserves reachability.
proof fn lemma_reach_step(g: Seq<PackageNodeV>, s: Seq<char>, x: Seq<char>, y: Seq<char>)
    requires
        reachable(g, s, x),
        dep_edge(g, x, y),
    ensures
        reachable(g, s, y),
{
    let n = choose|n: nat| reaches_within(g, s, x, n);
    assert(reaches_within(g, s, y, n + 1));
}

/// Id lookup at or before a position holding the id succeeds.
proof fn lemma_find_id_from_present(g: Seq<PackageNodeV>, id: Seq<char>, i: int, j: int)
    requires
        0 <= i <= j < g.len(),
        g[j].id == id,
    ensures
        0 <= find_id_from(g, id, i) <= j,
    decreases j - i,
{
    if g[i].id == id {
    } else {
        lemma_find_id_from_present(g, id, i + 1, j);
    }
}

/// In a visited set that contains the start id and is closed under
/// dependency edges to present ids, every reachable present id appears.
proof fn lemma_reach_in_closed(
    g: Seq<PackageNodeV>,
    s: Seq<char>,
    visited: Seq<Seq<char>>,
    y: Seq<char>,
    n: nat,
)
    requires
        visited.contains(s),
        forall|x: Seq<char>, z: Seq<char>|
            visited.contains(x) && #[trigger] dep_edge(g, x, z) && node_with_id(g, z) is Some
                ==> visited.contains(z),
        reaches_within(g, s, y, n),
        node_with_id(g, y) is Some,
    ensures
        visited.contains(y),
    decreases n,
{
    if y == s {
    } else {
        let x = choose|x: Seq<char>| reaches_within(g, s, x, (n - 1) as nat) && dep_edge(g, x, y);
        assert(dep_edge(g, x, y));
        assert(node_with_id(g, x) is Some);
        lemma_reach_in_closed(g, s, visited, x, (n - 1) as nat);
    }
}

/// A filtered sequence only holds elements of the underlying sequence that
/// satisfy the predicate.
proof fn lemma_filter_subset<A>(s: Seq<A>, pred: spec_fn(A) -> bool, x: A)
    requires
        s.filter(pred).contains(x),
    ensures
        s.contains(x),
        pred(x),
    decreases s.len(),
{
    reveal(Seq::filter);
    broadcast use vstd::seq_lib::group_seq_properties;

    if s.len() > 0 {
        if pred(s.last()) && x == s.last() {
        } else {
            if pred(s.last()) {
                assert(s.filter(pred) == s.drop_last().filter(pred).push(s.last()));
                let w = choose|w: int| 0 <= w < s.filter(pred).len() && s.filter(pred)[w] == x;
                assert(s.drop_last().filter(pred)[w] == x);
                assert(s.drop_last().filter(pred).contains(x));
            }
            lemma_filter_subset(s.drop_last(), pred, x);
            assert(s =~= s.drop_last().push(s.last()));
        }
    }
}

/// A successful manifest lookup lands on a node with that manifest path.
proof fn lemma_find_manifest_props(g: Seq<PackageNodeV>, m: Seq<char>, i: int)
    requires
        0 <= i <= g.len(),
    ensures
        ({
            let f = find_manifest_from(g, m, i);
            f == -1 || (i <= f < g.len() && g[f].manifest_path.text == m)
        }),
    decreases g.len() - i,
{
    if i < g.len() && g[i].manifest_path.text != m {
        lemma_find_manifest_props(g, m, i + 1);
    }
}

/// Pruning correctness: for any graph and any manifest path that names a
/// node, pruning keeps exactly the nodes whose id is reachable from the
/// start node over dependency edges — no more, no fewer — and the start
/// node itself always remains.
pub proof fn lemma_prune_exact(g: Seq<PackageNodeV>, m: Seq<char>)
    requires
        find_manifest_idx(g, m) >= 0,
    ensures
        forall|x: PackageNodeV|
            #[trigger] prune_spec(g, m).contains(x) <==> (g.contains(x) && reachable(
                g,
                start_id(g, m),
                x.id,
            )),
        prune_spec(g, m).contains(g[find_manifest_idx(g, m)]),
{
    let s = start_id(g, m);
    let pred = |n: PackageNodeV| reachable(g, s, n.id);
    lemma_find_manifest_props(g, m, 0);
    assert forall|x: PackageNodeV| #[trigger] prune_spec(g, m).contains(x) implies (g.contains(x)
        && reachable(g, s, x.id)) by {
        lemma_filter_subset(g, pred, x);
    }
    assert forall|x: PackageNodeV| g.contains(x) && reachable(g, s, x.id) implies #[trigger] prune_spec(
        g,
        m,
    ).contains(x) by {
        let w = choose|w: int| 0 <= w < g.len() && g[w] == x;
        g.lemma_filter_contains(pred, w);
    }
    let r = g[find_manifest_idx(g, m)];
    assert(g.contains(r));
    assert(reaches_within(g, s, r.id, 0));
    assert(reachable(g, s, r.id));
}

/// Workspace filtering: a package outside the workspace keeps none of its
/// test, example or bench targets — one with only such targets contributes
/// no node targets, hence no units — while a workspace member keeps every
/// target, its test targets included.
pub proof fn lemma_workspace_filtering(input: MetaInputV, p: MetaPackageV)
    ensures
        !input.workspace_members.contains(p.id) ==> forall|j: int|
            0 <= j < node_of(input, p).targets.len()
                ==> !(#[trigger] node_of(input, p).targets[j]).kind.contains(RawTargetKind::Test)
                && !node_of(input, p).targets[j].kind.contains(RawTargetKind::Example) && !node_of(
                input,
                p,
            ).targets[j].kind.contains(RawTargetKind::Bench),
        (forall|j: int|
            0 <= j < p.targets.len() ==> target_dropped(
                input.workspace_members.contains(p.id),
                #[trigger] p.targets[j],
            )) ==> node_of(input, p).targets.len() == 0,
        input.workspace_members.contains(p.id) ==> node_of(input, p).targets.len()
            == p.targets.len(),
{
    let member = input.workspace_members.contains(p.id);
    lemma_conv_targets_shape(p, member, p.targets.len() as int);
}

/// The kept-and-converted target list: each entry comes from a raw target
/// that was not dropped, and a member package keeps all of them.
proof fn lemma_conv_targets_shape(p: MetaPackageV, member: bool, j: int)
    requires
        0 <= j <= p.targets.len(),
    ensures
        conv_targets_upto(p, member, j).len() <= j,
        member ==> conv_targets_upto(p, member, j).len() == j,
        (forall|jr: int| 0 <= jr < j ==> target_dropped(member, #[trigger] p.targets[jr]))
            ==> conv_targets_upto(p, member, j).len() == 0,
        forall|i: int|
            0 <= i < conv_targets_upto(p, member, j).len() ==> exists|jr: int|
                0 <= jr < j && !target_dropped(member, #[trigger] p.targets[jr]) && #[trigger] conv_targets_upto(
                    p,
                    member,
                    j,
                )[i] == conv_target(p.targets[jr]),
    decreases j,
{
    if j > 0 {
        lemma_conv_targets_shape(p, member, j - 1);
        let rest = conv_targets_upto(p, member, j - 1);
        if !target_dropped(member, p.targets[j - 1]) {
            assert forall|i: int|
                0 <= i < conv_targets_upto(p, member, j).len() implies exists|jr: int|
                0 <= jr < j && !target_dropped(member, #[trigger] p.targets[jr])
                    && #[trigger] conv_targets_upto(p, member, j)[i] == conv_target(
                    p.targets[jr],
                ) by {
                if i < rest.len() {
                    let jr = choose|jr: int|
                        0 <= jr < j - 1 && !target_dropped(member, #[trigger] p.targets[jr])
                            && rest[i] == conv_target(p.targets[jr]);
                    assert(0 <= jr < j && !target_dropped(member, p.targets[jr])
                        && conv_targets_upto(p, member, j)[i] == conv_target(p.targets[jr]));
                } else {
                    let jr = j - 1;
                    assert(0 <= jr < j && !target_dropped(member, p.targets[jr])
                        && conv_targets_upto(p, member, j)[i] == conv_target(p.targets[jr]));
                }
            }
        }
    }
}

/// Finds the first node with the given manifest path.
fn find_by_manifest(inner: &Vec<PackageNode>, m: &String) -> (r: Option<usize>)
    ensures
        match r {
            Some(k) => k < inner@.len() && find_manifest_idx(inner.deep_view(), m@) == k as int,
            None => find_manifest_idx(inner.deep_view(), m@) == -1,
        },
{
    let ghost g = inner.deep_view();
    let mut k: usize = 0;
    while k < inner.len()
        invariant
            0 <= k <= inner@.len(),
            g == inner.deep_view(),
            find_manifest_idx(g, m@) == find_manifest_from(g, m@, k as int),
        decreases inner@.len() - k,
    {
        proof {
            lemma_vec_deep_view(inner);
        }
        if inner[k].manifest_path.text_equals(m) {
            proof {
                assert(g[k as int].manifest_path.text == m@);
            }
            return Some(k);
        }
        proof {
            assert(g[k as int].manifest_path.text != m@);
        }
        k = k + 1;
    }
    None
}

/// Finds the first node with the given id.
pub(crate) fn find_by_id(inner: &Vec<PackageNode>, id: &String) -> (r: Option<usize>)
    ensures
        match r {
            Some(k) => k < inner@.len() && find_id(inner.deep_view(), id@) == k as int,
            None => find_id(inner.deep_view(), id@) == -1,
        },
{
    let ghost g = inner.deep_view();
    let mut k: usize = 0;
    while k < inner.len()
        invariant
            0 <= k <= inner@.len(),
            g == inner.deep_view(),
            find_id(g, id@) == find_id_from(g, id@, k as int),
        decreases inner@.len() - k,
    {
        proof {
            lemma_vec_deep_view(inner);
        }
        if inner[k].id == *id {
            proof {
                assert(g[k as int].id == id@);
            }
            return Some(k);
        }
        proof {
            assert(g[k as int].id != id@);
        }
        k = k + 1;
    }
    None
}

impl CrateGraph {
    /// Prunes the graph down to the package with the given manifest path and
    /// everything reachable from it over dependency edges.
    ///
    /// The manifest path must already be absolute; the node whose manifest
    /// path equals it (exact, case-sensitive) is the start. Exactly the
    /// nodes whose id is reachable from the start node's id remain, the
    /// start node itself among them; when no node matches, the graph is
    /// unchanged and the call fails.
    #[verifier::loop_isolation(false)]
    pub fn prune(&mut self, manifest_path: &String) -> (r: Result<(), SubspaceError>)
        ensures
            r is Ok <==> find_manifest_idx(old(self).deep_view(), manifest_path@) >= 0,
            r is Ok ==> final(self).deep_view() == prune_spec(
                old(self).deep_view(),
                manifest_path@,
            ),
            r is Err ==> final(self).deep_view() == old(self).deep_view(),
            r is Err ==> r->Err_0.deep_view() == (SubspaceErrorV::WorkspaceMemberNotFound {
                manifest_path: manifest_path@,
            }),
    {
        broadcast use vstd::seq_lib::group_seq_properties;

        let ghost g = self.deep_view();
        let k0 = match find_by_manifest(&self.inner, manifest_path) {
            Some(k) => k,
            None => {
                return Err(
                    SubspaceError::WorkspaceMemberNotFound {
                        manifest_path: manifest_path.clone(),
                    },
                );
            },
        };
        proof {
            lemma_vec_deep_view(&self.inner);
        }
        let start = self.inner[k0].id.clone();
        let ghost s = g[k0 as int].id;
        proof {
            assert(start@ == s);
            assert(s == start_id(g, manifest_path@));
            lemma_id_present(g, k0 as int);
            assert(reaches_within(g, s, s, 0));
            assert(reachable(g, s, s));
        }

        let mut visited: Vec<String> = Vec::new();
        let mut stack: Vec<String> = Vec::new();
        push_elem(&mut stack, start);

        while stack.len() > 0
            invariant
                forall|j: int|
                    0 <= j < visited.deep_view().len() ==> reachable(
                        g,
                        s,
                        #[trigger] visited.deep_view()[j],
                    ) && node_with_id(g, visited.deep_view()[j]) is Some,
                forall|j: int|
                    0 <= j < stack.deep_view().len() ==> reachable(
                        g,
                        s,
                        #[trigger] stack.deep_view()[j],
                    ),
                forall|x: Seq<char>, z: Seq<char>|
                    visited.deep_view().contains(x) && #[trigger] dep_edge(g, x, z)
                        && node_with_id(g, z) is Some ==> visited.deep_view().contains(z)
                        || stack.deep_view().contains(z),
                visited.deep_view().contains(s) || stack.deep_view().contains(s),
            decreases ids_of(g).difference(id_set(visited.deep_view())).len(), stack@.len(),
        {
            proof {
                vstd::seq_lib::seq_to_set_is_finite::<Seq<char>>(
                    g.map_values(|n: PackageNodeV| n.id),
                );
            }
            let ghost stack0 = stack.deep_view();
            let ghost visited0 = visited.deep_view();
            let id = pop_elem(&mut stack);
            let ghost idv = id@;
            proof {
                assert(idv == stack0.last());
                assert(reachable(g, s, idv));
            }
            let already = contains_string(&visited, &id);
            if !already {
                match find_by_id(&self.inner, &id) {
                    Some(ni) => {
                        proof {
                            assert(node_with_id(g, idv) == Some(g[ni as int]));
                            lemma_find_id_props(g, idv, 0);
                            assert(g[ni as int].id == idv);
                            lemma_id_present(g, ni as int);
                            assert(ids_of(g).contains(idv));
                        }
                        proof {
                            lemma_vec_deep_view(&self.inner);
                        }
                        let deps = &self.inner[ni].dependencies;
                        let ghost dv = deps.deep_view();
                        proof {
                            assert(dv == g[ni as int].dependencies);
                        }
                        let mut di: usize = 0;
                        while di < deps.len()
                            invariant
                                0 <= di <= deps@.len(),
                                dv == deps.deep_view(),
                                forall|j: int|
                                    0 <= j < stack.deep_view().len() ==> reachable(
                                        g,
                                        s,
                                        #[trigger] stack.deep_view()[j],
                                    ),
                                forall|j: int|
                                    0 <= j < di ==> stack.deep_view().contains(#[trigger] dv[j].id),
                                forall|z: Seq<char>|
                                    stack0.drop_last().contains(z)
                                        ==> stack.deep_view().contains(z),
                            decreases deps@.len() - di,
                        {
                            proof {
                                lemma_vec_deep_view(deps);
                                assert(dv[di as int].id == deps@[di as int].id@);
                                assert(dep_edge(g, idv, dv[di as int].id));
                                lemma_reach_step(g, s, idv, dv[di as int].id);
                            }
                            push_elem(&mut stack, deps[di].id.clone());
                            di = di + 1;
                        }
                        push_elem(&mut visited, id);
                        proof {
                            // the decrease of the unvisited-id count
                            assert(id_set(visited.deep_view()) =~= id_set(visited0).insert(idv));
                            assert(!id_set(visited0).contains(idv));
                            ids_of(g).lemma_set_insert_diff_decreases(id_set(visited0), idv);
                            // closure is maintained: the popped id's edges all
                            // lead into the new stack, and every id that was
                            // on the old stack below the top is still there
                            assert forall|x: Seq<char>, z: Seq<char>|
                                visited.deep_view().contains(x) && #[trigger] dep_edge(g, x, z)
                                    && node_with_id(g, z) is Some implies visited.deep_view().contains(
                                z,
                            ) || stack.deep_view().contains(z) by {
                                if x == idv {
                                    let n = g[ni as int];
                                    let j = choose|j: int|
                                        0 <= j < n.dependencies.len() && n.dependencies[j].id == z;
                                    assert(stack.deep_view().contains(dv[j].id));
                                } else {
                                    assert(visited0.contains(x));
                                    if visited0.contains(z) {
                                        assert(visited.deep_view().contains(z));
                                    } else {
                                        assert(stack0.contains(z));
                                        let w = choose|w: int|
                                            0 <= w < stack0.len() && stack0[w] == z;
                                        if w < stack0.len() - 1 {
                                            assert(stack0.drop_last()[w] == z);
                                            assert(stack0.drop_last().contains(z));
                                        } else {
                                            assert(z == idv);
                                            assert(visited.deep_view().contains(z));
                                        }
                                    }
                                }
                            }
                        }
                    },
                    None => {
                        proof {
                            // a dangling id: it has no node, so dropping it
                            // keeps the closure intact
                            assert forall|x: Seq<char>, z: Seq<char>|
                                visited.deep_view().contains(x) && #[trigger] dep_edge(g, x, z)
                                    && node_with_id(g, z) is Some implies visited.deep_view().contains(
                                z,
                            ) || stack.deep_view().contains(z) by {
                                if !visited0.contains(z) {
                                    assert(stack0.contains(z));
                                    let w = choose|w: int| 0 <= w < stack0.len() && stack0[w] == z;
                                    if w < stack0.len() - 1 {
                                        assert(stack0.drop_last()[w] == z);
                                    } else {
                                        assert(z == idv);
                                        assert(node_with_id(g, z) is None);
                                    }
                                }
                            }
                            assert(visited.deep_view().contains(s) || stack.deep_view().contains(
                                s,
                            )) by {
                                if !visited0.contains(s) {
                                    let w = choose|w: int| 0 <= w < stack0.len() && stack0[w] == s;
                                    if w < stack0.len() - 1 {
                                        assert(stack0.drop_last()[w] == s);
                                    } else {
                                        assert(s == idv);
                                        lemma_id_present(g, k0 as int);
                                        assert(node_with_id(g, s) is Some);
                                        assert(false);
                                    }
                                }
                            }
                        }
                    },
                }
            } else {
                proof {
                    assert(visited.deep_view().contains(idv));
                    assert forall|x: Seq<char>, z: Seq<char>|
                        visited.deep_view().contains(x) && #[trigger] dep_edge(g, x, z)
                            && node_with_id(g, z) is Some implies visited.deep_view().contains(z)
                        || stack.deep_view().contains(z) by {
                        if !visited0.contains(z) {
                            assert(stack0.contains(z));
                            let w = choose|w: int| 0 <= w < stack0.len() && stack0[w] == z;
                            if w < stack0.len() - 1 {
                                assert(stack0.drop_last()[w] == z);
                            } else {
                                assert(z == idv);
                            }
                        }
                    }
                }
            }
            proof {
                // the start id stays covered
                if !(visited.deep_view().contains(s) || stack.deep_view().contains(s)) {
                    assert(!visited0.contains(s));
                    let w = choose|w: int| 0 <= w < stack0.len() && stack0[w] == s;
                    if w < stack0.len() - 1 {
                        assert(stack0.drop_last()[w] == s);
                        assert(stack0.drop_last().contains(s));
                        assert(false);
                    } else {
                        assert(s == idv);
                        assert(false);
                    }
                }
            }
        }

        // the stack is empty: the visited ids are exactly the reachable,
        // present ids
        proof {
            assert(stack.deep_view().len() == 0);
            assert(visited.deep_view().contains(s));
            assert forall|y: Seq<char>|
                reachable(g, s, y) && node_with_id(g, y) is Some implies visited.deep_view().contains(
                y,
            ) by {
                let n = choose|n: nat| reaches_within(g, s, y, n);
                lemma_reach_in_closed(g, s, visited.deep_view(), y, n);
            }
        }

        // retain exactly the visited nodes
        let mut kept: Vec<PackageNode> = Vec::new();
        let ghost pred = |n: PackageNodeV| reachable(g, start_id(g, manifest_path@), n.id);
        let ghost mut d: int = 0;
        while self.inner.len() > 0
            invariant
                0 <= d <= g.len(),
                d == g.len() - self.inner@.len(),
                self.inner.deep_view() == g.skip(d),
                kept.deep_view() == g.take(d).filter(pred),
            decreases self.inner@.len(),
        {
            let node = remove_first(&mut self.inner);
            proof {
                assert(g.skip(d)[0] == g[d]);
                assert(node.deep_view() == g[d]);
                assert(g.skip(d).drop_first() =~= g.skip(d + 1));
            }
            let keep = contains_string(&visited, &node.id);
            proof {
                assert(node.deep_view().id == g[d].id);
                lemma_id_present(g, d);
                if keep {
                    assert(visited.deep_view().contains(g[d].id));
                    assert(reachable(g, s, g[d].id));
                } else {
                    if reachable(g, s, g[d].id) {
                        assert(visited.deep_view().contains(g[d].id));
                        assert(false);
                    }
                }
                assert(keep == pred(g[d]));
                lemma_take_one_more(g, d);
                g.take(d).lemma_filter_push(g[d], pred);
            }
            if keep {
                push_elem(&mut kept, node);
            }
            proof {
                d = d + 1;
                assert(kept.deep_view() == g.take(d).filter(pred));
            }
        }
        proof {
            assert(g.take(g.len() as int) =~= g);
        }
        self.inner = kept;
        Ok(())
    }
}

} // verus!
