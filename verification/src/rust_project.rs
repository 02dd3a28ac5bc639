//! The project-descriptor model: the flat, analysis-ready description of a
//! workspace that the lowering stage produces and a code-intelligence tool
//! consumes.

use vstd::prelude::*;
use vstd::string::StringExecFns;

verus! {

/// A raw target-kind tag as the build tool reports it.
///
/// A target may carry several tags; the simplified [`TargetKind`] is computed
/// from them by a fixed priority mapping.
#[derive(Clone, Copy, Debug, PartialEq, Eq, Structural)]
pub enum RawTargetKind {
    Bench,
    Bin,
    CustomBuild,
    CDyLib,
    DyLib,
    Example,
    Lib,
    ProcMacro,
    RLib,
    StaticLib,
    Test,
    /// Any tag the library does not recognize; such tags are skipped.
    Other,
}

impl DeepView for RawTargetKind {
    type V = RawTargetKind;

    open spec fn deep_view(&self) -> RawTargetKind {
        *self
    }
}

/// The simplified three-way kind of a target.
#[derive(Clone, Copy, Debug, PartialEq, Eq, Structural)]
pub enum TargetKind {
    Bin,
    Lib,
    Test,
}

impl DeepView for TargetKind {
    type V = TargetKind;

    open spec fn deep_view(&self) -> TargetKind {
        *self
    }
}

/// The simplified kind derived from the raw tags starting at position `i`:
/// the first recognized tag wins, and a target with no recognized tag is a
/// `Bin`.
pub open spec fn spec_target_kind_from(kinds: Seq<RawTargetKind>, i: int) -> TargetKind
    decreases kinds.len() - i when 0 <= i <= kinds.len()
{
    if i < 0 || i >= kinds.len() {
        TargetKind::Bin
    } else {
        match kinds[i] {
            RawTargetKind::Other => spec_target_kind_from(kinds, i + 1),
            RawTargetKind::Bin => TargetKind::Bin,
            RawTargetKind::Test => TargetKind::Test,
            RawTargetKind::Bench => TargetKind::Test,
            RawTargetKind::Example => TargetKind::Bin,
            RawTargetKind::CustomBuild => TargetKind::Bin,
            RawTargetKind::ProcMacro => TargetKind::Lib,
            RawTargetKind::Lib => TargetKind::Lib,
            RawTargetKind::DyLib => TargetKind::Lib,
            RawTargetKind::CDyLib => TargetKind::Lib,
            RawTargetKind::StaticLib => TargetKind::Lib,
            RawTargetKind::RLib => TargetKind::Lib,
        }
    }
}

/// The simplified kind of a target with the given raw tags.
pub open spec fn spec_target_kind(kinds: Seq<RawTargetKind>) -> TargetKind {
    spec_target_kind_from(kinds, 0)
}

impl TargetKind {
    /// Computes the simplified kind from a target's raw tags: bench and test
    /// map to `Test`; example, build-script and bin map to `Bin`; everything
    /// library-shaped, compile-time plugins included, maps to `Lib`. The
    /// first recognized tag wins, and the default is `Bin`.
    pub fn new(kinds: &[RawTargetKind]) -> (r: TargetKind)
        ensures
            r == spec_target_kind(kinds@),
    {
        let mut i: usize = 0;
        while i < kinds.len()
            invariant
                0 <= i <= kinds@.len(),
                spec_target_kind(kinds@) == spec_target_kind_from(kinds@, i as int),
            decreases kinds@.len() - i,
        {
            match kinds[i] {
                RawTargetKind::Other => {
                    i = i + 1;
                },
                RawTargetKind::Bin => {
                    return TargetKind::Bin;
                },
                RawTargetKind::Test => {
                    return TargetKind::Test;
                },
                RawTargetKind::Bench => {
                    return TargetKind::Test;
                },
                RawTargetKind::Example => {
                    return TargetKind::Bin;
                },
                RawTargetKind::CustomBuild => {
                    return TargetKind::Bin;
                },
                RawTargetKind::ProcMacro => {
                    return TargetKind::Lib;
                },
                RawTargetKind::Lib => {
                    return TargetKind::Lib;
                },
                RawTargetKind::DyLib => {
                    return TargetKind::Lib;
                },
                RawTargetKind::CDyLib => {
                    return TargetKind::Lib;
                },
                RawTargetKind::StaticLib => {
                    return TargetKind::Lib;
                },
                RawTargetKind::RLib => {
                    return TargetKind::Lib;
                },
            }
        }
        TargetKind::Bin
    }
}

/// The spec-level shape of a [`Dep`].
pub ghost struct DepV {
    pub crate_index: int,
    pub name: Seq<char>,
}

/// One dependency reference of a compilation unit: an index into the flat
/// unit array, plus the name under which the dependency is imported.
#[derive(Debug, PartialEq)]
pub struct Dep {
    pub crate_index: usize,
    pub name: String,
}

impl DeepView for Dep {
    type V = DepV;

    open spec fn deep_view(&self) -> DepV {
        DepV { crate_index: self.crate_index as int, name: self.name@ }
    }
}

impl Clone for Dep {
    /// The clone is the same reference.
    fn clone(&self) -> (r: Self)
        ensures
            r.deep_view() == self.deep_view(),
    {
        Dep { crate_index: self.crate_index, name: self.name.clone() }
    }
}

/// The spec-level shape of a [`CrateSource`].
pub ghost struct CrateSourceV {
    pub include_dirs: Seq<Seq<char>>,
    pub exclude_dirs: Seq<Seq<char>>,
}

/// The source-file filtering rule of a unit: directories whose files belong
/// to it, minus excluded subdirectories.
#[derive(Debug, PartialEq)]
pub struct CrateSource {
    pub include_dirs: Vec<String>,
    pub exclude_dirs: Vec<String>,
}

impl DeepView for CrateSource {
    type V = CrateSourceV;

    open spec fn deep_view(&self) -> CrateSourceV {
        CrateSourceV {
            include_dirs: self.include_dirs.deep_view(),
            exclude_dirs: self.exclude_dirs.deep_view(),
        }
    }
}

/// The spec-level shape of a [`BuildInfo`].
pub ghost struct BuildInfoV {
    pub label: Seq<char>,
    pub build_file: Seq<char>,
    pub target_kind: TargetKind,
}

/// Build-system data about one unit.
#[derive(Debug, PartialEq)]
pub struct BuildInfo {
    /// The build-system label of the unit (here: the target name).
    pub label: String,
    /// The build-system file that defines the unit (here: the manifest path).
    pub build_file: String,
    /// The simplified kind of the unit's target.
    pub target_kind: TargetKind,
}

impl DeepView for BuildInfo {
    type V = BuildInfoV;

    open spec fn deep_view(&self) -> BuildInfoV {
        BuildInfoV {
            label: self.label@,
            build_file: self.build_file@,
            target_kind: self.target_kind,
        }
    }
}

/// The spec-level shape of a [`Crate`].
pub ghost struct CrateV {
    pub display_name: Option<Seq<char>>,
    pub root_module: Seq<char>,
    pub edition: Seq<char>,
    pub version: Option<Seq<char>>,
    pub deps: Seq<DepV>,
    pub is_workspace_member: bool,
    pub source: Option<CrateSourceV>,
    pub cfg: Seq<Seq<char>>,
    pub target: Option<Seq<char>>,
    pub env: Seq<crate::util::EnvVarV>,
    pub is_proc_macro: bool,
    pub proc_macro_dylib_path: Option<Seq<char>>,
    pub repository: Option<Seq<char>>,
    pub build: Option<BuildInfoV>,
    pub proc_macro_cwd: Option<Seq<char>>,
}

/// One flat compilation unit of the final descriptor.
///
/// Dependency references are plain indices into the unit array, so the array
/// is the sole owner of all units.
#[derive(Debug, PartialEq)]
pub struct Crate {
    /// Display name of the unit, dashes replaced by underscores.
    pub display_name: Option<String>,
    /// Path to the unit's root source file.
    pub root_module: String,
    /// The source-language edition of the unit.
    pub edition: String,
    /// The version of the owning package.
    pub version: Option<String>,
    /// Dependency references, ordered by unit index.
    pub deps: Vec<Dep>,
    /// Whether the owning package is a workspace member.
    pub is_workspace_member: bool,
    /// The source-file filtering rule of the unit.
    pub source: Option<CrateSource>,
    /// One `feature="<name>"` entry per enabled feature of the package.
    pub cfg: Vec<String>,
    /// Target tuple; the lowering stage leaves it unset.
    pub target: Option<String>,
    /// Environment variables captured from the package's build script run.
    pub env: Vec<crate::util::EnvVar>,
    /// Whether the unit is a compile-time plugin.
    pub is_proc_macro: bool,
    /// Path to the compiled plugin artifact, when one was recorded.
    pub proc_macro_dylib_path: Option<String>,
    /// Repository URL of the owning package.
    pub repository: Option<String>,
    /// Build-system data about the unit.
    pub build: Option<BuildInfo>,
    /// The working directory for running the unit's plugins.
    pub proc_macro_cwd: Option<String>,
}

impl DeepView for Crate {
    type V = CrateV;

    open spec fn deep_view(&self) -> CrateV {
        CrateV {
            display_name: self.display_name.deep_view(),
            root_module: self.root_module@,
            edition: self.edition@,
            version: self.version.deep_view(),
            deps: self.deps.deep_view(),
            is_workspace_member: self.is_workspace_member,
            source: self.source.deep_view(),
            cfg: self.cfg.deep_view(),
            target: self.target.deep_view(),
            env: self.env.deep_view(),
            is_proc_macro: self.is_proc_macro,
            proc_macro_dylib_path: self.proc_macro_dylib_path.deep_view(),
            repository: self.repository.deep_view(),
            build: self.build.deep_view(),
            proc_macro_cwd: self.proc_macro_cwd.deep_view(),
        }
    }
}

/// What kind of runnable a [`Runnable`] is.
#[derive(Debug, Clone)]
pub enum RunnableKind {
    /// Runs one test; offered as a code lens above a test.
    TestOne,
    /// Any other build-system-specific runnable kind.
    Text(String),
}

impl RunnableKind {
    /// The descriptor text of the runnable kind.
    pub fn as_string(&self) -> (r: String)
        ensures
            match self {
                RunnableKind::TestOne => r@ == "testOne"@,
                RunnableKind::Text(s) => r@ == s@,
            },
    {
        match self {
            RunnableKind::TestOne => String::from_str("testOne"),
            RunnableKind::Text(s) => s.clone(),
        }
    }
}

/// A command template for running or debugging targets without build-system
/// knowledge in the consuming tool.
#[derive(Debug, Clone)]
pub struct Runnable {
    /// The program to invoke.
    pub program: String,
    /// The arguments to pass; may contain `{label}` and `{test_id}` template
    /// strings.
    pub args: Vec<String>,
    /// The working directory of the invocation.
    pub cwd: String,
    /// What code lens to offer for this runnable.
    pub kind: RunnableKind,
}

/// The complete project descriptor: the flat unit list plus toolchain
/// locations, assembled by the caller around the lowering stage's output.
#[derive(Debug)]
pub struct ProjectJson {
    /// Path to the sysroot directory, where the compiler's built-in crates
    /// live.
    pub sysroot: String,
    /// Path to the directory with the source code of the sysroot crates.
    pub sysroot_src: Option<String>,
    /// The units of the project, all transitive dependencies included.
    pub crates: Vec<Crate>,
    /// Command templates for running and debugging.
    pub runnables: Vec<Runnable>,
}

} // verus!
