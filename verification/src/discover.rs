//! Correlation of the build pre-pass output onto the graph.
//!
//! The build tool emits a line-delimited stream of structured messages while
//! it compiles compile-time plugins and runs build scripts. Each line is
//! decoded independently into a [`BuildMessage`]; applying a message to the
//! graph records a compiled plugin artifact or a build-script environment on
//! the package it belongs to. The caller reads the stream line by line and
//! feeds each line through [`decode_build_line`] and
//! [`CrateGraph::apply_message`].

use vstd::prelude::*;

use crate::error::SubspaceError;
use crate::graph::{find_id, BuildScriptInfo, BuildScriptInfoV, CrateGraph, PackageNodeV};
use crate::paths::extension_of;
use crate::util::{lemma_vec_deep_view, EnvVar, EnvVarV};

verus! {

/// The spec-level shape of a [`BuildMessage`].
pub ghost enum BuildMessageV {
    CompilerArtifact { package_id: Seq<char>, is_proc_macro: bool, filenames: Seq<Seq<char>> },
    BuildScriptExecuted { package_id: Seq<char>, out_dir: Seq<char>, env: Seq<EnvVarV> },
    Other,
}

/// One decoded message of the build pre-pass stream.
#[derive(Debug)]
pub enum BuildMessage {
    /// The compiler produced artifacts for a target; the owning target may
    /// or may not be a compile-time plugin.
    CompilerArtifact { package_id: String, is_proc_macro: bool, filenames: Vec<String> },
    /// A build script ran, exporting an output directory and environment
    /// variables.
    BuildScriptExecuted { package_id: String, out_dir: String, env: Vec<EnvVar> },
    /// Any other message kind; ignored.
    Other,
}

impl DeepView for BuildMessage {
    type V = BuildMessageV;

    open spec fn deep_view(&self) -> BuildMessageV {
        match self {
            BuildMessage::CompilerArtifact { package_id, is_proc_macro, filenames } => {
                BuildMessageV::CompilerArtifact {
                    package_id: package_id@,
                    is_proc_macro: *is_proc_macro,
                    filenames: filenames.deep_view(),
                }
            },
            BuildMessage::BuildScriptExecuted { package_id, out_dir, env } => {
                BuildMessageV::BuildScriptExecuted {
                    package_id: package_id@,
                    out_dir: out_dir@,
                    env: env.deep_view(),
                }
            },
            BuildMessage::Other => BuildMessageV::Other,
        }
    }
}

/// What one line of the build tool's message stream decodes to, or nothing
/// when the line is not a well-formed message. The decoding depends on the
/// line's text alone.
pub uninterp spec fn decoded_message(line: Seq<char>) -> Option<BuildMessageV>;

#[verifier::external_type_specification]
#[verifier::external_body]
pub struct ExJsonError(serde_json::Error);

/// Relies on serde_json::from_str deserializing cargo_metadata::Message (one
/// JSON build message per line; artifact and build-script variants keep
/// their fields, every other variant is ignored) and on
/// cargo_metadata::Target::is_proc_macro for the plugin flag.
#[verifier::external_body]
fn parse_message_line(line: &String) -> (r: Result<BuildMessage, serde_json::Error>)
    ensures
        r is Ok <==> decoded_message(line@) is Some,
        r is Ok ==> Some(r->Ok_0.deep_view()) == decoded_message(line@),
{
    match serde_json::from_str::<cargo_metadata::Message>(line) {
        Ok(cargo_metadata::Message::CompilerArtifact(a)) => Ok(BuildMessage::CompilerArtifact {
            package_id: a.package_id.repr,
            is_proc_macro: a.target.is_proc_macro(),
            filenames: a.filenames.into_iter().map(|f| f.into_string()).collect(),
        }),
        Ok(cargo_metadata::Message::BuildScriptExecuted(s)) => Ok(
            BuildMessage::BuildScriptExecuted {
                package_id: s.package_id.repr,
                out_dir: s.out_dir.into_string(),
                env: s.env.into_iter().map(|(n, v)| EnvVar { name: n, value: v }).collect(),
            },
        ),
        Ok(_) => Ok(BuildMessage::Other), Err(e) => Err(e),
    }
}

/// Relies on the std `ToString` (`Display`) rendering of a
/// serde_json::Error, used only as human-readable error detail.
#[verifier::external_body]
fn json_error_detail(e: &serde_json::Error) -> (r: String) {
    e.to_string()
}

/// Decodes one line of the build pre-pass stream.
///
/// A line that is not a well-formed message is a hard error: the message
/// protocol is assumed intact, so a corrupt line means an incompatible build
/// tool.
pub fn decode_build_line(line: &String) -> (r: Result<BuildMessage, SubspaceError>)
    ensures
        r is Ok <==> decoded_message(line@) is Some,
        r is Ok ==> Some(r->Ok_0.deep_view()) == decoded_message(line@),
        r is Err ==> r->Err_0 is InvalidBuildMessage,
{
    match parse_message_line(line) {
        Ok(m) => Ok(m),
        Err(e) => Err(SubspaceError::InvalidBuildMessage { detail: json_error_detail(&e) }),
    }
}

/// Whether a path names a dynamic-library artifact, judged by its file
/// extension.
pub open spec fn spec_is_dylib(path: Seq<char>) -> bool {
    match extension_of(path) {
        Some(e) => e == "dylib"@ || e == "so"@ || e == "dll"@,
        None => false,
    }
}

/// Whether a path names a dynamic-library artifact (`.so`, `.dll` or
/// `.dylib`).
pub fn is_dylib(path: &String) -> (r: bool)
    ensures
        r == spec_is_dylib(path@),
{
    match crate::paths::path_extension(path) {
        Some(e) => {
            let dylib = String::from_str("dylib");
            let so = String::from_str("so");
            let dll = String::from_str("dll");
            e == dylib || e == so || e == dll
        },
        None => false,
    }
}

/// The first dynamic-library path among an artifact's file names.
pub open spec fn first_dylib_from(files: Seq<Seq<char>>, i: int) -> Option<Seq<char>>
    decreases files.len() - i when 0 <= i <= files.len()
{
    if i < 0 || i >= files.len() {
        None
    } else if spec_is_dylib(files[i]) {
        Some(files[i])
    } else {
        first_dylib_from(files, i + 1)
    }
}

/// The first dynamic-library path among an artifact's file names, if any.
pub open spec fn first_dylib(files: Seq<Seq<char>>) -> Option<Seq<char>> {
    first_dylib_from(files, 0)
}

/// What applying a message leaves of the graph: an artifact message with a
/// dynamic-library file and a plugin target records the artifact path on the
/// first node with the message's package id; a build-script message records
/// the script's output on that node; everything else, a message naming no
/// node in the graph included, changes nothing.
pub open spec fn apply_message_spec(g: Seq<PackageNodeV>, m: BuildMessageV) -> Seq<PackageNodeV> {
    match m {
        BuildMessageV::CompilerArtifact { package_id, is_proc_macro, filenames } => {
            match first_dylib(filenames) {
                Some(dylib) => {
                    if is_proc_macro && find_id(g, package_id) != -1 {
                        let f = find_id(g, package_id);
                        g.update(f, PackageNodeV { proc_macro_dylib: Some(dylib), ..g[f] })
                    } else {
                        g
                    }
                },
                None => g,
            }
        },
        BuildMessageV::BuildScriptExecuted { package_id, out_dir, env } => {
            if find_id(g, package_id) != -1 {
                let f = find_id(g, package_id);
                g.update(
                    f,
                    PackageNodeV {
                        build_script: Some(BuildScriptInfoV { out_dir, env }),
                        ..g[f]
                    },
                )
            } else {
                g
            }
        },
        BuildMessageV::Other => g,
    }
}

/// Finds the first dynamic-library path among an artifact's file names.
fn find_first_dylib(files: &Vec<String>) -> (r: Option<String>)
    ensures
        match r {
            Some(p) => Some(p@) == first_dylib(files.deep_view()),
            None => first_dylib(files.deep_view()) is None,
        },
{
    let ghost fv = files.deep_view();
    let mut i: usize = 0;
    proof {
        lemma_vec_deep_view(files);
    }
    while i < files.len()
        invariant
            0 <= i <= files@.len(),
            fv == files.deep_view(),
            first_dylib(fv) == first_dylib_from(fv, i as int),
        decreases files@.len() - i,
    {
        proof {
            assert(fv[i as int] == files@[i as int]@);
        }
        if is_dylib(&files[i]) {
            return Some(files[i].clone());
        }
        i = i + 1;
    }
    None
}

impl CrateGraph {
    /// Correlates one decoded build message onto the graph.
    ///
    /// A compiled-artifact message records the artifact path on the owning
    /// package when the artifact is a dynamic library and the target is a
    /// compile-time plugin; a build-script message records the script's
    /// output directory and environment on the owning package. A message
    /// whose package id names no node — the package may have been pruned
    /// away — changes nothing.
    #[verifier::loop_isolation(false)]
    pub fn apply_message(&mut self, message: BuildMessage)
        ensures
            final(self).deep_view() == apply_message_spec(
                old(self).deep_view(),
                message.deep_view(),
            ),
    {
        let ghost g = self.deep_view();
        match message {
            BuildMessage::CompilerArtifact { package_id, is_proc_macro, filenames } => {
                let dylib = match find_first_dylib(&filenames) {
                    Some(d) => d,
                    None => {
                        return ;
                    },
                };
                let ghost dv = dylib@;
                if !is_proc_macro {
                    return ;
                }
                let ni = match crate::graph::find_by_id(&self.inner, &package_id) {
                    Some(n) => n,
                    None => {
                        return ;
                    },
                };
                proof {
                    lemma_vec_deep_view(&self.inner);
                }
                let ghost beforea = self.inner@;
                let ni2 = ni;
                self.inner[ni2].proc_macro_dylib = Some(dylib);
                proof {
                    lemma_vec_deep_view(&self.inner);
                    assert(self.inner@ == beforea.update(ni as int, self.inner@[ni as int]));
                    assert(beforea[ni as int].deep_view() == g[ni as int]);
                    assert(self.inner@[ni as int].deep_view() == (PackageNodeV {
                        proc_macro_dylib: Some(dv),
                        ..g[ni as int]
                    }));
                    assert(self.deep_view() =~= g.update(
                        ni as int,
                        PackageNodeV { proc_macro_dylib: Some(dv), ..g[ni as int] },
                    )) by {
                        assert forall|m: int| 0 <= m < g.len() implies self.inner.deep_view()[m]
                            == g.update(
                            ni as int,
                            PackageNodeV { proc_macro_dylib: Some(dv), ..g[ni as int] },
                        )[m] by {
                            if m != ni as int {
                                assert(self.inner@[m] == beforea[m]);
                                assert(beforea[m].deep_view() == g[m]);
                            }
                        }
                    }
                }
            },
            BuildMessage::BuildScriptExecuted { package_id, out_dir, env } => {
                let ghost odv = out_dir@;
                let ghost ev = env.deep_view();
                let ni = match crate::graph::find_by_id(&self.inner, &package_id) {
                    Some(n) => n,
                    None => {
                        return ;
                    },
                };
                proof {
                    lemma_vec_deep_view(&self.inner);
                }
                let ghost beforea = self.inner@;
                let ni2 = ni;
                self.inner[ni2].build_script = Some(BuildScriptInfo { out_dir, env });
                proof {
                    lemma_vec_deep_view(&self.inner);
                    assert(self.inner@ == beforea.update(ni as int, self.inner@[ni as int]));
                    assert(beforea[ni as int].deep_view() == g[ni as int]);
                    assert(self.inner@[ni as int].deep_view() == (PackageNodeV {
                        build_script: Some(BuildScriptInfoV { out_dir: odv, env: ev }),
                        ..g[ni as int]
                    }));
                    assert(self.deep_view() =~= g.update(
                        ni as int,
                        PackageNodeV {
                            build_script: Some(BuildScriptInfoV { out_dir: odv, env: ev }),
                            ..g[ni as int]
                        },
                    )) by {
                        assert forall|m: int| 0 <= m < g.len() implies self.inner.deep_view()[m]
                            == g.update(
                            ni as int,
                            PackageNodeV {
                                build_script: Some(BuildScriptInfoV { out_dir: odv, env: ev }),
                                ..g[ni as int]
                            },
                        )[m] by {
                            if m != ni as int {
                                assert(self.inner@[m] == beforea[m]);
                                assert(beforea[m].deep_view() == g[m]);
                            }
                        }
                    }
                }
            },
            BuildMessage::Other => {},
        }
    }
}

} // verus!
