//! Build-metadata discovery for an IDE integration bridge.
//!
//! The crate turns a build tool's resolved workspace description into a flat,
//! analysis-ready list of compilation units: it ingests package metadata into
//! a graph, prunes the graph down to one package and its transitive
//! dependencies, correlates compile-time artifact records (proc-macro
//! binaries, build-script environments) onto the graph, and lowers the graph
//! into index-linked crate descriptions.

pub mod error;
pub mod paths;
pub mod rust_project;
pub mod util;
pub mod graph;
pub mod lower;
pub mod discover;

pub use error::SubspaceError;

use vstd::prelude::*;
use vstd::string::StringExecFns;

use crate::util::{lemma_take_one_more, push_elem};

verus! {

/// The message-format flag a delegated check passes on: human-readable in a
/// terminal, JSON otherwise, with ANSI-rendered diagnostics unless they were
/// disabled.
pub open spec fn spec_message_format(is_tty: bool, disable_color_diagnostics: bool) -> Seq<char> {
    if is_tty {
        "--message-format=human"@
    } else if disable_color_diagnostics {
        "--message-format=json"@
    } else {
        "--message-format=json-diagnostic-rendered-ansi"@
    }
}

/// The full argument list of a delegated check or clippy invocation.
pub open spec fn spec_check_args(
    command: Seq<char>,
    is_tty: bool,
    disable_color_diagnostics: bool,
    manifest_path: Seq<char>,
    passthrough: Seq<Seq<char>>,
) -> Seq<Seq<char>> {
    seq![
        command,
        spec_message_format(is_tty, disable_color_diagnostics),
        "--keep-going"@,
        "--all-targets"@,
        "--manifest-path"@,
        manifest_path,
    ] + passthrough
}

/// Builds the argument list for delegating a check or clippy run to the
/// build tool: the subcommand, the message format fitting the output mode,
/// keep-going over all targets of the given manifest, then the caller's
/// pass-through arguments.
#[verifier::loop_isolation(false)]
pub fn check_command_args(
    command: &String,
    is_tty: bool,
    disable_color_diagnostics: bool,
    manifest_path: &String,
    passthrough: &Vec<String>,
) -> (r: Vec<String>)
    ensures
        r.deep_view() == spec_check_args(
            command@,
            is_tty,
            disable_color_diagnostics,
            manifest_path@,
            passthrough.deep_view(),
        ),
{
    let ghost head = spec_check_args(
        command@,
        is_tty,
        disable_color_diagnostics,
        manifest_path@,
        Seq::empty(),
    );
    let mut r: Vec<String> = Vec::new();
    push_elem(&mut r, command.clone());
    let format = if is_tty {
        String::from_str("--message-format=human")
    } else if disable_color_diagnostics {
        String::from_str("--message-format=json")
    } else {
        String::from_str("--message-format=json-diagnostic-rendered-ansi")
    };
    push_elem(&mut r, format);
    push_elem(&mut r, String::from_str("--keep-going"));
    push_elem(&mut r, String::from_str("--all-targets"));
    push_elem(&mut r, String::from_str("--manifest-path"));
    push_elem(&mut r, manifest_path.clone());
    proof {
        assert(r.deep_view() =~= head);
        assert(head + Seq::<Seq<char>>::empty() =~= head);
    }
    let ghost pv = passthrough.deep_view();
    let mut i: usize = 0;
    while i < passthrough.len()
        invariant
            0 <= i <= passthrough@.len(),
            r.deep_view() == head + pv.take(i as int),
        decreases passthrough@.len() - i,
    {
        proof {
            crate::util::lemma_vec_deep_view(passthrough);
        }
        push_elem(&mut r, passthrough[i].clone());
        proof {
            lemma_take_one_more(pv, i as int);
            assert(r.deep_view() =~= head + pv.take(i as int + 1));
        }
        i = i + 1;
    }
    proof {
        assert(pv.take(i as int) =~= pv);
    }
    r
}

} // verus!
