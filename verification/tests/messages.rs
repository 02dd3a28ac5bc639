use cargo_subspace::check_command_args;
use cargo_subspace::discover::{decode_build_line, is_dylib, BuildMessage};
use cargo_subspace::paths::{FilePathBuf, PathInput};
use cargo_subspace::rust_project::{RawTargetKind, RunnableKind, TargetKind};
use cargo_subspace::util::{feature_cfg_string, underscore_name};
use cargo_subspace::SubspaceError;

#[test]
fn decode_build_script_executed_line() {
    let line = ["{\"reason\":\"build-script-executed\",\"package_id\":\"reg+c 1.0\",",
        "\"linked_libs\":[],\"linked_paths\":[],\"cfgs\":[],",
        "\"env\":[[\"FOO\",\"bar\"]],\"out_dir\":\"/tmp/out\"}"]
        .join("");
    match decode_build_line(&line).unwrap() {
        BuildMessage::BuildScriptExecuted { package_id, out_dir, env } => {
            assert_eq!(package_id, "reg+c 1.0");
            assert_eq!(out_dir, "/tmp/out");
            assert_eq!(env.len(), 1);
            assert_eq!(env[0].name, "FOO");
            assert_eq!(env[0].value, "bar");
        }
        other => panic!("unexpected message: {:?}", message_kind(&other)),
    }
}

#[test]
fn decode_compiler_artifact_line() {
    let line = ["{\"reason\":\"compiler-artifact\",\"package_id\":\"reg+d 1.0\",",
        "\"target\":{\"name\":\"d\",\"kind\":[\"proc-macro\"],\"crate_types\":[\"proc-macro\"],",
        "\"src_path\":\"/w/d/src/lib.rs\",\"edition\":\"2021\"},",
        "\"profile\":{\"opt_level\":\"0\",\"debuginfo\":0,\"debug_assertions\":true,",
        "\"overflow_checks\":true,\"test\":false},",
        "\"features\":[],\"filenames\":[\"/t/deps/libd.so\"],\"executable\":null,\"fresh\":false}"]
        .join("");
    match decode_build_line(&line).unwrap() {
        BuildMessage::CompilerArtifact { package_id, is_proc_macro, filenames } => {
            assert_eq!(package_id, "reg+d 1.0");
            assert!(is_proc_macro);
            assert_eq!(filenames, vec!["/t/deps/libd.so".to_string()]);
        }
        other => panic!("unexpected message: {:?}", message_kind(&other)),
    }
}

#[test]
fn decode_uninteresting_message_kinds_as_other() {
    let line = "{\"reason\":\"build-finished\",\"success\":true}".to_string();
    assert!(matches!(decode_build_line(&line).unwrap(), BuildMessage::Other));
}

#[test]
fn decode_malformed_line_is_a_hard_error() {
    let line = "{not json at all".to_string();
    let err = decode_build_line(&line).unwrap_err();
    match err {
        SubspaceError::InvalidBuildMessage { .. } => {}
        other => panic!("unexpected error kind: {}", other.message()),
    }
    assert!(err.message().starts_with("Failed to decode build message: "));
}

fn message_kind(m: &BuildMessage) -> &'static str {
    match m {
        BuildMessage::CompilerArtifact { .. } => "compiler-artifact",
        BuildMessage::BuildScriptExecuted { .. } => "build-script-executed",
        BuildMessage::Other => "other",
    }
}

#[test]
fn dylib_detection_goes_by_extension() {
    assert!(is_dylib(&"/t/deps/libd.so".to_string()));
    assert!(is_dylib(&"/t/deps/d.dll".to_string()));
    assert!(is_dylib(&"/t/deps/libd.dylib".to_string()));
    assert!(!is_dylib(&"/t/deps/libd.rlib".to_string()));
    assert!(!is_dylib(&"/t/deps/libd".to_string()));
    assert!(!is_dylib(&"/t/deps/so".to_string()));
}

#[test]
fn target_kind_priority_mapping() {
    assert_eq!(TargetKind::new(&[RawTargetKind::Bin]), TargetKind::Bin);
    assert_eq!(TargetKind::new(&[RawTargetKind::Lib]), TargetKind::Lib);
    assert_eq!(TargetKind::new(&[RawTargetKind::Test]), TargetKind::Test);
    assert_eq!(TargetKind::new(&[RawTargetKind::Bench]), TargetKind::Test);
    assert_eq!(TargetKind::new(&[RawTargetKind::Example]), TargetKind::Bin);
    assert_eq!(TargetKind::new(&[RawTargetKind::CustomBuild]), TargetKind::Bin);
    assert_eq!(TargetKind::new(&[RawTargetKind::ProcMacro]), TargetKind::Lib);
    assert_eq!(TargetKind::new(&[RawTargetKind::DyLib]), TargetKind::Lib);
    assert_eq!(TargetKind::new(&[RawTargetKind::CDyLib]), TargetKind::Lib);
    assert_eq!(TargetKind::new(&[RawTargetKind::StaticLib]), TargetKind::Lib);
    assert_eq!(TargetKind::new(&[RawTargetKind::RLib]), TargetKind::Lib);
    // the first recognized tag wins; unrecognized tags are skipped
    assert_eq!(
        TargetKind::new(&[RawTargetKind::Other, RawTargetKind::Test, RawTargetKind::Lib]),
        TargetKind::Test
    );
    // no recognized tag defaults to Bin
    assert_eq!(TargetKind::new(&[]), TargetKind::Bin);
    assert_eq!(TargetKind::new(&[RawTargetKind::Other]), TargetKind::Bin);
}

#[test]
fn underscore_name_replaces_every_dash() {
    assert_eq!(underscore_name("foo-bar-baz"), "foo_bar_baz");
    assert_eq!(underscore_name("plain"), "plain");
    assert_eq!(underscore_name(""), "");
}

#[test]
fn feature_cfg_formatting() {
    assert_eq!(feature_cfg_string(&"x".to_string()), "feature=\"x\"");
    assert_eq!(feature_cfg_string(&"".to_string()), "feature=\"\"");
}

#[test]
fn file_path_validation() {
    let ok = FilePathBuf::from_input(PathInput {
        text: "/w/a/Cargo.toml".to_string(),
        is_file: true,
    })
    .unwrap();
    assert_eq!(ok.as_str(), "/w/a/Cargo.toml");
    assert_eq!(ok.parent_str(), "/w/a");

    let not_a_file = FilePathBuf::from_input(PathInput {
        text: "/w/a".to_string(),
        is_file: false,
    })
    .unwrap_err();
    assert_eq!(not_a_file.message(), "`/w/a` is not a file");

    let no_parent = FilePathBuf::from_input(PathInput { text: "/".to_string(), is_file: true })
        .unwrap_err();
    assert_eq!(no_parent.message(), "`/` has no parent directory");
}

#[test]
fn runnable_kind_text() {
    assert_eq!(RunnableKind::TestOne.as_string(), "testOne");
    assert_eq!(RunnableKind::Text("custom".to_string()).as_string(), "custom");
}

#[test]
fn check_args_for_each_output_mode() {
    let passthrough = vec!["--offline".to_string()];
    let tty = check_command_args(
        &"check".to_string(),
        true,
        false,
        &"/w/a/Cargo.toml".to_string(),
        &passthrough,
    );
    assert_eq!(
        tty,
        vec![
            "check".to_string(),
            "--message-format=human".to_string(),
            "--keep-going".to_string(),
            "--all-targets".to_string(),
            "--manifest-path".to_string(),
            "/w/a/Cargo.toml".to_string(),
            "--offline".to_string(),
        ]
    );
    let piped = check_command_args(
        &"clippy".to_string(),
        false,
        false,
        &"/w/a/Cargo.toml".to_string(),
        &Vec::new(),
    );
    assert_eq!(piped[1], "--message-format=json-diagnostic-rendered-ansi");
    let no_color = check_command_args(
        &"check".to_string(),
        false,
        true,
        &"/w/a/Cargo.toml".to_string(),
        &Vec::new(),
    );
    assert_eq!(no_color[1], "--message-format=json");
}
