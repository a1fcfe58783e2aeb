use llamastash::daemon::runtime_file::{
    current_schema_version, parse_result, path, read_result, save_io_error, LoadError,
    ReadOutcome, RuntimeInfo, SaveError, RUNTIME_FILE_MODE, RUNTIME_SCHEMA_VERSION,
};
use llamastash::discovery::scanner::{
    exclude_override, is_model_file, model_from_parse, sibling_shards, ScanOptions,
};
use llamastash::discovery::{ModelMetadata, ModelSource};
use llamastash::paths::{
    file_name_string, file_stem_string, has_extension, join_path_string, parent_or_empty_string,
    parent_string,
};
use llamastash::text::{decimal_string, sort_strings, trim_string};

fn sample() -> RuntimeInfo {
    RuntimeInfo {
        schema_version: RUNTIME_SCHEMA_VERSION,
        ipc_url: "http://127.0.0.1:11436".into(),
        ipc_token: "abc123_token".into(),
        started_at_unix: 1_748_534_400,
        daemon_pid: 12345,
    }
}

#[test]
fn runtime_file_lives_under_the_state_dir() {
    assert_eq!(path("/state"), "/state/runtime.json");
    assert_eq!(path("/state/"), "/state/runtime.json");
    assert_eq!(path(""), "runtime.json");
    assert_eq!(current_schema_version(), 1);
    assert_eq!(RUNTIME_FILE_MODE, 0o600);
}

#[test]
fn load_outcomes() {
    assert!(matches!(read_result("/s", ReadOutcome::Absent), Ok(None)));
    assert_eq!(read_result("/s", ReadOutcome::Contents("{}".into())).unwrap(), Some("{}".to_string()));
    match read_result("/s", ReadOutcome::Failed("denied".into())) {
        Err(LoadError::Io { path, error }) => {
            assert_eq!(path, "/s/runtime.json");
            assert_eq!(error, "denied");
        }
        other => panic!("{other:?}"),
    }
    assert_eq!(parse_result("/s", Ok(sample())).unwrap(), Some(sample()));
    let err = parse_result("/s", Err("expected value".into())).unwrap_err();
    assert!(matches!(err, LoadError::Parse { .. }));
    assert_eq!(err.message(), "runtime-info parse at /s/runtime.json: expected value");
    let e = save_io_error("/s", "full".into());
    assert!(matches!(&e, SaveError::Io { path, .. } if path == "/s/runtime.json"));
    assert_eq!(e.message(), "runtime-info I/O at /s/runtime.json: full");
    assert_eq!(SaveError::Serialise("x".into()).message(), "runtime-info serialise: x");
}

#[test]
fn scanner_decisions() {
    assert_eq!(ScanOptions { excludes: vec![], channel_capacity: None }.channel_capacity(), 64);
    assert_eq!(ScanOptions { excludes: vec![], channel_capacity: Some(2) }.channel_capacity(), 2);
    assert!(is_model_file("/m/a.gguf", true));
    assert!(!is_model_file("/m/a.gguf.part", true));
    assert!(!is_model_file("/m/a.gguf", false));
    assert!(!is_model_file("/m/.gguf", true));
    assert!(!is_model_file("/m/a.GGUF", true));
    assert_eq!(exclude_override("skip/**"), "!skip/**");
    let shards = vec!["/m/s-1.gguf".to_string(), "/m/s-2.gguf".to_string(), "/m/s-3.gguf".to_string()];
    assert_eq!(sibling_shards(&shards, &shards[0]), vec!["/m/s-2.gguf", "/m/s-3.gguf"]);
    let m = model_from_parse("/m/bad.gguf".into(), ModelSource::UserPath, Err("bad magic".into()), vec![]);
    assert_eq!(m.parent, "/m");
    assert!(m.metadata.is_none());
    assert_eq!(m.parse_error.as_deref(), Some("bad magic"));
    assert_eq!(m.source, ModelSource::UserPath);
    let md = ModelMetadata { arch: None, quant: "F16".into(), native_ctx: None, parameter_label: None, weights_bytes: None };
    let m = model_from_parse("a.gguf".into(), ModelSource::HuggingFace, Ok(md), vec!["b.gguf".into()]);
    assert!(m.metadata.is_some() && m.parse_error.is_none());
    assert_eq!(m.parent, "");
    assert_eq!(m.split_siblings, vec!["b.gguf".to_string()]);
}

#[test]
fn path_components_follow_std_semantics() {
    for p in ["/m/a.gguf", "a.gguf", "/m/a.gguf/", "/m//a.tar.gz", "/m/.hidden", "/m/a.", "/", "", ".", "..", "/m/..", "./a", "a/.", "/m/a/./", "x.y/z"] {
        let std_name = std::path::Path::new(p).file_name().map(|s| s.to_string_lossy().into_owned());
        let std_stem = std::path::Path::new(p).file_stem().map(|s| s.to_string_lossy().into_owned());
        assert_eq!(file_name_string(p), std_name, "file_name of {p:?}");
        assert_eq!(file_stem_string(p), std_stem, "file_stem of {p:?}");
        for ext in ["gguf", "gz", "", "hidden"] {
            let std_ext = std::path::Path::new(p).extension().map(|s| s.to_string_lossy().into_owned());
            assert_eq!(has_extension(p, ext), std_ext.as_deref() == Some(ext), "extension of {p:?}");
        }
        for rel in ["runtime.json", "/abs"] {
            let joined = std::path::Path::new(p).join(rel).to_string_lossy().into_owned();
            assert_eq!(join_path_string(p, rel), joined, "join of {p:?}");
        }
    }
}

#[test]
fn text_helpers() {
    assert_eq!(decimal_string(0), "0");
    assert_eq!(decimal_string(18_446_744_073_709_551_615), "18446744073709551615");
    assert_eq!(trim_string("\t a b \n\u{3000}"), "a b");
    assert_eq!(trim_string("   "), "");
    let sorted = sort_strings(vec!["b".into(), "a".into(), "B".into(), "ab".into(), "a".into()]);
    assert_eq!(sorted, vec!["B", "a", "a", "ab", "b"]);
}

// The file-system halves of loading live in the application shell; these
// drive the library's half with what the shell hands over for the same
// situations.

#[test]
fn load_returns_none_when_file_absent() {
    let got = read_result("/tmp/absent", ReadOutcome::Absent).expect("load");
    assert_eq!(got, None);
}

#[test]
fn load_surfaces_parse_error_on_corrupt_json() {
    let text = read_result("/tmp/parse-err", ReadOutcome::Contents("not-json".into()))
        .expect("read")
        .expect("file present");
    let parsed = serde_json::from_str::<serde_json::Value>(&text).map_err(|e| e.to_string());
    let err = parse_result("/tmp/parse-err", parsed.map(|_| sample())).expect_err("must surface parse error");
    assert!(matches!(err, LoadError::Parse { .. }));
}

#[test]
fn parent_follows_std_semantics() {
    for p in [
        "/m/a.gguf", "a.gguf", "/m/a.gguf/", "/m//a.gguf", "/", "", ".", "..", "/m/..", "./a", "a/.",
        "/m/a/./", "x.y/z", "//", "/a", "./", "./.", "a/./b", "a/b/.//", "../a", "/.", "a//", ".a/b",
        "..a/b", "/m/./.", "./a/b",
    ] {
        let std_parent = std::path::Path::new(p).parent().map(|d| d.to_string_lossy().into_owned());
        assert_eq!(parent_string(p), std_parent, "parent of {p:?}");
        assert_eq!(parent_or_empty_string(p), std_parent.unwrap_or_default(), "parent of {p:?}");
    }
}
