use llamastash::launch::binary::{
    check_explicit, check_found, first_on_path, locate, locate_source, search_path, Canonical,
    LocateError, LocateInputs,
    LocateSource,
};

fn inputs(cli: Option<&str>, env: Option<&str>, cfg: Option<&str>) -> LocateInputs {
    LocateInputs {
        cli_flag: cli.map(str::to_string),
        env_var: env.map(str::to_string),
        config_path: cfg.map(str::to_string),
    }
}

#[test]
fn missing_explicit_path_returns_actionable_error() {
    let err = locate(&inputs(Some("/nonexistent/llama-server"), None, None), |_: &String| None).unwrap_err();
    match err {
        LocateError::ExplicitPathMissing(p) => {
            assert_eq!(p, "/nonexistent/llama-server");
        }
        other => panic!("expected ExplicitPathMissing, got {other:?}"),
    }
}

#[test]
fn priority_order_flag_env_config_path() {
    match locate_source(&inputs(Some("/a"), Some("/b"), Some("/c"))) {
        LocateSource::Explicit(p) => assert_eq!(p, "/a"),
        other => panic!("{other:?}"),
    }
    match locate_source(&inputs(None, Some("/b"), Some("/c"))) {
        LocateSource::Explicit(p) => assert_eq!(p, "/b"),
        other => panic!("{other:?}"),
    }
    match locate_source(&inputs(None, Some(""), Some("/c"))) {
        LocateSource::Explicit(p) => assert_eq!(p, "/c"),
        other => panic!("{other:?}"),
    }
    assert!(matches!(locate_source(&inputs(None, Some(""), None)), LocateSource::SearchPath));
}

#[test]
fn explicit_path_must_be_a_regular_file() {
    let ok = check_explicit(
        "./bin/llama-server".to_string(),
        Some(Canonical { path: "/opt/bin/llama-server".to_string(), is_file: true }),
    );
    assert_eq!(ok.unwrap(), "/opt/bin/llama-server");
    let dir = check_explicit(
        "./bin".to_string(),
        Some(Canonical { path: "/opt/bin".to_string(), is_file: false }),
    );
    assert!(matches!(dir, Err(LocateError::ExplicitPathMissing(p)) if p == "./bin"));
}

#[test]
fn path_lookup_takes_the_first_candidate() {
    assert_eq!(
        first_on_path(vec!["/usr/bin/llama-server".to_string(), "/opt/llama-server".to_string()])
            .unwrap(),
        "/usr/bin/llama-server"
    );
    assert!(matches!(first_on_path(Vec::new()), Err(LocateError::NotFound)));
}

#[test]
fn no_sources_returns_not_found_when_path_lacks_binary() {
    match locate(&inputs(None, None, None), as_found) {
        Ok(p) => assert!(
            std::path::Path::new(&p).exists(),
            "if locate succeeded, the path must be real: {}",
            p
        ),
        Err(LocateError::NotFound) => {}
        Err(other) => panic!("unexpected error: {other:?}"),
    }
}

#[test]
fn error_messages_name_flag_and_env_var() {
    let m = LocateError::NotFound.message();
    assert!(m.contains("--llama-server <path>"));
    assert!(m.contains("LLAMATUI_LLAMA_SERVER"));
    assert_eq!(
        LocateError::ExplicitPathMissing("/x".to_string()).message(),
        "configured `llama-server` path does not exist: /x"
    );
}

// The shell canonicalises on disk; these hand `locate` a canonicaliser
// that resolves names under a fixed directory.

fn under(dir: &'static str) -> impl Fn(&String) -> Option<Canonical> {
    move |p: &String| Some(Canonical { path: format!("{dir}/{p}"), is_file: true })
}

fn as_found(p: &String) -> Option<Canonical> {
    Some(Canonical { path: p.clone(), is_file: true })
}

#[test]
fn cli_flag_wins_over_env_and_config() {
    let i = inputs(Some("cli-target"), Some("env-target"), None);
    let out = locate(&i, under("/tmp/cli-wins")).expect("locate");
    assert_eq!(out, "/tmp/cli-wins/cli-target");
}

#[test]
fn empty_env_var_falls_through_to_next_source() {
    let i = inputs(None, Some(""), Some("cfg-target"));
    let out = locate(&i, under("/tmp/empty-env")).expect("locate");
    assert_eq!(out, "/tmp/empty-env/cfg-target");
}

#[test]
fn path_candidate_is_canonicalised_and_must_be_a_file() {
    let i = inputs(None, None, None);
    match search_path() {
        Ok(cand) => {
            assert!(cand.ends_with("llama-server"));
            let out = locate(&i, |p: &String| {
                Some(Canonical { path: format!("/canon{p}"), is_file: true })
            });
            assert_eq!(out.unwrap(), format!("/canon{cand}"));
            let dir = locate(&i, |p: &String| Some(Canonical { path: p.clone(), is_file: false }));
            assert!(matches!(dir, Err(LocateError::NotFound)));
        }
        Err(e) => assert!(matches!(e, LocateError::NotFound)),
    }
    assert!(matches!(check_found(None), Err(LocateError::NotFound)));
    assert!(matches!(
        check_found(Some(Canonical { path: "/d".to_string(), is_file: false })),
        Err(LocateError::NotFound)
    ));
    assert_eq!(
        check_found(Some(Canonical { path: "/usr/bin/llama-server".to_string(), is_file: true }))
            .unwrap(),
        "/usr/bin/llama-server"
    );
}
