use llamastash::launch::params::{compose, LaunchMode, LaunchParams};

fn strs(args: &[String]) -> Vec<String> {
    args.to_vec()
}

fn base_params() -> LaunchParams {
    LaunchParams::new("/m/model.gguf".to_string(), LaunchMode::Chat)
}

#[test]
fn chat_mode_emits_canonical_argv_prefix() {
    let p = base_params();
    let argv = strs(&compose(&p, 41100));
    let head: Vec<&str> = argv.iter().map(String::as_str).take(6).collect();
    assert_eq!(
        head,
        vec!["--host", "127.0.0.1", "--port", "41100", "-m", "/m/model.gguf"]
    );
    assert!(!argv.iter().any(|a| a == "--embeddings" || a == "--reranking"));
}

#[test]
fn embedding_mode_adds_embeddings_flag() {
    let mut p = base_params();
    p.mode = LaunchMode::Embedding;
    let argv = strs(&compose(&p, 41100));
    assert!(argv.iter().any(|a| a == "--embeddings"));
    assert!(!argv.iter().any(|a| a == "--reranking"));
}

#[test]
fn rerank_mode_adds_reranking_flag() {
    let mut p = base_params();
    p.mode = LaunchMode::Rerank;
    let argv = strs(&compose(&p, 41100));
    assert!(argv.iter().any(|a| a == "--reranking"));
}

#[test]
fn reasoning_bundles_jinja_and_deepseek() {
    let mut p = base_params();
    p.reasoning = true;
    let argv = strs(&compose(&p, 41100));
    assert!(argv.iter().any(|a| a == "--jinja"));
    let i = argv.iter().position(|a| a == "--reasoning-format").unwrap();
    assert_eq!(argv[i + 1], "deepseek");
}

#[test]
fn ctx_override_emits_dash_c() {
    let mut p = base_params();
    p.ctx = Some(32768);
    let argv = strs(&compose(&p, 41100));
    let i = argv.iter().position(|a| a == "-c").unwrap();
    assert_eq!(argv[i + 1], "32768");
}

#[test]
fn ctx_unset_omits_dash_c() {
    let p = base_params();
    let argv = strs(&compose(&p, 41100));
    assert!(!argv.iter().any(|a| a == "-c"));
}

#[test]
fn advanced_flags_land_at_the_end_to_override_bundled() {
    let mut p = base_params();
    p.reasoning = true;
    p.advanced = vec![
        "--reasoning-format".to_string(),
        "none".to_string(),
        "--threads".to_string(),
        "8".to_string(),
    ];
    let argv = strs(&compose(&p, 41100));
    let positions: Vec<usize> = argv
        .iter()
        .enumerate()
        .filter(|(_, a)| *a == "--reasoning-format")
        .map(|(i, _)| i)
        .collect();
    assert_eq!(positions.len(), 2, "bundled + override both present");
    let last = *positions.last().unwrap();
    assert_eq!(argv[last + 1], "none", "advanced override is last");
}

#[test]
fn allocated_port_appears_after_port_flag() {
    let p = base_params();
    let argv = strs(&compose(&p, 41200));
    let i = argv.iter().position(|a| a == "--port").unwrap();
    assert_eq!(argv[i + 1], "41200");
}

#[test]
fn full_argv_with_every_knob_in_documented_order() {
    let mut p = base_params();
    p.mode = LaunchMode::Embedding;
    p.reasoning = true;
    p.ctx = Some(4096);
    p.advanced = vec!["-ngl".to_string(), "99".to_string()];
    assert_eq!(
        compose(&p, 0),
        vec![
            "--host", "127.0.0.1", "--port", "0", "-m", "/m/model.gguf", "--embeddings",
            "--jinja", "--reasoning-format", "deepseek", "-c", "4096", "-ngl", "99"
        ]
    );
    assert_eq!(compose(&p, 65535)[3], "65535");
}

#[test]
fn new_params_use_defaults() {
    let p = base_params();
    assert_eq!(p.ctx, None);
    assert_eq!(p.port, None);
    assert!(!p.reasoning);
    assert!(p.advanced.is_empty());
}
