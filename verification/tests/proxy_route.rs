use llamastash::cli::resolve::CatalogRow;
use llamastash::daemon::ManagedState;
use llamastash::discovery::{DiscoveredModel, ModelMetadata, ModelSource};
use llamastash::proxy::route::{
    catalog_row_from_discovered, decide, extract_model, read_failure, same_path,
    substring_candidates, BodyError, RouteDecision, SupervisorEntry,
};
use llamastash::proxy::router::{
    count_ready, list_model_ids, model_id_for, not_found, not_implemented, route_for, Endpoint,
    HttpMethod,
};

fn row(path: &str, parent: &str) -> CatalogRow {
    CatalogRow {
        path: path.to_string(),
        model_id: None,
        parent: parent.to_string(),
        source: "user".to_string(),
        arch: Some("llama".to_string()),
        quant: Some("Q4_K".to_string()),
        native_ctx: Some(8192),
        mode_hint: None,
        parameter_label: None,
        weights_bytes: None,
        display_label: None,
        parse_error: None,
        split_siblings: Vec::new(),
        has_chat_template: false,
        has_reasoning_hint: false,
        tokenizer_kind: None,
        total_parameters: None,
    }
}

#[test]
fn substring_candidates_returns_zero_for_unmatched() {
    let rows = vec![row("/m/llama.gguf", "/m")];
    assert!(substring_candidates(&rows, "phi").is_empty());
}

#[test]
fn substring_candidates_returns_multiple_for_ambiguous() {
    let rows = vec![
        row("/m/qwen-coder-7b.gguf", "/m"),
        row("/m/qwen-coder-13b.gguf", "/m"),
    ];
    let cands = substring_candidates(&rows, "qwen-coder");
    assert_eq!(cands.len(), 2);
}

#[test]
fn substring_candidates_unique_match_returns_one() {
    let rows = vec![row("/m/qwen.gguf", "/m"), row("/m/llama.gguf", "/m")];
    let cands = substring_candidates(&rows, "llama");
    assert_eq!(cands.len(), 1);
}

#[test]
fn substring_candidates_ignore_case_and_surrounding_space() {
    let rows = vec![row("/m/Llama-3.gguf", "/m"), row("/m/qwen.gguf", "/m")];
    let cands = substring_candidates(&rows, "  LLAMA ");
    assert_eq!(cands.len(), 1);
    assert_eq!(cands[0].path, "/m/Llama-3.gguf");
}

#[test]
fn substring_candidates_match_on_parent_directory() {
    let rows = vec![row("/models/a.gguf", "/models/Coder"), row("/x/b.gguf", "/x")];
    let cands = substring_candidates(&rows, "coder");
    assert_eq!(cands.len(), 1);
    assert_eq!(cands[0].path, "/models/a.gguf");
}

#[test]
fn substring_candidates_exact_path_wins_over_substring() {
    let rows = vec![row("/m/llama.gguf", "/m"), row("/m/llama.gguf.bak.gguf", "/m")];
    let cands = substring_candidates(&rows, "/m/llama.gguf");
    assert_eq!(cands.len(), 1);
    assert_eq!(cands[0].path, "/m/llama.gguf");
}

#[test]
fn substring_candidates_exact_name_wins_over_substring() {
    let rows = vec![row("/a/llama.gguf", "/a"), row("/b/tinyllama.gguf", "/b")];
    let cands = substring_candidates(&rows, "llama.gguf");
    assert_eq!(cands.len(), 1);
    assert_eq!(cands[0].path, "/a/llama.gguf");
}

#[test]
fn substring_candidates_blank_reference_selects_nothing() {
    let rows = vec![row("/m/llama.gguf", "/m")];
    assert!(substring_candidates(&rows, "   ").is_empty());
}

#[test]
fn row_name_prefers_display_label() {
    let mut r = row("/m/blob-sha", "/m");
    assert_eq!(r.name(), "blob-sha");
    r.display_label = Some("qwen3:8b".to_string());
    assert_eq!(r.name(), "qwen3:8b");
}

fn sup(path: &str, port: u16, state: ManagedState) -> SupervisorEntry {
    SupervisorEntry { path: path.to_string(), port, state }
}

#[test]
fn decide_requires_a_model() {
    let rows = vec![row("/m/llama.gguf", "/m")];
    assert!(matches!(decide(None, &rows, &[]), RouteDecision::ModelRequired));
    assert!(matches!(decide(Some(String::new()), &rows, &[]), RouteDecision::ModelRequired));
}

#[test]
fn decide_not_found_and_ambiguous() {
    let rows = vec![row("/m/qwen-7b.gguf", "/m"), row("/m/qwen-13b.gguf", "/m")];
    match decide(Some("phi".to_string()), &rows, &[]) {
        RouteDecision::NotFound { requested_model } => assert_eq!(requested_model, "phi"),
        other => panic!("unexpected {other:?}"),
    }
    match decide(Some("qwen".to_string()), &rows, &[]) {
        RouteDecision::Ambiguous { requested_model, candidates } => {
            assert_eq!(requested_model, "qwen");
            assert_eq!(candidates, vec!["qwen-7b.gguf".to_string(), "qwen-13b.gguf".to_string()]);
        }
        other => panic!("unexpected {other:?}"),
    }
}

#[test]
fn decide_picks_first_ready_supervisor_of_the_resolved_file() {
    let rows = vec![row("/m/llama.gguf", "/m"), row("/m/qwen.gguf", "/m")];
    let sups = vec![
        sup("/m/qwen.gguf", 41100, ManagedState::Ready),
        sup("/m/llama.gguf", 41101, ManagedState::Loading),
        sup("/m/llama.gguf", 41102, ManagedState::Ready),
        sup("/m/llama.gguf", 41103, ManagedState::Ready),
    ];
    match decide(Some("llama".to_string()), &rows, &sups) {
        RouteDecision::ReadyAt { port, served_model_id, requested_model, fallback, fallback_reason } => {
            assert_eq!(port, 41102);
            assert_eq!(served_model_id, "llama.gguf");
            assert_eq!(requested_model, "llama");
            assert!(!fallback);
            assert!(fallback_reason.is_none());
        }
        other => panic!("unexpected {other:?}"),
    }
}

#[test]
fn decide_not_running_carries_the_resolved_row() {
    let rows = vec![row("/m/llama.gguf", "/m")];
    let sups = vec![sup("/m/llama.gguf", 41101, ManagedState::Stopped)];
    match decide(Some("llama".to_string()), &rows, &sups) {
        RouteDecision::NotRunning { requested_model, resolved_row, arch } => {
            assert_eq!(requested_model, "llama");
            assert_eq!(resolved_row.path, "/m/llama.gguf");
            assert_eq!(arch.as_deref(), Some("llama"));
        }
        other => panic!("unexpected {other:?}"),
    }
}

#[test]
fn catalog_row_projection_keeps_fields() {
    let m = DiscoveredModel {
        path: "/m/a.gguf".to_string(),
        parent: "/m".to_string(),
        source: ModelSource::Ollama,
        metadata: Some(ModelMetadata {
            arch: Some("qwen3".to_string()),
            quant: "Q5_K".to_string(),
            native_ctx: Some(32768),
            parameter_label: Some("8B".to_string()),
            weights_bytes: Some(123),
        }),
        parse_error: None,
        split_siblings: vec!["/m/b.gguf".to_string()],
        display_label: Some("qwen3:8b".to_string()),
    };
    let r = catalog_row_from_discovered(&m);
    assert_eq!(r.path, "/m/a.gguf");
    assert_eq!(r.source, "ollama");
    assert_eq!(r.arch.as_deref(), Some("qwen3"));
    assert_eq!(r.quant.as_deref(), Some("Q5_K"));
    assert_eq!(r.native_ctx, Some(32768));
    assert_eq!(r.weights_bytes, Some(123));
    assert_eq!(r.display_label.as_deref(), Some("qwen3:8b"));
    assert_eq!(r.split_siblings, vec!["/m/b.gguf".to_string()]);
    assert!(r.model_id.is_none());
    assert!(same_path(&"/m/a.gguf".to_string(), &r.path));
    assert!(!same_path(&"/m/b.gguf".to_string(), &r.path));
}

#[test]
fn body_extraction_outcomes() {
    assert!(matches!(extract_model(b"", Err("x".into())), Ok(None)));
    match extract_model(b"{", Err("EOF while parsing".to_string())) {
        Err(BodyError::Malformed { message }) => {
            assert_eq!(message, "request body is not valid JSON: EOF while parsing")
        }
        other => panic!("unexpected {other:?}"),
    }
    assert!(matches!(extract_model(b"{}", Ok(None)), Ok(None)));
    assert!(matches!(extract_model(b"{\"model\":\"  \"}", Ok(Some("  ".into()))), Ok(None)));
    match extract_model(b"{\"model\":\" llama \"}", Ok(Some(" llama ".into()))) {
        Ok(Some(m)) => assert_eq!(m, "llama"),
        other => panic!("unexpected {other:?}"),
    }
    assert!(matches!(read_failure(true, "x"), BodyError::TooLarge));
    match read_failure(false, "reset") {
        BodyError::Read { message } => assert_eq!(message, "failed to read request body: reset"),
        other => panic!("unexpected {other:?}"),
    }
}

#[test]
fn router_dispatch_table() {
    let p = |s: &str| s.to_string();
    assert_eq!(route_for(HttpMethod::Get, &p("/health")), Endpoint::Health);
    assert_eq!(route_for(HttpMethod::Get, &p("/v1/models")), Endpoint::ListModels);
    assert_eq!(route_for(HttpMethod::Post, &p("/v1/chat/completions")), Endpoint::NotImplemented);
    assert_eq!(route_for(HttpMethod::Post, &p("/v1/completions")), Endpoint::NotImplemented);
    assert_eq!(route_for(HttpMethod::Post, &p("/v1/embeddings")), Endpoint::NotImplemented);
    assert_eq!(route_for(HttpMethod::Post, &p("/v1/rerank")), Endpoint::NotImplemented);
    assert_eq!(route_for(HttpMethod::Post, &p("/health")), Endpoint::NotFound);
    assert_eq!(route_for(HttpMethod::Get, &p("/v1/rerank")), Endpoint::NotFound);
    assert_eq!(route_for(HttpMethod::Other, &p("/health")), Endpoint::NotFound);
    let e = not_implemented();
    assert_eq!((e.status, e.kind.as_str()), (501, "not_implemented"));
    let e = not_found();
    assert_eq!((e.status, e.kind.as_str(), e.message.as_str()), (404, "not_found", "no such route"));
}

#[test]
fn ready_count_and_model_listing() {
    assert_eq!(
        count_ready(&[
            ManagedState::Ready,
            ManagedState::Loading,
            ManagedState::Ready,
            ManagedState::Error,
            ManagedState::Stopped
        ]),
        2
    );
    assert_eq!(count_ready(&[]), 0);
    let m = |path: &str, label: Option<&str>| DiscoveredModel {
        path: path.to_string(),
        parent: "/m".to_string(),
        source: ModelSource::UserPath,
        metadata: None,
        parse_error: None,
        split_siblings: Vec::new(),
        display_label: label.map(|s| s.to_string()),
    };
    assert_eq!(model_id_for(&m("/m/qwen2.5-coder.gguf", None)), "qwen2.5-coder");
    assert_eq!(model_id_for(&m("/m/blob", Some("llama3:8b"))), "llama3:8b");
    let catalog = vec![m("/m/zeta.gguf", None), m("/m/alpha.gguf", None), m("/m/x", Some("mid"))];
    assert_eq!(list_model_ids(&catalog), vec!["alpha", "mid", "zeta"]);
    assert!(list_model_ids(&[]).is_empty());
}
