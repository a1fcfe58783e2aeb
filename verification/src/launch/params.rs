//! Compose `llama-server` argv from the user's launch choices.
//!
//! Order: `--host 127.0.0.1 --port <port>`, then `-m <path>`, then the
//! mode flag (`--embeddings` / `--reranking`), then the reasoning bundle
//! (`--jinja --reasoning-format deepseek`), then `-c <ctx>`, then the
//! user's advanced flags. Advanced flags come last so they always trump
//! bundled ones (`llama-server` honours the right-most occurrence).
use vstd::prelude::*;

use crate::text::{decimal, decimal_string, owned, views};

verus! {

broadcast use vstd::seq_lib::group_seq_properties;

/// What a launched server serves.
#[derive(Debug, Clone, Copy, PartialEq, Eq, Structural)]
pub enum LaunchMode {
    Chat,
    Embedding,
    Rerank,
}

/// All launch knobs the supervisor reads.
#[derive(Debug)]
pub struct LaunchParams {
    /// Path of the GGUF to serve (shard 1 for split sets).
    pub model_path: String,
    /// Chat / embedding / rerank.
    pub mode: LaunchMode,
    /// Context length; `None` keeps the GGUF's native value (no `-c`).
    pub ctx: Option<u32>,
    /// Listening port; `None` leaves allocation to the supervisor.
    pub port: Option<u16>,
    /// Reasoning bundle on/off.
    pub reasoning: bool,
    /// Free-form pass-through flags.
    pub advanced: Vec<String>,
}

impl LaunchParams {
    /// Defaults for a model: native context, allocated port, reasoning
    /// off, no advanced flags.
    pub fn new(model_path: String, mode: LaunchMode) -> (r: LaunchParams)
        ensures
            r.model_path == model_path,
            r.mode == mode,
            r.ctx is None,
            r.port is None,
            !r.reasoning,
            r.advanced@.len() == 0,
    {
        LaunchParams { model_path, mode, ctx: None, port: None, reasoning: false, advanced: Vec::new() }
    }
}

/// The flag a launch mode adds.
pub open spec fn mode_flags(mode: LaunchMode) -> Seq<Seq<char>> {
    match mode {
        LaunchMode::Chat => Seq::empty(),
        LaunchMode::Embedding => seq!["--embeddings"@],
        LaunchMode::Rerank => seq!["--reranking"@],
    }
}

/// The reasoning bundle, when enabled.
pub open spec fn reasoning_flags(on: bool) -> Seq<Seq<char>> {
    if on {
        seq!["--jinja"@, "--reasoning-format"@, "deepseek"@]
    } else {
        Seq::empty()
    }
}

/// `-c <ctx>` when a context length was chosen.
pub open spec fn ctx_flags(ctx: Option<u32>) -> Seq<Seq<char>> {
    match ctx {
        Some(c) => seq!["-c"@, decimal(c as nat)],
        None => Seq::empty(),
    }
}

/// The fixed leading part: host, port and model.
pub open spec fn head_flags(model_path: Seq<char>, port: u16) -> Seq<Seq<char>> {
    seq!["--host"@, "127.0.0.1"@, "--port"@, decimal(port as nat), "-m"@, model_path]
}

/// Every flag except the user's advanced ones.
pub open spec fn bundled_argv(p: LaunchParams, port: u16) -> Seq<Seq<char>> {
    head_flags(p.model_path@, port) + mode_flags(p.mode) + reasoning_flags(p.reasoning) + ctx_flags(
        p.ctx,
    )
}

/// The argv `compose` produces.
pub open spec fn compose_argv(p: LaunchParams, port: u16) -> Seq<Seq<char>> {
    bundled_argv(p, port) + views(p.advanced@)
}

fn push_arg(v: &mut Vec<String>, s: String)
    ensures
        views(final(v)@) == views(old(v)@).push(s@),
{
    v.push(s);
    assert(views(v@) =~= views(old(v)@).push(s@));
}

/// Materialise the argv handed to `llama-server`, listening on
/// `allocated_port`.
pub fn compose(params: &LaunchParams, allocated_port: u16) -> (argv: Vec<String>)
    ensures
        views(argv@) == compose_argv(*params, allocated_port),
{
    let mut argv: Vec<String> = Vec::new();
    push_arg(&mut argv, owned("--host"));
    push_arg(&mut argv, owned("127.0.0.1"));
    push_arg(&mut argv, owned("--port"));
    push_arg(&mut argv, decimal_string(allocated_port as u64));
    push_arg(&mut argv, owned("-m"));
    push_arg(&mut argv, params.model_path.clone());
    assert(views(argv@) =~= head_flags(params.model_path@, allocated_port));
    let ghost head = views(argv@);
    match params.mode {
        LaunchMode::Chat => {},
        LaunchMode::Embedding => push_arg(&mut argv, owned("--embeddings")),
        LaunchMode::Rerank => push_arg(&mut argv, owned("--reranking")),
    }
    assert(views(argv@) =~= head + mode_flags(params.mode));
    let ghost with_mode = views(argv@);
    if params.reasoning {
        push_arg(&mut argv, owned("--jinja"));
        push_arg(&mut argv, owned("--reasoning-format"));
        push_arg(&mut argv, owned("deepseek"));
    }
    assert(views(argv@) =~= with_mode + reasoning_flags(params.reasoning));
    let ghost with_reasoning = views(argv@);
    if let Some(ctx) = params.ctx {
        push_arg(&mut argv, owned("-c"));
        push_arg(&mut argv, decimal_string(ctx as u64));
    }
    assert(views(argv@) =~= with_reasoning + ctx_flags(params.ctx));
    assert(views(argv@) == bundled_argv(*params, allocated_port));
    let ghost bundled = views(argv@);
    let n = params.advanced.len();
    for i in 0..n
        invariant
            n == params.advanced@.len(),
            views(argv@) == bundled + views(params.advanced@.take(i as int)),
    {
        push_arg(&mut argv, params.advanced[i].clone());
        assert(views(params.advanced@.take(i + 1)) =~= views(params.advanced@.take(i as int)).push(
            params.advanced@[i as int]@,
        ));
    }
    assert(params.advanced@.take(n as int) == params.advanced@);
    argv
}

/// The user's advanced flags are exactly the tail of the argv, so any flag
/// they repeat overrides the bundled one.
pub proof fn lemma_advanced_flags_last(p: LaunchParams, port: u16)
    ensures
        ({
            let argv = compose_argv(p, port);
            let k = p.advanced@.len() as int;
            &&& argv.len() >= k
            &&& argv.subrange(argv.len() - k, argv.len() as int) == views(p.advanced@)
        }),
{
    let argv = compose_argv(p, port);
    let b = bundled_argv(p, port);
    assert(argv.subrange(b.len() as int, argv.len() as int) =~= views(p.advanced@));
}

/// The argv starts with the listening address and the model, and the
/// mode, reasoning and context flags sit right behind it in that order.
pub proof fn lemma_argv_layout(p: LaunchParams, port: u16)
    ensures
        ({
            let argv = compose_argv(p, port);
            let m = mode_flags(p.mode).len() as int;
            let r = reasoning_flags(p.reasoning).len() as int;
            &&& argv.subrange(0, 6) == head_flags(p.model_path@, port)
            &&& argv[2] == "--port"@
            &&& argv[3] == decimal(port as nat)
            &&& argv[5] == p.model_path@
            &&& (p.mode == LaunchMode::Embedding ==> argv[6] == "--embeddings"@)
            &&& (p.mode == LaunchMode::Rerank ==> argv[6] == "--reranking"@)
            &&& (p.reasoning ==> argv[6 + m] == "--jinja"@ && argv[7 + m] == "--reasoning-format"@
                && argv[8 + m] == "deepseek"@)
            &&& (p.ctx matches Some(c) ==> argv[6 + m + r] == "-c"@ && argv[7 + m + r] == decimal(
                c as nat,
            ))
        }),
{
    let argv = compose_argv(p, port);
    assert(argv.subrange(0, 6) =~= head_flags(p.model_path@, port));
}

} // verus!
