//! Per-request dispatch for the proxy's fixed routes, and the values the
//! `/health` and `/v1/models` handlers report.
use vstd::prelude::*;

use crate::daemon::ManagedState;
use crate::discovery::DiscoveredModel;
use crate::paths::{file_stem, file_stem_string};
use crate::text::{ascending, lemma_ascending_unique, lemma_sorted_views_ascending, owned, sort_strings, views};

verus! {

broadcast use vstd::seq_lib::group_seq_properties;

/// The request methods the routes distinguish.
#[derive(Debug, Clone, Copy, PartialEq, Eq, Structural)]
pub enum HttpMethod {
    Get,
    Post,
    Other,
}

/// Which handler answers a request.
#[derive(Debug, Clone, Copy, PartialEq, Eq, Structural)]
pub enum Endpoint {
    /// `GET /health`.
    Health,
    /// `GET /v1/models`.
    ListModels,
    /// `POST` to one of the four OpenAI endpoints not served yet (501).
    NotImplemented,
    /// Anything else (404).
    NotFound,
}

/// The dispatch table.
pub open spec fn endpoint_for(method: HttpMethod, path: Seq<char>) -> Endpoint {
    if method == HttpMethod::Get && path == "/health"@ {
        Endpoint::Health
    } else if method == HttpMethod::Get && path == "/v1/models"@ {
        Endpoint::ListModels
    } else if method == HttpMethod::Post && (path == "/v1/chat/completions"@ || path
        == "/v1/completions"@ || path == "/v1/embeddings"@ || path == "/v1/rerank"@) {
        Endpoint::NotImplemented
    } else {
        Endpoint::NotFound
    }
}

fn path_is(path: &String, lit: &str) -> (b: bool)
    ensures
        b == (path@ == lit@),
{
    *path == owned(lit)
}

/// Pick the handler for `(method, path)` (see [`endpoint_for`]).
pub fn route_for(method: HttpMethod, path: &String) -> (r: Endpoint)
    ensures
        r == endpoint_for(method, path@),
{
    if method == HttpMethod::Get && path_is(path, "/health") {
        Endpoint::Health
    } else if method == HttpMethod::Get && path_is(path, "/v1/models") {
        Endpoint::ListModels
    } else if method == HttpMethod::Post && (path_is(path, "/v1/chat/completions") || path_is(
        path,
        "/v1/completions",
    ) || path_is(path, "/v1/embeddings") || path_is(path, "/v1/rerank")) {
        Endpoint::NotImplemented
    } else {
        Endpoint::NotFound
    }
}

/// An OpenAI-shaped error reply: HTTP status, error `type` and message.
#[derive(Debug)]
pub struct ErrorReply {
    pub status: u16,
    pub kind: String,
    pub message: String,
}

/// The 501 reply of the OpenAI endpoints not served yet.
pub fn not_implemented() -> (r: ErrorReply)
    ensures
        r.status == 501,
        r.kind@ == "not_implemented"@,
        r.message@ == "endpoint not implemented yet"@,
{
    ErrorReply {
        status: 501,
        kind: owned("not_implemented"),
        message: owned("endpoint not implemented yet"),
    }
}

/// The 404 reply for an unknown route.
pub fn not_found() -> (r: ErrorReply)
    ensures
        r.status == 404,
        r.kind@ == "not_found"@,
        r.message@ == "no such route"@,
{
    ErrorReply { status: 404, kind: owned("not_found"), message: owned("no such route") }
}

/// Number of supervisors in the Ready state.
pub open spec fn ready_count(states: Seq<ManagedState>) -> nat {
    states.filter(|s: ManagedState| s == ManagedState::Ready).len()
}

/// Count supervisors currently Ready (`models_loaded` of `/health`).
pub fn count_ready(states: &[ManagedState]) -> (r: usize)
    ensures
        r == ready_count(states@),
{
    let n = states.len();
    let mut ready: usize = 0;
    for i in 0..n
        invariant
            n == states@.len(),
            ready == ready_count(states@.take(i as int)),
            ready <= i,
    {
        proof {
            assert(states@.take(i + 1) == states@.take(i as int).push(states@[i as int]));
            states@.take(i as int).lemma_filter_push(
                states@[i as int],
                |s: ManagedState| s == ManagedState::Ready,
            );
        }
        if states[i] == ManagedState::Ready {
            ready = ready + 1;
        }
    }
    assert(states@.take(n as int) == states@);
    ready
}

/// The `id` of a model in `/v1/models`: its display label when it has
/// one, else the path's file stem, else the whole path.
pub open spec fn model_id(m: DiscoveredModel) -> Seq<char> {
    match m.display_label {
        Some(l) => l@,
        None => match file_stem(m.path@) {
            Some(s) => s,
            None => m.path@,
        },
    }
}

/// Project a discovered model onto its OpenAI `id` (see [`model_id`]).
pub fn model_id_for(m: &DiscoveredModel) -> (r: String)
    ensures
        r@ == model_id(*m),
{
    if let Some(label) = &m.display_label {
        return label.clone();
    }
    match file_stem_string(m.path.as_str()) {
        Some(s) => s,
        None => m.path.clone(),
    }
}

/// `ids` lists every id of `catalog` (with multiplicity), ascending.
pub open spec fn is_model_listing(catalog: Seq<DiscoveredModel>, ids: Seq<Seq<char>>) -> bool {
    &&& ids.to_multiset() == catalog.map_values(|m: DiscoveredModel| model_id(m)).to_multiset()
    &&& ascending(ids)
}

/// The ids `/v1/models` lists: every discovered model's id, sorted
/// ascending.
pub fn list_model_ids(catalog: &[DiscoveredModel]) -> (r: Vec<String>)
    ensures
        is_model_listing(catalog@, views(r@)),
{
    let mut ids: Vec<String> = Vec::new();
    let n = catalog.len();
    for i in 0..n
        invariant
            n == catalog@.len(),
            views(ids@) == catalog@.take(i as int).map_values(|m: DiscoveredModel| model_id(m)),
    {
        let ghost before = ids@;
        let id = model_id_for(&catalog[i]);
        ids.push(id);
        assert(views(ids@) =~= views(before).push(id@));
        assert(catalog@.take(i + 1).map_values(|m: DiscoveredModel| model_id(m)) =~= catalog@.take(
            i as int,
        ).map_values(|m: DiscoveredModel| model_id(m)).push(model_id(catalog@[i as int])));
    }
    assert(catalog@.take(n as int) == catalog@);
    let sorted = sort_strings(ids);
    proof {
        lemma_sorted_views_ascending(sorted@);
    }
    sorted
}

/// The model list is deterministic and independent of the order the
/// catalog is stored in: catalogs with the same ids list them identically.
pub proof fn lemma_model_listing_order_independent(
    c1: Seq<DiscoveredModel>,
    c2: Seq<DiscoveredModel>,
    ids1: Seq<Seq<char>>,
    ids2: Seq<Seq<char>>,
)
    requires
        c1.map_values(|m: DiscoveredModel| model_id(m)).to_multiset() == c2.map_values(
            |m: DiscoveredModel| model_id(m),
        ).to_multiset(),
        is_model_listing(c1, ids1),
        is_model_listing(c2, ids2),
    ensures
        ids1 == ids2,
{
    lemma_ascending_unique(ids1, ids2);
}

} // verus!
