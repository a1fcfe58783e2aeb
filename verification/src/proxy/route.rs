//! Pre-flight for `/v1/...` requests: turn the requested model and the
//! shared catalog / supervisor snapshots into a forwarding plan.
//!
//! Resolution precedence for a model reference (after trimming): rows
//! whose path equals it, else rows whose name equals it, else rows whose
//! lower-cased name or parent directory contains it lower-cased. Exactly
//! one candidate resolves; none is "not found"; several are ambiguous.
use vstd::prelude::*;

use crate::cli::resolve::{row_name, same_row, CatalogRow};
use crate::daemon::ManagedState;
use crate::discovery::DiscoveredModel;
use crate::text::{
    chars_of, clone_opt_string, clone_strings, contains_chars, has_substring, owned, spec_lowercase,
    to_lowercase, trim, trim_string, views,
};

verus! {

broadcast use vstd::seq_lib::group_seq_properties, vstd::seq_lib::group_filter_ensures;

/// Inbound body size cap (2 MiB). Larger bodies are answered with 413.
pub const BODY_LIMIT_BYTES: usize = 2097152;

// ---------------------------------------------------------------------
// Candidate selection
// ---------------------------------------------------------------------

pub open spec fn path_is(needle: Seq<char>) -> spec_fn(CatalogRow) -> bool {
    |r: CatalogRow| r.path@ == needle
}

pub open spec fn name_is(needle: Seq<char>) -> spec_fn(CatalogRow) -> bool {
    |r: CatalogRow| row_name(r) == needle
}

/// Case-insensitive substring match on the row's name or its parent
/// directory.
pub open spec fn loosely_matches(needle: Seq<char>) -> spec_fn(CatalogRow) -> bool {
    |r: CatalogRow|
        has_substring(spec_lowercase(row_name(r)), spec_lowercase(needle)) || has_substring(
            spec_lowercase(r.parent@),
            spec_lowercase(needle),
        )
}

/// The rows a model reference selects, in catalog order (see the module
/// documentation for the precedence).
pub open spec fn candidates(rows: Seq<CatalogRow>, reference: Seq<char>) -> Seq<CatalogRow> {
    let needle = trim(reference);
    if needle.len() == 0 {
        Seq::empty()
    } else if rows.filter(path_is(needle)).len() > 0 {
        rows.filter(path_is(needle))
    } else if rows.filter(name_is(needle)).len() > 0 {
        rows.filter(name_is(needle))
    } else {
        rows.filter(loosely_matches(needle))
    }
}

/// The rows behind a vector of row references.
pub open spec fn deref_rows<'a>(s: Seq<&'a CatalogRow>) -> Seq<CatalogRow> {
    s.map_values(|x: &'a CatalogRow| *x)
}

/// Which of the three selection stages a filter loop runs.
enum Stage {
    Path,
    Name,
    Loose,
}

spec fn stage_pred(stage: Stage, needle: Seq<char>) -> spec_fn(CatalogRow) -> bool {
    match stage {
        Stage::Path => path_is(needle),
        Stage::Name => name_is(needle),
        Stage::Loose => loosely_matches(needle),
    }
}

fn row_selected(row: &CatalogRow, stage: &Stage, needle: &String, lower_needle: &Vec<char>) -> (b:
    bool)
    requires
        lower_needle@ == spec_lowercase(needle@),
    ensures
        b == stage_pred(*stage, needle@)(*row),
{
    match stage {
        Stage::Path => row.path == *needle,
        Stage::Name => row.name() == *needle,
        Stage::Loose => {
            let name = row.name();
            let lname = chars_of(to_lowercase(name.as_str()).as_str());
            if contains_chars(&lname, lower_needle) {
                true
            } else {
                let lparent = chars_of(to_lowercase(row.parent.as_str()).as_str());
                contains_chars(&lparent, lower_needle)
            }
        },
    }
}

fn select_rows<'a>(rows: &'a [CatalogRow], stage: Stage, needle: &String) -> (r: Vec<
    &'a CatalogRow,
>)
    ensures
        deref_rows(r@) == rows@.filter(stage_pred(stage, needle@)),
{
    let lower_needle = chars_of(to_lowercase(needle.as_str()).as_str());
    let mut out: Vec<&'a CatalogRow> = Vec::new();
    let n = rows.len();
    for i in 0..n
        invariant
            n == rows@.len(),
            lower_needle@ == spec_lowercase(needle@),
            deref_rows(out@) == rows@.take(i as int).filter(stage_pred(stage, needle@)),
    {
        let ghost before = out@;
        let row = &rows[i];
        if row_selected(row, &stage, needle, &lower_needle) {
            out.push(row);
            assert(deref_rows(out@) == deref_rows(before).push(rows@[i as int]));
        }
        proof {
            assert(rows@.take(i + 1) == rows@.take(i as int).push(rows@[i as int]));
            rows@.take(i as int).lemma_filter_push(rows@[i as int], stage_pred(stage, needle@));
        }
    }
    assert(rows@.take(n as int) == rows@);
    out
}

/// The catalog rows a model reference selects (see [`candidates`]).
pub fn substring_candidates<'a>(rows: &'a [CatalogRow], reference: &str) -> (r: Vec<
    &'a CatalogRow,
>)
    ensures
        deref_rows(r@) == candidates(rows@, reference@),
{
    let needle = trim_string(reference);
    if needle.as_str().unicode_len() == 0 {
        let empty: Vec<&'a CatalogRow> = Vec::new();
        assert(deref_rows(empty@) == Seq::<CatalogRow>::empty());
        return empty;
    }
    let exact_path = select_rows(rows, Stage::Path, &needle);
    if exact_path.len() > 0 {
        return exact_path;
    }
    let exact_name = select_rows(rows, Stage::Name, &needle);
    if exact_name.len() > 0 {
        return exact_name;
    }
    select_rows(rows, Stage::Loose, &needle)
}

// ---------------------------------------------------------------------
// Catalog rows from discovered models
// ---------------------------------------------------------------------

/// `r` is the catalog row the proxy builds for the discovered model `m`:
/// every field carried over, metadata fields taken from the parsed header
/// (absent when it did not parse), the source as its label, and the
/// fields only the daemon's IPC catalog knows left empty.
pub open spec fn is_row_for(r: CatalogRow, m: DiscoveredModel) -> bool {
    &&& r.path == m.path
    &&& r.model_id is None
    &&& r.parent == m.parent
    &&& r.source@ == crate::discovery::source_label(m.source)
    &&& r.arch == (match m.metadata {
        Some(md) => md.arch,
        None => None,
    })
    &&& r.quant == (match m.metadata {
        Some(md) => Some(md.quant),
        None => None,
    })
    &&& r.native_ctx == (match m.metadata {
        Some(md) => md.native_ctx,
        None => None,
    })
    &&& r.mode_hint is None
    &&& r.parameter_label == (match m.metadata {
        Some(md) => md.parameter_label,
        None => None,
    })
    &&& r.weights_bytes == (match m.metadata {
        Some(md) => md.weights_bytes,
        None => None,
    })
    &&& r.display_label == m.display_label
    &&& r.parse_error == m.parse_error
    &&& r.split_siblings@ == m.split_siblings@
    &&& !r.has_chat_template
    &&& !r.has_reasoning_hint
    &&& r.tokenizer_kind is None
    &&& r.total_parameters is None
}

/// Project a discovered model onto the row shape the resolver reads.
pub fn catalog_row_from_discovered(m: &DiscoveredModel) -> (r: CatalogRow)
    ensures
        is_row_for(r, *m),
{
    let (arch, quant, native_ctx, parameter_label, weights_bytes) = match &m.metadata {
        Some(md) => (
            clone_opt_string(&md.arch),
            Some(md.quant.clone()),
            md.native_ctx,
            clone_opt_string(&md.parameter_label),
            md.weights_bytes,
        ),
        None => (None, None, None, None, None),
    };
    CatalogRow {
        path: m.path.clone(),
        model_id: None,
        parent: m.parent.clone(),
        source: m.source.label(),
        arch,
        quant,
        native_ctx,
        mode_hint: None,
        parameter_label,
        weights_bytes,
        display_label: clone_opt_string(&m.display_label),
        parse_error: clone_opt_string(&m.parse_error),
        split_siblings: clone_strings(&m.split_siblings),
        has_chat_template: false,
        has_reasoning_hint: false,
        tokenizer_kind: None,
        total_parameters: None,
    }
}

/// Whether a supervisor's model path names the same file as a catalog row.
pub fn same_path(model_id_path: &String, row_path: &String) -> (b: bool)
    ensures
        b == (model_id_path@ == row_path@),
{
    *model_id_path == *row_path
}

// ---------------------------------------------------------------------
// Forwarding plan
// ---------------------------------------------------------------------

/// What the proxy knows about one supervised launch.
#[derive(Debug)]
pub struct SupervisorEntry {
    /// Canonical path of the model the launch serves.
    pub path: String,
    /// Port the child listens on.
    pub port: u16,
    /// Lifecycle state at snapshot time.
    pub state: ManagedState,
}

/// Forwarding plan for a request naming a model.
#[derive(Debug)]
pub enum RouteDecision {
    /// Forward to a Ready supervisor on `port`.
    ReadyAt {
        port: u16,
        served_model_id: String,
        requested_model: String,
        fallback: bool,
        fallback_reason: Option<String>,
    },
    /// The catalog has the model but no Ready supervisor serves it (503).
    NotRunning { requested_model: String, resolved_row: Box<CatalogRow>, arch: Option<String> },
    /// No catalog row matched (404 `model_not_found`).
    NotFound { requested_model: String },
    /// Several rows matched (400 `ambiguous_model`), with their names.
    Ambiguous { requested_model: String, candidates: Vec<String> },
    /// `body.model` is absent or empty (400 `model_required`).
    ModelRequired,
}

/// `e` is a Ready launch serving the file at `path`.
pub open spec fn serves_ready(e: SupervisorEntry, path: Seq<char>) -> bool {
    e.path@ == path && e.state == ManagedState::Ready
}

/// The plan for a request whose model resolved to the single row `row`:
/// the first Ready launch of that file in snapshot order, else
/// "not running".
pub open spec fn plan_for_row(
    r: RouteDecision,
    requested: String,
    row: CatalogRow,
    sups: Seq<SupervisorEntry>,
) -> bool {
    if exists|i: int| 0 <= i < sups.len() && #[trigger] serves_ready(sups[i], row.path@) {
        r matches RouteDecision::ReadyAt {
            port,
            served_model_id,
            requested_model,
            fallback,
            fallback_reason,
        } && served_model_id@ == row_name(row) && requested_model == requested && !fallback
            && fallback_reason is None && exists|i: int|
            0 <= i < sups.len() && #[trigger] serves_ready(sups[i], row.path@) && sups[i].port
                == port && forall|j: int| 0 <= j < i ==> !serves_ready(sups[j], row.path@)
    } else {
        r matches RouteDecision::NotRunning { requested_model, resolved_row, arch }
            && requested_model == requested && same_row(*resolved_row, row) && arch == row.arch
    }
}

/// The forwarding plan for a request whose body named `body_model`.
pub open spec fn is_plan(
    r: RouteDecision,
    body_model: Option<String>,
    rows: Seq<CatalogRow>,
    sups: Seq<SupervisorEntry>,
) -> bool {
    match body_model {
        None => r is ModelRequired,
        Some(m) => if m@.len() == 0 {
            r is ModelRequired
        } else {
            let cands = candidates(rows, m@);
            if cands.len() == 0 {
                r matches RouteDecision::NotFound { requested_model } && requested_model == m
            } else if cands.len() > 1 {
                r matches RouteDecision::Ambiguous { requested_model, candidates }
                    && requested_model == m && views(candidates@) == cands.map_values(
                    |c: CatalogRow| row_name(c),
                )
            } else {
                plan_for_row(r, m, cands[0], sups)
            }
        },
    }
}

fn candidate_names<'a>(cands: &Vec<&'a CatalogRow>) -> (r: Vec<String>)
    ensures
        views(r@) == deref_rows(cands@).map_values(|c: CatalogRow| row_name(c)),
{
    let mut out: Vec<String> = Vec::new();
    let n = cands.len();
    for i in 0..n
        invariant
            n == cands@.len(),
            views(out@) == deref_rows(cands@.take(i as int)).map_values(
                |c: CatalogRow| row_name(c),
            ),
    {
        let ghost before = out@;
        let nm = cands[i].name();
        out.push(nm);
        proof {
            assert(cands@.take(i + 1) == cands@.take(i as int).push(cands@[i as int]));
            assert(views(out@) =~= views(before).push(nm@));
            assert(deref_rows(cands@.take(i + 1)) =~= deref_rows(cands@.take(i as int)).push(
                *cands@[i as int],
            ));
            assert(deref_rows(cands@.take(i + 1)).map_values(|c: CatalogRow| row_name(c))
                =~= deref_rows(cands@.take(i as int)).map_values(|c: CatalogRow| row_name(c)).push(
                row_name(*cands@[i as int]),
            ));
        }
    }
    assert(cands@.take(n as int) == cands@);
    out
}

/// Build the forwarding plan from the body's `model` field, the catalog
/// rows and the supervisor snapshot (see [`is_plan`]).
pub fn decide(body_model: Option<String>, rows: &[CatalogRow], supervisors: &[SupervisorEntry]) -> (r:
    RouteDecision)
    ensures
        is_plan(r, body_model, rows@, supervisors@),
{
    let requested = match body_model {
        Some(m) => {
            if m.as_str().unicode_len() == 0 {
                return RouteDecision::ModelRequired;
            }
            m
        },
        None => {
            return RouteDecision::ModelRequired;
        },
    };
    let cands = substring_candidates(rows, requested.as_str());
    if cands.len() == 0 {
        return RouteDecision::NotFound { requested_model: requested };
    }
    if cands.len() > 1 {
        let names = candidate_names(&cands);
        return RouteDecision::Ambiguous { requested_model: requested, candidates: names };
    }
    let resolved: &CatalogRow = cands[0];
    assert(*resolved == candidates(rows@, requested@)[0]);
    let n = supervisors.len();
    let mut i: usize = 0;
    while i < n
        invariant
            body_model == Some(requested),
            requested@.len() > 0,
            candidates(rows@, requested@).len() == 1,
            *resolved == candidates(rows@, requested@)[0],
            n == supervisors@.len(),
            i <= n,
            forall|j: int| 0 <= j < i ==> !serves_ready(supervisors@[j], resolved.path@),
        decreases n - i,
    {
        let e = &supervisors[i];
        if same_path(&e.path, &resolved.path) && e.state == ManagedState::Ready {
            assert(serves_ready(supervisors@[i as int], resolved.path@));
            return RouteDecision::ReadyAt {
                port: e.port,
                served_model_id: resolved.name(),
                requested_model: requested,
                fallback: false,
                fallback_reason: None,
            };
        }
        i = i + 1;
    }
    let arch = clone_opt_string(&resolved.arch);
    RouteDecision::NotRunning {
        requested_model: requested,
        resolved_row: Box::new(resolved.duplicate()),
        arch,
    }
}

/// Forwarding law: a request that names a model is forwarded only to a
/// launch in the `Ready` state that serves the single row the reference
/// resolves to (the first such launch in snapshot order, on its port);
/// when no launch of that file is `Ready` (every one is launching,
/// loading, failed, stopping or stopped) the plan is "not running" for
/// that row. A blank reference is "model required", no match "not found",
/// several matches "ambiguous".
pub proof fn lemma_forward_only_to_ready(
    r: RouteDecision,
    m: String,
    rows: Seq<CatalogRow>,
    sups: Seq<SupervisorEntry>,
)
    requires
        is_plan(r, Some(m), rows, sups),
    ensures
        m@.len() == 0 ==> r is ModelRequired,
        m@.len() > 0 && candidates(rows, m@).len() == 0 ==> r is NotFound,
        m@.len() > 0 && candidates(rows, m@).len() > 1 ==> r is Ambiguous,
        r matches RouteDecision::ReadyAt { port, .. } ==> {
            &&& m@.len() > 0
            &&& candidates(rows, m@).len() == 1
            &&& exists|i: int|
                0 <= i < sups.len() && (#[trigger] sups[i]).state == ManagedState::Ready
                    && sups[i].path@ == candidates(rows, m@)[0].path@ && sups[i].port == port
                    && forall|j: int|
                    0 <= j < i ==> !((#[trigger] sups[j]).state == ManagedState::Ready
                        && sups[j].path@ == candidates(rows, m@)[0].path@)
        },
        m@.len() > 0 && candidates(rows, m@).len() == 1 && (forall|i: int|
            0 <= i < sups.len() && (#[trigger] sups[i]).path@ == candidates(rows, m@)[0].path@
                ==> sups[i].state != ManagedState::Ready) ==> (r matches RouteDecision::NotRunning {
            resolved_row,
            ..
        } && same_row(*resolved_row, candidates(rows, m@)[0])),
{
    if m@.len() > 0 && candidates(rows, m@).len() == 1 {
        let row = candidates(rows, m@)[0];
        if exists|i: int| 0 <= i < sups.len() && #[trigger] serves_ready(sups[i], row.path@) {
            let i = choose|i: int|
                0 <= i < sups.len() && #[trigger] serves_ready(sups[i], row.path@) && (
                r matches RouteDecision::ReadyAt { port, .. } && sups[i].port == port)
                    && forall|j: int| 0 <= j < i ==> !serves_ready(sups[j], row.path@);
            assert(serves_ready(sups[i], row.path@));
            assert forall|j: int| 0 <= j < i implies !((#[trigger] sups[j]).state
                == ManagedState::Ready && sups[j].path@ == row.path@) by {
                assert(!serves_ready(sups[j], row.path@));
            }
        } else {
            assert forall|i: int| 0 <= i < sups.len() implies !(#[trigger] serves_ready(sups[i], row.path@)) by {}
            if r is ReadyAt {
                assert(false);
            }
        }
        if forall|i: int|
            0 <= i < sups.len() && (#[trigger] sups[i]).path@ == row.path@ ==> sups[i].state
                != ManagedState::Ready {
            if exists|i: int| 0 <= i < sups.len() && #[trigger] serves_ready(sups[i], row.path@) {
                let i = choose|i: int| 0 <= i < sups.len() && #[trigger] serves_ready(sups[i], row.path@);
                assert(sups[i].path@ == row.path@);
            }
        }
    }
}

// ---------------------------------------------------------------------
// Request body
// ---------------------------------------------------------------------

/// Errors raised while reading the request body.
#[derive(Debug)]
pub enum BodyError {
    /// Body exceeded [`BODY_LIMIT_BYTES`]. HTTP 413.
    TooLarge,
    /// Body wasn't valid JSON or `model` wasn't a string. HTTP 400.
    Malformed { message: String },
    /// The body could not be read off the wire. HTTP 400.
    Read { message: String },
}

/// The error for a body that could not be collected: the size cap when
/// that is what stopped it, otherwise a read failure carrying `detail`.
pub fn read_failure(length_limit_exceeded: bool, detail: &str) -> (r: BodyError)
    ensures
        length_limit_exceeded ==> r is TooLarge,
        !length_limit_exceeded ==> (r matches BodyError::Read { message } && message@
            == "failed to read request body: "@ + detail@),
{
    if length_limit_exceeded {
        BodyError::TooLarge
    } else {
        let mut message = owned("failed to read request body: ");
        message.append(detail);
        BodyError::Read { message }
    }
}

/// The `model` a request body names: `None` for an empty body, the JSON
/// parse error when the body is not valid JSON, otherwise the trimmed
/// `model` string when it is present and not blank.
pub open spec fn body_model(
    body_len: nat,
    parsed: Result<Option<String>, String>,
    r: Result<Option<String>, BodyError>,
) -> bool {
    if body_len == 0 {
        r == Ok::<Option<String>, BodyError>(None)
    } else {
        match parsed {
            Err(e) => r matches Err(BodyError::Malformed { message }) && message@
                == "request body is not valid JSON: "@ + e@,
            Ok(None) => r == Ok::<Option<String>, BodyError>(None),
            Ok(Some(m)) => if trim(m@).len() == 0 {
                r == Ok::<Option<String>, BodyError>(None)
            } else {
                r matches Ok(Some(t)) && t@ == trim(m@)
            },
        }
    }
}

/// Extract the model from a buffered body given what parsing its JSON
/// `model` field gave (see [`body_model`]).
pub fn extract_model(body: &[u8], parsed: Result<Option<String>, String>) -> (r: Result<
    Option<String>,
    BodyError,
>)
    ensures
        body_model(body@.len(), parsed, r),
{
    if body.len() == 0 {
        return Ok(None);
    }
    match parsed {
        Err(e) => {
            let mut message = owned("request body is not valid JSON: ");
            message.append(e.as_str());
            Err(BodyError::Malformed { message })
        },
        Ok(None) => Ok(None),
        Ok(Some(m)) => {
            let t = trim_string(m.as_str());
            if t.as_str().unicode_len() == 0 {
                Ok(None)
            } else {
                Ok(Some(t))
            }
        },
    }
}

} // verus!
