//! Decisions and texts behind the interactive `start` / `stop` pickers.
//!
//! Both pickers refuse non-interactive contexts up front (`--json`, or no
//! terminal on stdin) so a piped invocation gets an actionable error
//! instead of a hung prompt, and refuse an empty list to pick from.
use vstd::prelude::*;

use crate::cli::resolve::{row_name, CatalogRow};
use crate::text::{decimal, decimal_string, owned, views};

verus! {

broadcast use vstd::seq_lib::group_seq_properties;

/// The class of a CLI failure (each has its own exit code).
#[derive(Debug, Clone, Copy, PartialEq, Eq, Structural)]
pub enum ExitKind {
    /// Misuse of the command line.
    Usage,
    /// Nothing matched the requested model.
    ModelNotFound,
}

/// A CLI failure: its class and message.
#[derive(Debug)]
pub struct CliExit {
    pub kind: ExitKind,
    pub message: String,
}

/// Why an interactive picker for `what` cannot be driven, if it cannot:
/// under `--json`, or without a terminal on stdin (a usage error).
pub open spec fn refusal(json: bool, stdin_is_terminal: bool, what: Seq<char>) -> Option<Seq<char>> {
    if json {
        Some("interactive "@ + what + " picker is disabled with --json; pass an explicit argument"@)
    } else if !stdin_is_terminal {
        Some("interactive "@ + what + " picker requires a TTY; pass an explicit argument"@)
    } else {
        None
    }
}

/// `r` is the usage error with message `m`.
pub open spec fn is_usage_error<T>(r: Result<T, CliExit>, m: Seq<char>) -> bool {
    r matches Err(e) && e.kind == ExitKind::Usage && e.message@ == m
}

/// `r` is the "nothing to pick" error with message `m`.
pub open spec fn is_not_found_error<T>(r: Result<T, CliExit>, m: Seq<char>) -> bool {
    r matches Err(e) && e.kind == ExitKind::ModelNotFound && e.message@ == m
}

/// Refuse an interactive picker for `what` when it cannot be driven (see
/// [`refusal`]).
pub fn ensure_interactive(json: bool, stdin_is_terminal: bool, what: &str) -> (r: Result<
    (),
    CliExit,
>)
    ensures
        match refusal(json, stdin_is_terminal, what@) {
            Some(m) => is_usage_error(r, m),
            None => r is Ok,
        },
{
    if json {
        let mut m = owned("interactive ");
        m.append(what);
        m.append(" picker is disabled with --json; pass an explicit argument");
        return Err(CliExit { kind: ExitKind::Usage, message: m });
    }
    if !stdin_is_terminal {
        let mut m = owned("interactive ");
        m.append(what);
        m.append(" picker requires a TTY; pass an explicit argument");
        return Err(CliExit { kind: ExitKind::Usage, message: m });
    }
    Ok(())
}

/// Refusal for an empty list to pick from.
pub fn nothing_to_pick(message: &str) -> (r: CliExit)
    ensures
        r.kind == ExitKind::ModelNotFound,
        r.message@ == message@,
{
    CliExit { kind: ExitKind::ModelNotFound, message: owned(message) }
}

fn or_question(o: &Option<String>) -> (r: String)
    ensures
        r@ == match *o {
            Some(s) => s@,
            None => "?"@,
        },
{
    match o {
        Some(s) => s.clone(),
        None => owned("?"),
    }
}

/// The hint line of a catalog picker row: `<arch> <quant> ctx=<ctx>`, with
/// `?` for what is unknown.
pub open spec fn hint_text(r: CatalogRow) -> Seq<char> {
    let arch = match r.arch {
        Some(a) => a@,
        None => "?"@,
    };
    let quant = match r.quant {
        Some(q) => q@,
        None => "?"@,
    };
    let ctx = match r.native_ctx {
        Some(n) => decimal(n as nat),
        None => "?"@,
    };
    arch + " "@ + quant + " ctx="@ + ctx
}

/// Hint line for a catalog picker row (see [`hint_text`]).
pub fn catalog_hint(r: &CatalogRow) -> (s: String)
    ensures
        s@ == hint_text(*r),
{
    let arch = or_question(&r.arch);
    let quant = or_question(&r.quant);
    let ctx = match r.native_ctx {
        Some(n) => decimal_string(n as u64),
        None => owned("?"),
    };
    let mut s = arch;
    s.append(" ");
    s.append(quant.as_str());
    s.append(" ctx=");
    s.append(ctx.as_str());
    s
}

/// The `(label, hint)` items of the `start` picker, one per row in order:
/// the row's name and its hint line.
pub fn catalog_items(rows: &[CatalogRow]) -> (items: Vec<(String, String)>)
    ensures
        items@.len() == rows@.len(),
        forall|i: int|
            0 <= i < rows@.len() ==> (#[trigger] items@[i]).0@ == row_name(rows@[i])
                && items@[i].1@ == hint_text(rows@[i]),
{
    let mut items: Vec<(String, String)> = Vec::new();
    let n = rows.len();
    for i in 0..n
        invariant
            n == rows@.len(),
            items@.len() == i,
            forall|j: int|
                0 <= j < i ==> (#[trigger] items@[j]).0@ == row_name(rows@[j]) && items@[j].1@
                    == hint_text(rows@[j]),
    {
        items.push((rows[i].name(), catalog_hint(&rows[i])));
    }
    items
}

/// What the `stop` picker shows of a managed launch.
#[derive(Debug)]
pub struct RunningRow {
    pub launch_id: String,
    pub name: String,
    pub port: u16,
    pub state: String,
}

/// The `(label, hint)` item of the `stop` picker for one launch:
/// `<launch_id> <name>` and `:<port> <state>`.
pub fn running_item(r: &RunningRow) -> (item: (String, String))
    ensures
        item.0@ == r.launch_id@ + " "@ + r.name@,
        item.1@ == ":"@ + decimal(r.port as nat) + " "@ + r.state@,
{
    let mut label = r.launch_id.clone();
    label.append(" ");
    label.append(r.name.as_str());
    let mut hint = owned(":");
    let port = decimal_string(r.port as u64);
    hint.append(port.as_str());
    hint.append(" ");
    hint.append(r.state.as_str());
    (label, hint)
}

/// The items the `start` picker offers for `rows` (see [`catalog_items`]);
/// refused when the picker cannot be driven, or with "no models
/// discovered" when there is nothing to pick.
pub fn start_picker_items(rows: &[CatalogRow], json: bool, stdin_is_terminal: bool) -> (r: Result<
    Vec<(String, String)>,
    CliExit,
>)
    ensures
        match refusal(json, stdin_is_terminal, "start"@) {
            Some(m) => is_usage_error(r, m),
            None => if rows@.len() == 0 {
                is_not_found_error(r, "no models discovered"@)
            } else {
                r matches Ok(items) && items@.len() == rows@.len() && forall|i: int|
                    0 <= i < rows@.len() ==> (#[trigger] items@[i]).0@ == row_name(rows@[i])
                        && items@[i].1@ == hint_text(rows@[i])
            },
        },
{
    proof {
        reveal_strlit("start");
    }
    match ensure_interactive(json, stdin_is_terminal, "start") {
        Err(e) => Err(e),
        Ok(()) => {
            if rows.len() == 0 {
                Err(nothing_to_pick("no models discovered"))
            } else {
                Ok(catalog_items(rows))
            }
        },
    }
}

/// The `(label, hint)` items of the `stop` picker, one per launch in
/// order (see [`running_item`]).
pub open spec fn running_items_of(rows: Seq<RunningRow>, items: Seq<(String, String)>) -> bool {
    &&& items.len() == rows.len()
    &&& forall|i: int|
        0 <= i < rows.len() ==> (#[trigger] items[i]).0@ == rows[i].launch_id@ + " "@ + rows[i].name@
            && items[i].1@ == ":"@ + decimal(rows[i].port as nat) + " "@ + rows[i].state@
}

/// The items the `stop` picker offers for `rows`; refused when the picker
/// cannot be driven, or with "no managed launches to stop" when there is
/// nothing to pick.
pub fn stop_picker_items(rows: &[RunningRow], json: bool, stdin_is_terminal: bool) -> (r: Result<
    Vec<(String, String)>,
    CliExit,
>)
    ensures
        match refusal(json, stdin_is_terminal, "stop"@) {
            Some(m) => is_usage_error(r, m),
            None => if rows@.len() == 0 {
                is_not_found_error(r, "no managed launches to stop"@)
            } else {
                r matches Ok(items) && running_items_of(rows@, items@)
            },
        },
{
    match ensure_interactive(json, stdin_is_terminal, "stop") {
        Err(e) => Err(e),
        Ok(()) => {
            if rows.len() == 0 {
                Err(nothing_to_pick("no managed launches to stop"))
            } else {
                let mut items: Vec<(String, String)> = Vec::new();
                let n = rows.len();
                for i in 0..n
                    invariant
                        n == rows@.len(),
                        running_items_of(rows@.take(i as int), items@),
                {
                    items.push(running_item(&rows[i]));
                }
                assert(rows@.take(n as int) == rows@);
                Ok(items)
            }
        },
    }
}

} // verus!
