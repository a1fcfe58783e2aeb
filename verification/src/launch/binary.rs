//! Locate the `llama-server` binary.
//!
//! Priority order: the `--llama-server <path>` flag, then the
//! `LLAMATUI_LLAMA_SERVER` environment variable (ignored when empty), then
//! the configured path, then a `$PATH` lookup. The path found is returned
//! canonicalised. An explicit source that does not name an existing
//! regular file is an error of its own, distinct from finding nothing on
//! `$PATH`.
use vstd::prelude::*;

use crate::text::owned;

verus! {

/// Inputs to [`locate`]; each source is optional.
#[derive(Debug)]
pub struct LocateInputs {
    pub cli_flag: Option<String>,
    pub env_var: Option<String>,
    pub config_path: Option<String>,
}

/// Why `llama-server` could not be located.
#[derive(Debug)]
pub enum LocateError {
    /// No explicit source was given and `$PATH` has no `llama-server`.
    NotFound,
    /// An explicit path was given but is not an existing regular file.
    ExplicitPathMissing(String),
}

/// Where the binary is looked for.
#[derive(Debug)]
pub enum LocateSource {
    /// An explicitly supplied path, to be canonicalised.
    Explicit(String),
    /// A `$PATH` lookup.
    SearchPath,
}

/// The source the priority order selects.
pub open spec fn source_for(inputs: LocateInputs) -> LocateSource {
    match inputs.cli_flag {
        Some(p) => LocateSource::Explicit(p),
        None => match inputs.env_var {
            Some(e) if e@.len() > 0 => LocateSource::Explicit(e),
            _ => match inputs.config_path {
                Some(p) => LocateSource::Explicit(p),
                None => LocateSource::SearchPath,
            },
        },
    }
}

fn clone_source(p: &String) -> (r: LocateSource)
    ensures
        r == LocateSource::Explicit(*p),
{
    LocateSource::Explicit(p.clone())
}

/// Apply the priority order (see [`source_for`]).
pub fn locate_source(inputs: &LocateInputs) -> (r: LocateSource)
    ensures
        r == source_for(*inputs),
{
    if let Some(p) = &inputs.cli_flag {
        return clone_source(p);
    }
    if let Some(raw) = &inputs.env_var {
        if raw.as_str().unicode_len() > 0 {
            return clone_source(raw);
        }
    }
    if let Some(p) = &inputs.config_path {
        return clone_source(p);
    }
    LocateSource::SearchPath
}

/// What canonicalising an explicit path found: the canonical path and
/// whether it is a regular file.
#[derive(Debug)]
pub struct Canonical {
    pub path: String,
    pub is_file: bool,
}

/// The result for an explicit path: its canonical form when that is a
/// regular file, else `ExplicitPathMissing` with the path as supplied.
pub open spec fn explicit_result(requested: String, canonical: Option<Canonical>) -> Result<
    String,
    LocateError,
> {
    match canonical {
        Some(c) => if c.is_file {
            Ok(c.path)
        } else {
            Err(LocateError::ExplicitPathMissing(requested))
        },
        None => Err(LocateError::ExplicitPathMissing(requested)),
    }
}

/// Judge an explicit path by what canonicalising it found (`None` when
/// canonicalisation failed).
pub fn check_explicit(requested: String, canonical: Option<Canonical>) -> (r: Result<
    String,
    LocateError,
>)
    ensures
        r == explicit_result(requested, canonical),
{
    match canonical {
        Some(c) => {
            if c.is_file {
                Ok(c.path)
            } else {
                Err(LocateError::ExplicitPathMissing(requested))
            }
        },
        None => Err(LocateError::ExplicitPathMissing(requested)),
    }
}

/// The first `$PATH` candidate, or `NotFound` when there is none.
pub fn first_on_path(candidates: Vec<String>) -> (r: Result<String, LocateError>)
    ensures
        candidates@.len() == 0 ==> r matches Err(LocateError::NotFound),
        candidates@.len() > 0 ==> r == Ok::<String, LocateError>(candidates@[0]),
{
    if candidates.len() == 0 {
        Err(LocateError::NotFound)
    } else {
        let mut c = candidates;
        Ok(c.swap_remove(0))
    }
}

/// A character that ends a path component: `/`, and on Windows `\` and
/// the `:` of a drive prefix.
pub open spec fn is_component_end(c: char) -> bool {
    c == '/' || c == '\\' || c == ':'
}

/// `c` with ASCII upper-case letters mapped to lower case.
pub open spec fn ascii_fold(c: char) -> char {
    if 'A' <= c <= 'Z' {
        ((c as u32) + 32) as char
    } else {
        c
    }
}

/// `name` stands in path `c` at position `k`: at the start of a path
/// component, followed by the end of `c` or an extension's `.`, ASCII
/// letters compared without regard to case.
pub open spec fn name_at(c: Seq<char>, name: Seq<char>, k: int) -> bool {
    &&& 0 <= k
    &&& k + name.len() <= c.len()
    &&& k == 0 || is_component_end(c[k - 1])
    &&& k + name.len() == c.len() || c[k + name.len()] == '.'
    &&& forall|i: int| 0 <= i < name.len() ==> ascii_fold(#[trigger] c[k + i]) == ascii_fold(name[i])
}

/// Path `c` is a file named `name`: a directory joined with `name`, with
/// at most an executable extension appended and letters in the case the
/// directory lists them (the latter two only on Windows).
pub open spec fn names_binary(c: Seq<char>, name: Seq<char>) -> bool {
    exists|k: int| #[trigger] name_at(c, name, k)
}

/// `which::which_all`: every executable named `binary_name` on `$PATH`
/// (relative `$PATH` entries resolved against the working directory), in
/// `$PATH` order, as text; `None` when the lookup fails. Each candidate is
/// a `$PATH` directory joined with `binary_name` (on Windows with a
/// `PATHEXT` extension appended and its letters in the directory's case),
/// so it names `binary_name`. Whether and what it finds depends on the
/// environment and the file system, which nothing here states.
#[verifier::external_body]
fn which_all(binary_name: &str) -> (r: Option<Vec<String>>)
    requires
        forall|i: int| 0 <= i < binary_name@.len() ==> !is_component_end(#[trigger] binary_name@[i]),
    ensures
        r matches Some(cs) ==> forall|i: int|
            0 <= i < cs@.len() ==> names_binary(#[trigger] cs@[i]@, binary_name@),
{
    match which::which_all(binary_name) {
        Ok(found) => Some(found.map(|p| p.to_string_lossy().into_owned()).collect()),
        Err(_) => None,
    }
}

/// Look `llama-server` up on `$PATH`: the first match, which names
/// `llama-server`, or `NotFound`. Whether one is found depends on the
/// environment.
pub fn search_path() -> (r: Result<String, LocateError>)
    ensures
        r matches Ok(p) ==> names_binary(p@, "llama-server"@),
        r is Err ==> r matches Err(LocateError::NotFound),
{
    proof {
        reveal_strlit("llama-server");
    }
    match which_all("llama-server") {
        Some(candidates) => {
            let r = first_on_path(candidates);
            r
        },
        None => Err(LocateError::NotFound),
    }
}

/// The result for the `$PATH` candidate: its canonical form when that is
/// a regular file, else `NotFound`.
pub open spec fn found_result(canonical: Option<Canonical>) -> Result<String, LocateError> {
    match canonical {
        Some(c) => if c.is_file {
            Ok(c.path)
        } else {
            Err(LocateError::NotFound)
        },
        None => Err(LocateError::NotFound),
    }
}

/// Judge the `$PATH` candidate by what canonicalising it found (`None`
/// when canonicalisation failed).
pub fn check_found(canonical: Option<Canonical>) -> (r: Result<String, LocateError>)
    ensures
        r == found_result(canonical),
{
    match canonical {
        Some(c) => {
            if c.is_file {
                Ok(c.path)
            } else {
                Err(LocateError::NotFound)
            }
        },
        None => Err(LocateError::NotFound),
    }
}

/// Resolve `llama-server`'s path, canonicalised by `canonicalise` (which
/// gives the canonical form of a path and whether it is a regular file,
/// or `None` when the path cannot be canonicalised).
///
/// An explicit source (see [`locate_source`]) is canonicalised and must be
/// a regular file, else `ExplicitPathMissing` with the path as supplied.
/// Without one, the first `llama-server` on `$PATH` is canonicalised; no
/// such file, or one that does not canonicalise to a regular file, gives
/// `NotFound`. Every `Ok` path is what `canonicalise` gave for a regular
/// file.
pub fn locate<F: Fn(&String) -> Option<Canonical>>(inputs: &LocateInputs, canonicalise: F) -> (r:
    Result<String, LocateError>)
    requires
        forall|p: &String| #[trigger] canonicalise.requires((p,)),
    ensures
        match source_for(*inputs) {
            LocateSource::Explicit(p) => exists|c: Option<Canonical>|
                #[trigger] canonicalise.ensures((&p,), c) && r == explicit_result(p, c),
            LocateSource::SearchPath => {
                &&& r matches Ok(q) ==> exists|cand: String, c: Canonical|
                    #[trigger] canonicalise.ensures((&cand,), Some(c)) && names_binary(
                        cand@,
                        "llama-server"@,
                    ) && c.is_file && q == c.path
                &&& r is Err ==> r matches Err(LocateError::NotFound)
            },
        },
{
    match locate_source(inputs) {
        LocateSource::Explicit(p) => {
            let c = canonicalise(&p);
            check_explicit(p, c)
        },
        LocateSource::SearchPath => match search_path() {
            Ok(cand) => {
                let c = canonicalise(&cand);
                check_found(c)
            },
            Err(e) => Err(e),
        },
    }
}

impl LocateError {
    /// The user-facing description of the error.
    pub fn message(&self) -> (r: String)
        ensures
            match *self {
                LocateError::NotFound => r@
                    == "could not find `llama-server` \u{2014} set `--llama-server <path>` or `LLAMATUI_LLAMA_SERVER`, or add it to your $PATH"@,
                LocateError::ExplicitPathMissing(p) => r@
                    == "configured `llama-server` path does not exist: "@ + p@,
            },
    {
        match self {
            LocateError::NotFound => owned(
                "could not find `llama-server` \u{2014} set `--llama-server <path>` or `LLAMATUI_LLAMA_SERVER`, or add it to your $PATH",
            ),
            LocateError::ExplicitPathMissing(p) => {
                let mut s = owned("configured `llama-server` path does not exist: ");
                s.append(p.as_str());
                s
            },
        }
    }
}

} // verus!
