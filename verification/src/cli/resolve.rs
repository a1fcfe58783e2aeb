//! The catalog row every resolver surface works on.
use vstd::prelude::*;

use crate::paths::{file_name, file_name_string};
use crate::text::{clone_opt_string, clone_strings};

verus! {

/// One catalog entry as the CLI, the TUI and the proxy see it.
#[derive(Debug)]
pub struct CatalogRow {
    pub path: String,
    pub model_id: Option<String>,
    pub parent: String,
    pub source: String,
    pub arch: Option<String>,
    pub quant: Option<String>,
    pub native_ctx: Option<u32>,
    pub mode_hint: Option<String>,
    pub parameter_label: Option<String>,
    pub weights_bytes: Option<u64>,
    pub display_label: Option<String>,
    pub parse_error: Option<String>,
    pub split_siblings: Vec<String>,
    pub has_chat_template: bool,
    pub has_reasoning_hint: bool,
    pub tokenizer_kind: Option<String>,
    pub total_parameters: Option<u64>,
}

/// The name a row is shown and matched under: its display label when it
/// has one, else the path's final component (extension included), else
/// the whole path.
pub open spec fn row_name(r: CatalogRow) -> Seq<char> {
    match r.display_label {
        Some(l) => l@,
        None => match file_name(r.path@) {
            Some(n) => n,
            None => r.path@,
        },
    }
}

/// Two rows hold the same values (string vectors compared by contents).
pub open spec fn same_row(a: CatalogRow, b: CatalogRow) -> bool {
    &&& a.path == b.path
    &&& a.model_id == b.model_id
    &&& a.parent == b.parent
    &&& a.source == b.source
    &&& a.arch == b.arch
    &&& a.quant == b.quant
    &&& a.native_ctx == b.native_ctx
    &&& a.mode_hint == b.mode_hint
    &&& a.parameter_label == b.parameter_label
    &&& a.weights_bytes == b.weights_bytes
    &&& a.display_label == b.display_label
    &&& a.parse_error == b.parse_error
    &&& a.split_siblings@ == b.split_siblings@
    &&& a.has_chat_template == b.has_chat_template
    &&& a.has_reasoning_hint == b.has_reasoning_hint
    &&& a.tokenizer_kind == b.tokenizer_kind
    &&& a.total_parameters == b.total_parameters
}

impl CatalogRow {
    /// A copy of this row.
    pub fn duplicate(&self) -> (r: CatalogRow)
        ensures
            same_row(r, *self),
    {
        CatalogRow {
            path: self.path.clone(),
            model_id: clone_opt_string(&self.model_id),
            parent: self.parent.clone(),
            source: self.source.clone(),
            arch: clone_opt_string(&self.arch),
            quant: clone_opt_string(&self.quant),
            native_ctx: self.native_ctx,
            mode_hint: clone_opt_string(&self.mode_hint),
            parameter_label: clone_opt_string(&self.parameter_label),
            weights_bytes: self.weights_bytes,
            display_label: clone_opt_string(&self.display_label),
            parse_error: clone_opt_string(&self.parse_error),
            split_siblings: clone_strings(&self.split_siblings),
            has_chat_template: self.has_chat_template,
            has_reasoning_hint: self.has_reasoning_hint,
            tokenizer_kind: clone_opt_string(&self.tokenizer_kind),
            total_parameters: self.total_parameters,
        }
    }

    /// See [`row_name`].
    pub fn name(&self) -> (r: String)
        ensures
            r@ == row_name(*self),
    {
        match &self.display_label {
            Some(l) => l.clone(),
            None => match file_name_string(self.path.as_str()) {
                Some(n) => n,
                None => self.path.clone(),
            },
        }
    }
}

} // verus!
