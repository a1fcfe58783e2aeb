//! The decisions of a scan: which walked files are models, how a user
//! exclude glob is handed to the walker, which shards are siblings of a
//! split set's launch file, and what row a parse outcome yields.
use vstd::prelude::*;

use crate::discovery::{DiscoveredModel, ModelMetadata, ModelSource};
use crate::paths::{
    extension, file_name, has_extension, last_dot, lemma_last_dot, name_extension, parent_or_empty,
    parent_or_empty_string,
};
use crate::text::{chars_of, string_of, views};

verus! {

broadcast use vstd::seq_lib::group_seq_properties;

/// One root to scan plus how to label files found beneath it.
#[derive(Debug)]
pub struct ScanRoot {
    pub path: String,
    pub source: ModelSource,
}

/// Options for a scan: extra exclude globs and the result channel's
/// capacity.
#[derive(Debug)]
pub struct ScanOptions {
    pub excludes: Vec<String>,
    pub channel_capacity: Option<usize>,
}

/// Channel capacity when none is configured.
pub const DEFAULT_CHANNEL_CAPACITY: usize = 64;

impl ScanOptions {
    /// The configured capacity, else [`DEFAULT_CHANNEL_CAPACITY`].
    pub fn channel_capacity(&self) -> (r: usize)
        ensures
            r == match self.channel_capacity {
                Some(c) => c,
                None => DEFAULT_CHANNEL_CAPACITY,
            },
    {
        match self.channel_capacity {
            Some(c) => c,
            None => DEFAULT_CHANNEL_CAPACITY,
        }
    }
}

/// A walked entry is a model file when it is a regular file whose
/// extension is exactly `gguf` (so `a.gguf.part` downloads are skipped).
pub open spec fn is_model_path(path: Seq<char>, is_regular_file: bool) -> bool {
    is_regular_file && extension(path) == Some("gguf"@)
}

/// The file name of `path` is a non-empty stem followed by `.gguf`.
pub open spec fn names_gguf_file(path: Seq<char>) -> bool {
    match file_name(path) {
        Some(name) => name.len() > 5 && name.subrange(name.len() - 5, name.len() as int) == seq![
            '.',
            'g',
            'g',
            'u',
            'f',
        ],
        None => false,
    }
}

/// Model-file law: a walked entry is a model file exactly when it is a
/// regular file whose file name is a non-empty stem followed by `.gguf`
/// (so `.safetensors`, `.bin`, `.gguf.part` and a bare `.gguf` are not).
pub proof fn lemma_model_file_law(path: Seq<char>, is_regular_file: bool)
    ensures
        is_model_path(path, is_regular_file) <==> (is_regular_file && names_gguf_file(path)),
{
    reveal_strlit("gguf");
    if let Some(name) = file_name(path) {
        lemma_last_dot(name);
        let d = last_dot(name);
        let n = name.len() as int;
        if d > 0 && name.subrange(d + 1, n) == "gguf"@ {
            assert("gguf"@ =~= seq!['g', 'g', 'u', 'f']);
            assert(name.subrange(d + 1, n).len() == n - d - 1);
            assert(n == d + 5);
            assert(name.subrange(n - 5, n) =~= seq!['.', 'g', 'g', 'u', 'f']) by {
                assert(name[d + 1] == 'g' && name[d + 2] == 'g' && name[d + 3] == 'u' && name[d + 4]
                    == 'f') by {
                    assert(name.subrange(d + 1, n)[0] == 'g');
                    assert(name.subrange(d + 1, n)[1] == 'g');
                    assert(name.subrange(d + 1, n)[2] == 'u');
                    assert(name.subrange(d + 1, n)[3] == 'f');
                }
            }
        }
        if n > 5 && name.subrange(n - 5, n) == seq!['.', 'g', 'g', 'u', 'f'] {
            assert(name[n - 5] == name.subrange(n - 5, n)[0]);
            assert(name[n - 4] == name.subrange(n - 5, n)[1]);
            assert(name[n - 3] == name.subrange(n - 5, n)[2]);
            assert(name[n - 2] == name.subrange(n - 5, n)[3]);
            assert(name[n - 1] == name.subrange(n - 5, n)[4]);
            assert(d == n - 5);
            assert(name.subrange(d + 1, n) =~= "gguf"@);
        }
    }
}

/// Whether a walked entry is a model file (see [`is_model_path`]).
pub fn is_model_file(path: &str, is_regular_file: bool) -> (b: bool)
    ensures
        b == is_model_path(path@, is_regular_file),
{
    is_regular_file && has_extension(path, "gguf")
}

/// The walker's override glob for a user exclude: the walker treats plain
/// globs as "include only", so every exclude is prefixed with `!`.
pub fn exclude_override(pattern: &str) -> (r: String)
    ensures
        r@ == seq!['!'] + pattern@,
{
    let cs = chars_of(pattern);
    let mut out: Vec<char> = Vec::new();
    out.push('!');
    let n = cs.len();
    for i in 0..n
        invariant
            n == cs@.len(),
            out@ == seq!['!'] + cs@.take(i as int),
    {
        out.push(cs[i]);
        assert(cs@.take(i + 1) == cs@.take(i as int).push(cs@[i as int]));
    }
    assert(cs@.take(n as int) == cs@);
    string_of(&out)
}

/// The shards of a split set other than its launch file, in order.
pub fn sibling_shards(shards: &Vec<String>, launch_path: &String) -> (r: Vec<String>)
    ensures
        views(r@) == views(shards@).filter(|s: Seq<char>| s != launch_path@),
{
    let mut out: Vec<String> = Vec::new();
    let n = shards.len();
    for i in 0..n
        invariant
            n == shards@.len(),
            views(out@) == views(shards@.take(i as int)).filter(|s: Seq<char>| s != launch_path@),
    {
        let ghost before = out@;
        proof {
            assert(views(shards@.take(i + 1)) == views(shards@.take(i as int)).push(
                shards@[i as int]@,
            ));
            views(shards@.take(i as int)).lemma_filter_push(
                shards@[i as int]@,
                |s: Seq<char>| s != launch_path@,
            );
        }
        if shards[i] != *launch_path {
            out.push(shards[i].clone());
            assert(views(out@) =~= views(before).push(shards@[i as int]@));
        }
    }
    assert(shards@.take(n as int) == shards@);
    out
}

/// The discovered model a header parse of the file at `path` yields: its
/// directory is the path's parent (empty when it has none); metadata on
/// success, the parse diagnostic otherwise; the row is kept either way.
pub fn model_from_parse(
    path: String,
    source: ModelSource,
    parsed: Result<ModelMetadata, String>,
    split_siblings: Vec<String>,
) -> (m: DiscoveredModel)
    ensures
        m.path == path,
        m.parent@ == parent_or_empty(path@),
        m.source == source,
        m.split_siblings == split_siblings,
        m.display_label is None,
        match parsed {
            Ok(md) => m.metadata == Some(md) && m.parse_error is None,
            Err(e) => m.metadata is None && m.parse_error == Some(e),
        },
{
    let parent = parent_or_empty_string(path.as_str());
    match parsed {
        Ok(md) => DiscoveredModel {
            path,
            parent,
            source,
            metadata: Some(md),
            parse_error: None,
            split_siblings,
            display_label: None,
        },
        Err(e) => DiscoveredModel {
            path,
            parent,
            source,
            metadata: None,
            parse_error: Some(e),
            split_siblings,
            display_label: None,
        },
    }
}

} // verus!
