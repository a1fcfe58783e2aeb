//! Text renderers behind `llamastash show`: byte sizes, JSON fields and
//! knob maps on one line, and the on-disk total of a split set.
use vstd::prelude::*;

use crate::cli::resolve::CatalogRow;
use crate::text::{
    ascending, chars_of, decimal, decimal_chars, digit_char, join, join_strings, owned,
    sort_strings, string_of, views,
};

verus! {

broadcast use vstd::seq_lib::group_seq_properties;

// ---------------------------------------------------------------------
// Byte sizes
// ---------------------------------------------------------------------

/// `a / d` rounded to the nearest integer, ties to even.
pub open spec fn div_round_even(a: nat, d: nat) -> nat
    recommends
        d > 0,
{
    let q = a / d;
    let r = a % d;
    if 2 * r > d || (2 * r == d && q % 2 == 1) {
        q + 1
    } else {
        q
    }
}

/// How many low bits `n` loses when converted to `f64` (53-bit mantissa).
pub open spec fn f64_shift(n: nat) -> nat
    decreases n,
{
    if n < 0x20_0000_0000_0000 {
        0
    } else {
        1 + f64_shift(n / 2)
    }
}

pub open spec fn pow2(e: nat) -> nat
    decreases e,
{
    if e == 0 {
        1
    } else {
        2 * pow2((e - 1) as nat)
    }
}

/// The integer `n as f64` holds: `n` rounded to 53 significant bits,
/// ties to even.
pub open spec fn as_f64(n: nat) -> nat {
    let s = f64_shift(n);
    div_round_even(n, pow2(s)) * pow2(s)
}

pub open spec fn pow10(p: nat) -> nat
    decreases p,
{
    if p == 0 {
        1
    } else {
        10 * pow10((p - 1) as nat)
    }
}

/// The last `w` decimal digits of `x`, zero-padded.
pub open spec fn padded(x: nat, w: nat) -> Seq<char>
    decreases w,
{
    if w == 0 {
        Seq::empty()
    } else {
        padded(x / 10, (w - 1) as nat).push(digit_char(x % 10))
    }
}

/// `value / unit` printed with `p` decimals (`{:.p}`): the exact quotient
/// rounded to `p` decimals, ties to even.
pub open spec fn fixed(value: nat, unit: nat, p: nat) -> Seq<char> {
    let scaled = div_round_even(value * pow10(p), unit);
    if p == 0 {
        decimal(scaled)
    } else {
        decimal(scaled / pow10(p)) + seq!['.'] + padded(scaled % pow10(p), p)
    }
}

/// How `show` prints a byte count: `B` below 1 KiB, whole `KiB` below
/// 1 MiB, one decimal of `MiB` below 1 GiB, else two decimals of `GiB`
/// (computed, as the float formatting does, on the `f64` value of `n`).
pub open spec fn bytes_text(n: nat) -> Seq<char> {
    if n >= 0x4000_0000 {
        fixed(as_f64(n), 0x4000_0000, 2) + " GiB"@
    } else if n >= 0x10_0000 {
        fixed(n, 0x10_0000, 1) + " MiB"@
    } else if n >= 0x400 {
        fixed(n, 0x400, 0) + " KiB"@
    } else {
        decimal(n) + " B"@
    }
}

/// Rounding to the nearest integer lands within half a unit.
proof fn lemma_div_round_even(a: nat, d: nat)
    requires
        d > 0,
    ensures
        div_round_even(a, d) * d <= a + d / 2 + d % 2,
        a <= div_round_even(a, d) * d + d / 2,
{
    let q = a / d;
    let r = a % d;
    vstd::arithmetic::div_mod::lemma_fundamental_div_mod(a as int, d as int);
    assert(q * d + r == a) by (nonlinear_arith)
        requires
            a == d * q + r,
    ;
    if 2 * r > d || (2 * r == d && q % 2 == 1) {
        assert((q + 1) * d == q * d + d) by (nonlinear_arith);
    }
}

/// Unit law of byte sizes: below 1 KiB a count is printed exactly in
/// bytes; below 1 MiB as the whole number of KiB nearest to it; below
/// 1 GiB as the number of MiB to one decimal nearest to it; beyond that as
/// the number of GiB to two decimals nearest to its `f64` value (each
/// within half of the last printed digit).
pub proof fn lemma_bytes_text_units(n: nat)
    ensures
        n < 1024 ==> bytes_text(n) == decimal(n) + " B"@,
        1024 <= n < 0x10_0000 ==> exists|q: nat|
            #[trigger] decimal(q) + " KiB"@ == bytes_text(n) && q * 1024 <= n + 512 && n
                <= q * 1024 + 512,
        0x10_0000 <= n < 0x4000_0000 ==> exists|q: nat|
            #[trigger] decimal(q / 10) + seq!['.', digit_char(q % 10)] + " MiB"@ == bytes_text(n)
                && q * 0x10_0000 <= n * 10 + 0x8_0000 && n * 10 <= q * 0x10_0000 + 0x8_0000,
        n >= 0x4000_0000 ==> exists|q: nat|
            #[trigger] decimal(q / 100) + seq!['.', digit_char((q / 10) % 10), digit_char(q % 10)]
                + " GiB"@ == bytes_text(n) && q * 0x4000_0000 <= as_f64(n) * 100 + 0x2000_0000
                && as_f64(n) * 100 <= q * 0x4000_0000 + 0x2000_0000,
{
    reveal_with_fuel(pow10, 3);
    reveal_with_fuel(padded, 3);
    if 1024 <= n < 0x10_0000 {
        assert(pow10(0) == 1);
        assert(n * pow10(0) == n * 1);
        let q = div_round_even(n, 1024);
        lemma_div_round_even(n, 1024);
        assert(decimal(q) + " KiB"@ == bytes_text(n));
    } else if 0x10_0000 <= n < 0x4000_0000 {
        let q = div_round_even(n * pow10(1), 0x10_0000);
        lemma_div_round_even(n * 10, 0x10_0000);
        assert(padded(q % 10, 1) =~= seq![digit_char(q % 10)]);
        assert(decimal(q / 10) + seq!['.', digit_char(q % 10)] + " MiB"@ == bytes_text(n));
    } else if n >= 0x4000_0000 {
        let v = as_f64(n);
        let q = div_round_even(v * pow10(2), 0x4000_0000);
        lemma_div_round_even(v * 100, 0x4000_0000);
        assert((q % 100) / 10 == (q / 10) % 10) by (nonlinear_arith);
        assert((q % 100) % 10 == q % 10) by (nonlinear_arith);
        assert(padded(q % 100, 2) =~= seq![digit_char((q / 10) % 10), digit_char(q % 10)]);
        assert(decimal(q / 100) + seq!['.', digit_char((q / 10) % 10), digit_char(q % 10)]
            + " GiB"@ == bytes_text(n));
    }
}

fn div_round_even_exec(a: u128, d: u128) -> (r: u128)
    requires
        d > 0,
        d < 0x1_0000_0000_0000_0000_0000_0000,
        a < 0x1_0000_0000_0000_0000_0000_0000,
    ensures
        r == div_round_even(a as nat, d as nat),
{
    let q = a / d;
    let r = a % d;
    if 2 * r > d || (2 * r == d && q % 2 == 1) {
        q + 1
    } else {
        q
    }
}

proof fn lemma_pow2_bounds(e: nat)
    ensures
        pow2(e) >= e + 1,
        pow2(e + 1) == 2 * pow2(e),
    decreases e,
{
    if e > 0 {
        lemma_pow2_bounds((e - 1) as nat);
    }
}

/// The value `n as f64` holds, for a `u64`.
fn f64_value(n: u64) -> (m: u128)
    ensures
        m == as_f64(n as nat),
        m < 0x2_0000_0000_0000_0000,
{
    let mut x: u64 = n;
    let mut s: u32 = 0;
    let mut p: u128 = 1;
    while x >= 0x20_0000_0000_0000
        invariant
            p == pow2(s as nat),
            1 <= p <= 4096,
            s < p,
            p * x <= n,
            f64_shift(n as nat) == s + f64_shift(x as nat),
            x as nat == (n as nat) / pow2(s as nat),
        decreases x,
    {
        proof {
            lemma_pow2_bounds(s as nat);
            lemma_pow2_bounds((s + 1) as nat);
            vstd::arithmetic::div_mod::lemma_div_denominator(n as int, p as int, 2);
            assert(p * x >= p * 0x20_0000_0000_0000) by (nonlinear_arith)
                requires
                    x >= 0x20_0000_0000_0000,
                    p >= 1,
            ;
            assert(2 * p * (x / 2) <= p * x) by (nonlinear_arith)
                requires
                    p >= 1,
            ;
        }
        x = x / 2;
        s = s + 1;
        p = p * 2;
    }
    proof {
        lemma_pow2_bounds(s as nat);
    }
    let q = div_round_even_exec(n as u128, p);
    let nn: u128 = n as u128;
    assert(q * p <= nn + p) by (nonlinear_arith)
        requires
            q <= nn / p + 1,
            p >= 1,
    {
        assert((nn / p) * p <= nn);
    }
    q * p
}

fn push_all(out: &mut Vec<char>, s: &Vec<char>)
    ensures
        final(out)@ == old(out)@ + s@,
{
    let n = s.len();
    for i in 0..n
        invariant
            n == s@.len(),
            out@ == old(out)@ + s@.take(i as int),
    {
        out.push(s[i]);
        assert(s@.take(i + 1) == s@.take(i as int).push(s@[i as int]));
    }
    assert(s@.take(n as int) == s@);
}

fn push_str_chars(out: &mut Vec<char>, s: &str)
    ensures
        final(out)@ == old(out)@ + s@,
{
    let cs = chars_of(s);
    push_all(out, &cs);
}

fn digit_of(d: u64) -> (c: char)
    requires
        d < 10,
    ensures
        c == digit_char(d as nat),
{
    let v = decimal_chars(d);
    assert(v@ == seq![digit_char(d as nat)]);
    v[0]
}

/// `value / unit` with `p` decimals (see [`fixed`]).
fn fixed_chars(value: u128, unit: u128, p: u32) -> (r: Vec<char>)
    requires
        unit > 0,
        unit <= 0x4000_0000,
        p <= 2,
        value < 0x2_0000_0000_0000_0000,
        unit >= 0x400,
    ensures
        r@ == fixed(value as nat, unit as nat, p as nat),
{
    let scale: u128 = if p == 0 {
        1
    } else if p == 1 {
        10
    } else {
        100
    };
    assert(scale == pow10(p as nat)) by {
        reveal_with_fuel(pow10, 3);
    }
    let scaled = div_round_even_exec(value * scale, unit);
    assert(scaled <= 0xFFFF_FFFF_FFFF_FFFF) by (nonlinear_arith)
        requires
            scaled == div_round_even((value * scale) as nat, unit as nat),
            value < 0x2_0000_0000_0000_0000,
            scale <= 100,
            1 <= scale,
            unit >= 0x400,
    {
        assert(value * scale <= 0x2_0000_0000_0000_0000 * 100);
        assert(((value * scale) as int) / (unit as int) <= ((value * scale) as int) / 0x400);
    }
    if p == 0 {
        return decimal_chars(scaled as u64);
    }
    let int_part = (scaled / scale) as u64;
    let frac = scaled % scale;
    let mut out = decimal_chars(int_part);
    out.push('.');
    if p == 2 {
        let d1 = digit_of(((frac / 10) % 10) as u64);
        let d2 = digit_of((frac % 10) as u64);
        out.push(d1);
        out.push(d2);
        proof {
            reveal_with_fuel(padded, 3);
            assert(padded(frac as nat, 2) =~= seq![
                digit_char(((frac as nat / 10) % 10) as nat),
                digit_char((frac as nat % 10) as nat),
            ]);
        }
    } else {
        let d = digit_of((frac % 10) as u64);
        out.push(d);
        proof {
            reveal_with_fuel(padded, 2);
            assert(padded(frac as nat, 1) =~= seq![digit_char((frac as nat % 10) as nat)]);
        }
    }
    out
}

/// Human-readable size of `n` bytes (see [`bytes_text`]).
pub fn format_bytes(n: u64) -> (r: String)
    ensures
        r@ == bytes_text(n as nat),
{
    let mut out: Vec<char>;
    if n >= 0x4000_0000 {
        let m = f64_value(n);
        out = fixed_chars(m, 0x4000_0000, 2);
        push_str_chars(&mut out, " GiB");
    } else if n >= 0x10_0000 {
        out = fixed_chars(n as u128, 0x10_0000, 1);
        push_str_chars(&mut out, " MiB");
    } else if n >= 0x400 {
        out = fixed_chars(n as u128, 0x400, 0);
        push_str_chars(&mut out, " KiB");
    } else {
        out = decimal_chars(n);
        push_str_chars(&mut out, " B");
    }
    string_of(&out)
}

// ---------------------------------------------------------------------
// JSON fields
// ---------------------------------------------------------------------

/// A JSON value as the renderers read it.
#[derive(Debug)]
pub enum JsonField {
    /// `null`.
    Null,
    /// A JSON string (its contents, unquoted).
    Str(String),
    /// Any other value, as its compact JSON text.
    Other(String),
}

/// Placeholder for an absent value.
pub open spec fn dash() -> Seq<char> {
    seq!['\u{2014}']
}

fn dash_string() -> (r: String)
    ensures
        r@ == dash(),
{
    let v = vec!['\u{2014}'];
    string_of(&v)
}

/// How a single field is shown: the string itself, the JSON text of any
/// other value, or a dash when absent or null.
pub open spec fn field_text(v: Option<JsonField>) -> Seq<char> {
    match v {
        None => dash(),
        Some(JsonField::Null) => dash(),
        Some(JsonField::Str(s)) => s@,
        Some(JsonField::Other(t)) => t@,
    }
}

/// Render one optional field (see [`field_text`]).
pub fn fmt_field(v: Option<&JsonField>) -> (r: String)
    ensures
        r@ == field_text(
            match v {
                Some(f) => Some(*f),
                None => None,
            },
        ),
{
    match v {
        None => dash_string(),
        Some(JsonField::Null) => dash_string(),
        Some(JsonField::Str(s)) => s.clone(),
        Some(JsonField::Other(t)) => t.clone(),
    }
}

/// `key=value` for a non-null entry of a knob map.
pub open spec fn knob_pair(k: Seq<char>, v: JsonField) -> Seq<char> {
    match v {
        JsonField::Str(s) => k + seq!['='] + s@,
        JsonField::Other(t) => k + seq!['='] + t@,
        JsonField::Null => k + seq!['='],
    }
}

/// The `key=value` pairs of the non-null entries, in map order.
pub open spec fn knob_pairs(entries: Seq<(String, JsonField)>) -> Seq<Seq<char>>
    decreases entries.len(),
{
    if entries.len() == 0 {
        Seq::empty()
    } else {
        let rest = knob_pairs(entries.drop_last());
        let e = entries.last();
        if e.1 is Null {
            rest
        } else {
            rest.push(knob_pair(e.0@, e.1))
        }
    }
}

/// A knob map on one line: its non-null `key=value` pairs sorted and
/// joined with `, `; a dash for a missing value, a value that is not a
/// map, or a map of nulls. `entries` is `None` unless the value is a map.
pub open spec fn knobs_text(entries: Option<Seq<(String, JsonField)>>, r: Seq<char>) -> bool {
    match entries {
        None => r == dash(),
        Some(es) => if knob_pairs(es).len() == 0 {
            r == dash()
        } else {
            exists|s: Seq<Seq<char>>|
                s.to_multiset() == knob_pairs(es).to_multiset() && ascending(s) && r
                    == #[trigger] join(s, ", "@)
        },
    }
}

/// Render a knob map on one line (see [`knobs_text`]).
pub fn knobs_one_line(entries: Option<&Vec<(String, JsonField)>>) -> (r: String)
    ensures
        knobs_text(
            match entries {
                Some(e) => Some(e@),
                None => None,
            },
            r@,
        ),
{
    let es = match entries {
        None => {
            return dash_string();
        },
        Some(es) => es,
    };
    let mut pairs: Vec<String> = Vec::new();
    let n = es.len();
    for i in 0..n
        invariant
            n == es@.len(),
            views(pairs@) == knob_pairs(es@.take(i as int)),
    {
        assert(es@.take(i + 1).drop_last() == es@.take(i as int));
        let (k, v) = &es[i];
        let ghost before = pairs@;
        let text: Option<&String> = match v {
            JsonField::Null => None,
            JsonField::Str(t) => Some(t),
            JsonField::Other(t) => Some(t),
        };
        if let Some(t) = text {
            let mut line = k.clone();
            line.append("=");
            line.append(t.as_str());
            proof {
                reveal_strlit("=");
                assert("="@ =~= seq!['=']);
                assert(line@ == knob_pair(k@, *v));
            }
            pairs.push(line);
            assert(views(pairs@) =~= views(before).push(knob_pair(k@, *v)));
        }
    }
    assert(es@.take(n as int) == es@);
    if pairs.len() == 0 {
        return dash_string();
    }
    let sorted = sort_strings(pairs);
    let r = join_strings(&sorted, ", ");
    proof {
        crate::text::lemma_sorted_views_ascending(sorted@);
        assert(r@ == join(views(sorted@), ", "@));
    }
    r
}

/// The one-line rendering of a knob map does not depend on the order its
/// entries are walked in: maps with the same `key=value` pairs render the
/// same line.
pub proof fn lemma_knobs_line_order_independent(
    es1: Seq<(String, JsonField)>,
    es2: Seq<(String, JsonField)>,
    r1: Seq<char>,
    r2: Seq<char>,
)
    requires
        knob_pairs(es1).to_multiset() == knob_pairs(es2).to_multiset(),
        knobs_text(Some(es1), r1),
        knobs_text(Some(es2), r2),
    ensures
        r1 == r2,
{
    broadcast use vstd::seq_lib::group_to_multiset_ensures;

    if knob_pairs(es1).len() == 0 || knob_pairs(es2).len() == 0 {
        vstd::seq_lib::to_multiset_len(knob_pairs(es1));
        vstd::seq_lib::to_multiset_len(knob_pairs(es2));
    } else {
        let s1 = choose|s: Seq<Seq<char>>|
            s.to_multiset() == knob_pairs(es1).to_multiset() && ascending(s) && r1
                == #[trigger] join(s, ", "@);
        let s2 = choose|s: Seq<Seq<char>>|
            s.to_multiset() == knob_pairs(es2).to_multiset() && ascending(s) && r2
                == #[trigger] join(s, ", "@);
        crate::text::lemma_ascending_unique(s1, s2);
    }
}

// ---------------------------------------------------------------------
// On-disk size of a split set
// ---------------------------------------------------------------------

/// Sum of the sizes that are known.
pub open spec fn known_sum(sizes: Seq<Option<u64>>) -> nat
    decreases sizes.len(),
{
    if sizes.len() == 0 {
        0
    } else {
        known_sum(sizes.drop_last()) + match sizes.last() {
            Some(b) => b as nat,
            None => 0nat,
        }
    }
}

/// Whether a `last_params_list` entry (its `model_path`, and whether it
/// carries `params`) holds the parameters recorded for the model at
/// `path`.
pub open spec fn records_params_for(entry: (Option<String>, bool), path: Seq<char>) -> bool {
    &&& entry.0 matches Some(p) && p@ == path
    &&& entry.1
}

/// Which `last_params_list` entry holds the launch parameters recorded
/// for the model at `path`: the first whose `model_path` is `path` and
/// that carries `params`; `None` when no entry does.
pub fn last_params_index(entries: &Vec<(Option<String>, bool)>, path: &String) -> (r: Option<usize>)
    ensures
        match r {
            Some(i) => i < entries@.len() && records_params_for(entries@[i as int], path@)
                && forall|j: int| 0 <= j < i ==> !records_params_for(#[trigger] entries@[j], path@),
            None => forall|j: int|
                0 <= j < entries@.len() ==> !records_params_for(#[trigger] entries@[j], path@),
        },
{
    let n = entries.len();
    for i in 0..n
        invariant
            n == entries@.len(),
            forall|j: int| 0 <= j < i ==> !records_params_for(#[trigger] entries@[j], path@),
    {
        let (p, has) = &entries[i];
        if *has {
            if let Some(p) = p {
                if *p == *path {
                    return Some(i);
                }
            }
        }
    }
    None
}

/// Total on-disk bytes of a model: the launch file's size (`0` when it
/// could not be read) plus every readable sibling's, saturating at
/// `u64::MAX`. The siblings' own sum must fit in a `u64`.
pub fn on_disk_total(primary: Option<u64>, siblings: &Vec<Option<u64>>) -> (r: u64)
    requires
        known_sum(siblings@) <= u64::MAX,
    ensures
        r == ({
            let p = match primary {
                Some(b) => b as nat,
                None => 0nat,
            };
            if p + known_sum(siblings@) > u64::MAX {
                u64::MAX as nat
            } else {
                p + known_sum(siblings@)
            }
        }),
{
    let n = siblings.len();
    let mut sum: u64 = 0;
    for i in 0..n
        invariant
            n == siblings@.len(),
            known_sum(siblings@) <= u64::MAX,
            sum == known_sum(siblings@.take(i as int)),
    {
        proof {
            assert(siblings@.take(i + 1).drop_last() == siblings@.take(i as int));
            lemma_known_sum_prefix(siblings@, i + 1);
        }
        if let Some(b) = siblings[i] {
            sum = sum + b;
        }
    }
    assert(siblings@.take(n as int) == siblings@);
    let p = match primary {
        Some(b) => b,
        None => 0,
    };
    p.saturating_add(sum)
}

proof fn lemma_known_sum_prefix(s: Seq<Option<u64>>, i: int)
    requires
        0 <= i <= s.len(),
    ensures
        known_sum(s.take(i)) <= known_sum(s),
    decreases s.len(),
{
    if i < s.len() {
        lemma_known_sum_prefix(s.drop_last(), i);
        assert(s.drop_last().take(i) == s.take(i));
    } else {
        assert(s.take(i) == s);
    }
}

// ---------------------------------------------------------------------
// The human-readable `show` page
// ---------------------------------------------------------------------

/// One line of the human-readable `show` page. Presentation (bold
/// titles, dimmed keys, warning colour) is applied by the terminal layer.
#[derive(Debug)]
pub enum ShowLine {
    /// The model's name, in bold.
    Title(String),
    /// A section heading after a blank line, with an optional dimmed note
    /// in parentheses.
    Section { title: String, note: Option<String> },
    /// An indented `key  value` row; `key` is already padded to the key
    /// column width. `warn` marks a value shown in the warning colour.
    Field { key: String, value: String, warn: bool },
}

/// The `last_params` record of a model, as far as the page shows it.
#[derive(Debug)]
pub struct LastParams {
    pub ctx: Option<JsonField>,
    pub mode: Option<JsonField>,
    pub reasoning: Option<JsonField>,
    /// The `knobs` entries, when `knobs` is a map.
    pub knobs: Option<Vec<(String, JsonField)>>,
}

/// What the page reads from the `show` envelope besides the catalog row.
#[derive(Debug)]
pub struct ShowEnvelope {
    /// `size.on_disk_total_bytes`.
    pub on_disk_total_bytes: u64,
    /// `arch_defaults.gpu_backend`.
    pub gpu_backend: String,
    /// `arch_defaults.yaml` entries, when it is a map.
    pub yaml: Option<Vec<(String, JsonField)>>,
    /// `arch_defaults.builtin` entries, when it is a map.
    pub builtin: Option<Vec<(String, JsonField)>>,
    /// `last_params`, when recorded (not null).
    pub last_params: Option<LastParams>,
}

/// Value of a [`ShowLine`].
pub enum LineView {
    Title(Seq<char>),
    Section(Seq<char>, Option<Seq<char>>),
    Field(Seq<char>, Seq<char>, bool),
}

pub open spec fn line_view(l: ShowLine) -> LineView {
    match l {
        ShowLine::Title(t) => LineView::Title(t@),
        ShowLine::Section { title, note } => LineView::Section(
            title@,
            match note {
                Some(n) => Some(n@),
                None => None,
            },
        ),
        ShowLine::Field { key, value, warn } => LineView::Field(key@, value@, warn),
    }
}

pub open spec fn line_views(ls: Seq<ShowLine>) -> Seq<LineView> {
    ls.map_values(|l: ShowLine| line_view(l))
}

/// `n` spaces.
pub open spec fn spaces(n: nat) -> Seq<char>
    decreases n,
{
    if n == 0 {
        Seq::empty()
    } else {
        spaces((n - 1) as nat).push(' ')
    }
}

/// A key left-aligned in the 18-column key column (`{key:<18}`).
pub open spec fn pad_key(k: Seq<char>) -> Seq<char> {
    if k.len() >= 18 {
        k
    } else {
        k + spaces((18 - k.len()) as nat)
    }
}

pub open spec fn field(k: Seq<char>, v: Seq<char>) -> LineView {
    LineView::Field(pad_key(k), v, false)
}

pub open spec fn or_dash(o: Option<String>) -> Seq<char> {
    match o {
        Some(s) => s@,
        None => dash(),
    }
}

pub open spec fn yes_no(b: bool) -> Seq<char> {
    if b {
        "yes"@
    } else {
        "no"@
    }
}

/// `shard 2`, `shard 3`, ... rows for the split siblings.
pub open spec fn shard_fields(sibs: Seq<String>) -> Seq<LineView>
    decreases sibs.len(),
{
    if sibs.len() == 0 {
        Seq::empty()
    } else {
        shard_fields(sibs.drop_last()).push(
            field("shard "@ + decimal((sibs.len() + 1) as nat), sibs.last()@),
        )
    }
}

/// Title and identity rows.
pub open spec fn header_part(row: CatalogRow) -> Seq<LineView> {
    seq![
        LineView::Title(crate::cli::resolve::row_name(row)),
        field("path"@, row.path@),
        field("parent"@, row.parent@),
        field("source"@, row.source@),
    ] + match row.model_id {
        Some(id) => seq![field("model_id"@, id@)],
        None => Seq::empty(),
    } + match row.display_label {
        Some(l) => seq![field("display_label"@, l@)],
        None => Seq::empty(),
    } + match row.parse_error {
        Some(e) => seq![LineView::Field(pad_key("parse_error"@), e@, true)],
        None => Seq::empty(),
    }
}

/// The `metadata` section.
pub open spec fn metadata_part(row: CatalogRow) -> Seq<LineView> {
    seq![
        LineView::Section("metadata"@, None),
        field("arch"@, or_dash(row.arch)),
        field("quant"@, or_dash(row.quant)),
        field(
            "native_ctx"@,
            match row.native_ctx {
                Some(n) => decimal(n as nat),
                None => dash(),
            },
        ),
        field("mode_hint"@, or_dash(row.mode_hint)),
        field("parameter_label"@, or_dash(row.parameter_label)),
        field("tokenizer_kind"@, or_dash(row.tokenizer_kind)),
        field("has_chat_template"@, yes_no(row.has_chat_template)),
        field("has_reasoning_hint"@, yes_no(row.has_reasoning_hint)),
    ]
}

/// The `size` section.
pub open spec fn size_part(row: CatalogRow, env: ShowEnvelope) -> Seq<LineView> {
    seq![
        LineView::Section("size"@, None),
        field(
            "weights_bytes"@,
            match row.weights_bytes {
                Some(b) => bytes_text(b as nat),
                None => dash(),
            },
        ),
        field("shard_count"@, decimal((1 + row.split_siblings@.len()) as nat)),
        field("on_disk_total"@, bytes_text(env.on_disk_total_bytes as nat)),
    ] + shard_fields(row.split_siblings@)
}

/// The `arch_defaults` section, given the knob lines.
pub open spec fn defaults_part(env: ShowEnvelope, yaml: Seq<char>, builtin: Seq<char>) -> Seq<
    LineView,
> {
    seq![
        LineView::Section("arch_defaults"@, Some(env.gpu_backend@)),
        field("yaml"@, yaml),
        field("builtin"@, builtin),
    ]
}

/// The `last_params` section, given its knob line.
pub open spec fn last_part(env: ShowEnvelope, knobs: Seq<char>) -> Seq<LineView> {
    seq![LineView::Section("last_params"@, None)] + match env.last_params {
        None => seq![field("(none)"@, "launch it once to populate"@)],
        Some(lp) => seq![
            field("ctx"@, field_text(lp.ctx)),
            field("mode"@, field_text(lp.mode)),
            field("reasoning"@, field_text(lp.reasoning)),
            field("knobs"@, knobs),
        ],
    }
}

/// The page's lines, given the one-line renderings of the knob maps.
pub open spec fn page(
    row: CatalogRow,
    env: ShowEnvelope,
    yaml: Seq<char>,
    builtin: Seq<char>,
    knobs: Seq<char>,
) -> Seq<LineView> {
    header_part(row) + metadata_part(row) + size_part(row, env) + defaults_part(env, yaml, builtin)
        + last_part(env, knobs)
}

pub open spec fn opt_entries(o: Option<Vec<(String, JsonField)>>) -> Option<
    Seq<(String, JsonField)>,
> {
    match o {
        Some(v) => Some(v@),
        None => None,
    }
}

/// `lines` is the page for `row` and `env`, with each knob map rendered
/// on one line (see [`knobs_text`]).
pub open spec fn is_page(row: CatalogRow, env: ShowEnvelope, lines: Seq<LineView>) -> bool {
    exists|y: Seq<char>, b: Seq<char>, k: Seq<char>|
        knobs_text(opt_entries(env.yaml), y) && knobs_text(opt_entries(env.builtin), b) && (
        match env.last_params {
            Some(lp) => knobs_text(opt_entries(lp.knobs), k),
            None => true,
        }) && lines == #[trigger] page(row, env, y, b, k)
}

fn pad_key_exec(k: &str) -> (r: String)
    ensures
        r@ == pad_key(k@),
{
    let mut cs = chars_of(k);
    let ghost orig = cs@;
    let n = cs.len();
    if n < 18 {
        let mut i: usize = n;
        while i < 18
            invariant
                n <= i <= 18,
                n == orig.len(),
                cs@ == orig + spaces((i - n) as nat),
            decreases 18 - i,
        {
            cs.push(' ');
            i = i + 1;
        }
    }
    string_of(&cs)
}

fn field_line(key: &str, value: String) -> (l: ShowLine)
    ensures
        line_view(l) == field(key@, value@),
{
    ShowLine::Field { key: pad_key_exec(key), value, warn: false }
}

fn push_line(v: &mut Vec<ShowLine>, l: ShowLine)
    ensures
        line_views(final(v)@) == line_views(old(v)@).push(line_view(l)),
{
    v.push(l);
    assert(line_views(v@) =~= line_views(old(v)@).push(line_view(l)));
}

fn opt_or_dash(o: &Option<String>) -> (r: String)
    ensures
        r@ == or_dash(*o),
{
    match o {
        Some(s) => s.clone(),
        None => dash_string(),
    }
}

fn yes_no_exec(b: bool) -> (r: String)
    ensures
        r@ == yes_no(b),
{
    if b {
        owned("yes")
    } else {
        owned("no")
    }
}

fn opt_field_ref(o: &Option<JsonField>) -> (r: Option<&JsonField>)
    ensures
        match r {
            Some(f) => *o == Some(*f),
            None => *o is None,
        },
{
    match o {
        Some(f) => Some(f),
        None => None,
    }
}

fn header_lines(row: &CatalogRow) -> (out: Vec<ShowLine>)
    ensures
        line_views(out@) == header_part(*row),
{
    let mut out: Vec<ShowLine> = Vec::new();
    push_line(&mut out, ShowLine::Title(row.name()));
    push_line(&mut out, field_line("path", row.path.clone()));
    push_line(&mut out, field_line("parent", row.parent.clone()));
    push_line(&mut out, field_line("source", row.source.clone()));
    let ghost a = line_views(out@);
    if let Some(id) = &row.model_id {
        push_line(&mut out, field_line("model_id", id.clone()));
    }
    let ghost b = line_views(out@);
    if let Some(l) = &row.display_label {
        push_line(&mut out, field_line("display_label", l.clone()));
    }
    let ghost c = line_views(out@);
    if let Some(e) = &row.parse_error {
        let key = pad_key_exec("parse_error");
        push_line(&mut out, ShowLine::Field { key, value: e.clone(), warn: true });
    }
    assert(line_views(out@) =~= header_part(*row));
    out
}

fn metadata_lines(row: &CatalogRow) -> (out: Vec<ShowLine>)
    ensures
        line_views(out@) == metadata_part(*row),
{
    let mut out: Vec<ShowLine> = Vec::new();
    push_line(&mut out, ShowLine::Section { title: owned("metadata"), note: None });
    push_line(&mut out, field_line("arch", opt_or_dash(&row.arch)));
    push_line(&mut out, field_line("quant", opt_or_dash(&row.quant)));
    let ctx = match row.native_ctx {
        Some(n) => crate::text::decimal_string(n as u64),
        None => dash_string(),
    };
    push_line(&mut out, field_line("native_ctx", ctx));
    push_line(&mut out, field_line("mode_hint", opt_or_dash(&row.mode_hint)));
    push_line(&mut out, field_line("parameter_label", opt_or_dash(&row.parameter_label)));
    push_line(&mut out, field_line("tokenizer_kind", opt_or_dash(&row.tokenizer_kind)));
    push_line(&mut out, field_line("has_chat_template", yes_no_exec(row.has_chat_template)));
    push_line(&mut out, field_line("has_reasoning_hint", yes_no_exec(row.has_reasoning_hint)));
    assert(line_views(out@) =~= metadata_part(*row));
    out
}

fn size_lines(row: &CatalogRow, env: &ShowEnvelope) -> (out: Vec<ShowLine>)
    requires
        row.split_siblings@.len() + 2 <= u64::MAX,
    ensures
        line_views(out@) == size_part(*row, *env),
{
    let mut out: Vec<ShowLine> = Vec::new();
    push_line(&mut out, ShowLine::Section { title: owned("size"), note: None });
    let wb = match row.weights_bytes {
        Some(b) => format_bytes(b),
        None => dash_string(),
    };
    push_line(&mut out, field_line("weights_bytes", wb));
    let nsib = row.split_siblings.len();
    push_line(&mut out, field_line("shard_count", crate::text::decimal_string(1 + nsib as u64)));
    push_line(&mut out, field_line("on_disk_total", format_bytes(env.on_disk_total_bytes)));
    let ghost e = line_views(out@);
    assert(row.split_siblings@.take(0) =~= Seq::<String>::empty());
    assert(e =~= e + shard_fields(row.split_siblings@.take(0)));
    for i in 0..nsib
        invariant
            nsib == row.split_siblings@.len(),
            nsib + 2 <= u64::MAX,
            line_views(out@) == e + shard_fields(row.split_siblings@.take(i as int)),
    {
        let mut key = owned("shard ");
        let num = crate::text::decimal_string(i as u64 + 2);
        key.append(num.as_str());
        let ghost before = line_views(out@);
        push_line(&mut out, field_line(key.as_str(), row.split_siblings[i].clone()));
        proof {
            assert(row.split_siblings@.take(i + 1).drop_last() == row.split_siblings@.take(
                i as int,
            ));
            assert(line_views(out@) =~= e + shard_fields(row.split_siblings@.take(i + 1)));
        }
    }
    assert(row.split_siblings@.take(nsib as int) == row.split_siblings@);
    assert(line_views(out@) =~= size_part(*row, *env));
    out
}

fn opt_vec_ref(o: &Option<Vec<(String, JsonField)>>) -> (r: Option<&Vec<(String, JsonField)>>)
    ensures
        match r {
            Some(v) => opt_entries(*o) == Some(v@),
            None => opt_entries(*o) is None,
        },
{
    match o {
        Some(v) => Some(v),
        None => None,
    }
}

fn defaults_lines(env: &ShowEnvelope) -> (r: (Vec<ShowLine>, Ghost<Seq<char>>, Ghost<Seq<char>>))
    ensures
        knobs_text(opt_entries(env.yaml), r.1@),
        knobs_text(opt_entries(env.builtin), r.2@),
        line_views(r.0@) == defaults_part(*env, r.1@, r.2@),
{
    let mut out: Vec<ShowLine> = Vec::new();
    push_line(
        &mut out,
        ShowLine::Section { title: owned("arch_defaults"), note: Some(env.gpu_backend.clone()) },
    );
    let yaml = knobs_one_line(opt_vec_ref(&env.yaml));
    let builtin = knobs_one_line(opt_vec_ref(&env.builtin));
    let ghost y = yaml@;
    let ghost b = builtin@;
    push_line(&mut out, field_line("yaml", yaml));
    push_line(&mut out, field_line("builtin", builtin));
    assert(line_views(out@) =~= defaults_part(*env, y, b));
    (out, Ghost(y), Ghost(b))
}

fn last_lines(env: &ShowEnvelope) -> (r: (Vec<ShowLine>, Ghost<Seq<char>>))
    ensures
        match env.last_params {
            Some(lp) => knobs_text(opt_entries(lp.knobs), r.1@),
            None => true,
        },
        line_views(r.0@) == last_part(*env, r.1@),
{
    let mut out: Vec<ShowLine> = Vec::new();
    push_line(&mut out, ShowLine::Section { title: owned("last_params"), note: None });
    match &env.last_params {
        None => {
            push_line(&mut out, field_line("(none)", owned("launch it once to populate")));
            assert(line_views(out@) =~= last_part(*env, Seq::empty()));
            (out, Ghost(Seq::empty()))
        },
        Some(lp) => {
            push_line(&mut out, field_line("ctx", fmt_field(opt_field_ref(&lp.ctx))));
            push_line(&mut out, field_line("mode", fmt_field(opt_field_ref(&lp.mode))));
            push_line(&mut out, field_line("reasoning", fmt_field(opt_field_ref(&lp.reasoning))));
            let k = knobs_one_line(opt_vec_ref(&lp.knobs));
            let ghost kv = k@;
            push_line(&mut out, field_line("knobs", k));
            assert(line_views(out@) =~= last_part(*env, kv));
            (out, Ghost(kv))
        },
    }
}

fn append_lines(out: &mut Vec<ShowLine>, more: Vec<ShowLine>)
    ensures
        line_views(final(out)@) == line_views(old(out)@) + line_views(more@),
{
    let mut m = more;
    let ghost mv = m@;
    out.append(&mut m);
    assert(line_views(out@) =~= line_views(old(out)@) + line_views(mv));
}

/// The lines of the human-readable `show` page (see [`page`]).
pub fn human_lines(row: &CatalogRow, env: &ShowEnvelope) -> (lines: Vec<ShowLine>)
    requires
        row.split_siblings@.len() + 2 <= u64::MAX,
    ensures
        is_page(*row, *env, line_views(lines@)),
{
    let mut out = header_lines(row);
    append_lines(&mut out, metadata_lines(row));
    append_lines(&mut out, size_lines(row, env));
    let (d, Ghost(y), Ghost(b)) = defaults_lines(env);
    append_lines(&mut out, d);
    let (l, Ghost(k)) = last_lines(env);
    append_lines(&mut out, l);
    assert(line_views(out@) == page(*row, *env, y, b, k));
    out
}

/// The value a page row shows for an optional text: the text, or an em
/// dash when there is none.
pub open spec fn shown(o: Option<String>) -> Seq<char> {
    match o {
        Some(s) => s@,
        None => seq!['\u{2014}'],
    }
}

/// The value a page row shows for a JSON field: a string as it is, any
/// other value in its JSON text, an em dash for null or absent.
pub open spec fn json_shown(v: Option<JsonField>) -> Seq<char> {
    match v {
        Some(JsonField::Str(s)) => s@,
        Some(JsonField::Other(t)) => t@,
        _ => seq!['\u{2014}'],
    }
}

/// How many identity rows follow the title: path, parent and source, then
/// model id, display label and parse error where the row has them.
pub open spec fn identity_rows(row: CatalogRow) -> int {
    3 + (if row.model_id is Some { 1int } else { 0 }) + (if row.display_label is Some {
        1int
    } else {
        0
    }) + (if row.parse_error is Some { 1int } else { 0 })
}

/// Layout law of the `show` page: the model's name comes first, then its
/// path, parent and source (and, where the row has them, its model id,
/// display label and parse error, the latter flagged); then the
/// `metadata` section carrying, key by key, the row's architecture,
/// quantization, native context, mode hint, parameter label and
/// tokenizer kind (a dash for each one missing) and its chat-template and
/// reasoning-hint flags as yes/no; then the `size` section with the
/// weight bytes, the shard count (one more than the siblings) and the
/// on-disk total, followed by one `shard N` row per sibling from shard 2
/// on; then `arch_defaults` noted with the GPU backend; then
/// `last_params`.
#[verifier::spinoff_prover]
#[verifier::rlimit(60)]
pub proof fn lemma_page_layout(row: CatalogRow, env: ShowEnvelope, lines: Seq<LineView>)
    requires
        is_page(row, env, lines),
    ensures
        ({
            let h = 1 + identity_rows(row);
            let m = h + 9;
            let z = m + 4 + row.split_siblings@.len();
            &&& lines[0] == LineView::Title(crate::cli::resolve::row_name(row))
            &&& lines[1] == LineView::Field(pad_key("path"@), row.path@, false)
            &&& lines[2] == LineView::Field(pad_key("parent"@), row.parent@, false)
            &&& lines[3] == LineView::Field(pad_key("source"@), row.source@, false)
            &&& row.model_id matches Some(id) ==> lines[4] == LineView::Field(
                pad_key("model_id"@),
                id@,
                false,
            )
            &&& row.display_label matches Some(l) ==> lines[4 + (if row.model_id is Some {
                1int
            } else {
                0
            })] == LineView::Field(pad_key("display_label"@), l@, false)
            &&& row.parse_error matches Some(e) ==> lines[h - 1] == LineView::Field(
                pad_key("parse_error"@),
                e@,
                true,
            )
            &&& lines[h] == LineView::Section("metadata"@, None)
            &&& lines[h + 1] == LineView::Field(pad_key("arch"@), shown(row.arch), false)
            &&& lines[h + 2] == LineView::Field(pad_key("quant"@), shown(row.quant), false)
            &&& lines[h + 3] == LineView::Field(
                pad_key("native_ctx"@),
                match row.native_ctx {
                    Some(n) => decimal(n as nat),
                    None => seq!['\u{2014}'],
                },
                false,
            )
            &&& lines[h + 4] == LineView::Field(pad_key("mode_hint"@), shown(row.mode_hint), false)
            &&& lines[h + 5] == LineView::Field(
                pad_key("parameter_label"@),
                shown(row.parameter_label),
                false,
            )
            &&& lines[h + 6] == LineView::Field(
                pad_key("tokenizer_kind"@),
                shown(row.tokenizer_kind),
                false,
            )
            &&& lines[h + 7] == LineView::Field(
                pad_key("has_chat_template"@),
                if row.has_chat_template {
                    "yes"@
                } else {
                    "no"@
                },
                false,
            )
            &&& lines[h + 8] == LineView::Field(
                pad_key("has_reasoning_hint"@),
                if row.has_reasoning_hint {
                    "yes"@
                } else {
                    "no"@
                },
                false,
            )
            &&& lines[m] == LineView::Section("size"@, None)
            &&& lines[m + 1] == LineView::Field(
                pad_key("weights_bytes"@),
                match row.weights_bytes {
                    Some(b) => bytes_text(b as nat),
                    None => seq!['\u{2014}'],
                },
                false,
            )
            &&& lines[m + 2] == LineView::Field(
                pad_key("shard_count"@),
                decimal((row.split_siblings@.len() + 1) as nat),
                false,
            )
            &&& lines[m + 3] == LineView::Field(
                pad_key("on_disk_total"@),
                bytes_text(env.on_disk_total_bytes as nat),
                false,
            )
            &&& forall|i: int|
                0 <= i < row.split_siblings@.len() ==> lines[m + 4 + i] == LineView::Field(
                    pad_key("shard "@ + decimal((i + 2) as nat)),
                    (#[trigger] row.split_siblings@[i])@,
                    false,
                )
            &&& lines[z] == LineView::Section("arch_defaults"@, Some(env.gpu_backend@))
            &&& lines[z + 1] matches LineView::Field(key, y, false) && key == pad_key("yaml"@)
                && knobs_text(opt_entries(env.yaml), y)
            &&& lines[z + 2] matches LineView::Field(key, b, false) && key == pad_key("builtin"@)
                && knobs_text(opt_entries(env.builtin), b)
            &&& lines[z + 3] == LineView::Section("last_params"@, None)
            &&& env.last_params is None ==> lines.len() == z + 5 && lines[z + 4] == LineView::Field(
                pad_key("(none)"@),
                "launch it once to populate"@,
                false,
            )
            &&& env.last_params matches Some(lp) ==> {
                &&& lines.len() == z + 8
                &&& lines[z + 4] == LineView::Field(pad_key("ctx"@), json_shown(lp.ctx), false)
                &&& lines[z + 5] == LineView::Field(pad_key("mode"@), json_shown(lp.mode), false)
                &&& lines[z + 6] == LineView::Field(
                    pad_key("reasoning"@),
                    json_shown(lp.reasoning),
                    false,
                )
                &&& lines[z + 7] matches LineView::Field(key, kn, false) && key == pad_key(
                    "knobs"@,
                ) && knobs_text(opt_entries(lp.knobs), kn)
            }
        }),
{
    let (y, b, k) = choose|y: Seq<char>, b: Seq<char>, k: Seq<char>|
        knobs_text(opt_entries(env.yaml), y) && knobs_text(opt_entries(env.builtin), b) && (
        match env.last_params {
            Some(lp) => knobs_text(opt_entries(lp.knobs), k),
            None => true,
        }) && lines == #[trigger] page(row, env, y, b, k);
    let hp = header_part(row);
    let mp = metadata_part(row);
    let sp = size_part(row, env);
    let dp = defaults_part(env, y, b);
    let lp = last_part(env, k);
    lemma_shard_fields(row.split_siblings@);
    assert(hp.len() == 1 + identity_rows(row));
    assert(lines == hp + mp + sp + dp + lp);
    let h = hp.len() as int;
    let m = h + 9;
    assert forall|i: int| 0 <= i < hp.len() implies lines[i] == hp[i] by {}
    assert forall|i: int| 0 <= i < 9 implies lines[h + i] == mp[i] by {}
    assert forall|i: int| 0 <= i < sp.len() implies lines[m + i] == sp[i] by {}
    let z = m + sp.len();
    assert forall|i: int| 0 <= i < 3 implies lines[z + i] == dp[i] by {}
    assert forall|i: int| 0 <= i < lp.len() implies lines[z + 3 + i] == lp[i] by {}
    assert forall|i: int| 0 <= i < row.split_siblings@.len() implies lines[m + 4 + i]
        == LineView::Field(
        pad_key("shard "@ + decimal((i + 2) as nat)),
        (#[trigger] row.split_siblings@[i])@,
        false,
    ) by {
        assert(lines[m + 4 + i] == sp[4 + i]);
    }
    assert(lines[z + 1] == dp[1]);
    assert(lines[z + 2] == dp[2]);
    if env.last_params is Some {
        assert(lines[z + 7] == lp[4]);
    }
}

/// The sibling rows: one `shard N` row per sibling, numbered from 2.
proof fn lemma_shard_fields(sibs: Seq<String>)
    ensures
        shard_fields(sibs).len() == sibs.len(),
        forall|i: int|
            0 <= i < sibs.len() ==> #[trigger] shard_fields(sibs)[i] == field(
                "shard "@ + decimal((i + 2) as nat),
                sibs[i]@,
            ),
    decreases sibs.len(),
{
    if sibs.len() > 0 {
        lemma_shard_fields(sibs.drop_last());
        assert forall|i: int| 0 <= i < sibs.len() implies #[trigger] shard_fields(sibs)[i] == field(
            "shard "@ + decimal((i + 2) as nat),
            sibs[i]@,
        ) by {
            if i < sibs.len() - 1 {
                assert(sibs.drop_last()[i] == sibs[i]);
            }
        }
    }
}

// ---------------------------------------------------------------------
// Terminal rendering of the page
// ---------------------------------------------------------------------

/// `s` in the ANSI SGR style `code` followed by a reset when `on`, plain
/// otherwise.
pub open spec fn style_of(s: Seq<char>, code: Seq<char>, on: bool) -> Seq<char> {
    if on {
        seq!['\u{1b}', '['] + code + seq!['m'] + s + seq!['\u{1b}', '[', '0', 'm']
    } else {
        s
    }
}

/// `console::style(s).force_styling(on).bold()` rendered: `s` in bold
/// (`ESC[1m` … `ESC[0m`) when `on`, plain otherwise.
#[verifier::external_body]
fn bold(s: &str, on: bool) -> (r: String)
    ensures
        r@ == style_of(s@, seq!['1'], on),
{
    console::style(s).force_styling(on).bold().to_string()
}

/// `console::style(s).force_styling(on).dim()` rendered: `s` dimmed
/// (`ESC[2m` … `ESC[0m`) when `on`, plain otherwise.
#[verifier::external_body]
fn dim(s: &str, on: bool) -> (r: String)
    ensures
        r@ == style_of(s@, seq!['2'], on),
{
    console::style(s).force_styling(on).dim().to_string()
}

/// `console::style(s).force_styling(on).yellow()` rendered: `s` in the
/// yellow foreground (`ESC[33m` … `ESC[0m`) when `on`, plain otherwise.
#[verifier::external_body]
fn warning(s: &str, on: bool) -> (r: String)
    ensures
        r@ == style_of(s@, seq!['3', '3'], on),
{
    console::style(s).force_styling(on).yellow().to_string()
}

/// One page line as text, styled when `on`: a bold title line; a blank
/// line then a bold heading (with its dimmed note in parentheses); or an
/// indented row of the dimmed key column and the value (in the warning
/// colour when flagged).
pub open spec fn line_text(l: LineView, on: bool) -> Seq<char> {
    match l {
        LineView::Title(t) => style_of(t, seq!['1'], on) + seq!['\n'],
        LineView::Section(t, None) => seq!['\n'] + style_of(t, seq!['1'], on) + seq!['\n'],
        LineView::Section(t, Some(n)) => seq!['\n'] + style_of(t, seq!['1'], on) + seq![' ', '(']
            + style_of(n, seq!['2'], on) + seq![')', '\n'],
        LineView::Field(k, v, w) => seq![' ', ' '] + style_of(k, seq!['2'], on) + seq![' ', ' '] + (
        if w {
            style_of(v, seq!['3', '3'], on)
        } else {
            v
        }) + seq!['\n'],
    }
}

/// The lines as text, one after the other, styled when `on`.
pub open spec fn page_text(ls: Seq<LineView>, on: bool) -> Seq<char>
    decreases ls.len(),
{
    if ls.len() == 0 {
        Seq::empty()
    } else {
        page_text(ls.drop_last(), on) + line_text(ls.last(), on)
    }
}

fn append_str(out: &mut String, s: &str)
    ensures
        final(out)@ == old(out)@ + s@,
{
    out.append(s);
}

fn render_line(l: &ShowLine, colors: bool) -> (r: String)
    ensures
        r@ == line_text(line_view(*l), colors),
{
    proof {
        reveal_strlit("\n");
        reveal_strlit("  ");
        reveal_strlit(" (");
        reveal_strlit(")\n");
    }
    match l {
        ShowLine::Title(t) => {
            let mut r = bold(t.as_str(), colors);
            append_str(&mut r, "\n");
            r
        },
        ShowLine::Section { title, note } => {
            let mut r = owned("\n");
            let b = bold(title.as_str(), colors);
            append_str(&mut r, b.as_str());
            match note {
                None => {
                    append_str(&mut r, "\n");
                },
                Some(n) => {
                    let d = dim(n.as_str(), colors);
                    append_str(&mut r, " (");
                    append_str(&mut r, d.as_str());
                    append_str(&mut r, ")\n");
                },
            }
            r
        },
        ShowLine::Field { key, value, warn } => {
            let d = dim(key.as_str(), colors);
            let u = if *warn {
                warning(value.as_str(), colors)
            } else {
                value.clone()
            };
            let mut r = owned("  ");
            append_str(&mut r, d.as_str());
            append_str(&mut r, "  ");
            append_str(&mut r, u.as_str());
            append_str(&mut r, "\n");
            r
        },
    }
}

/// The human-readable `show` page for `row`: the lines of [`human_lines`]
/// one after the other, every styled piece styled when `colors` (whether
/// the terminal takes colours) and none otherwise.
pub fn render_human(row: &CatalogRow, env: &ShowEnvelope, colors: bool) -> (out: String)
    requires
        row.split_siblings@.len() + 2 <= u64::MAX,
    ensures
        exists|lines: Seq<LineView>| is_page(*row, *env, lines) && out@ == page_text(lines, colors),
{
    let lines = human_lines(row, env);
    let mut out = String::new();
    let n = lines.len();
    for i in 0..n
        invariant
            n == lines@.len(),
            out@ == page_text(line_views(lines@.take(i as int)), colors),
    {
        let piece = render_line(&lines[i], colors);
        append_str(&mut out, piece.as_str());
        assert(line_views(lines@.take(i + 1)).drop_last() =~= line_views(lines@.take(i as int)));
    }
    assert(lines@.take(n as int) == lines@);
    out
}

} // verus!
