//! Fit a row of ranked hint chips into a width budget.
//!
//! Chips are ordered by priority: lower `rank` first, display position
//! breaking ties. Under width pressure the lowest-priority chips drop
//! first: the survivors are the longest priority prefix whose rendering
//! (chip texts plus one separator between neighbours) fits the budget,
//! shown in display order.
use vstd::prelude::*;

use crate::text::{joined_len, views};

verus! {

broadcast use vstd::seq_lib::group_seq_properties;

/// A rendered `key:label` chip and its drop rank (lower survives longer).
#[derive(Debug)]
pub struct RankedChip {
    pub rank: u8,
    pub text: String,
}

impl RankedChip {
    pub fn new(rank: u8, text: String) -> (r: RankedChip)
        ensures
            r.rank == rank,
            r.text == text,
    {
        RankedChip { rank, text }
    }
}

/// The `(rank, text)` pairs of a chip row.
pub open spec fn chip_pairs(chips: Seq<RankedChip>) -> Seq<(u8, Seq<char>)> {
    chips.map_values(|c: RankedChip| (c.rank, c.text@))
}

/// Chip `a` has higher priority than chip `b`.
pub open spec fn outranks(ps: Seq<(u8, Seq<char>)>, a: int, b: int) -> bool {
    ps[a].0 < ps[b].0 || (ps[a].0 == ps[b].0 && a < b)
}

/// How many of the first `m` ps outrank chip `i`.
pub open spec fn count_outranking(ps: Seq<(u8, Seq<char>)>, i: int, m: int) -> nat
    decreases m,
{
    if m <= 0 {
        0
    } else {
        count_outranking(ps, i, m - 1) + if outranks(ps, m - 1, i) {
            1nat
        } else {
            0nat
        }
    }
}

/// Position of chip `i` in priority order.
pub open spec fn priority_pos(ps: Seq<(u8, Seq<char>)>, i: int) -> nat {
    count_outranking(ps, i, ps.len() as int)
}

/// Texts, in display order among the first `upto` ps, of those whose
/// priority position is below `k`.
pub open spec fn kept_texts(ps: Seq<(u8, Seq<char>)>, k: nat, upto: int) -> Seq<Seq<char>>
    decreases upto,
{
    if upto <= 0 {
        Seq::empty()
    } else {
        let rest = kept_texts(ps, k, upto - 1);
        if priority_pos(ps, upto - 1) < k {
            rest.push(ps[upto - 1].1)
        } else {
            rest
        }
    }
}

/// The `k` highest-priority ps, in display order.
pub open spec fn top_chips(ps: Seq<(u8, Seq<char>)>, k: nat) -> Seq<Seq<char>> {
    kept_texts(ps, k, ps.len() as int)
}

/// The rendering of the `k` highest-priority ps fits `budget`.
pub open spec fn fits(ps: Seq<(u8, Seq<char>)>, k: nat, budget: nat, sep_len: nat) -> bool {
    joined_len(top_chips(ps, k), sep_len) <= budget
}

/// The largest `k' <= k` whose top ps fit (`0` always fits).
pub open spec fn best_count(ps: Seq<(u8, Seq<char>)>, k: nat, budget: nat, sep_len: nat) -> nat
    decreases k,
{
    if k == 0 || fits(ps, k, budget, sep_len) {
        k
    } else {
        best_count(ps, (k - 1) as nat, budget, sep_len)
    }
}

/// What [`pick`] returns.
pub open spec fn picked(ps: Seq<(u8, Seq<char>)>, budget: nat, sep_len: nat) -> Seq<Seq<char>> {
    top_chips(ps, best_count(ps, ps.len(), budget, sep_len))
}

fn count_outranking_exec(chips: &Vec<RankedChip>, i: usize) -> (r: usize)
    requires
        i < chips@.len(),
    ensures
        r == priority_pos(chip_pairs(chips@), i as int),
{
    let n = chips.len();
    let mut c: usize = 0;
    let mut m: usize = 0;
    while m < n
        invariant
            n == chips@.len(),
            i < n,
            m <= n,
            c == count_outranking(chip_pairs(chips@), i as int, m as int),
            c <= m,
        decreases n - m,
    {
        if chips[m].rank < chips[i].rank || (chips[m].rank == chips[i].rank && m < i) {
            c = c + 1;
        }
        m = m + 1;
    }
    c
}

/// Whether the texts joined with a separator of `sep_len` characters fit
/// in `budget` characters.
pub fn fits_budget(texts: &Vec<String>, sep_len: usize, budget: usize) -> (b: bool)
    ensures
        b == (joined_len(views(texts@), sep_len as nat) <= budget),
{
    let n = texts.len();
    let mut acc: usize = 0;
    let mut i: usize = 0;
    while i < n
        invariant
            n == texts@.len(),
            i <= n,
            acc == joined_len(views(texts@.take(i as int)), sep_len as nat),
            acc <= budget,
        decreases n - i,
    {
        proof {
            assert(views(texts@.take(i + 1)).drop_last() =~= views(texts@.take(i as int)));
            lemma_joined_len_prefix(views(texts@), i + 1);
            assert(views(texts@).take(i + 1) =~= views(texts@.take(i + 1)));
        }
        if i > 0 {
            if sep_len > budget - acc {
                return false;
            }
            acc = acc + sep_len;
        }
        let l = texts[i].as_str().unicode_len();
        if l > budget - acc {
            return false;
        }
        acc = acc + l;
        i = i + 1;
    }
    assert(texts@.take(n as int) == texts@);
    true
}

/// A prefix never renders wider than the whole.
pub proof fn lemma_joined_len_prefix(parts: Seq<Seq<char>>, i: int)
    requires
        0 <= i <= parts.len(),
    ensures
        forall|s: nat| joined_len(parts.take(i), s) <= joined_len(parts, s),
    decreases parts.len(),
{
    if i < parts.len() {
        lemma_joined_len_prefix(parts.drop_last(), i);
        assert(parts.drop_last().take(i) =~= parts.take(i));
        assert forall|s: nat| joined_len(parts.drop_last(), s) <= joined_len(parts, s) by {}
    } else {
        assert(parts.take(i) =~= parts);
    }
}

/// The chip texts that fit in `budget` columns when joined with `sep`,
/// dropping the lowest-priority chips first (see [`picked`]).
pub fn pick(chips: Vec<RankedChip>, budget: usize, sep: &str) -> (r: Vec<String>)
    ensures
        views(r@) == picked(chip_pairs(chips@), budget as nat, sep@.len()),
{
    let n = chips.len();
    let sep_len = sep.unicode_len();
    let mut pos: Vec<usize> = Vec::new();
    for i in 0..n
        invariant
            n == chips@.len(),
            pos@.len() == i,
            forall|j: int| 0 <= j < i ==> pos@[j] == priority_pos(chip_pairs(chips@), j),
    {
        let p = count_outranking_exec(&chips, i);
        pos.push(p);
    }
    let mut k: usize = n;
    loop
        invariant
            n == chips@.len(),
            sep_len == sep@.len(),
            pos@.len() == n,
            forall|j: int| 0 <= j < n ==> pos@[j] == priority_pos(chip_pairs(chips@), j),
            k <= n,
            best_count(chip_pairs(chips@), n as nat, budget as nat, sep_len as nat) == best_count(
                chip_pairs(chips@),
                k as nat,
                budget as nat,
                sep_len as nat,
            ),
        decreases k,
    {
        let mut kept: Vec<String> = Vec::new();
        for j in 0..n
            invariant
                n == chips@.len(),
                pos@.len() == n,
                forall|t: int| 0 <= t < n ==> pos@[t] == priority_pos(chip_pairs(chips@), t),
                views(kept@) == kept_texts(chip_pairs(chips@), k as nat, j as int),
        {
            if pos[j] < k {
                kept.push(chips[j].text.clone());
                assert(views(kept@) =~= kept_texts(chip_pairs(chips@), k as nat, j as int).push(
                    chips@[j as int].text@,
                ));
            }
        }
        assert(views(kept@) == top_chips(chip_pairs(chips@), k as nat));
        if k == 0 || fits_budget(&kept, sep_len, budget) {
            assert(best_count(chip_pairs(chips@), k as nat, budget as nat, sep_len as nat) == k);
            return kept;
        }
        k = k - 1;
    }
}

// ---------------------------------------------------------------------
// Properties
// ---------------------------------------------------------------------

proof fn lemma_count_bound(ps: Seq<(u8, Seq<char>)>, i: int, m: int)
    requires
        0 <= i < ps.len(),
        0 <= m <= ps.len(),
    ensures
        count_outranking(ps, i, m) <= m,
        i < m ==> count_outranking(ps, i, m) < m,
    decreases m,
{
    if m > 0 {
        lemma_count_bound(ps, i, m - 1);
    }
}

/// Outranking is transitive, so a chip that outranks another precedes it
/// in priority order.
proof fn lemma_count_monotone(ps: Seq<(u8, Seq<char>)>, a: int, b: int, m: int)
    requires
        0 <= a < ps.len(),
        0 <= b < ps.len(),
        outranks(ps, a, b),
        0 <= m <= ps.len(),
    ensures
        count_outranking(ps, a, m) + (if a < m {
            1nat
        } else {
            0nat
        }) <= count_outranking(ps, b, m),
    decreases m,
{
    if m > 0 {
        lemma_count_monotone(ps, a, b, m - 1);
    }
}

/// A kept chip's betters are kept too: the kept set is a prefix of the
/// priority order.
pub proof fn lemma_priority_prefix(ps: Seq<(u8, Seq<char>)>, a: int, b: int, k: nat)
    requires
        0 <= a < ps.len(),
        0 <= b < ps.len(),
        outranks(ps, a, b),
        priority_pos(ps, b) < k,
    ensures
        priority_pos(ps, a) < k,
{
    lemma_count_monotone(ps, a, b, ps.len() as int);
}

/// `best_count` returns the largest count not above `k` that fits.
pub proof fn lemma_best_count(ps: Seq<(u8, Seq<char>)>, k: nat, budget: nat, sep_len: nat)
    ensures
        best_count(ps, k, budget, sep_len) <= k,
        best_count(ps, k, budget, sep_len) == 0 || fits(
            ps,
            best_count(ps, k, budget, sep_len),
            budget,
            sep_len,
        ),
        forall|j: nat|
            best_count(ps, k, budget, sep_len) < j <= k ==> !#[trigger] fits(
                ps,
                j,
                budget,
                sep_len,
            ),
    decreases k,
{
    if k > 0 && !fits(ps, k, budget, sep_len) {
        lemma_best_count(ps, (k - 1) as nat, budget, sep_len);
    }
}

/// With a budget of `n` every chip is among the top `n`.
proof fn lemma_top_all(ps: Seq<(u8, Seq<char>)>, upto: int)
    requires
        0 <= upto <= ps.len(),
    ensures
        kept_texts(ps, ps.len(), upto) == texts_of(ps.take(upto)),
    decreases upto,
{
    if upto > 0 {
        lemma_top_all(ps, upto - 1);
        lemma_count_bound(ps, upto - 1, ps.len() as int);
        assert(texts_of(ps.take(upto)) =~= texts_of(ps.take(upto - 1)).push(
            ps[upto - 1].1,
        ));
    } else {
        assert(texts_of(ps.take(upto)) =~= Seq::<Seq<char>>::empty());
    }
}

/// The texts of a chip row, in display order.
pub open spec fn texts_of(ps: Seq<(u8, Seq<char>)>) -> Seq<Seq<char>> {
    ps.map_values(|c: (u8, Seq<char>)| c.1)
}

/// The picked ps always fit the budget.
pub proof fn lemma_pick_fits(ps: Seq<(u8, Seq<char>)>, budget: nat, sep_len: nat)
    ensures
        joined_len(picked(ps, budget, sep_len), sep_len) <= budget,
{
    lemma_best_count(ps, ps.len(), budget, sep_len);
    if best_count(ps, ps.len(), budget, sep_len) == 0 {
        assert(kept_texts(ps, 0, ps.len() as int) =~= Seq::<Seq<char>>::empty()) by {
            lemma_nothing_kept(ps, ps.len() as int);
        }
    }
}

proof fn lemma_nothing_kept(ps: Seq<(u8, Seq<char>)>, upto: int)
    ensures
        kept_texts(ps, 0, upto) == Seq::<Seq<char>>::empty(),
    decreases upto,
{
    if upto > 0 {
        lemma_nothing_kept(ps, upto - 1);
    }
}

/// When every chip fits, every chip is picked, in display order.
pub proof fn lemma_pick_keeps_all_when_room(ps: Seq<(u8, Seq<char>)>, budget: nat, sep_len: nat)
    requires
        joined_len(texts_of(ps), sep_len) <= budget,
    ensures
        picked(ps, budget, sep_len) == texts_of(ps),
{
    lemma_top_all(ps, ps.len() as int);
    assert(ps.take(ps.len() as int) =~= ps);
}

/// Picking is maximal: adding the next chip in priority order would not
/// fit.
pub proof fn lemma_pick_maximal(ps: Seq<(u8, Seq<char>)>, budget: nat, sep_len: nat)
    ensures
        ({
            let k = best_count(ps, ps.len(), budget, sep_len);
            k < ps.len() ==> !fits(ps, k + 1, budget, sep_len)
        }),
{
    lemma_best_count(ps, ps.len(), budget, sep_len);
}

// ---------------------------------------------------------------------
// The shape of a pick
// ---------------------------------------------------------------------

/// Chip `t` is the top-ranked chip: no chip outranks it.
pub open spec fn is_top(ps: Seq<(u8, Seq<char>)>, t: int) -> bool {
    &&& 0 <= t < ps.len()
    &&& forall|u: int| 0 <= u < ps.len() ==> !#[trigger] outranks(ps, u, t)
}

/// Display positions, among the first `upto` chips, of those whose
/// priority position is below `k` (the positions of [`kept_texts`]).
pub open spec fn kept_indices(ps: Seq<(u8, Seq<char>)>, k: nat, upto: int) -> Seq<int>
    decreases upto,
{
    if upto <= 0 {
        Seq::empty()
    } else {
        let rest = kept_indices(ps, k, upto - 1);
        if priority_pos(ps, upto - 1) < k {
            rest.push(upto - 1)
        } else {
            rest
        }
    }
}

/// `idx` lists, in increasing display order, chips of `ps` whose texts
/// are `texts`.
pub open spec fn display_subseq(ps: Seq<(u8, Seq<char>)>, idx: Seq<int>, texts: Seq<Seq<char>>) -> bool {
    &&& idx.len() == texts.len()
    &&& forall|j: int| 0 <= j < idx.len() ==> 0 <= #[trigger] idx[j] < ps.len() && texts[j] == ps[idx[j]].1
    &&& forall|a: int, b: int| 0 <= a < b < idx.len() ==> #[trigger] idx[a] < #[trigger] idx[b]
}

/// Every chip that outranks a listed chip is listed too.
pub open spec fn closed_upward(ps: Seq<(u8, Seq<char>)>, idx: Seq<int>) -> bool {
    forall|a: int, b: int|
        0 <= a < ps.len() && 0 <= b < ps.len() && #[trigger] idx.contains(b) && #[trigger] outranks(ps, a, b)
            ==> idx.contains(a)
}

proof fn lemma_kept_indices(ps: Seq<(u8, Seq<char>)>, k: nat, upto: int)
    requires
        0 <= upto <= ps.len(),
    ensures
        display_subseq(ps, kept_indices(ps, k, upto), kept_texts(ps, k, upto)),
        forall|j: int| 0 <= j < kept_indices(ps, k, upto).len() ==> #[trigger] kept_indices(ps, k, upto)[j] < upto,
        forall|i: int| 0 <= i < upto ==> (kept_indices(ps, k, upto).contains(i) <==> priority_pos(ps, i) < k),
    decreases upto,
{
    if upto > 0 {
        lemma_kept_indices(ps, k, upto - 1);
        let rest = kept_indices(ps, k, upto - 1);
        if priority_pos(ps, upto - 1) < k {
            let idx = rest.push(upto - 1);
            assert forall|i: int| 0 <= i < upto implies (idx.contains(i) <==> priority_pos(ps, i) < k) by {
                if i == upto - 1 {
                    assert(idx[idx.len() - 1] == i);
                } else {
                    if idx.contains(i) {
                        let j = idx.index_of(i);
                        assert(rest[j] == i);
                    }
                    if rest.contains(i) {
                        let j = rest.index_of(i);
                        assert(idx[j] == i);
                    }
                }
            }
        } else {
            assert forall|i: int| 0 <= i < upto implies (rest.contains(i) <==> priority_pos(ps, i) < k) by {
                if i == upto - 1 && rest.contains(i) {
                    let j = rest.index_of(i);
                    assert(rest[j] < upto - 1);
                }
            }
        }
    }
}

proof fn lemma_joined_len_push(s: Seq<Seq<char>>, e: Seq<char>, sep_len: nat)
    ensures
        joined_len(s.push(e), sep_len) == if s.len() == 0 {
            e.len()
        } else {
            joined_len(s, sep_len) + sep_len + e.len()
        },
{
    assert(s.push(e).drop_last() =~= s);
}

/// Keeping one more chip in priority order never narrows the rendering.
proof fn lemma_kept_grow(ps: Seq<(u8, Seq<char>)>, k: nat, upto: int, sep_len: nat)
    requires
        0 <= upto <= ps.len(),
    ensures
        kept_texts(ps, k, upto).len() <= kept_texts(ps, k + 1, upto).len(),
        joined_len(kept_texts(ps, k, upto), sep_len) <= joined_len(kept_texts(ps, (k + 1) as nat, upto), sep_len),
    decreases upto,
{
    if upto > 0 {
        lemma_kept_grow(ps, k, upto - 1, sep_len);
        let e = ps[upto - 1].1;
        lemma_joined_len_push(kept_texts(ps, k, upto - 1), e, sep_len);
        lemma_joined_len_push(kept_texts(ps, (k + 1) as nat, upto - 1), e, sep_len);
    }
}

/// Whether `k` chips fit only gets harder as `k` grows.
proof fn lemma_fits_monotone(ps: Seq<(u8, Seq<char>)>, j: nat, k: nat, budget: nat, sep_len: nat)
    requires
        j <= k,
        fits(ps, k, budget, sep_len),
    ensures
        fits(ps, j, budget, sep_len),
    decreases k - j,
{
    if j < k {
        lemma_kept_grow(ps, (k - 1) as nat, ps.len() as int, sep_len);
        lemma_fits_monotone(ps, j, (k - 1) as nat, budget, sep_len);
    }
}

/// No chip outranks `i` exactly when `i` comes first in priority order.
proof fn lemma_count_zero(ps: Seq<(u8, Seq<char>)>, i: int, m: int)
    requires
        0 <= m <= ps.len(),
    ensures
        count_outranking(ps, i, m) == 0 <==> forall|u: int| 0 <= u < m ==> !#[trigger] outranks(ps, u, i),
    decreases m,
{
    if m > 0 {
        lemma_count_zero(ps, i, m - 1);
        if count_outranking(ps, i, m) == 0 {
            assert forall|u: int| 0 <= u < m implies !#[trigger] outranks(ps, u, i) by {
                if u < m - 1 {
                }
            }
        }
    }
}

/// The chip that outranks every other among the first `m`.
spec fn best_of(ps: Seq<(u8, Seq<char>)>, m: int) -> int
    decreases m,
{
    if m <= 1 {
        0
    } else {
        let t = best_of(ps, m - 1);
        if outranks(ps, m - 1, t) {
            m - 1
        } else {
            t
        }
    }
}

proof fn lemma_best_of(ps: Seq<(u8, Seq<char>)>, m: int)
    requires
        1 <= m <= ps.len(),
    ensures
        0 <= best_of(ps, m) < m,
        forall|u: int| 0 <= u < m ==> !#[trigger] outranks(ps, u, best_of(ps, m)),
    decreases m,
{
    if m > 1 {
        lemma_best_of(ps, m - 1);
        let t = best_of(ps, m - 1);
        let b = best_of(ps, m);
        assert forall|u: int| 0 <= u < m implies !#[trigger] outranks(ps, u, b) by {
            if u < m - 1 && b == m - 1 {
                assert(!outranks(ps, u, t));
            }
        }
    }
}

/// A non-empty row has exactly one top-ranked chip, and keeping one chip
/// keeps just that one.
proof fn lemma_top(ps: Seq<(u8, Seq<char>)>) -> (t: int)
    requires
        ps.len() > 0,
    ensures
        is_top(ps, t),
        forall|u: int| #[trigger] is_top(ps, u) ==> u == t,
        top_chips(ps, 1) == seq![ps[t].1],
{
    lemma_best_of(ps, ps.len() as int);
    let t = best_of(ps, ps.len() as int);
    assert forall|u: int| #[trigger] is_top(ps, u) implies u == t by {
        if u != t {
            assert(outranks(ps, u, t) || outranks(ps, t, u));
        }
    }
    lemma_kept_indices(ps, 1, ps.len() as int);
    let idx = kept_indices(ps, 1, ps.len() as int);
    assert forall|i: int| 0 <= i < ps.len() implies (idx.contains(i) <==> i == t) by {
        lemma_count_zero(ps, i, ps.len() as int);
        if priority_pos(ps, i) == 0 {
            assert(is_top(ps, i));
        }
    }
    assert(idx.contains(t));
    let j0 = idx.index_of(t);
    assert forall|j: int| 0 <= j < idx.len() implies idx[j] == t by {
        assert(idx.contains(idx[j]));
    }
    if idx.len() > 1 {
        assert(idx[0] < idx[1]);
    }
    assert(top_chips(ps, 1) =~= seq![ps[t].1]);
    t
}

/// The full shape of a pick: the picked texts are chips of the row in
/// display order, closed under outranking (a kept chip's betters are
/// kept); they fit the budget; they are empty exactly when the row is
/// empty or its top-ranked chip alone does not fit; and they are the
/// whole row when everything fits.
pub proof fn lemma_picked_shape(ps: Seq<(u8, Seq<char>)>, budget: nat, sep_len: nat)
    ensures
        ({
            let got = picked(ps, budget, sep_len);
            &&& exists|idx: Seq<int>| display_subseq(ps, idx, got) && closed_upward(ps, idx)
            &&& joined_len(got, sep_len) <= budget
            &&& got.len() == 0 <==> (ps.len() == 0 || forall|t: int| #[trigger] is_top(ps, t) ==> ps[t].1.len() > budget)
            &&& joined_len(texts_of(ps), sep_len) <= budget ==> got == texts_of(ps)
        }),
{
    let n = ps.len();
    let k = best_count(ps, n, budget, sep_len);
    let got = picked(ps, budget, sep_len);
    lemma_best_count(ps, n, budget, sep_len);
    lemma_pick_fits(ps, budget, sep_len);
    lemma_kept_indices(ps, k, n as int);
    let idx = kept_indices(ps, k, n as int);
    assert forall|a: int, b: int|
        0 <= a < ps.len() && 0 <= b < ps.len() && #[trigger] idx.contains(b) && #[trigger] outranks(ps, a, b)
            implies idx.contains(a) by {
        lemma_priority_prefix(ps, a, b, k);
    }
    assert(display_subseq(ps, idx, got) && closed_upward(ps, idx));
    if joined_len(texts_of(ps), sep_len) <= budget {
        lemma_pick_keeps_all_when_room(ps, budget, sep_len);
    }
    if n == 0 {
        assert(got.len() == 0);
    } else {
        let t = lemma_top(ps);
        assert(joined_len(seq![ps[t].1], sep_len) == ps[t].1.len());
        if k == 0 {
            lemma_nothing_kept(ps, n as int);
            assert(!fits(ps, 1, budget, sep_len));
        } else {
            lemma_fits_monotone(ps, 1, k, budget, sep_len);
            lemma_count_zero(ps, t, n as int);
            assert(idx.contains(t));
            assert(got.len() > 0);
        }
    }
}

/// A chip that outranks, by a strictly lower rank, every chip carrying a
/// kept text is kept too.
pub proof fn lemma_kept_lower_rank(ps: Seq<(u8, Seq<char>)>, budget: nat, sep_len: nat, x: Seq<char>, a: int)
    requires
        0 <= a < ps.len(),
        picked(ps, budget, sep_len).contains(x),
        forall|i: int| 0 <= i < ps.len() && (#[trigger] ps[i]).1 == x ==> ps[a].0 < ps[i].0,
    ensures
        picked(ps, budget, sep_len).contains(ps[a].1),
{
    let got = picked(ps, budget, sep_len);
    lemma_picked_shape(ps, budget, sep_len);
    let idx = choose|idx: Seq<int>| display_subseq(ps, idx, got) && closed_upward(ps, idx);
    let j = got.index_of(x);
    let b = idx[j];
    assert(0 <= b < ps.len() && ps[b].1 == x);
    assert(outranks(ps, a, b));
    assert(idx.contains(b));
    assert(idx.contains(a));
    let ja = idx.index_of(a);
    assert(got[ja] == ps[a].1);
}

} // verus!
