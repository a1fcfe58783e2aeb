//! Title-row global hint strip.
//!
//! A small strip of global keybindings (pull, help, pane cycling, scroll,
//! theme, quit) right-aligned on the title row. Each chip's key label is
//! resolved live from the bindings, so a rebinding flows through to the
//! strip; a chip whose actions are all unbound is left out.
use vstd::prelude::*;

use crate::text::{join, joined_len, lemma_join_len, owned, string_of, views};
use crate::tui::hint_picker::{
    chip_pairs, closed_upward, display_subseq, is_top, pick, picked, texts_of, RankedChip,
};
use crate::tui::keybindings::{bindings_of, Action, App, Binding, Focus, Key};

verus! {

broadcast use vstd::seq_lib::group_seq_properties;

/// One global chip: a fixed description, the binding table its key labels
/// come from, the action(s) whose keys it shows, and its drop rank under
/// width pressure (lower survives longer).
#[derive(Debug)]
pub struct GlobalChip {
    pub description: &'static str,
    pub focus: Focus,
    pub actions: Vec<Action>,
    pub rank: u8,
}

/// What a chip contributes to the strip: description, focus, actions and
/// drop rank.
pub type ChipInfo = (Seq<char>, Focus, Seq<Action>, u8);

/// The chip information of a chip table.
pub open spec fn chip_info(t: Seq<GlobalChip>) -> Seq<ChipInfo> {
    t.map_values(|c: GlobalChip| (c.description@, c.focus, c.actions@, c.rank))
}

/// The global chips in left-to-right display order: pull (rank 10), help
/// (20), panes (40), scroll (60), theme (50), quit (30). Under width
/// pressure pull survives longest, then help, quit, panes, theme, scroll.
pub open spec fn global_chip_specs() -> Seq<ChipInfo> {
    seq![
        ("pull"@, Focus::List, seq![Action::OpenHfDialog], 10u8),
        ("help"@, Focus::List, seq![Action::ToggleHelp], 20u8),
        ("panes"@, Focus::List, seq![Action::NextFocus, Action::PrevFocus], 40u8),
        ("scroll"@, Focus::List, seq![Action::MoveUp, Action::MoveDown], 60u8),
        ("theme"@, Focus::List, seq![Action::CycleTheme], 50u8),
        ("quit"@, Focus::List, seq![Action::Quit], 30u8),
    ]
}

/// The global chip table, pinned: six chips in display order pull, help,
/// panes, scroll, theme, quit, each shown from the list's bindings, with
/// drop ranks 10, 20, 40, 60, 50 and 30; so under width pressure they drop
/// in the order scroll, theme, panes, quit, help, pull (each rank above
/// the next one's).
pub proof fn lemma_global_chip_table()
    ensures
        global_chip_specs().len() == 6,
        global_chip_specs()[0] == ("pull"@, Focus::List, seq![Action::OpenHfDialog], 10u8),
        global_chip_specs()[1] == ("help"@, Focus::List, seq![Action::ToggleHelp], 20u8),
        global_chip_specs()[2] == ("panes"@, Focus::List, seq![Action::NextFocus, Action::PrevFocus], 40u8),
        global_chip_specs()[3] == ("scroll"@, Focus::List, seq![Action::MoveUp, Action::MoveDown], 60u8),
        global_chip_specs()[4] == ("theme"@, Focus::List, seq![Action::CycleTheme], 50u8),
        global_chip_specs()[5] == ("quit"@, Focus::List, seq![Action::Quit], 30u8),
        global_chip_specs()[3].3 > global_chip_specs()[4].3 > global_chip_specs()[2].3
            > global_chip_specs()[5].3 > global_chip_specs()[1].3 > global_chip_specs()[0].3,
{
}

fn one_action(a: Action) -> (v: Vec<Action>)
    ensures
        v@ == seq![a],
{
    let mut v = Vec::new();
    v.push(a);
    assert(v@ =~= seq![a]);
    v
}

fn two_actions(a: Action, b: Action) -> (v: Vec<Action>)
    ensures
        v@ == seq![a, b],
{
    let mut v = Vec::new();
    v.push(a);
    v.push(b);
    assert(v@ =~= seq![a, b]);
    v
}

fn chip(description: &'static str, actions: Vec<Action>, rank: u8) -> (c: GlobalChip)
    ensures
        c.description == description,
        c.focus == Focus::List,
        c.actions@ == actions@,
        c.rank == rank,
{
    GlobalChip { description, focus: Focus::List, actions, rank }
}

/// The canonical global chip list (see [`global_chip_specs`]).
pub fn global_chips() -> (t: Vec<GlobalChip>)
    ensures
        chip_info(t@) == global_chip_specs(),
{
    let mut t: Vec<GlobalChip> = Vec::new();
    t.push(chip("pull", one_action(Action::OpenHfDialog), 10));
    t.push(chip("help", one_action(Action::ToggleHelp), 20));
    t.push(chip("panes", two_actions(Action::NextFocus, Action::PrevFocus), 40));
    t.push(chip("scroll", two_actions(Action::MoveUp, Action::MoveDown), 60));
    t.push(chip("theme", one_action(Action::CycleTheme), 50));
    t.push(chip("quit", one_action(Action::Quit), 30));
    assert(chip_info(t@) =~= global_chip_specs());
    t
}

/// The separator between chips: a middle dot padded with spaces.
pub open spec fn sep_text() -> Seq<char> {
    seq![' ', '\u{b7}', ' ']
}

/// The chip separator (` · `).
pub fn hint_sep() -> (s: String)
    ensures
        s@ == sep_text(),
{
    let v = vec![' ', '\u{b7}', ' '];
    string_of(&v)
}

// ---------------------------------------------------------------------
// Key label resolution
// ---------------------------------------------------------------------

/// Which bindings a lookup accepts.
pub enum KeyWant {
    /// Any key.
    Any,
    /// Exactly this key.
    Exactly(Key),
    /// Any key that is a real single press (not display-only).
    Pressable,
}

pub open spec fn key_ok(k: Key, want: KeyWant) -> bool {
    match want {
        KeyWant::Any => true,
        KeyWant::Exactly(w) => k == w,
        KeyWant::Pressable => k != Key::Null,
    }
}

/// The first binding for `a` whose key `want` accepts.
pub open spec fn first_binding(bs: Seq<Binding>, a: Action, want: KeyWant) -> Option<Binding>
    decreases bs.len(),
{
    if bs.len() == 0 {
        None
    } else if bs[0].action == a && key_ok(bs[0].key, want) {
        Some(bs[0])
    } else {
        first_binding(bs.drop_first(), a, want)
    }
}

fn find_binding<'a>(bs: &'a Vec<Binding>, a: Action, want: KeyWant) -> (r: Option<&'a Binding>)
    ensures
        match r {
            Some(b) => first_binding(bs@, a, want) == Some(*b),
            None => first_binding(bs@, a, want) is None,
        },
{
    let n = bs.len();
    let mut i: usize = 0;
    assert(bs@.skip(0) == bs@);
    while i < n
        invariant
            n == bs@.len(),
            i <= n,
            first_binding(bs@, a, want) == first_binding(bs@.skip(i as int), a, want),
        decreases n - i,
    {
        let b = &bs[i];
        let ok = match want {
            KeyWant::Any => true,
            KeyWant::Exactly(w) => b.key == w,
            KeyWant::Pressable => b.key != Key::Null,
        };
        if b.action == a && ok {
            return Some(b);
        }
        assert(bs@.skip(i as int).drop_first() == bs@.skip(i + 1));
        i = i + 1;
    }
    None
}

/// `acc` with `s` appended unless already present.
pub open spec fn push_unique(acc: Seq<Seq<char>>, s: Seq<char>) -> Seq<Seq<char>> {
    if acc.contains(s) {
        acc
    } else {
        acc.push(s)
    }
}

/// `acc` with the found binding's label appended unless already present.
pub open spec fn push_found(acc: Seq<Seq<char>>, f: Option<Binding>) -> Seq<Seq<char>> {
    match f {
        Some(b) => push_unique(acc, b.label@),
        None => acc,
    }
}

fn contains_string(acc: &Vec<String>, s: &String) -> (b: bool)
    ensures
        b == views(acc@).contains(s@),
{
    let n = acc.len();
    let mut i: usize = 0;
    while i < n
        invariant
            n == acc@.len(),
            i <= n,
            forall|j: int| 0 <= j < i ==> acc@[j]@ != s@,
        decreases n - i,
    {
        if acc[i] == *s {
            assert(views(acc@)[i as int] == s@);
            return true;
        }
        i = i + 1;
    }
    assert forall|j: int| 0 <= j < views(acc@).len() implies views(acc@)[j] != s@ by {
        assert(views(acc@)[j] == acc@[j]@);
    }
    false
}

fn push_label_unique(acc: &mut Vec<String>, found: Option<&Binding>)
    ensures
        views(final(acc)@) == push_found(
            views(old(acc)@),
            match found {
                Some(b) => Some(*b),
                None => None,
            },
        ),
{
    if let Some(b) = found {
        let s = b.label.clone();
        if !contains_string(acc, &s) {
            let ghost before = acc@;
            acc.push(s);
            assert(views(acc@) =~= views(before).push(s@));
        }
    }
}

/// Labels for the `panes` chip: the forward binding on Tab and the
/// backward binding on Shift+Tab when bound; otherwise the first
/// pressable binding of each direction.
pub open spec fn pane_labels(bs: Seq<Binding>) -> Seq<Seq<char>> {
    let curated = push_found(
        push_found(Seq::empty(), first_binding(bs, Action::NextFocus, KeyWant::Exactly(Key::Tab))),
        first_binding(bs, Action::PrevFocus, KeyWant::Exactly(Key::BackTab)),
    );
    if curated.len() > 0 {
        curated
    } else {
        push_found(
            push_found(Seq::empty(), first_binding(bs, Action::NextFocus, KeyWant::Pressable)),
            first_binding(bs, Action::PrevFocus, KeyWant::Pressable),
        )
    }
}

/// Curated label picker for the `panes` chip (see [`pane_labels`]).
pub fn pane_chip_labels(bindings: &Vec<Binding>) -> (r: Vec<String>)
    ensures
        views(r@) == pane_labels(bindings@),
{
    let mut acc: Vec<String> = Vec::new();
    assert(views(acc@) =~= Seq::<Seq<char>>::empty());
    let next_tab = find_binding(bindings, Action::NextFocus, KeyWant::Exactly(Key::Tab));
    let prev_back_tab = find_binding(bindings, Action::PrevFocus, KeyWant::Exactly(Key::BackTab));
    push_label_unique(&mut acc, next_tab);
    push_label_unique(&mut acc, prev_back_tab);
    if acc.len() == 0 {
        assert(views(acc@) =~= Seq::<Seq<char>>::empty());
        let next_any = find_binding(bindings, Action::NextFocus, KeyWant::Pressable);
        let prev_any = find_binding(bindings, Action::PrevFocus, KeyWant::Pressable);
        push_label_unique(&mut acc, next_any);
        push_label_unique(&mut acc, prev_any);
    }
    acc
}

/// For each action in order, the label of its first binding (unbound
/// actions contribute nothing).
pub open spec fn action_labels(bs: Seq<Binding>, actions: Seq<Action>) -> Seq<Seq<char>>
    decreases actions.len(),
{
    if actions.len() == 0 {
        Seq::empty()
    } else {
        let rest = action_labels(bs, actions.drop_last());
        match first_binding(bs, actions.last(), KeyWant::Any) {
            Some(b) => rest.push(b.label@),
            None => rest,
        }
    }
}

pub open spec fn is_panes_chip(actions: Seq<Action>) -> bool {
    actions == seq![Action::NextFocus, Action::PrevFocus]
}

pub open spec fn is_scroll_chip(actions: Seq<Action>) -> bool {
    actions == seq![Action::MoveUp, Action::MoveDown]
}

/// The key text of a chip: its labels joined with `/` (with nothing for
/// the scroll chip, which reads as one `↑↓` affordance), or `None` when
/// none of its actions is bound.
pub open spec fn chip_key_text(bs: Seq<Binding>, actions: Seq<Action>) -> Option<Seq<char>> {
    let labels = if is_panes_chip(actions) {
        pane_labels(bs)
    } else {
        action_labels(bs, actions)
    };
    if labels.len() == 0 {
        None
    } else {
        Some(
            join(
                labels,
                if is_scroll_chip(actions) {
                    Seq::empty()
                } else {
                    seq!['/']
                },
            ),
        )
    }
}

fn is_pair(actions: &Vec<Action>, a: Action, b: Action) -> (r: bool)
    ensures
        r == (actions@ == seq![a, b]),
{
    if actions.len() == 2 && actions[0] == a && actions[1] == b {
        assert(actions@ =~= seq![a, b]);
        true
    } else {
        proof {
            if actions@ == seq![a, b] {
                assert(actions@[0] == a && actions@[1] == b);
            }
        }
        false
    }
}

/// Resolve a chip's keys against the bindings of its focus (see
/// [`chip_key_text`]).
pub fn chip_keys(app: &App, chip: &GlobalChip) -> (r: Option<String>)
    ensures
        match r {
            Some(s) => chip_key_text(bindings_of(*app, chip.focus), chip.actions@) == Some(s@),
            None => chip_key_text(bindings_of(*app, chip.focus), chip.actions@) is None,
        },
{
    let bindings = app.bindings_for(chip.focus);
    let labels = if is_pair(&chip.actions, Action::NextFocus, Action::PrevFocus) {
        pane_chip_labels(bindings)
    } else {
        let mut acc: Vec<String> = Vec::new();
        let n = chip.actions.len();
        for i in 0..n
            invariant
                n == chip.actions@.len(),
                bindings@ == bindings_of(*app, chip.focus),
                views(acc@) == action_labels(bindings@, chip.actions@.take(i as int)),
        {
            assert(chip.actions@.take(i + 1).drop_last() == chip.actions@.take(i as int));
            if let Some(b) = find_binding(bindings, chip.actions[i], KeyWant::Any) {
                let ghost before = acc@;
                acc.push(b.label.clone());
                assert(views(acc@) =~= views(before).push(b.label@));
            }
        }
        assert(chip.actions@.take(n as int) == chip.actions@);
        acc
    };
    if labels.len() == 0 {
        return None;
    }
    let sep = if is_pair(&chip.actions, Action::MoveUp, Action::MoveDown) {
        owned("")
    } else {
        owned("/")
    };
    proof {
        if !is_scroll_chip(chip.actions@) {
            reveal_strlit("/");
            assert(sep@ =~= seq!['/']);
        } else {
            reveal_strlit("");
            assert(sep@ =~= Seq::<char>::empty());
        }
    }
    Some(crate::text::join_strings(&labels, sep.as_str()))
}

// ---------------------------------------------------------------------
// The strip
// ---------------------------------------------------------------------

/// The `(rank, "keys:description")` chips for the chips in `t` whose
/// actions are bound, in display order.
pub open spec fn resolved_pairs(app: App, t: Seq<ChipInfo>) -> Seq<(u8, Seq<char>)>
    decreases t.len(),
{
    if t.len() == 0 {
        Seq::empty()
    } else {
        let rest = resolved_pairs(app, t.drop_last());
        let c = t.last();
        match chip_key_text(bindings_of(app, c.1), c.2) {
            Some(keys) => rest.push((c.3, keys + seq![':'] + c.0)),
            None => rest,
        }
    }
}

/// The ranked chips of the global strip for `app`.
pub open spec fn global_pairs(app: App) -> Seq<(u8, Seq<char>)> {
    resolved_pairs(app, global_chip_specs())
}

/// Resolve every chip of `t` to a ranked `keys:description` chip, in
/// display order, skipping chips whose actions are all unbound.
pub fn resolve_chips(app: &App, t: &Vec<GlobalChip>) -> (r: Vec<RankedChip>)
    ensures
        chip_pairs(r@) == resolved_pairs(*app, chip_info(t@)),
{
    let mut out: Vec<RankedChip> = Vec::new();
    let n = t.len();
    for i in 0..n
        invariant
            n == t@.len(),
            chip_pairs(out@) == resolved_pairs(*app, chip_info(t@.take(i as int))),
    {
        assert(chip_info(t@.take(i + 1)).drop_last() =~= chip_info(t@.take(i as int)));
        let c = &t[i];
        if let Some(keys) = chip_keys(app, c) {
            let mut text = keys;
            text.append(":");
            text.append(c.description);
            proof {
                reveal_strlit(":");
                assert(":"@ =~= seq![':']);
            }
            let ghost before = out@;
            out.push(RankedChip::new(c.rank, text));
            assert(chip_pairs(out@) =~= chip_pairs(before).push((c.rank, text@)));
        } else {
        }
    }
    assert(t@.take(n as int) == t@);
    out
}

/// Every bound global chip as a ranked `keys:description` chip, in
/// display order.
pub fn resolved_chips(app: &App) -> (r: Vec<RankedChip>)
    ensures
        chip_pairs(r@) == global_pairs(*app),
{
    let t = global_chips();
    resolve_chips(app, &t)
}

/// The chip strings (`keys:description`) that fit in `budget` columns,
/// dropping the lowest-priority chips first; survivors keep display order.
/// Empty when not even the top-ranked chip fits.
pub fn fit_global_hints(app: &App, budget: usize) -> (r: Vec<String>)
    ensures
        views(r@) == picked(global_pairs(*app), budget as nat, sep_text().len()),
{
    let chips = resolved_chips(app);
    let sep = hint_sep();
    pick(chips, budget, sep.as_str())
}

/// Columns the fitted chips occupy when rendered with separators and one
/// trailing pad column, capped at `u16::MAX`; `0` for no chips.
pub open spec fn render_width(chips: Seq<Seq<char>>) -> nat {
    if chips.len() == 0 {
        0
    } else if joined_len(chips, sep_text().len()) + 1 > 65535 {
        65535
    } else {
        joined_len(chips, sep_text().len()) + 1
    }
}

/// Render width (columns) for an already-fitted set of chip strings (see
/// [`render_width`]).
pub fn hints_render_width(chips: &[String]) -> (r: u16)
    ensures
        r == render_width(views(chips@)),
{
    let n = chips.len();
    if n == 0 {
        return 0;
    }
    let sep = hint_sep();
    let sep_w = sep.as_str().unicode_len();
    let cap: usize = 65534;
    let mut acc: usize = 0;
    let mut i: usize = 0;
    while i < n
        invariant
            n == chips@.len(),
            sep_w == sep_text().len(),
            cap == 65534,
            i <= n,
            acc == joined_len(views(chips@.take(i as int)), sep_w as nat),
            acc <= cap,
        decreases n - i,
    {
        proof {
            assert(views(chips@.take(i + 1)).drop_last() =~= views(chips@.take(i as int)));
            crate::tui::hint_picker::lemma_joined_len_prefix(views(chips@), i + 1);
            assert(views(chips@).take(i + 1) =~= views(chips@.take(i + 1)));
        }
        if i > 0 {
            if sep_w > cap - acc {
                return 65535;
            }
            acc = acc + sep_w;
        }
        let l = chips[i].as_str().unicode_len();
        if l > cap - acc {
            return 65535;
        }
        acc = acc + l;
        i = i + 1;
    }
    assert(chips@.take(n as int) == chips@);
    (acc + 1) as u16
}

/// The full strip text: every bound chip in display order, joined with
/// the separator, with no budget pressure.
pub fn global_hint_text(app: &App) -> (r: String)
    ensures
        r@ == join(crate::tui::hint_picker::texts_of(global_pairs(*app)), sep_text()),
{
    let chips = resolved_chips(app);
    let mut texts: Vec<String> = Vec::new();
    let n = chips.len();
    for i in 0..n
        invariant
            n == chips@.len(),
            views(texts@) == crate::tui::hint_picker::texts_of(chip_pairs(chips@.take(i as int))),
    {
        let ghost before = texts@;
        texts.push(chips[i].text.clone());
        assert(views(texts@) =~= views(before).push(chips@[i as int].text@));
        assert(crate::tui::hint_picker::texts_of(chip_pairs(chips@.take(i + 1)))
            =~= crate::tui::hint_picker::texts_of(chip_pairs(chips@.take(i as int))).push(
            chips@[i as int].text@,
        ));
    }
    assert(chips@.take(n as int) == chips@);
    let sep = hint_sep();
    crate::text::join_strings(&texts, sep.as_str())
}

/// With room for every chip, fitting keeps the whole strip, and its render
/// width is the full hint text's width plus the one pad column.
pub proof fn lemma_slot_width_matches_text(app: App, budget: nat)
    requires
        joined_len(texts_of(global_pairs(app)), sep_text().len()) <= budget,
    ensures
        picked(global_pairs(app), budget, sep_text().len()) == texts_of(global_pairs(app)),
        global_pairs(app).len() > 0 && join(texts_of(global_pairs(app)), sep_text()).len() + 1
            <= 65535 ==> render_width(picked(global_pairs(app), budget, sep_text().len())) == join(
            texts_of(global_pairs(app)),
            sep_text(),
        ).len() + 1,
{
    crate::tui::hint_picker::lemma_pick_keeps_all_when_room(
        global_pairs(app),
        budget,
        sep_text().len(),
    );
    lemma_join_len(texts_of(global_pairs(app)), sep_text());
}

/// The fitted strip never renders wider than its budget plus the pad
/// column.
pub proof fn lemma_fitted_strip_fits(app: App, budget: nat)
    ensures
        render_width(picked(global_pairs(app), budget, sep_text().len())) <= budget + 1,
{
    crate::tui::hint_picker::lemma_pick_fits(global_pairs(app), budget, sep_text().len());
}

/// The fitted strip, as a whole: the chips [`fit_global_hints`] keeps
/// are resolved chips in display order, and whenever a chip is kept so is
/// every chip that outranks it (a lower rank, or the same rank earlier in
/// display order); joined with the separator they fit `budget`; nothing
/// is kept exactly when no chip resolves or the top-ranked chip alone is
/// wider than `budget`; and when the whole strip fits, the kept chips
/// joined with the separator are [`global_hint_text`].
pub proof fn lemma_fit_global_hints(app: App, budget: nat)
    ensures
        ({
            let ps = global_pairs(app);
            let got = picked(ps, budget, sep_text().len());
            &&& exists|idx: Seq<int>| display_subseq(ps, idx, got) && closed_upward(ps, idx)
            &&& joined_len(got, sep_text().len()) <= budget
            &&& got.len() == 0 <==> (ps.len() == 0 || forall|t: int|
                #[trigger] is_top(ps, t) ==> ps[t].1.len() > budget)
            &&& joined_len(texts_of(ps), sep_text().len()) <= budget ==> join(got, sep_text())
                == join(texts_of(ps), sep_text())
        }),
{
    crate::tui::hint_picker::lemma_picked_shape(global_pairs(app), budget, sep_text().len());
}

/// A chip's text when its actions are bound in the list's bindings:
/// its keys, a colon and its description.
pub open spec fn chip_text(app: App, description: Seq<char>, actions: Seq<Action>) -> Option<
    Seq<char>,
> {
    match chip_key_text(bindings_of(app, Focus::List), actions) {
        Some(keys) => Some(keys + seq![':'] + description),
        None => None,
    }
}

/// The `(rank, keys:description)` pair a table chip resolves to, when its
/// actions are bound.
pub open spec fn entry_pair(app: App, c: ChipInfo) -> Option<(u8, Seq<char>)> {
    match chip_key_text(bindings_of(app, c.1), c.2) {
        Some(k) => Some((c.3, k + seq![':'] + c.0)),
        None => None,
    }
}

/// The resolved pairs are exactly the bound chips of the table.
#[verifier::spinoff_prover]
#[verifier::rlimit(40)]
proof fn lemma_resolved_pairs(app: App, t: Seq<ChipInfo>)
    ensures
        forall|i: int|
            0 <= i < resolved_pairs(app, t).len() ==> exists|c: int|
                0 <= c < t.len() && #[trigger] entry_pair(app, t[c]) == Some(
                    #[trigger] resolved_pairs(app, t)[i],
                ),
        forall|c: int|
            0 <= c < t.len() && (#[trigger] entry_pair(app, t[c])) is Some ==> exists|i: int|
                0 <= i < resolved_pairs(app, t).len() && resolved_pairs(app, t)[i] == entry_pair(
                    app,
                    t[c],
                )->0,
    decreases t.len(),
{
    if t.len() > 0 {
        let t0 = t.drop_last();
        lemma_resolved_pairs(app, t0);
        let rest = resolved_pairs(app, t0);
        let rp = resolved_pairs(app, t);
        let l = t.len() - 1;
        assert forall|i: int| 0 <= i < rp.len() implies exists|c: int|
            0 <= c < t.len() && #[trigger] entry_pair(app, t[c]) == Some(#[trigger] rp[i]) by {
            if i < rest.len() {
                let c = choose|c: int| 0 <= c < t0.len() && #[trigger] entry_pair(app, t0[c]) == Some(rest[i]);
                assert(t0[c] == t[c]);
                assert(rp[i] == rest[i]);
            } else {
                assert(entry_pair(app, t[l]) == Some(rp[i]));
            }
        }
        assert forall|c: int| 0 <= c < t.len() && (#[trigger] entry_pair(app, t[c])) is Some implies exists|i: int|
            0 <= i < rp.len() && rp[i] == entry_pair(app, t[c])->0 by {
            if c < l {
                assert(t0[c] == t[c]);
                assert(entry_pair(app, t0[c]) is Some);
                let i = choose|i: int| 0 <= i < rest.len() && rest[i] == entry_pair(app, t0[c])->0;
                assert(rp[i] == rest[i]);
            } else {
                assert(rp[rp.len() - 1] == entry_pair(app, t[c])->0);
            }
        }
    }
}

/// Texts `a:d1` and `b:d2` whose descriptions hold no colon are equal only
/// for equal descriptions.
proof fn lemma_same_description(a: Seq<char>, d1: Seq<char>, b: Seq<char>, d2: Seq<char>)
    requires
        a + seq![':'] + d1 == b + seq![':'] + d2,
        forall|i: int| 0 <= i < d1.len() ==> d1[i] != ':',
        forall|i: int| 0 <= i < d2.len() ==> d2[i] != ':',
    ensures
        d1 == d2,
{
    let x = a + seq![':'] + d1;
    let n = x.len() as int;
    assert(x == b + seq![':'] + d2);
    if d1.len() < d2.len() {
        assert(x[n - d1.len() - 1] == ':');
        assert(x[n - d1.len() - 1] == d2[d2.len() - d1.len() - 1]);
    } else if d2.len() < d1.len() {
        assert(x[n - d2.len() - 1] == ':');
        assert(x[n - d2.len() - 1] == d1[d1.len() - d2.len() - 1]);
    }
    assert(d1 =~= x.subrange(n - d1.len(), n));
    assert(d2 =~= x.subrange(n - d2.len(), n));
}

/// The table's descriptions hold no colon, and `scroll` is the only one
/// six characters long.
proof fn lemma_table_descriptions()
    ensures
        forall|c: int, i: int|
            0 <= c < global_chip_specs().len() && 0 <= i < global_chip_specs()[c].0.len()
                ==> #[trigger] global_chip_specs()[c].0[i] != ':',
        forall|c: int|
            0 <= c < global_chip_specs().len() && (#[trigger] global_chip_specs()[c]).0.len() == 6
                ==> c == 3,
{
    reveal_strlit("scroll");
    reveal_strlit("theme");
    reveal_strlit("pull");
    reveal_strlit("help");
    reveal_strlit("panes");
    reveal_strlit("quit");
    let tb = global_chip_specs();
    assert forall|c: int, i: int| 0 <= c < tb.len() && 0 <= i < tb[c].0.len() implies #[trigger] tb[c].0[i]
        != ':' by {
        if c == 0 {
            assert(tb[c].0 == "pull"@);
        } else if c == 1 {
            assert(tb[c].0 == "help"@);
        } else if c == 2 {
            assert(tb[c].0 == "panes"@);
        } else if c == 3 {
            assert(tb[c].0 == "scroll"@);
        } else if c == 4 {
            assert(tb[c].0 == "theme"@);
        } else {
            assert(tb[c].0 == "quit"@);
        }
    }
}

/// In a table whose descriptions hold no colon, a resolved chip whose
/// text ends in `:d` comes from a table chip described `d`.
proof fn lemma_text_rank(app: App, t: Seq<ChipInfo>, ks: Seq<char>, d: Seq<char>, r: u8)
    requires
        forall|c: int, i: int| 0 <= c < t.len() && 0 <= i < t[c].0.len() ==> #[trigger] t[c].0[i] != ':',
        forall|i: int| 0 <= i < d.len() ==> d[i] != ':',
        forall|c: int| 0 <= c < t.len() && (#[trigger] t[c]).0 == d ==> t[c].3 == r,
    ensures
        forall|i: int|
            0 <= i < resolved_pairs(app, t).len() && (#[trigger] resolved_pairs(app, t)[i]).1 == ks
                + seq![':'] + d ==> resolved_pairs(app, t)[i].0 == r,
{
    let ps = resolved_pairs(app, t);
    lemma_resolved_pairs(app, t);
    assert forall|i: int| 0 <= i < ps.len() && (#[trigger] ps[i]).1 == ks + seq![':'] + d implies ps[i].0 == r by {
        let cs = choose|c: int| 0 <= c < t.len() && #[trigger] entry_pair(app, t[c]) == Some(ps[i]);
        let kc = chip_key_text(bindings_of(app, t[cs].1), t[cs].2)->0;
        assert(ps[i].1 == kc + seq![':'] + t[cs].0);
        assert(forall|j: int| 0 <= j < t[cs].0.len() ==> t[cs].0[j] != ':');
        lemma_same_description(kc, t[cs].0, ks, d);
    }
}

/// Every resolved chip carrying the scroll chip's text has the scroll
/// chip's rank.
proof fn lemma_scroll_pairs(app: App, s: Seq<char>)
    requires
        chip_text(app, "scroll"@, seq![Action::MoveUp, Action::MoveDown]) == Some(s),
    ensures
        forall|i: int|
            0 <= i < global_pairs(app).len() && (#[trigger] global_pairs(app)[i]).1 == s
                ==> global_pairs(app)[i].0 == global_chip_specs()[3].3,
{
    let tb = global_chip_specs();
    lemma_table_descriptions();
    reveal_strlit("scroll");
    let ks = chip_key_text(bindings_of(app, Focus::List), seq![Action::MoveUp, Action::MoveDown])->0;
    assert(s == ks + seq![':'] + "scroll"@);
    assert forall|c: int| 0 <= c < tb.len() && (#[trigger] tb[c]).0 == "scroll"@ implies tb[c].3 == tb[3].3 by {
        assert(tb[c].0.len() == 6);
    }
    lemma_text_rank(app, tb, ks, "scroll"@, tb[3].3);
}

/// The bound theme chip is among the resolved chips, with the theme
/// chip's rank.
proof fn lemma_theme_pair(app: App, t: Seq<char>) -> (it: int)
    requires
        chip_text(app, "theme"@, seq![Action::CycleTheme]) == Some(t),
    ensures
        0 <= it < global_pairs(app).len(),
        global_pairs(app)[it] == (global_chip_specs()[4].3, t),
{
    let tb = global_chip_specs();
    lemma_resolved_pairs(app, tb);
    reveal_strlit("theme");
    assert(entry_pair(app, tb[4]) == Some((tb[4].3, t)));
    choose|i: int| 0 <= i < global_pairs(app).len() && global_pairs(app)[i] == entry_pair(app, tb[4])->0
}

/// Drop-order law of the strip: under any budget, whenever the scroll
/// chip (the keys of the move-up/move-down bindings, then `:scroll`) is
/// kept, the theme chip is kept too, when it is bound at all: scroll
/// always drops first.
pub proof fn lemma_scroll_drops_before_theme(app: App, budget: nat, s: Seq<char>, t: Seq<char>)
    requires
        chip_text(app, "scroll"@, seq![Action::MoveUp, Action::MoveDown]) == Some(s),
        chip_text(app, "theme"@, seq![Action::CycleTheme]) == Some(t),
        picked(global_pairs(app), budget, sep_text().len()).contains(s),
    ensures
        picked(global_pairs(app), budget, sep_text().len()).contains(t),
{
    lemma_scroll_pairs(app, s);
    let it = lemma_theme_pair(app, t);
    crate::tui::hint_picker::lemma_kept_lower_rank(
        global_pairs(app),
        budget,
        sep_text().len(),
        s,
        it,
    );
}

} // verus!
