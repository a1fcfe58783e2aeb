use llamastash::tui::help_bar::{
    chip_keys, fit_global_hints, global_chips, global_hint_text, hint_sep, hints_render_width,
    pane_chip_labels, resolved_chips,
};
use llamastash::tui::hint_picker::{pick, RankedChip};
use llamastash::tui::keybindings::{Action, App, Binding, Key};

const TAB_LABEL: &str = "\u{21e5}";
const SHIFT_TAB_LABEL: &str = "\u{21e7}\u{21e5}";
const CTRL_PREFIX: &str = "Ctrl+";

fn b(action: Action, key: Key, label: &str) -> Binding {
    Binding { action, key, label: label.to_string() }
}

/// The stock global bindings of the list focus.
fn default_bindings() -> Vec<Binding> {
    vec![
        b(Action::OpenHfDialog, Key::Char('P'), "P"),
        b(Action::ToggleHelp, Key::Char('?'), "?"),
        b(Action::NextFocus, Key::Tab, TAB_LABEL),
        b(Action::PrevFocus, Key::BackTab, SHIFT_TAB_LABEL),
        b(Action::NextFocus, Key::Null, "gt"),
        b(Action::PrevFocus, Key::Null, "gT"),
        b(Action::MoveUp, Key::Up, "\u{2191}"),
        b(Action::MoveDown, Key::Down, "\u{2193}"),
        b(Action::Filter, Key::Char('/'), "/"),
        b(Action::CycleTheme, Key::Char('t'), "t"),
        b(Action::RestartDaemon, Key::Char('r'), "Ctrl+r"),
        b(Action::KillDaemon, Key::Char('k'), "Ctrl+k"),
        b(Action::Quit, Key::Char('q'), "q"),
    ]
}

fn app_with(bindings: Vec<Binding>) -> App {
    App { list_bindings: bindings, right_pane_bindings: Vec::new() }
}

fn default_app() -> App {
    app_with(default_bindings())
}

/// Rebind `action` to one key, dropping its previous bindings.
fn rebind(action: Action, key: Key, label: &str) -> App {
    let mut bs: Vec<Binding> = default_bindings().into_iter().filter(|x| x.action != action).collect();
    bs.push(b(action, key, label));
    app_with(bs)
}

#[test]
fn global_hint_text_lists_required_keys_from_default_keymap() {
    let app = default_app();
    let text = global_hint_text(&app);
    assert!(text.contains("?:help"), "got: {text}");
    let expected_panes = format!("{TAB_LABEL}/{SHIFT_TAB_LABEL}:panes");
    assert!(text.contains(&expected_panes), "got: {text}");
    assert!(!text.contains("Shift+"), "Shift+ text must not appear: {text}");
    assert!(!text.contains(":fields"), "fields chip removed: {text}");
    assert!(!text.contains("\u{2190}/\u{2192}:panes"), "arrows are not pane-cycle keys: {text}");
    assert!(!text.contains(":focus"), "stale `focus` chip must not reappear: {text}");
    assert!(!text.contains(":restart"), "restart-daemon chip must not appear: {text}");
    assert!(!text.contains(":kill daemon"), "kill-daemon chip must not appear: {text}");
    assert!(text.contains("t:theme"), "got: {text}");
    assert!(text.contains("q:quit"), "got: {text}");
    assert!(text.contains("P:pull"), "got: {text}");
    assert!(text.contains("\u{2191}\u{2193}:scroll"), "got: {text}");
    let pull_pos = text.find(":pull").expect("pull chip present");
    let help_pos = text.find(":help").expect("help chip present");
    let panes_pos = text.find(":panes").expect("panes chip present");
    let scroll_pos = text.find(":scroll").expect("scroll chip present");
    let theme_pos = text.find(":theme").expect("theme chip present");
    let quit_pos = text.find(":quit").expect("quit chip present");
    assert!(
        pull_pos < help_pos
            && help_pos < panes_pos
            && panes_pos < scroll_pos
            && scroll_pos < theme_pos
            && theme_pos < quit_pos,
        "expected display order pull -> help -> panes -> scroll -> theme -> quit, got: {text}"
    );
    assert!(!text.contains("/:filter"), "filter is panel-scoped: {text}");
}

#[test]
fn panes_chip_falls_back_when_user_removes_curated_keys() {
    let mut bs: Vec<Binding> = default_bindings()
        .into_iter()
        .filter(|x| x.action != Action::NextFocus && x.action != Action::PrevFocus)
        .collect();
    bs.push(b(Action::NextFocus, Key::F(7), "F7"));
    bs.push(b(Action::PrevFocus, Key::F(8), "F8"));
    let app = app_with(bs);
    let text = global_hint_text(&app);
    assert!(text.contains("F7/F8:panes"), "got: {text}");
}

#[test]
fn panes_fallback_skips_display_only_entries() {
    let bs = vec![
        b(Action::NextFocus, Key::Null, "gt"),
        b(Action::NextFocus, Key::F(7), "F7"),
        b(Action::PrevFocus, Key::Null, "gT"),
    ];
    assert_eq!(pane_chip_labels(&bs), vec!["F7".to_string()]);
    let dup = vec![b(Action::NextFocus, Key::Tab, "Tab"), b(Action::PrevFocus, Key::BackTab, "Tab")];
    assert_eq!(pane_chip_labels(&dup), vec!["Tab".to_string()]);
}

#[test]
fn global_hint_text_fits_typical_terminal_widths() {
    let app = default_app();
    assert!(global_hint_text(&app).chars().count() < 70);
}

#[test]
fn slot_width_matches_rendered_text_plus_pad() {
    let app = default_app();
    let text_w = global_hint_text(&app).chars().count() as u16;
    let all = fit_global_hints(&app, 1000);
    assert_eq!(hints_render_width(&all), text_w + 1);
}

#[test]
fn global_hints_drop_lowest_rank_first_under_pressure() {
    let app = default_app();
    let sep = hint_sep().chars().count();
    let chips = resolved_chips(&app);
    let width_of = |needle: &str| {
        chips
            .iter()
            .find(|c| c.text.contains(needle))
            .unwrap_or_else(|| panic!("{needle} chip present"))
            .text
            .chars()
            .count()
    };
    let budget = width_of(":pull") + width_of(":help") + width_of(":quit") + 2 * sep;
    let got = fit_global_hints(&app, budget);
    for keep in [":pull", ":help", ":quit"] {
        assert!(got.iter().any(|c| c.contains(keep)), "{keep} (top rank) must survive: {got:?}");
    }
    for drop in [":scroll", ":theme", ":panes"] {
        assert!(!got.iter().any(|c| c.contains(drop)), "{drop} (lower rank) must drop first: {got:?}");
    }
    let joined = got.join(" ");
    let p = joined.find(":pull").unwrap();
    let h = joined.find(":help").unwrap();
    let q = joined.find(":quit").unwrap();
    assert!(p < h && h < q, "display order not preserved: {joined}");
}

#[test]
fn config_rebind_of_quit_flows_through_to_global_strip() {
    let label = format!("{CTRL_PREFIX}q");
    let app = rebind(Action::Quit, Key::Char('q'), &label);
    let text = global_hint_text(&app);
    let expected = format!("{CTRL_PREFIX}q:quit");
    assert!(text.contains(&expected), "got: {text}");
    assert!(!text.contains(" \u{b7} q:quit"), "stale default `q:quit` must not appear: {text}");
}

#[test]
fn chip_drops_silently_when_user_unbinds_the_action() {
    let app = rebind(Action::CycleTheme, Key::F(9), "F9");
    let text = global_hint_text(&app);
    assert!(text.contains("F9:theme"), "got: {text}");
    let bs: Vec<Binding> = default_bindings().into_iter().filter(|x| x.action != Action::CycleTheme).collect();
    let text = global_hint_text(&app_with(bs));
    assert!(!text.contains(":theme"), "got: {text}");
    assert!(text.contains("q:quit"), "got: {text}");
}

#[test]
fn empty_fit_when_nothing_fits() {
    let app = default_app();
    assert!(fit_global_hints(&app, 2).is_empty());
    assert_eq!(hints_render_width(&[]), 0);
    assert_eq!(hints_render_width(&["ab".to_string(), "c".to_string()]), 2 + 3 + 1 + 1);
}

#[test]
fn pick_keeps_priority_prefix_in_display_order() {
    let chips = vec![
        RankedChip::new(30, "aaa".to_string()),
        RankedChip::new(10, "bbb".to_string()),
        RankedChip::new(20, "ccc".to_string()),
        RankedChip::new(20, "ddd".to_string()),
    ];
    // Room for two chips and one separator: the two highest-priority chips.
    assert_eq!(pick(chips, 3 + 1 + 3, "|"), vec!["bbb".to_string(), "ccc".to_string()]);
}

#[test]
fn chip_keys_for_each_chip() {
    let app = default_app();
    let t = global_chips();
    let keys: Vec<Option<String>> = t.iter().map(|c| chip_keys(&app, c)).collect();
    assert_eq!(keys[0].as_deref(), Some("P"));
    assert_eq!(keys[3].as_deref(), Some("\u{2191}\u{2193}"));
    assert_eq!(hint_sep(), " \u{b7} ");
}

#[test]
fn fitted_strip_obeys_its_law_at_every_width() {
    let app = default_app();
    let chips = resolved_chips(&app);
    let sep = hint_sep();
    let sep_w = sep.chars().count();
    let width = |texts: &[String]| -> usize {
        texts.iter().map(|t| t.chars().count()).sum::<usize>() + sep_w * texts.len().saturating_sub(1)
    };
    let all: Vec<String> = chips.iter().map(|c| c.text.clone()).collect();
    let top = chips
        .iter()
        .enumerate()
        .min_by_key(|(i, c)| (c.rank, *i))
        .map(|(_, c)| c.text.chars().count())
        .unwrap();
    for budget in 0..=width(&all) + 2 {
        let got = fit_global_hints(&app, budget);
        // A display-order subsequence of the resolved chips.
        let mut idx = Vec::new();
        let mut from = 0;
        for g in &got {
            let j = (from..chips.len()).find(|&j| &chips[j].text == g).expect("subsequence");
            idx.push(j);
            from = j + 1;
        }
        assert!(got.is_empty() || width(&got) <= budget);
        for &j in &idx {
            for (a, c) in chips.iter().enumerate() {
                if c.rank < chips[j].rank || (c.rank == chips[j].rank && a < j) {
                    assert!(idx.contains(&a), "budget {budget}: {got:?}");
                }
            }
        }
        assert_eq!(got.is_empty(), top > budget, "budget {budget}");
        if width(&all) <= budget {
            assert_eq!(got.join(&sep), global_hint_text(&app));
        }
    }
}
