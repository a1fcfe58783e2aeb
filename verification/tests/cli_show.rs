use llamastash::cli::picker::{
    catalog_hint, catalog_items, ensure_interactive, nothing_to_pick, running_item,
    start_picker_items, stop_picker_items, ExitKind, RunningRow,
};
use llamastash::cli::resolve::CatalogRow;
use llamastash::cli::show::{
    fmt_field, format_bytes, human_lines, knobs_one_line, last_params_index, on_disk_total, render_human, JsonField,
    LastParams, ShowEnvelope, ShowLine,
};

fn fake_row(path: &str) -> CatalogRow {
    CatalogRow {
        path: path.into(),
        model_id: Some("deadbeef".into()),
        parent: "/m".into(),
        source: "user".into(),
        arch: Some("qwen3".into()),
        quant: Some("Q5_K".into()),
        native_ctx: Some(32768),
        mode_hint: Some("chat".into()),
        parameter_label: Some("80B".into()),
        weights_bytes: Some(40_000_000_000),
        display_label: None,
        parse_error: None,
        split_siblings: vec![format!("{path}.part2"), format!("{path}.part3")],
        has_chat_template: true,
        has_reasoning_hint: false,
        tokenizer_kind: Some("qwen2".into()),
        total_parameters: Some(80_000_000_000),
    }
}

fn s(v: &str) -> JsonField {
    JsonField::Str(v.to_string())
}

fn o(v: &str) -> JsonField {
    JsonField::Other(v.to_string())
}

#[test]
fn format_bytes_rolls_through_units() {
    assert_eq!(format_bytes(0), "0 B");
    assert_eq!(format_bytes(1023), "1023 B");
    assert_eq!(format_bytes(1024), "1 KiB");
    assert!(format_bytes(2 * 1024 * 1024).starts_with("2.0 MiB"));
    assert!(format_bytes(3 * 1024 * 1024 * 1024).starts_with("3.00 GiB"));
}

#[test]
fn format_bytes_matches_float_formatting() {
    let float = |n: u64| -> String {
        const KIB: f64 = 1024.0;
        const MIB: f64 = KIB * 1024.0;
        const GIB: f64 = MIB * 1024.0;
        let nf = n as f64;
        if nf >= GIB {
            format!("{:.2} GiB", nf / GIB)
        } else if nf >= MIB {
            format!("{:.1} MiB", nf / MIB)
        } else if nf >= KIB {
            format!("{:.0} KiB", nf / KIB)
        } else {
            format!("{n} B")
        }
    };
    let samples: [u64; 16] = [
        1536,
        2560,
        1024 * 1024 - 1,
        1024 * 1024 + 51 * 1024,
        9 * (1 << 27),
        11 * (1 << 27),
        40_000_000_000,
        (1 << 30) - 1,
        1 << 30,
        u64::MAX,
        (1 << 53) + 1,
        (1 << 53) + 3,
        123_456_789_012_345,
        1_073_741_823 * 7,
        999_999_999_999_999_999,
        18_446_744_073_709_551_000,
    ];
    for n in samples {
        assert_eq!(format_bytes(n), float(n), "n = {n}");
    }
    let mut x: u64 = 1;
    for _ in 0..2000 {
        x = x.wrapping_mul(6364136223846793005).wrapping_add(1442695040888963407);
        let n = x >> (x % 64);
        assert_eq!(format_bytes(n), float(n), "n = {n}");
    }
}

#[test]
fn knobs_one_line_sorts_keys_and_drops_nulls() {
    let v = vec![
        ("ctx".to_string(), o("8192")),
        ("reasoning".to_string(), JsonField::Null),
        ("n_gpu_layers".to_string(), o("99")),
        ("flash_attn".to_string(), o("true")),
    ];
    let line = knobs_one_line(Some(&v));
    assert!(!line.contains("reasoning"));
    assert!(line.contains("ctx=8192"));
    assert!(line.contains("flash_attn=true"));
    assert!(line.contains("n_gpu_layers=99"));
    let ctx_idx = line.find("ctx=").unwrap();
    let flash_idx = line.find("flash_attn=").unwrap();
    let ngl_idx = line.find("n_gpu_layers=").unwrap();
    assert!(ctx_idx < flash_idx && flash_idx < ngl_idx);
}

#[test]
fn knobs_one_line_returns_dash_for_empty_or_null() {
    assert_eq!(knobs_one_line(None), "\u{2014}");
    assert_eq!(knobs_one_line(Some(&Vec::new())), "\u{2014}");
    let nulls = vec![("ctx".to_string(), JsonField::Null), ("reasoning".to_string(), JsonField::Null)];
    assert_eq!(knobs_one_line(Some(&nulls)), "\u{2014}");
}

#[test]
fn knobs_one_line_exact_text() {
    let v = vec![("mode".to_string(), s("chat")), ("ctx".to_string(), o("4096"))];
    assert_eq!(knobs_one_line(Some(&v)), "ctx=4096, mode=chat");
}

#[test]
fn fmt_field_shows_strings_raw_and_others_as_json() {
    assert_eq!(fmt_field(None), "\u{2014}");
    assert_eq!(fmt_field(Some(&JsonField::Null)), "\u{2014}");
    assert_eq!(fmt_field(Some(&s("chat"))), "chat");
    assert_eq!(fmt_field(Some(&o("8192"))), "8192");
}

#[test]
fn on_disk_total_sums_known_sizes() {
    assert_eq!(on_disk_total(Some(10), &vec![Some(6)]), 16);
    assert_eq!(on_disk_total(Some(4), &vec![None]), 4);
    assert_eq!(on_disk_total(None, &vec![Some(3), None, Some(5)]), 8);
    assert_eq!(on_disk_total(Some(u64::MAX), &vec![Some(1)]), u64::MAX);
}

fn envelope(last: Option<LastParams>) -> ShowEnvelope {
    ShowEnvelope {
        on_disk_total_bytes: 16,
        gpu_backend: "Cuda".to_string(),
        yaml: None,
        builtin: Some(vec![("n_gpu_layers".to_string(), o("99"))]),
        last_params: last,
    }
}

fn field(l: &ShowLine) -> Option<(String, String)> {
    match l {
        ShowLine::Field { key, value, .. } => Some((key.trim_end().to_string(), value.clone())),
        _ => None,
    }
}

#[test]
fn human_lines_lay_out_every_section() {
    let row = fake_row("/m/x.gguf");
    let lines = human_lines(&row, &envelope(None));
    match &lines[0] {
        ShowLine::Title(t) => assert_eq!(t, "x.gguf"),
        other => panic!("{other:?}"),
    }
    let fields: Vec<(String, String)> = lines.iter().filter_map(field).collect();
    let get = |k: &str| fields.iter().find(|(key, _)| key == k).map(|(_, v)| v.clone());
    assert_eq!(get("path").as_deref(), Some("/m/x.gguf"));
    assert_eq!(get("model_id").as_deref(), Some("deadbeef"));
    assert_eq!(get("display_label"), None);
    assert_eq!(get("native_ctx").as_deref(), Some("32768"));
    assert_eq!(get("has_chat_template").as_deref(), Some("yes"));
    assert_eq!(get("has_reasoning_hint").as_deref(), Some("no"));
    assert_eq!(get("weights_bytes").as_deref(), Some("37.25 GiB"));
    assert_eq!(get("shard_count").as_deref(), Some("3"));
    assert_eq!(get("on_disk_total").as_deref(), Some("16 B"));
    assert_eq!(get("shard 2").as_deref(), Some("/m/x.gguf.part2"));
    assert_eq!(get("shard 3").as_deref(), Some("/m/x.gguf.part3"));
    assert_eq!(get("yaml").as_deref(), Some("\u{2014}"));
    assert_eq!(get("builtin").as_deref(), Some("n_gpu_layers=99"));
    assert_eq!(get("(none)").as_deref(), Some("launch it once to populate"));
    let keys: Vec<&ShowLine> = lines.iter().filter(|l| matches!(l, ShowLine::Field { .. })).collect();
    for l in keys {
        if let ShowLine::Field { key, .. } = l {
            assert!(key.chars().count() >= 18, "key column padded: {key:?}");
        }
    }
    let sections: Vec<(String, Option<String>)> = lines
        .iter()
        .filter_map(|l| match l {
            ShowLine::Section { title, note } => Some((title.clone(), note.clone())),
            _ => None,
        })
        .collect();
    assert_eq!(
        sections,
        vec![
            ("metadata".to_string(), None),
            ("size".to_string(), None),
            ("arch_defaults".to_string(), Some("Cuda".to_string())),
            ("last_params".to_string(), None),
        ]
    );
}

#[test]
fn human_lines_show_recorded_last_params() {
    let mut row = fake_row("/m/x.gguf");
    row.parse_error = Some("bad header".to_string());
    let last = LastParams {
        ctx: Some(o("8192")),
        mode: Some(s("chat")),
        reasoning: None,
        knobs: Some(vec![("b".to_string(), o("1")), ("a".to_string(), s("x"))]),
    };
    let lines = human_lines(&row, &envelope(Some(last)));
    let fields: Vec<(String, String)> = lines.iter().filter_map(field).collect();
    let get = |k: &str| fields.iter().find(|(key, _)| key == k).map(|(_, v)| v.clone());
    assert_eq!(get("ctx").as_deref(), Some("8192"));
    assert_eq!(get("mode").as_deref(), Some("chat"));
    assert_eq!(get("reasoning").as_deref(), Some("\u{2014}"));
    assert_eq!(get("knobs").as_deref(), Some("a=x, b=1"));
    assert!(lines.iter().any(|l| matches!(l, ShowLine::Field { value, warn: true, .. } if value == "bad header")));
}

#[test]
fn picker_refuses_non_interactive_contexts() {
    let e = ensure_interactive(true, true, "start").unwrap_err();
    assert_eq!(e.kind, ExitKind::Usage);
    assert_eq!(e.message, "interactive start picker is disabled with --json; pass an explicit argument");
    let e = ensure_interactive(false, false, "stop").unwrap_err();
    assert_eq!(e.message, "interactive stop picker requires a TTY; pass an explicit argument");
    assert!(ensure_interactive(false, true, "start").is_ok());
    let e = nothing_to_pick("no models discovered");
    assert_eq!(e.kind, ExitKind::ModelNotFound);
}

#[test]
fn picker_items_and_hints() {
    let mut r = fake_row("/m/x.gguf");
    assert_eq!(catalog_hint(&r), "qwen3 Q5_K ctx=32768");
    r.arch = None;
    r.native_ctx = None;
    assert_eq!(catalog_hint(&r), "? Q5_K ctx=?");
    let items = catalog_items(&[r]);
    assert_eq!(items, vec![("x.gguf".to_string(), "? Q5_K ctx=?".to_string())]);
    let (label, hint) = running_item(&RunningRow {
        launch_id: "L1".to_string(),
        name: "llama.gguf".to_string(),
        port: 41100,
        state: "Ready".to_string(),
    });
    assert_eq!(label, "L1 llama.gguf");
    assert_eq!(hint, ":41100 Ready");
}

fn strip_ansi(s: &str) -> String {
    let mut out = String::new();
    let mut chars = s.chars();
    while let Some(c) = chars.next() {
        if c == '\u{1b}' {
            for d in chars.by_ref() {
                if d == 'm' {
                    break;
                }
            }
        } else {
            out.push(c);
        }
    }
    out
}

#[test]
fn render_human_prints_each_line_in_order() {
    let row = fake_row("/m/x.gguf");
    let env = envelope(None);
    let text = render_human(&row, &env, false);
    assert_eq!(strip_ansi(&render_human(&row, &env, true)), text);
    let mut expected = String::new();
    for l in human_lines(&row, &env) {
        match l {
            ShowLine::Title(t) => expected.push_str(&format!("{t}\n")),
            ShowLine::Section { title, note: None } => expected.push_str(&format!("\n{title}\n")),
            ShowLine::Section { title, note: Some(n) } => {
                expected.push_str(&format!("\n{title} ({n})\n"))
            }
            ShowLine::Field { key, value, .. } => expected.push_str(&format!("  {key}  {value}\n")),
        }
    }
    assert_eq!(text, expected);
    assert!(text.starts_with("x.gguf\n  path                /m/x.gguf\n"), "{text:?}");
    assert!(text.contains("\n\nmetadata\n  arch"));
    assert!(text.contains("\narch_defaults (Cuda)\n"));
}

// The shell reads each file's size; the library sums what it was handed
// (the lengths of the files these cases write, `None` for a missing one).

#[test]
fn on_disk_total_includes_every_shard_when_files_exist() {
    let primary = Some(b"1234567890".len() as u64);
    let siblings = vec![Some(b"abcdef".len() as u64)];
    assert_eq!(on_disk_total(primary, &siblings), 10 + 6);
}

#[test]
fn on_disk_total_skips_missing_siblings_without_panicking() {
    let primary = Some(b"0123".len() as u64);
    let siblings = vec![None];
    assert_eq!(on_disk_total(primary, &siblings), 4);
}

#[test]
fn last_params_are_the_first_recorded_for_the_path() {
    let path = "/m/x.gguf".to_string();
    let entries = vec![
        (Some("/m/y.gguf".to_string()), true),
        (Some("/m/x.gguf".to_string()), false),
        (None, true),
        (Some("/m/x.gguf".to_string()), true),
        (Some("/m/x.gguf".to_string()), true),
    ];
    assert_eq!(last_params_index(&entries, &path), Some(3));
    assert_eq!(last_params_index(&entries[..3].to_vec(), &path), None);
    assert_eq!(last_params_index(&vec![], &path), None);
}

#[test]
fn render_human_styles_every_piece_when_colours_are_on() {
    let mut row = fake_row("/m/x.gguf");
    row.parse_error = Some("bad header".to_string());
    let text = render_human(&row, &envelope(None), true);
    assert!(
        text.starts_with("\u{1b}[1mx.gguf\u{1b}[0m\n  \u{1b}[2mpath              \u{1b}[0m  /m/x.gguf\n"),
        "{text:?}"
    );
    assert!(text.contains("\u{1b}[33mbad header\u{1b}[0m\n"));
    assert!(text.contains("\n\u{1b}[1march_defaults\u{1b}[0m (\u{1b}[2mCuda\u{1b}[0m)\n"));
    assert!(!render_human(&row, &envelope(None), false).contains('\u{1b}'));
}

#[test]
fn pickers_refuse_before_offering_items() {
    let e = start_picker_items(&[], true, true).unwrap_err();
    assert_eq!(e.kind, ExitKind::Usage);
    assert_eq!(e.message, "interactive start picker is disabled with --json; pass an explicit argument");
    let e = start_picker_items(&[], false, true).unwrap_err();
    assert_eq!(e.kind, ExitKind::ModelNotFound);
    assert_eq!(e.message, "no models discovered");
    let items = start_picker_items(&[fake_row("/m/x.gguf")], false, true).unwrap();
    assert_eq!(items, vec![("x.gguf".to_string(), "qwen3 Q5_K ctx=32768".to_string())]);
    let e = stop_picker_items(&[], false, false).unwrap_err();
    assert_eq!(e.message, "interactive stop picker requires a TTY; pass an explicit argument");
    let e = stop_picker_items(&[], false, true).unwrap_err();
    assert_eq!(e.kind, ExitKind::ModelNotFound);
    assert_eq!(e.message, "no managed launches to stop");
    let run = RunningRow { launch_id: "L1".into(), name: "llama.gguf".into(), port: 41100, state: "Ready".into() };
    let items = stop_picker_items(&[run], false, true).unwrap();
    assert_eq!(items, vec![("L1 llama.gguf".to_string(), ":41100 Ready".to_string())]);
}
