use gpui_mcp::json::{Json, Number};
use gpui_mcp::path::{normalise, parse_path, render_path, Component};
use gpui_mcp::recorder::{
    first_window, parse_snapshot_line, GoldenPlace, Recorder, WindowSize, RECORDED_WITH,
};
use gpui_mcp::script::Viewport;

fn convert(value: &serde_json::Value) -> Json {
    match value {
        serde_json::Value::Null => Json::Null,
        serde_json::Value::Bool(b) => Json::Bool(*b),
        serde_json::Value::Number(n) => Json::Number(Number {
            literal: n.to_string(),
            plain: n.as_f64().map(|n| n.to_string()).unwrap_or_default(),
            single: serde_json::from_value::<f32>(n.clone().into())
                .ok()
                .map(|n| serde_json::Value::from(n).to_string()),
        }),
        serde_json::Value::String(s) => Json::Text(s.clone()),
        serde_json::Value::Array(items) => Json::Array(items.iter().map(convert).collect()),
        serde_json::Value::Object(fields) => {
            Json::Object(fields.iter().map(|(k, v)| (k.clone(), convert(v))).collect())
        }
    }
}

/// The value that a JSON text writes.
fn json(text: &str) -> Json {
    convert(&serde_json::from_str(text).expect("a JSON text"))
}


#[test]
fn a_snapshot_line_yields_its_ref_and_id() {
    assert_eq!(
        parse_snapshot_line("  - button \"Save\" #save-button @e6"),
        Some(("e6", "save-button"))
    );
    assert_eq!(
        parse_snapshot_line("- textbox #search @e1"),
        Some(("e1", "search"))
    );
}

/// A line without an id has no stable name to record, and a `#` inside a
/// name is not one either — recording `3"` would produce a selector that
/// matches nothing.
#[test]
fn a_line_without_a_usable_id_yields_nothing() {
    assert_eq!(parse_snapshot_line("- listitem \"Accordion\" @e3"), None);
    assert_eq!(parse_snapshot_line("- button \"Item #3\" @e4"), None);
    assert_eq!(parse_snapshot_line("ui_snapshot 1 — WindowId(1)"), None);
    assert_eq!(parse_snapshot_line(""), None);
}

#[test]
fn a_mark_inside_a_name_is_no_id() {
    assert_eq!(parse_snapshot_line("- button \"Item #3 of 5\" @e4"), None);
    assert_eq!(parse_snapshot_line("- button \"a #b\" @e4 value=\"\" ✓"), None);
    // Outside the quotes it is one, whatever else is quoted.
    assert_eq!(parse_snapshot_line("- x #save \"y\" @e1"), Some(("e1", "save")));
    assert_eq!(parse_snapshot_line("- x \"n\" #save \"y\" @e1"), Some(("e1", "save")));
    assert_eq!(parse_snapshot_line("- x \"n #save @e1"), Some(("e1", "save")));
    assert_eq!(
        parse_snapshot_line("- button \"Item #3 of 5\" #item @e4"),
        Some(("e4", "item"))
    );
    assert_eq!(
        parse_snapshot_line("- textbox #input-4294967299 @e9 value=\"\" ✓"),
        Some(("e9", "input-4294967299"))
    );
}

#[test]
fn a_ref_is_an_e_and_a_number() {
    assert_eq!(parse_snapshot_line("- a #b @e"), None);
    assert_eq!(parse_snapshot_line("- a #b @x1"), None);
    assert_eq!(parse_snapshot_line("- a #b @e1x"), None);
    assert_eq!(parse_snapshot_line("- a #b @e12 trailing"), Some(("e12", "b")));
    assert_eq!(parse_snapshot_line("- a #B @e1"), None);
    assert_eq!(parse_snapshot_line("- a #x_1-y @e99999999999999999999"), None);
}

fn step_param<'a>(recorder: &'a Recorder, step: usize, key: &str) -> Option<&'a str> {
    recorder.script().steps[step].params.get_text(key)
}

/// The whole point of recording: `@e6` means "line six of what I am
/// looking at", which is worthless in a file. It has to become a name.
#[test]
fn a_recorded_ref_becomes_the_id_beside_it() {
    let mut recorder = Recorder::new("/tmp/refs.json", Some("story".into()));

    recorder.record(
        "ui_snapshot",
        &json("{}"),
        Some("- button \"Save\" #save-button @e6\n- textbox #search @e7\n"),
        None,
    );
    recorder.record("click_element", &json(r#"{ "element_id": "@e6" }"#), None, None);
    recorder.record("type_text", &json(r#"{ "text": "hello" }"#), None, None);

    let written = recorder.script();
    assert_eq!(written.steps.len(), 3);
    assert_eq!(step_param(&recorder, 1, "element_id"), Some("save-button"));
    assert!(written.steps[1].note.is_none());
    assert_eq!(step_param(&recorder, 2, "text"), Some("hello"));
    assert_eq!(written.app.as_deref(), Some("story"));
}

#[test]
fn a_ref_with_no_id_beside_it_is_recorded_with_a_warning() {
    let mut recorder = Recorder::new("/tmp/noid.json", None);

    recorder.record(
        "ui_snapshot",
        &json("{}"),
        Some("- listitem \"Accordion\" @e3\n"),
        None,
    );
    recorder.record("click_element", &json(r#"{ "element_id": "@e3" }"#), None, None);

    assert_eq!(step_param(&recorder, 1, "element_id"), Some("@e3"));
    let note = recorder.script().steps[1].note.as_deref().expect("a warning");
    assert!(note.contains("@e3"), "{note}");
    assert!(note.contains("id in the app"), "{note}");
    assert_eq!(
        note,
        "'@e3' is a snapshot ref with no id beside it, so it was left as written and will only \
         replay if the snapshot before it produces the same lines. Give that element an id in \
         the app."
    );
}

/// Rewriting `@e3` to `#item` when forty lines say `#item` would produce a
/// script that replays cleanly and clicks the wrong thing.
#[test]
fn a_ref_to_a_repeated_id_is_not_rewritten() {
    let mut recorder = Recorder::new("/tmp/ambiguous.json", None);

    recorder.record(
        "ui_snapshot",
        &json("{}"),
        Some(
            "- listitem \"One\" #item @e1\n\
             - listitem \"Two\" #item @e2\n\
             - button \"Save\" #save @e3\n",
        ),
        None,
    );
    recorder.record("click_element", &json(r#"{ "element_id": "@e2" }"#), None, None);
    recorder.record("click_element", &json(r#"{ "element_id": "@e3" }"#), None, None);

    let written = recorder.script();
    assert_eq!(step_param(&recorder, 1, "element_id"), Some("@e2"));
    let note = written.steps[1].note.as_deref().expect("a warning");
    assert!(note.contains("#item"), "{note}");
    assert!(note.contains("more than one line"), "{note}");

    // The unique one is still rewritten.
    assert_eq!(step_param(&recorder, 2, "element_id"), Some("save"));
    assert!(written.steps[2].note.is_none());
}

#[test]
fn the_guide_and_replay_are_not_recorded() {
    let mut recorder = Recorder::new("/tmp/skip.json", None);

    assert!(!recorder.record("gpui_guide", &json("{}"), None, None));
    assert!(!recorder.record("replay_script", &json(r#"{ "path": "x.json" }"#), None, None));
    assert!(recorder.record("send_key", &json(r#"{ "key": "enter" }"#), None, None));

    assert_eq!(recorder.steps(), 1);
}

/// The gap the ref machinery left open: a step that names `#item` itself
/// never went through a ref, so nothing looked at how many `#item`s there
/// are. Record time is when that is still cheap to fix.
#[test]
fn an_id_a_step_names_itself_is_checked_too() {
    let mut recorder = Recorder::new("/tmp/literal-ambiguous.json", None);

    recorder.record(
        "ui_snapshot",
        &json("{}"),
        Some(
            "- listitem \"One\" #item @e1\n\
             - listitem \"Two\" #item @e2\n\
             - button \"Save\" #save @e3\n",
        ),
        None,
    );
    recorder.record("click_element", &json(r##"{ "element_id": "#item" }"##), None, None);
    recorder.record("wait_for", &json(r#"{ "element_id": "save" }"#), None, None);

    let written = recorder.script();
    let note = written.steps[1].note.as_deref().expect("a warning");
    assert!(note.contains("#item names 2"), "{note}");
    assert!(written.steps[2].note.is_none(), "the unique one is fine");
}

/// `#input-4294967299` passes every test for a hand-written id and is not
/// one. Nothing else in the recorder can tell the difference, so the note
/// is the only thing standing between it and a script that breaks on the
/// next app start.
#[test]
fn an_id_carrying_an_entity_number_is_recorded_with_a_warning() {
    let mut recorder = Recorder::new("/tmp/generated-id.json", None);

    recorder.record(
        "ui_snapshot",
        &json("{}"),
        Some("- textbox #input-4294967299 @e1\n"),
        None,
    );
    recorder.record("click_element", &json(r#"{ "element_id": "@e1" }"#), None, None);

    // Still rewritten: the id at least says which element was meant, and
    // the ref says only which line it was on.
    assert_eq!(step_param(&recorder, 1, "element_id"), Some("input-4294967299"));
    let note = recorder.script().steps[1].note.as_deref().expect("a warning");
    assert!(note.contains("generates fresh"), "{note}");
}

#[test]
fn a_dotted_path_is_doubted_by_its_last_segment() {
    let mut recorder = Recorder::new("s.json", None);
    recorder.learn_refs("- a #item @e1\n- b #item @e2\r\n- c #save @e3");
    assert!(recorder.doubts_about("##view.list.item").unwrap().starts_with("#item names 2 "));
    assert!(recorder.doubts_about("item.save").is_none());
    assert!(recorder.doubts_about("view-1.row123456").unwrap().starts_with("#row123456 ends in"));
    assert!(recorder.doubts_about("").is_none());
}

#[test]
fn both_arguments_are_resolved_and_their_notes_joined() {
    let mut recorder = Recorder::new("s.json", None);
    recorder.learn_refs("- a #save @e1\n");
    let (params, note) = recorder.resolve_refs(&json(
        r#"{"element_id": "@e1", "root_element_id": "@e9", "text": "@e1"}"#,
    ));
    assert_eq!(params.get_text("element_id"), Some("save"));
    assert_eq!(params.get_text("root_element_id"), Some("@e9"));
    assert_eq!(params.get_text("text"), Some("@e1"));
    assert!(note.unwrap().starts_with("'@e9' is a snapshot ref"));

    let (_, note) = recorder.resolve_refs(&json(
        r#"{"element_id": "@e8", "root_element_id": "@e9"}"#,
    ));
    let note = note.unwrap();
    assert!(note.contains("in the app. '@e9'"), "{note}");
}

#[test]
fn the_next_snapshot_replaces_the_refs() {
    let mut recorder = Recorder::new("s.json", None);
    recorder.learn_refs("- a #one @e1\n");
    recorder.learn_refs("- a #two @e2\n");
    assert!(recorder.resolve_refs(&json(r#"{"element_id": "@e1"}"#)).1.is_some());
    let (params, note) = recorder.resolve_refs(&json(r#"{"element_id": "@e2"}"#));
    assert_eq!(params.get_text("element_id"), Some("two"));
    assert!(note.is_none());
}

#[test]
fn a_script_is_named_after_its_file() {
    for (path, name) in [
        ("tests/open-file.json", "open-file"),
        ("a.b.json", "a.b"),
        (".hidden", ".hidden"),
        ("/", "recording"),
        ("tests/..", "recording"),
        ("noext", "noext"),
    ] {
        let recorder = Recorder::new(path, None);
        assert_eq!(recorder.script().name, name, "{path}");
        assert_eq!(recorder.path(), path);
        assert_eq!(recorder.script().source.as_deref(), Some(path));
        assert_eq!(recorder.script().recorded_with.as_deref(), Some(RECORDED_WITH));
    }
}

/// The agent names a golden relative to wherever the MCP client started
/// the server, and that directory is written down nowhere. The recorder
/// re-anchors it on the script, which is where the golden is looked for.
#[test]
fn a_recorded_golden_path_is_anchored_on_the_script() {
    let mut recorder = Recorder::new("/tmp/golden-anchor.json", None);
    let cwd = "/home/me/project";
    let meant = normalise(&parse_path(&format!("{cwd}/tests/golden/sidebar.png")));

    recorder.record(
        "expect_screenshot",
        &json(r#"{ "path": "tests/golden/sidebar.png" }"#),
        None,
        Some(GoldenPlace {
            base: parse_path("/tmp"),
            target: parse_path(&format!("{cwd}/tests/golden/sidebar.png")),
            absolute: format!("{cwd}/tests/golden/sidebar.png"),
        }),
    );

    let recorded = step_param(&recorder, 0, "path").unwrap().to_string();
    assert_eq!(recorded, "../home/me/project/tests/golden/sidebar.png");
    assert_eq!(normalise(&parse_path(&format!("/tmp/{recorded}"))), meant);

    // Replayed, it names the file that was meant.
    let script = recorder.script();
    let params = script.params_for(&script.steps[0]);
    assert_eq!(params.get_text("path"), Some(render_path(&meant).as_str()));
}

#[test]
fn a_golden_on_another_drive_is_written_absolute() {
    let mut recorder = Recorder::new("s.json", None);
    recorder.record(
        "expect_screenshot",
        &json(r#"{ "path": "s.png" }"#),
        None,
        Some(GoldenPlace {
            base: vec![Component::Prefix("C:".into()), Component::RootDir],
            target: vec![
                Component::Prefix("D:".into()),
                Component::RootDir,
                Component::Normal("s.png".into()),
            ],
            absolute: "D:\\s.png".into(),
        }),
    );
    assert_eq!(step_param(&recorder, 0, "path"), Some("D:\\s.png"));
}

fn size(width: u32, height: u32) -> Option<WindowSize> {
    Some(WindowSize {
        viewport: Viewport {
            width: Number::whole(width.into()),
            height: Number::whole(height.into()),
        },
        whole_width: width,
        whole_height: height,
    })
}

/// One probe. A window that is not there on the first recorded step is
/// not worth a discovery and a round trip on every step after it.
#[test]
fn the_window_size_is_asked_for_once() {
    let mut recorder = Recorder::new("/tmp/probe.json", None);

    assert!(recorder.needs_viewport());
    assert!(!recorder.note_viewport(None), "nothing to write");
    assert!(!recorder.needs_viewport(), "and no second probe");

    let mut recorder = Recorder::new("/tmp/probe.json", None);
    assert!(
        !recorder.note_viewport(size(0, 0)),
        "a minimised window has no size"
    );
    assert!(!recorder.needs_viewport());

    let mut recorder = Recorder::new("/tmp/probe.json", None);
    assert!(recorder.note_viewport(size(1280, 800)));
    recorder.record("send_key", &json(r#"{ "key": "enter" }"#), None, None);
    assert_eq!(
        recorder.script().viewport,
        Some(size(1280, 800).unwrap().viewport)
    );
    assert!(!recorder.note_viewport(size(640, 480)), "written once");
    assert_eq!(
        recorder.script().viewport,
        Some(size(1280, 800).unwrap().viewport)
    );
}

#[test]
fn the_content_size_of_the_first_window_is_taken() {
    let both = json(
        r#"[{"bounds": {"x": 0, "y": 0, "width": 7, "height": 8},
             "content_size": {"width": 5, "height": 6}},
            {"bounds": {"x": 0, "y": 0, "width": 1, "height": 1}}]"#,
    );
    let found = first_window(&both).unwrap();
    assert_eq!((found.width.plain.as_str(), found.height.plain.as_str()), ("5", "6"));
    let older = json(r#"[{"bounds": {"x": 0, "y": 0, "width": 7, "height": 8}}]"#);
    let found = first_window(&older).unwrap();
    assert_eq!((found.width.plain.as_str(), found.height.plain.as_str()), ("7", "8"));
    assert!(first_window(&json("[]")).is_none());
    assert!(first_window(&json("{}")).is_none());
}

#[test]
fn a_call_that_failed_is_not_recorded() {
    let mut recorder = Recorder::new("s.json", None);
    assert!(!recorder.record_outcome("send_key", &json("{}"), None, None));
    assert_eq!(recorder.steps(), 0);
    assert!(recorder.record_outcome("ui_snapshot", &json("{}"), Some("- a #save @e1\n"), None));
    // Only a snapshot's text is read for refs.
    assert!(recorder.record_outcome("get_logs", &json("{}"), Some("- a #other @e1\n"), None));
    assert!(recorder.record_outcome(
        "click_element",
        &json(r#"{"element_id": "@e1"}"#),
        Some("{}"),
        None
    ));
    assert_eq!(recorder.steps(), 3);
    assert_eq!(step_param(&recorder, 2, "element_id"), Some("save"));
}

#[test]
fn state_and_indentation_do_not_matter() {
    let line = "- button \"Save\" #save-button @e6";
    let carried = Some(("e6", "save-button"));
    assert_eq!(parse_snapshot_line(line), carried);
    assert_eq!(parse_snapshot_line(&format!("{line} value=\"\" ✓")), carried);
    assert_eq!(parse_snapshot_line(&format!("    {line}")), carried);
}
