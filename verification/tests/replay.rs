use gpui_mcp::cli::{exit_code, parse_command, report_lines, Command};
use gpui_mcp::json::{Fields, Json, Number};
use gpui_mcp::replay::{
    judge, next_turn, replay, replay_through, unmet_expectation, Calls, ReplayOptions, Turn,
};
use gpui_mcp::script::{default_name, is_read_only, Script, Step, Viewport};

fn convert(value: &serde_json::Value) -> Json {
    match value {
        serde_json::Value::Null => Json::Null,
        serde_json::Value::Bool(b) => Json::Bool(*b),
        serde_json::Value::Number(n) => Json::Number(Number {
            literal: n.to_string(),
            plain: n.as_f64().map(|n| n.to_string()).unwrap_or_default(),
            single: serde_json::from_value::<f32>(n.clone().into())
                .ok()
                .map(|n| serde_json::Value::from(n).to_string()),
        }),
        serde_json::Value::String(s) => Json::Text(s.clone()),
        serde_json::Value::Array(items) => Json::Array(items.iter().map(convert).collect()),
        serde_json::Value::Object(fields) => {
            Json::Object(fields.iter().map(|(k, v)| (k.clone(), convert(v))).collect())
        }
    }
}

/// The value that a JSON text writes.
fn json(text: &str) -> Json {
    convert(&serde_json::from_str(text).expect("a JSON text"))
}


fn script_of(steps: &[(&str, Json)]) -> Script {
    Script {
        source: None,
        name: "test".into(),
        app: None,
        recorded_with: None,
        viewport: None,
        steps: steps
            .iter()
            .map(|(method, params)| Step {
                method: (*method).to_string(),
                params: params.clone(),
                note: None,
            })
            .collect(),
    }
}

fn number(n: f64) -> Number {
    match convert(&serde_json::Value::from(n)) {
        Json::Number(n) => n,
        other => panic!("{other:?}"),
    }
}

fn viewport(width: f64, height: f64) -> Viewport {
    Viewport { width: number(width), height: number(height) }
}

#[test]
fn a_replay_reports_every_step() {
    let script = script_of(&[
        ("click_element", json(r#"{ "element_id": "save" }"#)),
        ("wait_for", json(r#"{ "text": "Saved" }"#)),
    ]);

    let report = replay(&script, &ReplayOptions::default(), |method, _params| {
        Ok(match method {
            "wait_for" => json(r#"{ "satisfied": true }"#),
            _ => json(r#"{ "success": true }"#),
        })
    });

    assert!(report.ok);
    assert_eq!((report.passed, report.failed, report.skipped), (2, 0, 0));
}

/// A `wait_for` that never came true is a failed assertion. That is the
/// whole test story: no separate step type, and the failure already says
/// which condition did not hold.
#[test]
fn an_unsatisfied_wait_fails_the_replay() {
    let script = script_of(&[
        ("wait_for", json(r#"{ "text": "Saved" }"#)),
        ("send_key", json(r#"{ "key": "enter" }"#)),
    ]);

    let report = replay(
        &script,
        &ReplayOptions { seek: false, stop_on_error: true },
        |_, _| {
            Ok(json(
                r#"{
                    "satisfied": false,
                    "waited_ms": 3000,
                    "checks": { "text": { "found": false } }
                }"#,
            ))
        },
    );

    assert!(!report.ok);
    assert_eq!(report.failed, 1);
    assert_eq!(report.steps.len(), 1, "stopped at the failure");
    let detail = report.steps[0].detail.as_deref().unwrap();
    assert!(detail.contains("3000"), "{detail}");
    assert!(detail.contains("found"), "{detail}");
    assert_eq!(
        detail,
        "waited 3000 ms and the condition never held: {\"text\":{\"found\":false}}"
    );
}

#[test]
fn keeping_going_runs_the_rest() {
    let script = script_of(&[
        ("wait_for", json(r#"{ "text": "nope" }"#)),
        ("send_key", json(r#"{ "key": "enter" }"#)),
    ]);

    let report = replay(
        &script,
        &ReplayOptions { seek: false, stop_on_error: false },
        |method, _| {
            Ok(match method {
                "wait_for" => json(r#"{ "satisfied": false }"#),
                _ => json(r#"{ "success": true }"#),
            })
        },
    );

    assert_eq!((report.passed, report.failed), (1, 1));
    assert_eq!(report.steps.len(), 2);
}

/// Seeking is about arriving, not about checking the way there.
#[test]
fn seeking_skips_the_steps_that_only_look() {
    let script = script_of(&[
        ("ui_snapshot", json("{}")),
        ("inspect_ui_tree", json("{}")),
        ("take_screenshot", json("{}")),
        ("click_element", json(r#"{ "element_id": "save" }"#)),
    ]);

    let mut called = Vec::new();
    let report = replay(
        &script,
        &ReplayOptions { seek: true, stop_on_error: true },
        |method, _| {
            called.push(method.to_string());
            Ok(json(r#"{ "success": true }"#))
        },
    );

    assert_eq!(report.skipped, 2, "the tree and the screenshot");
    assert_eq!(called, ["ui_snapshot", "click_element"]);
}

/// A snapshot is not skipped: it hands out the refs a later step may need.
#[test]
fn a_snapshot_is_not_a_read_only_step() {
    assert!(!is_read_only("ui_snapshot"));
    assert!(is_read_only("inspect_ui_tree"));
    assert!(is_read_only("take_screenshot"));
    assert!(is_read_only("a11y_audit"), "seeking does not audit");
    assert!(!is_read_only("click_element"));
}

/// An audit step is an assertion about the UI, the same way a wait is one
/// about its state — so accessibility stays checked rather than having
/// been checked once.
#[test]
fn a_failing_audit_fails_the_replay() {
    let script = script_of(&[("a11y_audit", json(r#"{ "fail_on": "serious" }"#))]);

    let report = replay(&script, &ReplayOptions::default(), |_, _| {
        Ok(json(
            r#"{ "ok": false, "serious": 3, "warnings": 7, "fail_on": "serious" }"#,
        ))
    });

    assert!(!report.ok);
    let detail = report.steps[0].detail.as_deref().unwrap();
    assert!(detail.contains('3'), "{detail}");
    assert!(detail.contains('7'), "{detail}");
    assert_eq!(detail, "3 serious and 7 warnings, at fail_on=\"serious\"");
}

#[test]
fn an_audit_that_passes_passes() {
    let script = script_of(&[("a11y_audit", json("{}"))]);
    let report = replay(&script, &ReplayOptions::default(), |_, _| {
        Ok(json(r#"{ "ok": true, "serious": 0, "warnings": 4 }"#))
    });
    assert!(report.ok);
}

#[test]
fn a_failed_call_fails_the_step() {
    let script = script_of(&[("click_element", json(r#"{ "element_id": "nope" }"#))]);
    let report = replay(&script, &ReplayOptions::default(), |_, _| {
        Err("Element not found: nope".to_string())
    });

    assert!(!report.ok);
    assert!(report.steps[0].detail.as_deref().unwrap().contains("nope"));
}

/// The size a window is at decides its layout, so it has to be set before
/// the first step rather than somewhere among them.
#[test]
fn a_viewport_is_applied_before_the_first_step() {
    let mut script = script_of(&[("click_element", json(r#"{ "element_id": "save" }"#))]);
    script.viewport = Some(viewport(1280.0, 800.0));

    let mut called = Vec::new();
    let report = replay(&script, &ReplayOptions::default(), |method, params| {
        called.push((method.to_string(), params));
        Ok(json(r#"{ "success": true, "honoured": true }"#))
    });

    assert!(report.ok);
    assert_eq!(called[0].0, "set_viewport");
    assert_eq!(called[0].1.get("width"), Some(&json("1280.0")));
    assert_eq!(called[1].0, "click_element");
    assert!(report.viewport.is_some(), "the report says what it did");
}

/// Every later step would be acting on the wrong layout, so its failures
/// would all describe the wrong problem.
#[test]
fn a_window_that_cannot_be_resized_stops_the_replay() {
    let mut script = script_of(&[("click_element", json(r#"{ "element_id": "save" }"#))]);
    script.viewport = Some(viewport(1280.0, 800.0));

    let mut called = Vec::new();
    let report = replay(&script, &ReplayOptions::default(), |method, _| {
        called.push(method.to_string());
        Err("Window not found".to_string())
    });

    assert!(!report.ok);
    assert_eq!(called, ["set_viewport"], "nothing else ran");
    assert_eq!(report.skipped, 1);
}

/// A script with no viewport is the older shape, and still replays.
#[test]
fn a_script_without_a_viewport_just_runs() {
    let script = script_of(&[("send_key", json(r#"{ "key": "enter" }"#))]);

    let mut called = Vec::new();
    let report = replay(&script, &ReplayOptions::default(), |method, _| {
        called.push(method.to_string());
        Ok(json(r#"{ "success": true }"#))
    });

    assert!(report.ok);
    assert_eq!(called, ["send_key"]);
    assert!(report.viewport.is_none());
}

/// A golden that no longer matches is an assertion that failed, and the
/// replay has to say so with the detail the comparison produced.
#[test]
fn a_mismatched_golden_fails_the_replay() {
    let script = script_of(&[(
        "expect_screenshot",
        json(r#"{ "path": "tests/golden/sidebar.png" }"#),
    )]);

    let report = replay(&script, &ReplayOptions::default(), |_, _| {
        Ok(json(
            r#"{
                "matched": false,
                "detail": "42 of 1000 pixels differ; wrote sidebar.actual.png"
            }"#,
        ))
    });

    assert!(!report.ok);
    let detail = report.steps[0].detail.as_deref().unwrap();
    assert!(detail.contains("actual.png"), "{detail}");
}

/// The first run of a golden has nothing to compare against and passes —
/// but a bare "passed" would hide exactly the run that needs a look, so
/// the step carries what the comparison said.
#[test]
fn a_freshly_written_golden_passes_and_says_so() {
    let script = script_of(&[("expect_screenshot", json(r#"{ "path": "g.png" }"#))]);
    let report = replay(&script, &ReplayOptions::default(), |_, _| {
        Ok(json(
            r#"{ "matched": true, "created": true, "detail": "Wrote g.png" }"#,
        ))
    });
    assert!(report.ok);
    assert_eq!(report.steps[0].status, "passed");
    assert_eq!(report.steps[0].detail.as_deref(), Some("Wrote g.png"));
}

#[test]
fn a_compared_golden_that_matches_says_nothing() {
    let script = script_of(&[("expect_screenshot", json(r#"{ "path": "g.png" }"#))]);
    let report = replay(&script, &ReplayOptions::default(), |_, _| {
        Ok(json(
            r#"{ "matched": true, "created": false, "compared": true }"#,
        ))
    });
    assert!(report.ok);
    assert!(report.steps[0].detail.is_none());
}

/// Seeking is about arriving. A golden is an assertion about the way
/// there, which is exactly what seeking skips.
#[test]
fn seeking_does_not_compare_goldens() {
    assert!(is_read_only("expect_screenshot"));
}

/// The call succeeded and the resize did not. Carrying on would replay
/// every later step against a layout the script never meant, so this is
/// the same abort as a window that could not be reached at all.
#[test]
fn a_refused_resize_stops_the_replay() {
    let mut script = script_of(&[("click_element", json(r#"{ "element_id": "save" }"#))]);
    script.viewport = Some(viewport(1280.0, 800.0));

    let mut called = Vec::new();
    let report = replay(&script, &ReplayOptions::default(), |method, _| {
        called.push(method.to_string());
        Ok(json(
            r#"{
                "honoured": false,
                "requested": { "width": 1280.0, "height": 800.0 },
                "viewport": { "width": 1920.0, "height": 1080.0 }
            }"#,
        ))
    });

    assert!(!report.ok);
    assert_eq!(called, ["set_viewport"], "nothing else ran");
    let outcome = report.viewport.as_ref().unwrap();
    assert_eq!(outcome.status, "failed");
    assert_eq!(outcome.reached, Some(viewport(1920.0, 1080.0)));
    let detail = outcome.detail.as_deref().unwrap();
    assert!(detail.contains("1280x800"), "{detail}");
    assert!(detail.contains("1920x1080"), "{detail}");
    assert!(detail.contains("refused"), "{detail}");
}

/// The header is not a step, so a header that fails must not be counted
/// as one: the counts describe the steps and add up to `of`, and the
/// reason lives in the report where a reader can find it.
#[test]
fn a_failed_header_keeps_the_counts_honest() {
    let mut script = script_of(&[
        ("click_element", json(r#"{ "element_id": "save" }"#)),
        ("wait_for", json(r#"{ "text": "Saved" }"#)),
    ]);
    script.viewport = Some(viewport(1280.0, 800.0));

    let report = replay(&script, &ReplayOptions::default(), |_, _| {
        Err("Window not found".to_string())
    });

    assert!(!report.ok);
    assert_eq!(
        report.passed + report.failed + report.skipped,
        report.of,
        "{report:?}"
    );
    assert_eq!(report.failed, 0, "the header is not a step");
    assert_eq!(report.skipped, 2);
    let outcome = report.viewport.as_ref().unwrap();
    assert_eq!(outcome.status, "failed");
    assert!(outcome.reached.is_none());
    assert!(outcome
        .detail
        .as_deref()
        .unwrap()
        .contains("Window not found"));
}

/// A resize recorded as a step can be refused just like the header.
#[test]
fn a_recorded_resize_the_platform_refused_fails_the_step() {
    let script = script_of(&[
        ("set_viewport", json(r#"{ "width": 600, "height": 400 }"#)),
        ("click_element", json(r#"{ "element_id": "save" }"#)),
    ]);

    let report = replay(&script, &ReplayOptions::default(), |method, _| {
        Ok(match method {
            "set_viewport" => json(
                r#"{
                    "honoured": false,
                    "requested": { "width": 600.0, "height": 400.0 },
                    "viewport": { "width": 800.0, "height": 600.0 }
                }"#,
            ),
            _ => json(r#"{ "success": true }"#),
        })
    });

    assert!(!report.ok);
    assert_eq!(report.steps[0].status, "failed");
    assert_eq!(report.steps.len(), 1, "stopped there");
}

/// A golden named in a script is relative to the script, so the same
/// file resolves from whichever directory the replay is started in.
#[test]
fn a_golden_path_is_resolved_against_the_script() {
    let mut script = script_of(&[
        ("expect_screenshot", json(r#"{ "path": "golden/sidebar.png" }"#)),
        ("expect_screenshot", json(r#"{ "path": "/abs/elsewhere.png" }"#)),
        ("click_element", json(r#"{ "element_id": "golden/sidebar.png" }"#)),
    ]);
    script.source = Some("tests/open-file.json".to_string());

    let mut seen = Vec::new();
    let report = replay(&script, &ReplayOptions::default(), |method, params| {
        seen.push((method.to_string(), params));
        Ok(json(r#"{ "matched": true, "compared": true }"#))
    });

    assert!(report.ok);
    assert_eq!(seen[0].1.get_text("path"), Some("tests/golden/sidebar.png"));
    assert_eq!(seen[1].1.get_text("path"), Some("/abs/elsewhere.png"), "absolute stays");
    assert_eq!(
        seen[2].1.get_text("element_id"),
        Some("golden/sidebar.png"),
        "only a golden's path is a path"
    );
}

/// A script that was never read from a file has nothing to resolve
/// against, and leaves the path alone.
#[test]
fn a_script_without_a_source_leaves_golden_paths_alone() {
    let script = script_of(&[("expect_screenshot", json(r#"{ "path": "golden/s.png" }"#))]);
    let mut seen = None;
    replay(&script, &ReplayOptions::default(), |_, params| {
        seen = Some(params);
        Ok(json(r#"{ "matched": true }"#))
    });
    assert_eq!(seen.unwrap().get_text("path"), Some("golden/s.png"));
}

#[test]
fn a_golden_path_is_folded_where_the_script_is() {
    let mut script = script_of(&[("expect_screenshot", json(r#"{ "path": "../golden/x.png" }"#))]);
    for (source, expected) in [
        ("../scripts/a.json", "../golden/x.png"),
        ("scripts/a.json", "golden/x.png"),
        ("./a.json", "../golden/x.png"),
        ("/repo/scripts/a.json", "/repo/golden/x.png"),
        ("a.json", "../golden/x.png"),
    ] {
        script.source = Some(source.to_string());
        let params = script.params_for(&script.steps[0]);
        assert_eq!(params.get_text("path"), Some(expected), "{source}");
    }
}

#[test]
fn every_assertion_says_what_did_not_hold() {
    let no = |method: &str, value: &str| unmet_expectation(method, &json(value));
    assert_eq!(
        no("batch", r#"{"ok": false, "ran": 1, "of": 3}"#).unwrap(),
        "1 of 3 steps ran before one failed"
    );
    assert_eq!(
        no("batch", r#"{"ok": false}"#).unwrap(),
        "0 of 0 steps ran before one failed"
    );
    assert_eq!(
        no("wait_for", r#"{"satisfied": false}"#).unwrap(),
        "waited 0 ms and the condition never held: {}"
    );
    assert_eq!(
        no("expect_screenshot", r#"{"matched": false}"#).unwrap(),
        "the window does not match its golden image"
    );
    assert_eq!(
        no("a11y_audit", r#"{"ok": false}"#).unwrap(),
        "0 serious and 0 warnings, at fail_on=\"serious\""
    );
    assert_eq!(
        no("set_viewport", r#"{"honoured": false, "requested": {"width": 600}}"#).unwrap(),
        "asked for 600x? and the window reached ?x?: the platform refused or clamped the \
         resize — a minimum size, a maximised window, or a tiling window manager. The layout \
         is not the one the script was recorded against."
    );
    assert!(no("wait_for", r#"{"satisfied": null}"#).is_none());
    assert!(no("send_key", r#"{"ok": false, "satisfied": false}"#).is_none());
}

#[test]
fn a_golden_that_was_only_rewritten_says_so() {
    let (outcome, passed) = judge(
        4,
        "expect_screenshot",
        Ok(json(r#"{"matched": true, "compared": false}"#)),
    );
    assert!(passed);
    assert_eq!(outcome.index, 4);
    assert_eq!(outcome.detail.as_deref(), Some("the golden was written, not compared"));
}

#[test]
fn counts_add_up_unless_a_failure_stopped_the_run() {
    let script = script_of(&[
        ("get_logs", Json::Null),
        ("send_key", Json::Null),
        ("send_key", Json::Null),
    ]);
    let fail = |_: &str, _: Json| Err("no".to_string());
    let report = replay(&script, &ReplayOptions { seek: true, stop_on_error: true }, fail);
    assert_eq!((report.passed, report.failed, report.skipped, report.of), (0, 1, 1, 3));
    assert_eq!(report.steps.len(), 2);
    assert_eq!(report.steps[0].status, "skipped");
    let report = replay(&script, &ReplayOptions { seek: true, stop_on_error: false }, fail);
    assert_eq!((report.passed, report.failed, report.skipped, report.of), (0, 2, 1, 3));
}

#[test]
fn a_reached_size_can_come_as_a_pair() {
    let mut script = script_of(&[]);
    script.viewport = Some(viewport(10.5, 20.0));
    let report = replay(&script, &ReplayOptions::default(), |_, _| {
        Ok(json(r#"{"viewport": [10.5, 20.0]}"#))
    });
    assert!(report.ok);
    let outcome = report.viewport.unwrap();
    assert_eq!(outcome.status, "applied");
    assert_eq!(outcome.reached, Some(viewport(10.5, 20.0)));
    let report = replay(&script, &ReplayOptions::default(), |_, _| {
        Ok(json(r#"{"viewport": [10.5, 20.0, 3.0]}"#))
    });
    assert_eq!(report.viewport.unwrap().reached, None);
}

#[test]
fn a_listing_has_a_line_for_the_header_and_for_each_step() {
    let mut script = script_of(&[
        ("click_element", Json::Null),
        ("wait_for", Json::Null),
        ("send_key", Json::Null),
        ("send_key", Json::Null),
    ]);
    script.name = "open-file".into();
    script.viewport = Some(viewport(1280.0, 800.0));
    let report = replay(&script, &ReplayOptions::default(), |method, _| {
        Ok(match method {
            "wait_for" => json(
                r#"{"satisfied": false, "waited_ms": 310,
                    "checks": {"text": {"found": false, "query": "Saved"}}}"#,
            ),
            _ => json("{}"),
        })
    });
    assert_eq!(
        report_lines(&script, &report),
        [
            "  0  applied  viewport 1280x800",
            "  1  passed   click_element",
            "  2  failed   wait_for — waited 310 ms and the condition never held: \
             {\"text\":{\"found\":false,\"query\":\"Saved\"}}",
            "",
            "open-file: 1 passed, 1 failed, 0 skipped, of 4",
        ]
    );
    assert_eq!(exit_code(&report), 1);
}

#[test]
fn a_listing_of_a_failed_header_reads_skipped() {
    let mut script = script_of(&[("click_element", Json::Null), ("send_key", Json::Null)]);
    script.viewport = Some(viewport(1280.0, 800.0));
    let report = replay(&script, &ReplayOptions::default(), |_, _| {
        Err("Window not found".to_string())
    });
    assert_eq!(
        report_lines(&script, &report),
        [
            "  0  failed   viewport 1280x800 — Window not found",
            "  1  skipped  click_element",
            "  2  skipped  send_key",
            "",
            "test: 0 passed, 0 failed, 2 skipped, of 2",
        ]
    );
}

fn command(line: &[&str]) -> Command {
    parse_command(&line.iter().map(|argument| argument.to_string()).collect())
}

#[test]
fn the_command_line_is_read() {
    for help in ["--help", "-h", "help"] {
        assert!(matches!(command(&[help]), Command::Help));
    }
    match command(&["replay", "a.json", "--seek", "b.json", "--keep-going"]) {
        Command::Replay { path, options } => {
            assert_eq!(path, "b.json");
            assert!(options.seek && !options.stop_on_error);
        }
        other => panic!("{other:?}"),
    }
    match command(&["replay", "a.json"]) {
        Command::Replay { path, options } => {
            assert_eq!(path, "a.json");
            assert!(!options.seek && options.stop_on_error);
        }
        other => panic!("{other:?}"),
    }
    assert!(matches!(
        command(&["replay"]),
        Command::BadReplay(message) if message == "replay needs a script file"
    ));
    assert!(matches!(
        command(&["replay", "a.json", "--fast", "--slow"]),
        Command::BadReplay(message) if message == "Unknown option for replay: --fast"
    ));
    assert!(matches!(
        command(&["dance"]),
        Command::Unknown(message) if message == "Unknown command: dance\n"
    ));
}

#[test]
fn the_viewport_has_the_first_turn() {
    let mut script = script_of(&[("get_logs", Json::Null), ("send_key", Json::Null)]);
    script.viewport = Some(viewport(10.0, 10.0));
    let seek = ReplayOptions { seek: true, stop_on_error: true };
    assert_eq!(next_turn(&script, &seek, &None, &Vec::new()), Turn::Header);

    script.viewport = None;
    let mut done = Vec::new();
    assert_eq!(next_turn(&script, &seek, &None, &done), Turn::Skip(0));
    assert_eq!(next_turn(&script, &ReplayOptions::default(), &None, &done), Turn::Step(0));
    done.push(judge(0, "get_logs", Ok(Json::Null)).0);
    assert_eq!(next_turn(&script, &seek, &None, &done), Turn::Step(1));
    done.push(judge(1, "send_key", Ok(Json::Null)).0);
    assert_eq!(next_turn(&script, &seek, &None, &done), Turn::Over);
    done.pop();
    done.pop();
    done.push(judge(0, "get_logs", Err("no".into())).0);
    assert_eq!(next_turn(&script, &seek, &None, &done), Turn::Over);
}

/// However the script is named, its goldens are found from its own directory.
#[test]
fn a_golden_is_found_from_any_directory() {
    for (source, named, seen) in [
        ("open.json", "golden/s.png", "golden/s.png"),
        ("tests/open.json", "./golden/s.png", "tests/golden/s.png"),
        ("../scripts/open.json", "../golden/s.png", "../golden/s.png"),
        ("/repo/tests/open.json", "../golden/s.png", "/repo/golden/s.png"),
        ("tests/open.json", "../../s.png", "../s.png"),
        ("tests/open.json", "../../../s.png", "../../s.png"),
        ("../../s/a.json", "g.png", "../../s/g.png"),
    ] {
        let params = Fields::new().with("path", Json::text(named)).object();
        let mut script = script_of(&[("expect_screenshot", params)]);
        script.source = Some(source.into());
        let given = script.params_for(&script.steps[0]);
        assert_eq!(given.get_text("path"), Some(seen), "{source} {named}");
    }
}

/// Two replays through the same calls make theirs one after the other.
#[test]
fn the_calls_of_a_replay_come_in_order_and_once_each() {
    let mut script = script_of(&[
        ("get_logs", Json::Null),
        ("send_key", Json::Null),
        ("click_element", Json::Null),
        ("send_key", Json::Null),
    ]);
    script.viewport = Some(viewport(10.0, 10.0));
    let mut called = Vec::new();
    let mut calls = Calls::new(|method: &str, _params: Json| {
        called.push(method.to_string());
        if method == "click_element" {
            Err("no".to_string())
        } else {
            Ok(Json::Null)
        }
    });
    let report = replay_through(&script, &ReplayOptions::default(), &mut calls);
    assert_eq!((report.passed, report.failed, report.skipped, report.of), (2, 1, 0, 4));
    let seek = ReplayOptions { seek: true, stop_on_error: false };
    let report = replay_through(&script, &seek, &mut calls);
    assert_eq!((report.passed, report.failed, report.skipped, report.of), (2, 1, 1, 4));
    assert_eq!(
        called,
        [
            "set_viewport", "get_logs", "send_key", "click_element", "set_viewport", "send_key",
            "click_element", "send_key",
        ]
    );
}

/// Sizes are kept in single precision, whatever the app writes.
#[test]
fn the_size_that_was_reached_is_in_single_precision() {
    let mut script = script_of(&[]);
    script.viewport = Some(viewport(10.0, 10.0));
    let report = replay(&script, &ReplayOptions::default(), |_, _| {
        Ok(json(r#"{ "viewport": { "width": 1920, "height": 1080.1 } }"#))
    });
    let reached = report.viewport.unwrap().reached.unwrap();
    assert_eq!(reached.width.literal, "1920.0");
    assert_eq!(reached.height.literal, "1080.0999755859375");
}

#[test]
fn a_script_without_a_name_is_named_after_its_file() {
    assert_eq!(default_name("tests/open-file.json"), "open-file");
    assert_eq!(default_name("/"), "recording");
}
