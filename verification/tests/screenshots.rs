use gpui_mcp::json::{Json, Number};
use gpui_mcp::screenshots::{
    can_inline, handle_tool_call, inline_screenshot, lift_screenshots, Screenshot,
};

fn convert(value: &serde_json::Value) -> Json {
    match value {
        serde_json::Value::Null => Json::Null,
        serde_json::Value::Bool(b) => Json::Bool(*b),
        serde_json::Value::Number(n) => Json::Number(Number {
            literal: n.to_string(),
            plain: n.as_f64().map(|n| n.to_string()).unwrap_or_default(),
            single: serde_json::from_value::<f32>(n.clone().into())
                .ok()
                .map(|n| serde_json::Value::from(n).to_string()),
        }),
        serde_json::Value::String(s) => Json::Text(s.clone()),
        serde_json::Value::Array(items) => Json::Array(items.iter().map(convert).collect()),
        serde_json::Value::Object(fields) => {
            Json::Object(fields.iter().map(|(k, v)| (k.clone(), convert(v))).collect())
        }
    }
}

/// The value that a JSON text writes.
fn json(text: &str) -> Json {
    convert(&serde_json::from_str(text).expect("a JSON text"))
}


fn shot(bytes: &[u8]) -> Screenshot {
    Screenshot {
        width: 10,
        height: 20,
        format: "png".into(),
        scale: Json::Null,
        element_id: None,
        bytes: bytes.to_vec(),
    }
}

#[test]
fn an_image_is_handed_over_in_base64() {
    for (bytes, expected) in [
        (&b""[..], ""),
        (&b"M"[..], "TQ=="),
        (&b"Ma"[..], "TWE="),
        (&b"Man"[..], "TWFu"),
        (&[0xfb, 0xff, 0xbf, 0x00][..], "+/+/AA=="),
    ] {
        let (value, image) = inline_screenshot(shot(bytes));
        assert_eq!(image.data, expected);
        assert_eq!(image.mime_type, "image/png");
        assert_eq!(
            value.compact(),
            "{\"width\":10,\"height\":20,\"format\":\"png\",\"scale\":null,\"element_id\":null,\
             \"note\":\"The image is attached to this answer as its own content block.\"}"
        );
    }
}

#[test]
fn a_screenshot_is_lifted_out_of_its_answer() {
    let answer = json(r#"{"path": "/tmp/a.png"}"#);
    let (value, images) = lift_screenshots("take_screenshot", answer.clone(), |named| {
        assert_eq!(named.get_text("path"), Some("/tmp/a.png"));
        Some(shot(b"Man"))
    });
    assert_eq!(images.len(), 1);
    assert_eq!(images[0].data, "TWFu");
    assert_eq!(value.get_text("format"), Some("png"));

    let (value, images) = lift_screenshots("take_screenshot", answer.clone(), |_| None);
    assert_eq!(value, answer, "a file that cannot be read stays named");
    assert!(images.is_empty());

    let (value, images) = lift_screenshots("get_element", answer.clone(), |_| {
        panic!("no screenshot to fetch")
    });
    assert_eq!(value, answer);
    assert!(images.is_empty());
}

#[test]
fn a_batch_may_carry_several() {
    let answer = json(
        r#"{"ok": true, "steps": [
            {"method": "take_screenshot", "ok": true, "result": {"path": "1"}},
            {"method": "send_key", "ok": true, "result": {"path": "2"}},
            {"method": "take_screenshot", "ok": false, "result": {"path": "3"}},
            {"method": "take_screenshot", "ok": true},
            7,
            {"method": "take_screenshot", "ok": true, "result": {"path": "4"}}
        ]}"#,
    );
    let mut asked = Vec::new();
    let (value, images) = lift_screenshots("batch", answer.clone(), |named| {
        let path = named.get_text("path").unwrap().to_string();
        asked.push(path.clone());
        Some(shot(path.as_bytes()))
    });
    assert_eq!(asked, ["1", "4"]);
    assert_eq!(images.len(), 2);
    assert_eq!((images[0].data.as_str(), images[1].data.as_str()), ("MQ==", "NA=="));
    assert_eq!(value.get("ok"), Some(&Json::Bool(true)));
    match (value.get("steps"), answer.get("steps")) {
        (Some(Json::Array(after)), Some(Json::Array(before))) => {
            assert_eq!(after.len(), before.len());
            for i in 1..5 {
                assert_eq!(after[i], before[i]);
            }
            for i in [0, 5] {
                let result = after[i].get("result").unwrap();
                assert_eq!(result.get_text("format"), Some("png"));
                assert!(result.get("path").is_none());
            }
        }
        other => panic!("{other:?}"),
    }
    let odd = json(r#"{"steps": 3}"#);
    assert_eq!(lift_screenshots("batch", odd.clone(), |_| None).0, odd);
}

#[test]
fn an_unknown_tool_is_not_sent() {
    let error = handle_tool_call(
        "dance",
        Json::Null,
        |_, _| panic!("sent"),
        |_| panic!("fetched"),
    )
    .unwrap_err();
    assert_eq!(error, "Unknown tool: dance");
}

#[test]
fn a_tool_call_is_forwarded() {
    let (value, images) = handle_tool_call(
        "send_key",
        json(r#"{"key": "a"}"#),
        |method, params| {
            assert_eq!(method, "send_key");
            assert_eq!(params, json(r#"{"key": "a"}"#));
            Ok(json(r#"{"success": true}"#))
        },
        |_| None,
    )
    .unwrap();
    assert_eq!(value, json(r#"{"success": true}"#));
    assert!(images.is_empty());
    let failed = handle_tool_call("send_key", Json::Null, |_, _| Err("gone".into()), |_| None);
    assert_eq!(failed.unwrap_err(), "gone");
}

#[test]
fn an_image_is_handed_over_where_its_text_fits() {
    let largest = isize::MAX as usize / 4 * 3;
    assert!(can_inline(0));
    assert!(can_inline(1));
    assert!(can_inline(largest));
    assert!(!can_inline(largest + 1));
    assert!(!can_inline(usize::MAX));
}
