use redrum_bot::api::{
    check_gen_qr, escape_prompt, try_gen_qr, extract_response, first_response, gen_qr, request_body, split_lines, style_from_name,
};
use redrum_bot::qr::{QrCatError, QrStyle};
use redrum_bot::text::push_decimal;

#[test]
fn style_names() {
    assert_eq!(style_from_name("default"), QrStyle::Default);
    assert_eq!(style_from_name("half"), QrStyle::Half);
    assert_eq!(style_from_name("rounded"), QrStyle::Rounded);
    assert_eq!(style_from_name("Rounded"), QrStyle::Default);
    assert_eq!(style_from_name(""), QrStyle::Default);
    assert_eq!(style_from_name("halfway"), QrStyle::Default);
}

#[test]
fn escape_prompt_doubles_and_flattens() {
    assert_eq!(escape_prompt("plain"), "plain");
    assert_eq!(escape_prompt("a\\b"), "a\\\\b");
    assert_eq!(escape_prompt("{}"), "{{}}");
    assert_eq!(escape_prompt("{ }"), "{ }");
    assert_eq!(escape_prompt("say \"hi\""), "say \\\"hi\\\"");
    assert_eq!(escape_prompt("one\ntwo\n"), "one two ");
    assert_eq!(escape_prompt("\\\"\n"), "\\\\\\\" ");
    assert_eq!(escape_prompt("{{}}"), "{{{}}}");
    assert_eq!(escape_prompt("{{}}"), "{{}}".replace("{}", "{{}}"));
}

#[test]
fn escaped_prompt_has_no_line_break() {
    let e = escape_prompt("a\nb\r\nc\n\n");
    assert!(!e.contains('\n'));
    assert_eq!(e, "a b\r c  ");
}

#[test]
fn request_body_layout() {
    let body = request_body("llama3.1:8b", "Hi \"you\"\n");
    assert_eq!(
        body,
        "\n        {\n            \"model\": \"llama3.1:8b\",\n            \"prompt\": \"Hi \\\"you\\\" \",\n            \"stream\": false\n        }\n    "
    );
    let parsed: serde_json::Value = serde_json::from_str(&body).unwrap();
    assert_eq!(parsed["prompt"].as_str(), Some("Hi \"you\" "));
    assert_eq!(parsed["stream"].as_bool(), Some(false));
}

#[test]
fn split_lines_like_std() {
    for text in ["a\nb", "a\r\nb\r", "", "\n", "a\n", "\n\nx", "line\r\n", "\r", "a\rb\n\r\n"] {
        let mine = split_lines(text);
        let std_lines: Vec<String> = text.lines().map(|l| l.to_string()).collect();
        assert_eq!(mine, std_lines, "for {:?}", text);
    }
    assert_eq!(split_lines("a\r\nb\r"), vec!["a".to_string(), "b\r".to_string()]);
}

#[test]
fn extract_response_first_answer() {
    let text = "{\"model\":\"m\",\"created_at\":\"t\",\"response\":\"Hello\",\"done\":true}";
    assert_eq!(extract_response(text), "Hello");
    let text = "not json\n{\"response\": 5}\n{\"response\": \"second\"}\n{\"response\": \"third\"}";
    assert_eq!(extract_response(text), "second");
}

#[test]
fn extract_response_fallback() {
    let fallback = "Сорри, я сломался :(((( Попробуйте повторить запрос.";
    assert_eq!(extract_response(""), fallback);
    assert_eq!(extract_response("{\"model\": \"m\"}\ngarbage"), fallback);
    assert_eq!(extract_response("{\"response\": null}"), fallback);
}

#[test]
fn first_response_picks_first_string() {
    let fields = vec![None, Some(None), Some(Some("a".to_string())), Some(Some("b".to_string()))];
    assert_eq!(first_response(&fields), "a");
    assert_eq!(first_response(&vec![]), "Сорри, я сломался :(((( Попробуйте повторить запрос.");
}

#[test]
fn decimal_numbers() {
    for n in [0i64, 7, 10, 42, -1, -10, 7598600022, i64::MAX, i64::MIN] {
        let mut s = String::from("#");
        push_decimal(&mut s, n);
        assert_eq!(s, format!("#{}", n));
    }
}

#[test]
fn gen_qr_makes_png() {
    let png = gen_qr("hello", 2, "default").ok().unwrap();
    assert_eq!(&png[..8], &[137, 80, 78, 71, 13, 10, 26, 10]);
    let img = image::load_from_memory(&png).unwrap().to_rgba8();
    assert_eq!(img.dimensions(), (1024, 1024));
    // the border stays black, the code itself is drawn in white
    assert_eq!(img.get_pixel(0, 0).0, [0, 0, 0, 255]);
    assert!(img.pixels().any(|p| p.0 == [255, 255, 255, 255]));
}

#[test]
fn gen_qr_unknown_style_is_default() {
    let a = gen_qr("abc", 1, "default").ok().unwrap();
    let b = gen_qr("abc", 1, "fancy").ok().unwrap();
    assert_eq!(a, b);
}

#[test]
fn gen_qr_bad_version() {
    assert!(matches!(try_gen_qr("abc", 0, "default"), Err(QrCatError::Encoding(_))));
    assert!(matches!(check_gen_qr("abc", 0, "default"), Err(QrCatError::Encoding(_))));
    assert!(matches!(try_gen_qr(&"x".repeat(100), 1, "half"), Err(QrCatError::Encoding(_))));
    assert!(check_gen_qr("abc", 1, "rounded").is_ok());
}

#[test]
fn lines_hold_no_line_break() {
    let lines = split_lines("a\r\n\nb\nc\r\r\n");
    assert_eq!(lines, vec!["a".to_string(), "".to_string(), "b".to_string(), "c\r".to_string()]);
    assert!(lines.iter().all(|l| !l.contains('\n')));
}

#[test]
fn try_gen_qr_matches_gen_qr() {
    let a = try_gen_qr("abc", 1, "rounded").ok().unwrap();
    let b = gen_qr("abc", 1, "rounded").ok().unwrap();
    assert_eq!(a, b);
    let img = image::load_from_memory(&a).unwrap();
    assert_eq!((img.width(), img.height()), (1024, 1024));
}
