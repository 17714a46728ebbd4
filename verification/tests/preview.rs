use ferro::preview::{
    render_field, render_html, ContentStatus, JsonShape, PreviewField, PreviewKind, PreviewValue,
};
use serde_json::Value;

fn j(text: &str) -> Value {
    serde_json::from_str(text).unwrap()
}

fn pv(v: Value) -> PreviewValue {
    let shape = match &v {
        Value::Null => JsonShape::Null,
        Value::Bool(b) => JsonShape::Bool(*b),
        Value::Number(_) => JsonShape::Number,
        Value::String(s) => JsonShape::Str(s.clone()),
        _ => JsonShape::Composite,
    };
    PreviewValue { shape, compact: v.to_string(), pretty: serde_json::to_string_pretty(&v).unwrap() }
}

fn section(slug: &str, name: &str, body: &str) -> String {
    format!("<section class=\"preview-field\" data-field=\"{slug}\"><h2>{name}</h2>{body}</section>")
}

#[test]
fn plain_fields_render_escaped_text() {
    let out = render_field("title", "Title", PreviewKind::Plain, &Some(pv(j(r#""Hello & <bye>""#))), None);
    assert_eq!(out, section("title", "Title", "<p>Hello &amp; &lt;bye&gt;</p>"));
    let out = render_field("n", "N", PreviewKind::Plain, &Some(pv(j(r#"42"#))), None);
    assert_eq!(out, section("n", "N", "<p>42</p>"));
    let out = render_field("e", "E", PreviewKind::Plain, &Some(pv(j(r#""""#))), None);
    assert_eq!(out, section("e", "E", "<pre>&quot;&quot;</pre>"));
    let out = render_field("list", "List", PreviewKind::Plain, &Some(pv(j(r#"["a"]"#))), None);
    assert_eq!(out, section("list", "List", "<pre>[\n  &quot;a&quot;\n]</pre>"));
}

#[test]
fn missing_and_null_values_show_the_placeholder() {
    let empty = "<p class=\"preview-empty\">—</p>";
    assert_eq!(render_field("a", "A", PreviewKind::Plain, &None, None), section("a", "A", empty));
    assert_eq!(
        render_field("a", "A", PreviewKind::Plain, &Some(pv(Value::Null)), None),
        section("a", "A", empty)
    );
    assert_eq!(
        render_field("a\"b", "<A>", PreviewKind::Boolean, &None, None),
        section("a&quot;b", "&lt;A&gt;", empty)
    );
}

#[test]
fn kinds_with_their_own_rendering() {
    assert_eq!(
        render_field("ok", "Ok", PreviewKind::Boolean, &Some(pv(j(r#"true"#))), None),
        section("ok", "Ok", "<p>✓</p>")
    );
    assert_eq!(
        render_field("ok", "Ok", PreviewKind::Boolean, &Some(pv(j(r#"false"#))), None),
        section("ok", "Ok", "<p>✗</p>")
    );
    assert_eq!(
        render_field("img", "Img", PreviewKind::Media, &Some(pv(j(r#""m1""#))), None),
        section("img", "Img", "<figure><img src=\"/media/m1\" alt=\"\" /></figure>")
    );
    assert_eq!(
        render_field("img", "Img", PreviewKind::Media, &Some(pv(j(r#""""#))), None),
        section("img", "Img", "<pre>&quot;&quot;</pre>")
    );
    assert_eq!(
        render_field("b", "B", PreviewKind::RichBlocks, &Some(pv(j(r#"{"x": 1}"#))), Some("<p>doc</p>")),
        section("b", "B", "<p>doc</p>")
    );
    assert_eq!(
        render_field("b", "B", PreviewKind::RichBlocks, &Some(pv(j(r#"{"x": 1}"#))), None),
        section("b", "B", "<pre>{&quot;x&quot;:1}</pre>")
    );
    assert_eq!(
        render_field("m", "M", PreviewKind::RichMarkdown, &Some(pv(j(r##""# hi""##))), Some("<h1>hi</h1>")),
        section("m", "M", "<h1>hi</h1>")
    );
    assert_eq!(
        render_field("m", "M", PreviewKind::RichMarkdown, &Some(pv(j(r#"3"#))), None),
        section("m", "M", "<pre>3</pre>")
    );
    assert_eq!(
        render_field("r", "R", PreviewKind::RichOther, &Some(pv(j(r#""x""#))), None),
        section("r", "R", "<pre>&quot;x&quot;</pre>")
    );
}

#[test]
fn page_holds_header_and_visible_fields() {
    let fields = vec![
        PreviewField {
            slug: "title".into(),
            name: "Title".into(),
            kind: PreviewKind::Plain,
            hidden: false,
            value: Some(pv(j(r#""Hi""#))),
            rich: None,
        },
        PreviewField {
            slug: "secret".into(),
            name: "Secret".into(),
            kind: PreviewKind::Plain,
            hidden: true,
            value: Some(pv(j(r#""nope""#))),
            rich: None,
        },
    ];
    let page = render_html(ContentStatus::Draft, None, "Post", "hello", &fields);
    assert!(page.starts_with("<!doctype html>"));
    assert!(page.contains("<title>Preview · hello</title>"));
    assert!(page.contains("<span class=\"preview-pill preview-pill-draft\">draft</span><h1>hello</h1>"));
    let main = format!("<main class=\"preview-main\">{}</main>", section("title", "Title", "<p>Hi</p>"));
    assert!(page.contains(&main));
    assert!(!page.contains("nope"));
    let page = render_html(ContentStatus::Published, Some("A & B"), "Post", "hello", &[]);
    assert!(page.contains("<title>Preview · A &amp; B</title>"));
    assert!(page.contains("<main class=\"preview-main\"></main>"));
}
