//! Server-side draft preview rendering: HTML escaping, the preview page's
//! header, each visible field's section, and the document frame around
//! them.

use vstd::prelude::*;
use vstd::string::*;
use crate::text::{chars_of, push_char};

verus! {

/// The document text before the page title.
pub const DOC_HEAD: &'static str = r#"<!doctype html>
<html lang="en">
<head>
<meta charset="utf-8" />
<meta name="viewport" content="width=device-width, initial-scale=1" />
<title>Preview · "#;

/// The document text between the page title and the body.
pub const DOC_MID: &'static str = r#"</title>
<style>
:root { color-scheme: light dark; --fg: #0f172a; --muted: #64748b; --bg: #f8fafc; --card: #ffffff; --pub: #16a34a; --draft: #f59e0b; --arch: #94a3b8; }
@media (prefers-color-scheme: dark) { :root { --fg: #e2e8f0; --muted: #94a3b8; --bg: #0f172a; --card: #1e293b; } }
* { box-sizing: border-box; }
html, body { margin: 0; padding: 0; background: var(--bg); color: var(--fg); font-family: ui-sans-serif, system-ui, -apple-system, "Segoe UI", sans-serif; line-height: 1.6; }
.preview-header { padding: 2rem clamp(1rem, 5vw, 4rem) 1rem; border-bottom: 1px solid color-mix(in oklab, var(--fg) 10%, transparent); }
.preview-header h1 { margin: .25rem 0 .5rem; font-size: clamp(1.6rem, 4vw, 2.4rem); }
.preview-meta { color: var(--muted); margin: 0; font-size: .9rem; }
.preview-pill { display: inline-block; padding: .15rem .5rem; border-radius: 999px; font-size: .75rem; font-weight: 600; text-transform: uppercase; letter-spacing: .05em; color: white; }
.preview-pill-published { background: var(--pub); }
.preview-pill-draft { background: var(--draft); }
.preview-pill-archived { background: var(--arch); }
.preview-main { max-width: 70ch; margin: 0 auto; padding: 1rem clamp(1rem, 5vw, 4rem) 4rem; }
.preview-field { margin-bottom: 2rem; }
.preview-field h2 { margin: 0 0 .5rem; font-size: .8rem; font-weight: 600; text-transform: uppercase; letter-spacing: .08em; color: var(--muted); }
.preview-field p { margin: .25rem 0; }
.preview-empty { color: var(--muted); font-style: italic; }
.preview-field img { max-width: 100%; height: auto; border-radius: .5rem; }
.preview-field pre { background: var(--card); padding: 1rem; border-radius: .5rem; overflow-x: auto; font-size: .85rem; }
.preview-field blockquote { margin: 1rem 0; padding: .5rem 1rem; border-left: 3px solid color-mix(in oklab, var(--fg) 20%, transparent); color: var(--muted); }
.preview-field hr { border: none; border-top: 1px solid color-mix(in oklab, var(--fg) 12%, transparent); margin: 2rem 0; }
</style>
</head>
<body>
"#;

/// The document text after the body.
pub const DOC_TAIL: &'static str = r#"
</body>
</html>"#;

/// Escaping of one character for HTML text and attribute values.
pub open spec fn escape_char(c: char) -> Seq<char> {
    if c == '<' {
        seq!['&', 'l', 't', ';']
    } else if c == '>' {
        seq!['&', 'g', 't', ';']
    } else if c == '&' {
        seq!['&', 'a', 'm', 'p', ';']
    } else if c == '"' {
        seq!['&', 'q', 'u', 'o', 't', ';']
    } else if c == '\'' {
        seq!['&', '#', '3', '9', ';']
    } else {
        seq![c]
    }
}

/// HTML escaping of a text: `< > & " '` become entities, everything else
/// stays.
pub open spec fn spec_escape_html(s: Seq<char>) -> Seq<char>
    decreases s.len(),
{
    if s.len() == 0 {
        seq![]
    } else {
        spec_escape_html(s.drop_last()) + escape_char(s.last())
    }
}

/// The full preview document around a title and an already rendered body.
pub open spec fn spec_wrap_document(title: Seq<char>, body: Seq<char>) -> Seq<char> {
    DOC_HEAD@ + spec_escape_html(title) + DOC_MID@ + body + DOC_TAIL@
}

fn push_lit(out: &mut String, lit: &[char])
    ensures
        final(out)@ == old(out)@ + lit@,
{
    crate::text::push_chars(out, lit, 0, lit.len());
    assert(lit@.subrange(0, lit@.len() as int) =~= lit@);
}

/// Appends the escaping of `c` to `out`.
pub fn push_escaped(out: &mut String, c: char)
    ensures
        final(out)@ == old(out)@ + escape_char(c),
{
    if c == '<' {
        let v: Vec<char> = vec!['&', 'l', 't', ';'];
        push_lit(out, v.as_slice());
        assert(v@ =~= escape_char(c));
    } else if c == '>' {
        let v: Vec<char> = vec!['&', 'g', 't', ';'];
        push_lit(out, v.as_slice());
        assert(v@ =~= escape_char(c));
    } else if c == '&' {
        let v: Vec<char> = vec!['&', 'a', 'm', 'p', ';'];
        push_lit(out, v.as_slice());
        assert(v@ =~= escape_char(c));
    } else if c == '"' {
        let v: Vec<char> = vec!['&', 'q', 'u', 'o', 't', ';'];
        push_lit(out, v.as_slice());
        assert(v@ =~= escape_char(c));
    } else if c == '\'' {
        let v: Vec<char> = vec!['&', '#', '3', '9', ';'];
        push_lit(out, v.as_slice());
        assert(v@ =~= escape_char(c));
    } else {
        push_char(out, c);
        assert(old(out)@.push(c) =~= old(out)@ + escape_char(c));
    }
}

/// Appends the HTML escaping of `s` to `out`.
pub fn push_escaped_str(out: &mut String, s: &str)
    ensures
        final(out)@ == old(out)@ + spec_escape_html(s@),
{
    let cs = chars_of(s);
    let mut i: usize = 0;
    while i < cs.len()
        invariant
            0 <= i <= cs@.len(),
            cs@ == s@,
            out@ == old(out)@ + spec_escape_html(cs@.take(i as int)),
        decreases cs@.len() - i,
    {
        assert(cs@.take(i + 1).drop_last() =~= cs@.take(i as int));
        push_escaped(out, cs[i]);
        assert(old(out)@ + spec_escape_html(cs@.take(i as int)) + escape_char(cs@[i as int])
            =~= old(out)@ + spec_escape_html(cs@.take(i + 1)));
        i += 1;
    }
    assert(cs@.take(cs@.len() as int) =~= cs@);
}

/// HTML-escapes `s`: `<`, `>`, `&`, `"` and `'` become `&lt;`, `&gt;`,
/// `&amp;`, `&quot;` and `&#39;`.
pub fn escape_html(s: &str) -> (res: String)
    ensures
        res@ == spec_escape_html(s@),
{
    let mut out = String::new();
    push_escaped_str(&mut out, s);
    out
}

/// The complete preview document: a fixed head and stylesheet, the escaped
/// title, then `body` as given.
pub fn wrap_document(title: &str, body: &str) -> (res: String)
    ensures
        res@ == spec_wrap_document(title@, body@),
{
    let mut out = String::new();
    out.append(DOC_HEAD);
    push_escaped_str(&mut out, title);
    out.append(DOC_MID);
    out.append(body);
    out.append(DOC_TAIL);
    out
}

/// Publication state of an entry, shown as a pill on the preview.
#[derive(Clone, Copy, Debug, PartialEq, Eq, Structural)]
pub enum ContentStatus {
    Draft,
    Published,
    Archived,
}

/// Lower-case name of a status, as used in the pill's class and label.
pub open spec fn status_name(s: ContentStatus) -> Seq<char> {
    match s {
        ContentStatus::Draft => "draft"@,
        ContentStatus::Published => "published"@,
        ContentStatus::Archived => "archived"@,
    }
}

/// Lower-case name of a status.
pub fn status_label(s: ContentStatus) -> (res: &'static str)
    ensures
        res@ == status_name(s),
{
    match s {
        ContentStatus::Draft => "draft",
        ContentStatus::Published => "published",
        ContentStatus::Archived => "archived",
    }
}

/// The preview page header: status pill, escaped title, escaped type name
/// and slug.
pub open spec fn spec_render_header(
    status: ContentStatus,
    title: Seq<char>,
    kind_name: Seq<char>,
    slug: Seq<char>,
) -> Seq<char> {
    "<header class=\"preview-header\"><span class=\"preview-pill preview-pill-"@ + status_name(
        status,
    ) + "\">"@ + status_name(status) + "</span><h1>"@ + spec_escape_html(title)
        + "</h1><p class=\"preview-meta\">"@ + spec_escape_html(kind_name) + " · "@
        + spec_escape_html(slug) + "</p></header>"@
}

/// Renders the preview page header.
pub fn render_header(status: ContentStatus, title: &str, kind_name: &str, slug: &str) -> (res:
    String)
    ensures
        res@ == spec_render_header(status, title@, kind_name@, slug@),
{
    let label = status_label(status);
    let mut out = String::new();
    out.append("<header class=\"preview-header\"><span class=\"preview-pill preview-pill-");
    out.append(label);
    out.append("\">");
    out.append(label);
    out.append("</span><h1>");
    push_escaped_str(&mut out, title);
    out.append("</h1><p class=\"preview-meta\">");
    push_escaped_str(&mut out, kind_name);
    out.append(" · ");
    push_escaped_str(&mut out, slug);
    out.append("</p></header>");
    out
}

/// The title shown for an entry: its title field when that holds a
/// string, otherwise its slug.
pub fn preview_title(title_field: Option<&str>, slug: &str) -> (res: String)
    ensures
        res@ == match title_field {
            Some(t) => t@,
            None => slug@,
        },
{
    match title_field {
        Some(t) => t.to_owned(),
        None => slug.to_owned(),
    }
}

/// How the preview shows a field, by its kind.
#[derive(Clone, Copy, Debug, PartialEq, Eq, Structural)]
pub enum PreviewKind {
    /// Rich text stored as editor blocks.
    RichBlocks,
    /// Rich text stored as Markdown.
    RichMarkdown,
    /// Rich text in any other format.
    RichOther,
    /// A media reference.
    Media,
    Boolean,
    /// Any other kind.
    Plain,
}

/// The shape of a field's JSON value.
#[derive(Debug)]
pub enum JsonShape {
    Null,
    Bool(bool),
    Number,
    /// A string, unquoted.
    Str(String),
    /// An array or an object.
    Composite,
}

/// A field's JSON value as the preview reads it: its shape, its compact
/// JSON text and its pretty-printed JSON text.
#[derive(Debug)]
pub struct PreviewValue {
    pub shape: JsonShape,
    pub compact: String,
    pub pretty: String,
}

/// `<pre>` around escaped text.
pub open spec fn pre_block(t: Seq<char>) -> Seq<char> {
    "<pre>"@ + spec_escape_html(t) + "</pre>"@
}

/// The placeholder of a field without a value.
pub open spec fn empty_field() -> Seq<char> {
    "<p class=\"preview-empty\">—</p>"@
}

/// Whether a field needs the rich-text renderer's output: a Markdown field
/// holding a string.
pub open spec fn needs_rich(kind: PreviewKind, val: Option<PreviewValue>) -> bool {
    kind == PreviewKind::RichMarkdown && (val matches Some(v) && v.shape is Str)
}

/// The body of a field's section. `rich` is the rich-text renderer's
/// output: for block rich text, the HTML of the value when it is an editor
/// document (`None` when it is not); for Markdown holding a string, the
/// rendered Markdown.
pub open spec fn spec_field_body(
    kind: PreviewKind,
    val: Option<PreviewValue>,
    rich: Option<Seq<char>>,
) -> Seq<char> {
    match val {
        None => empty_field(),
        Some(v) => if kind == PreviewKind::RichBlocks {
            match rich {
                Some(h) => h,
                None => pre_block(v.compact@),
            }
        } else if needs_rich(kind, val) {
            rich->0
        } else if kind == PreviewKind::RichMarkdown || kind == PreviewKind::RichOther {
            pre_block(v.compact@)
        } else if kind == PreviewKind::Media && (v.shape matches JsonShape::Str(id) && id@.len()
            > 0) {
            "<figure><img src=\"/media/"@ + spec_escape_html(v.shape->Str_0@)
                + "\" alt=\"\" /></figure>"@
        } else if kind == PreviewKind::Boolean && v.shape is Bool {
            if v.shape->Bool_0 {
                "<p>✓</p>"@
            } else {
                "<p>✗</p>"@
            }
        } else if (v.shape matches JsonShape::Str(t) && t@.len() > 0) {
            "<p>"@ + spec_escape_html(v.shape->Str_0@) + "</p>"@
        } else if v.shape is Number {
            "<p>"@ + v.compact@ + "</p>"@
        } else if !(v.shape is Null) {
            pre_block(v.pretty@)
        } else {
            empty_field()
        },
    }
}

/// A field's section: escaped slug and name, then the body.
pub open spec fn spec_render_field(
    slug: Seq<char>,
    name: Seq<char>,
    kind: PreviewKind,
    val: Option<PreviewValue>,
    rich: Option<Seq<char>>,
) -> Seq<char> {
    "<section class=\"preview-field\" data-field=\""@ + spec_escape_html(slug) + "\"><h2>"@
        + spec_escape_html(name) + "</h2>"@ + spec_field_body(kind, val, rich) + "</section>"@
}

/// The text of an optional `&str`.
pub open spec fn opt_str(s: Option<&str>) -> Option<Seq<char>> {
    match s {
        Some(t) => Some(t@),
        None => None,
    }
}

fn push_pre(out: &mut String, t: &str)
    ensures
        final(out)@ == old(out)@ + pre_block(t@),
{
    out.append("<pre>");
    push_escaped_str(out, t);
    out.append("</pre>");
}

fn push_field_body(out: &mut String, kind: PreviewKind, val: &Option<PreviewValue>, rich: Option<&str>)
    requires
        needs_rich(kind, *val) ==> rich is Some,
    ensures
        final(out)@ == old(out)@ + spec_field_body(kind, *val, opt_str(rich)),
{
    let v = match val {
        None => {
            out.append("<p class=\"preview-empty\">—</p>");
            return;
        },
        Some(v) => v,
    };
    if kind == PreviewKind::RichBlocks {
        match rich {
            Some(h) => out.append(h),
            None => push_pre(out, v.compact.as_str()),
        }
        return;
    }
    if kind == PreviewKind::RichMarkdown {
        if let JsonShape::Str(_) = &v.shape {
            match rich {
                Some(h) => out.append(h),
                None => {},
            }
            return;
        }
    }
    if kind == PreviewKind::RichMarkdown || kind == PreviewKind::RichOther {
        push_pre(out, v.compact.as_str());
        return;
    }
    if kind == PreviewKind::Media {
        if let JsonShape::Str(id) = &v.shape {
            if !id.as_str().is_empty() {
                out.append("<figure><img src=\"/media/");
                push_escaped_str(out, id.as_str());
                out.append("\" alt=\"\" /></figure>");
                return;
            }
        }
    }
    if kind == PreviewKind::Boolean {
        if let JsonShape::Bool(b) = &v.shape {
            if *b {
                out.append("<p>✓</p>");
            } else {
                out.append("<p>✗</p>");
            }
            return;
        }
    }
    match &v.shape {
        JsonShape::Str(t) => {
            if !t.as_str().is_empty() {
                out.append("<p>");
                push_escaped_str(out, t.as_str());
                out.append("</p>");
            } else {
                push_pre(out, v.pretty.as_str());
            }
        },
        JsonShape::Number => {
            out.append("<p>");
            out.append(v.compact.as_str());
            out.append("</p>");
        },
        JsonShape::Null => {
            out.append("<p class=\"preview-empty\">—</p>");
        },
        _ => {
            push_pre(out, v.pretty.as_str());
        },
    }
}

/// Renders one field's section of the preview. `rich` is the rich-text
/// renderer's output, as [`spec_field_body`] describes; a Markdown field
/// holding a string needs it.
pub fn render_field(
    slug: &str,
    name: &str,
    kind: PreviewKind,
    val: &Option<PreviewValue>,
    rich: Option<&str>,
) -> (res: String)
    requires
        needs_rich(kind, *val) ==> rich is Some,
    ensures
        res@ == spec_render_field(slug@, name@, kind, *val, opt_str(rich)),
{
    let mut out = String::new();
    out.append("<section class=\"preview-field\" data-field=\"");
    push_escaped_str(&mut out, slug);
    out.append("\"><h2>");
    push_escaped_str(&mut out, name);
    out.append("</h2>");
    push_field_body(&mut out, kind, val, rich);
    out.append("</section>");
    out
}

/// A field of the previewed entry's type, with the entry's value for it.
#[derive(Debug)]
pub struct PreviewField {
    pub slug: String,
    pub name: String,
    pub kind: PreviewKind,
    /// Hidden fields are left out of the preview.
    pub hidden: bool,
    pub value: Option<PreviewValue>,
    /// The rich-text renderer's output for the value, as
    /// [`spec_field_body`] describes.
    pub rich: Option<String>,
}

/// The text of an optional `String`.
pub open spec fn opt_owned(s: Option<String>) -> Option<Seq<char>> {
    match s {
        Some(t) => Some(t@),
        None => None,
    }
}

/// Whether the field carries the rich-text output it needs.
pub open spec fn field_ready(f: PreviewField) -> bool {
    needs_rich(f.kind, f.value) ==> f.rich is Some
}

/// The sections of the visible fields, in order.
pub open spec fn spec_render_fields(fields: Seq<PreviewField>) -> Seq<char>
    decreases fields.len(),
{
    if fields.len() == 0 {
        seq![]
    } else {
        let prev = spec_render_fields(fields.drop_last());
        let f = fields.last();
        if f.hidden {
            prev
        } else {
            prev + spec_render_field(f.slug@, f.name@, f.kind, f.value, opt_owned(f.rich))
        }
    }
}

/// Renders the sections of the visible fields, in order.
pub fn render_fields(fields: &[PreviewField]) -> (res: String)
    requires
        forall|i: int| 0 <= i < fields@.len() ==> field_ready(#[trigger] fields@[i]),
    ensures
        res@ == spec_render_fields(fields@),
{
    let mut out = String::new();
    let mut i: usize = 0;
    assert(fields@.take(0) =~= Seq::<PreviewField>::empty());
    while i < fields.len()
        invariant
            0 <= i <= fields@.len(),
            forall|k: int| 0 <= k < fields@.len() ==> field_ready(#[trigger] fields@[k]),
            out@ == spec_render_fields(fields@.take(i as int)),
        decreases fields@.len() - i,
    {
        let f = &fields[i];
        assert(fields@.take(i + 1).drop_last() =~= fields@.take(i as int));
        assert(fields@.take(i + 1).last() == fields@[i as int]);
        assert(field_ready(fields@[i as int]));
        if !f.hidden {
            let rich: Option<&str> = match &f.rich {
                Some(r) => Some(r.as_str()),
                None => None,
            };
            assert(opt_str(rich) == opt_owned(f.rich));
            let sec = render_field(f.slug.as_str(), f.name.as_str(), f.kind, &f.value, rich);
            out.append(sec.as_str());
        }
        i += 1;
    }
    assert(fields@.take(fields@.len() as int) =~= fields@);
    out
}

/// The title an entry is previewed under.
pub open spec fn title_text(title: Option<&str>, slug: Seq<char>) -> Seq<char> {
    match title {
        Some(t) => t@,
        None => slug,
    }
}

/// The preview page of an entry: `title` is the value of its title field
/// when that holds a string (the slug stands in otherwise); the header,
/// then the visible fields inside the main element, framed as a document.
pub fn render_html(
    status: ContentStatus,
    title: Option<&str>,
    kind_name: &str,
    slug: &str,
    fields: &[PreviewField],
) -> (res: String)
    requires
        forall|i: int| 0 <= i < fields@.len() ==> field_ready(#[trigger] fields@[i]),
    ensures
        res@ == spec_wrap_document(
            title_text(title, slug@),
            spec_render_header(status, title_text(title, slug@), kind_name@, slug@)
                + "<main class=\"preview-main\">"@ + spec_render_fields(fields@) + "</main>"@,
        ),
{
    let t = preview_title(title, slug);
    let mut body = render_header(status, t.as_str(), kind_name, slug);
    body.append("<main class=\"preview-main\">");
    let sections = render_fields(fields);
    body.append(sections.as_str());
    body.append("</main>");
    wrap_document(t.as_str(), body.as_str())
}

/// Each field's section follows those of the fields before it, wherever
/// it stands: a visible field adds its own section, a hidden one adds
/// nothing.
pub proof fn lemma_render_fields_push(fields: Seq<PreviewField>, f: PreviewField)
    ensures
        spec_render_fields(fields.push(f)) == spec_render_fields(fields) + if f.hidden {
            Seq::<char>::empty()
        } else {
            spec_render_field(f.slug@, f.name@, f.kind, f.value, opt_owned(f.rich))
        },
{
    assert(fields.push(f).drop_last() =~= fields);
    if f.hidden {
        assert(spec_render_fields(fields) + Seq::<char>::empty() =~= spec_render_fields(fields));
    }
}

/// The sections of two runs of fields are those of the first run followed
/// by those of the second.
pub proof fn lemma_render_fields_concat(a: Seq<PreviewField>, b: Seq<PreviewField>)
    ensures
        spec_render_fields(a + b) == spec_render_fields(a) + spec_render_fields(b),
    decreases b.len(),
{
    if b.len() == 0 {
        assert(a + b =~= a);
        assert(spec_render_fields(a) + spec_render_fields(b) =~= spec_render_fields(a));
    } else {
        lemma_render_fields_concat(a, b.drop_last());
        assert((a + b).drop_last() =~= a + b.drop_last());
        assert((a + b).last() == b.last());
        let f = b.last();
        if !f.hidden {
            let sec = spec_render_field(f.slug@, f.name@, f.kind, f.value, opt_owned(f.rich));
            assert(spec_render_fields(a) + spec_render_fields(b.drop_last()) + sec
                =~= spec_render_fields(a) + (spec_render_fields(b.drop_last()) + sec));
        }
    }
}

/// A single visible field renders as its own section; a single hidden one
/// renders as nothing.
pub proof fn lemma_render_single_field(f: PreviewField)
    ensures
        spec_render_fields(seq![f]) == if f.hidden {
            Seq::<char>::empty()
        } else {
            spec_render_field(f.slug@, f.name@, f.kind, f.value, opt_owned(f.rich))
        },
{
    lemma_render_fields_push(Seq::<PreviewField>::empty(), f);
    assert(Seq::<PreviewField>::empty().push(f) =~= seq![f]);
    assert(spec_render_fields(Seq::<PreviewField>::empty()) =~= Seq::<char>::empty());
}

/// Escaped text never contains a raw `<`, `>`, `"` or `'`, so it cannot
/// open or close a tag or an attribute value.
pub proof fn lemma_escape_html_is_inert(s: Seq<char>)
    ensures
        forall|i: int|
            0 <= i < spec_escape_html(s).len() ==> {
                let c = #[trigger] spec_escape_html(s)[i];
                c != '<' && c != '>' && c != '"' && c != '\''
            },
    decreases s.len(),
{
    if s.len() > 0 {
        lemma_escape_html_is_inert(s.drop_last());
        let prev = spec_escape_html(s.drop_last());
        let tail = escape_char(s.last());
        assert(spec_escape_html(s) == prev + tail);
        assert forall|i: int| 0 <= i < spec_escape_html(s).len() implies {
            let c = #[trigger] spec_escape_html(s)[i];
            c != '<' && c != '>' && c != '"' && c != '\''
        } by {
            if i < prev.len() {
                assert(spec_escape_html(s)[i] == prev[i]);
            } else {
                assert(spec_escape_html(s)[i] == tail[i - prev.len()]);
            }
        }
    }
}

/// Text without special characters is left unchanged by escaping.
pub proof fn lemma_escape_html_identity_on_plain(s: Seq<char>)
    requires
        forall|i: int|
            0 <= i < s.len() ==> {
                let c = #[trigger] s[i];
                c != '<' && c != '>' && c != '&' && c != '"' && c != '\''
            },
    ensures
        spec_escape_html(s) == s,
    decreases s.len(),
{
    if s.len() > 0 {
        assert(s.last() == s[s.len() - 1]);
        lemma_escape_html_identity_on_plain(s.drop_last());
        assert(s.drop_last().push(s.last()) =~= s);
    }
}

/// Escaping a concatenation escapes each part.
pub proof fn lemma_escape_html_concat(a: Seq<char>, b: Seq<char>)
    ensures
        spec_escape_html(a + b) == spec_escape_html(a) + spec_escape_html(b),
    decreases b.len(),
{
    if b.len() == 0 {
        assert(a + b =~= a);
        assert(spec_escape_html(a) + spec_escape_html(b) =~= spec_escape_html(a));
    } else {
        assert((a + b).drop_last() =~= a + b.drop_last());
        assert((a + b).last() == b.last());
        lemma_escape_html_concat(a, b.drop_last());
        assert(spec_escape_html(a) + spec_escape_html(b.drop_last()) + escape_char(b.last())
            =~= spec_escape_html(a) + (spec_escape_html(b.drop_last()) + escape_char(b.last())));
    }
}

/// Whether one of the five entities escaping writes starts at position `i`
/// of `s`.
pub open spec fn entity_at(s: Seq<char>, i: int) -> bool {
    let rest = s.skip(i);
    ||| seq!['&', 'l', 't', ';'].is_prefix_of(rest)
    ||| seq!['&', 'g', 't', ';'].is_prefix_of(rest)
    ||| seq!['&', 'a', 'm', 'p', ';'].is_prefix_of(rest)
    ||| seq!['&', 'q', 'u', 'o', 't', ';'].is_prefix_of(rest)
    ||| seq!['&', '#', '3', '9', ';'].is_prefix_of(rest)
}

proof fn lemma_prefix_extends(p: Seq<char>, x: Seq<char>, y: Seq<char>)
    requires
        p.is_prefix_of(x),
    ensures
        p.is_prefix_of(x + y),
{
}

/// Every `&` in escaped text starts one of the five entities, so escaped
/// text never holds a stray `&`.
pub proof fn lemma_escape_html_ampersands(s: Seq<char>)
    ensures
        forall|i: int|
            0 <= i < spec_escape_html(s).len() && #[trigger] spec_escape_html(s)[i] == '&'
                ==> entity_at(spec_escape_html(s), i),
    decreases s.len(),
{
    if s.len() > 0 {
        lemma_escape_html_ampersands(s.drop_last());
        let prev = spec_escape_html(s.drop_last());
        let tail = escape_char(s.last());
        let out = spec_escape_html(s);
        assert(out == prev + tail);
        assert forall|i: int| 0 <= i < out.len() && #[trigger] out[i] == '&' implies entity_at(
            out,
            i,
        ) by {
            if i < prev.len() {
                assert(out[i] == prev[i]);
                assert(entity_at(prev, i));
                assert(out.skip(i) =~= prev.skip(i) + tail);
                let r = prev.skip(i);
                if seq!['&', 'l', 't', ';'].is_prefix_of(r) {
                    lemma_prefix_extends(seq!['&', 'l', 't', ';'], r, tail);
                } else if seq!['&', 'g', 't', ';'].is_prefix_of(r) {
                    lemma_prefix_extends(seq!['&', 'g', 't', ';'], r, tail);
                } else if seq!['&', 'a', 'm', 'p', ';'].is_prefix_of(r) {
                    lemma_prefix_extends(seq!['&', 'a', 'm', 'p', ';'], r, tail);
                } else if seq!['&', 'q', 'u', 'o', 't', ';'].is_prefix_of(r) {
                    lemma_prefix_extends(seq!['&', 'q', 'u', 'o', 't', ';'], r, tail);
                } else {
                    lemma_prefix_extends(seq!['&', '#', '3', '9', ';'], r, tail);
                }
            } else {
                let k = i - prev.len();
                assert(out[i] == tail[k]);
                assert(k == 0);
                assert(out.skip(i) =~= tail);
            }
        }
    }
}

} // verus!
