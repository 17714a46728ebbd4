//! The OpenAPI description of the REST surface, held as plain values: its
//! paths and operations, component schemas and tags. Its laws: every
//! schema reference resolves, every `{param}` of a path is declared by each
//! of its operations, every tag is declared, and every mutating operation
//! but the login exchange needs a bearer token.

use vstd::prelude::*;
use vstd::string::*;

verus! {

/// An HTTP method of an operation.
#[derive(Clone, Copy, Debug, PartialEq, Eq, Structural)]
pub enum DocMethod {
    Get,
    Post,
    Patch,
    Delete,
}

/// One `/`-separated segment of a path.
#[derive(Clone, Copy, Debug)]
pub enum DocSegment {
    /// Literal text.
    Lit(&'static str),
    /// A `{name}` path parameter.
    Param(&'static str),
}

/// The successful answer of an operation.
#[derive(Clone, Copy, Debug)]
pub enum DocResponse {
    /// `200`, a plain-text string.
    Text,
    /// `200`, JSON of the named schema.
    Json(&'static str),
    /// `200`, a JSON array of the named schema.
    JsonArray(&'static str),
    /// `200` without content.
    NoContent,
}

/// One operation of a path.
#[derive(Debug)]
pub struct DocOperation {
    pub method: DocMethod,
    pub tag: &'static str,
    pub summary: &'static str,
    /// The path parameters, in order.
    pub path_params: Vec<&'static str>,
    /// The schema of the required JSON request body, if any.
    pub request_ref: Option<&'static str>,
    pub response: DocResponse,
    /// Whether the operation needs a bearer token.
    pub bearer: bool,
}

/// A path and its operations.
#[derive(Debug)]
pub struct DocPath {
    pub segments: Vec<DocSegment>,
    pub operations: Vec<DocOperation>,
}

/// The type of a schema property.
#[derive(Clone, Copy, Debug)]
pub enum FieldType {
    Str,
    /// A string holding a ULID.
    Ulid,
    /// An RFC 3339 date-time string.
    DateTime,
    Bool,
    Int,
    /// A free-form object.
    Opaque,
    /// An array of strings.
    StrArray,
    /// An array of ULID strings.
    UlidArray,
    /// The named schema.
    Ref(&'static str),
    /// An array of the named schema.
    RefArray(&'static str),
}

/// A property of a component schema.
#[derive(Debug)]
pub struct DocProperty {
    pub name: &'static str,
    pub ty: FieldType,
    pub description: Option<&'static str>,
    pub required: bool,
}

/// A component schema: an object with named properties.
#[derive(Debug)]
pub struct DocSchema {
    pub name: &'static str,
    pub description: Option<&'static str>,
    pub properties: Vec<DocProperty>,
}

/// A tag grouping operations.
#[derive(Debug)]
pub struct DocTag {
    pub name: &'static str,
    pub description: &'static str,
}

/// The whole description.
#[derive(Debug)]
pub struct ApiDocModel {
    pub title: &'static str,
    pub version: &'static str,
    pub description: &'static str,
    pub paths: Vec<DocPath>,
    pub schemas: Vec<DocSchema>,
    pub tags: Vec<DocTag>,
}

// ---------------------------------------------------------------------------
// Specification
// ---------------------------------------------------------------------------

/// A path segment as text.
pub enum SegmentView {
    Lit(Seq<char>),
    Param(Seq<char>),
}

pub open spec fn segment_view(s: DocSegment) -> SegmentView {
    match s {
        DocSegment::Lit(t) => SegmentView::Lit(t@),
        DocSegment::Param(n) => SegmentView::Param(n@),
    }
}

pub open spec fn segments_view(s: Seq<DocSegment>) -> Seq<SegmentView> {
    s.map_values(|x: DocSegment| segment_view(x))
}

/// The login exchange, `/api/v1/auth/login`.
pub open spec fn login_route() -> Seq<SegmentView> {
    seq![
        SegmentView::Lit("api"@),
        SegmentView::Lit("v1"@),
        SegmentView::Lit("auth"@),
        SegmentView::Lit("login"@),
    ]
}

/// The text of a path: each segment after a `/`, parameters in braces.
pub open spec fn spec_path_text(s: Seq<DocSegment>) -> Seq<char>
    decreases s.len(),
{
    if s.len() == 0 {
        seq![]
    } else {
        spec_path_text(s.drop_last()) + "/"@ + match s.last() {
            DocSegment::Lit(t) => t@,
            DocSegment::Param(n) => "{"@ + n@ + "}"@,
        }
    }
}

/// The parameters of a path, in order.
pub open spec fn segment_params(s: Seq<DocSegment>) -> Seq<Seq<char>>
    decreases s.len(),
{
    if s.len() == 0 {
        seq![]
    } else {
        let prev = segment_params(s.drop_last());
        match s.last() {
            DocSegment::Param(n) => prev.push(n@),
            DocSegment::Lit(_) => prev,
        }
    }
}

/// The path parameters an operation declares.
pub open spec fn op_params(op: DocOperation) -> Seq<Seq<char>> {
    op.path_params@.map_values(|p: &'static str| p@)
}

pub open spec fn opt_view(o: Option<&'static str>) -> Option<Seq<char>> {
    match o {
        Some(t) => Some(t@),
        None => None,
    }
}

/// The schema a response refers to.
pub open spec fn response_ref(r: DocResponse) -> Option<Seq<char>> {
    match r {
        DocResponse::Json(n) => Some(n@),
        DocResponse::JsonArray(n) => Some(n@),
        _ => None,
    }
}

/// The schema a property refers to.
pub open spec fn field_ref(t: FieldType) -> Option<Seq<char>> {
    match t {
        FieldType::Ref(n) => Some(n@),
        FieldType::RefArray(n) => Some(n@),
        _ => None,
    }
}

/// The component schemas the description defines.
pub open spec fn is_schema_name(n: Seq<char>) -> bool {
    ||| n == "LoginBody"@
    ||| n == "LoginResponse"@
    ||| n == "MfaChallenge"@
    ||| n == "Content"@
    ||| n == "ContentPatch"@
    ||| n == "ContentType"@
    ||| n == "FieldDef"@
    ||| n == "Page"@
    ||| n == "Site"@
    ||| n == "User"@
    ||| n == "Role"@
    ||| n == "Media"@
    ||| n == "ContentVersion"@
    ||| n == "CsrfTokenResponse"@
    ||| n == "TypeUpdateResponse"@
    ||| n == "PluginInfo"@
    ||| n == "PluginGrantBody"@
    ||| n == "PluginEnabledBody"@
}

/// The tags the description declares.
pub open spec fn is_tag_name(n: Seq<char>) -> bool {
    ||| n == "auth"@
    ||| n == "content"@
    ||| n == "types"@
    ||| n == "meta"@
    ||| n == "plugins"@
}

/// An operation of the path with segments `segs` that keeps the laws.
pub open spec fn op_ok(op: DocOperation, segs: Seq<DocSegment>) -> bool {
    &&& op_params(op) == segment_params(segs)
    &&& is_tag_name(op.tag@)
    &&& (opt_view(op.request_ref) matches Some(r) ==> is_schema_name(r))
    &&& (response_ref(op.response) matches Some(r) ==> is_schema_name(r))
    &&& (op.method != DocMethod::Get && !op.bearer ==> segments_view(segs) == login_route())
}

/// The methods of a path's operations, in order.
pub open spec fn methods_of(p: DocPath) -> Seq<DocMethod> {
    p.operations@.map_values(|o: DocOperation| o.method)
}

pub open spec fn path_ok(p: DocPath) -> bool {
    &&& forall|j: int| 0 <= j < p.operations@.len() ==> op_ok(#[trigger] p.operations@[j], p.segments@)
    &&& methods_of(p).no_duplicates()
}

pub open spec fn paths_ok(s: Seq<DocPath>) -> bool {
    forall|i: int| 0 <= i < s.len() ==> path_ok(#[trigger] s[i])
}

pub open spec fn props_ok(s: Seq<DocProperty>) -> bool {
    forall|k: int| 0 <= k < s.len() ==> (field_ref((#[trigger] s[k]).ty) matches Some(r)
        ==> is_schema_name(r))
}

pub open spec fn schemas_ok(s: Seq<DocSchema>) -> bool {
    forall|k: int| 0 <= k < s.len() ==> props_ok((#[trigger] s[k]).properties@)
}

/// Whether the description defines a schema named `n`.
pub open spec fn names_schema(m: ApiDocModel, n: Seq<char>) -> bool {
    exists|k: int| 0 <= k < m.schemas@.len() && #[trigger] m.schemas@[k].name@ == n
}

/// Whether the description declares a tag named `n`.
pub open spec fn names_tag(m: ApiDocModel, n: Seq<char>) -> bool {
    exists|k: int| 0 <= k < m.tags@.len() && #[trigger] m.tags@[k].name@ == n
}

/// Every schema an operation or a property refers to is defined.
pub open spec fn refs_resolve(m: ApiDocModel) -> bool {
    &&& forall|i: int, j: int|
        0 <= i < m.paths@.len() && 0 <= j < m.paths@[i].operations@.len() ==> {
            let op = #[trigger] m.paths@[i].operations@[j];
            &&& (opt_view(op.request_ref) matches Some(r) ==> names_schema(m, r))
            &&& (response_ref(op.response) matches Some(r) ==> names_schema(m, r))
        }
    &&& forall|k: int, q: int|
        0 <= k < m.schemas@.len() && 0 <= q < m.schemas@[k].properties@.len() ==> (field_ref(
            (#[trigger] m.schemas@[k].properties@[q]).ty,
        ) matches Some(r) ==> names_schema(m, r))
}

/// Each operation declares exactly the `{param}` segments of its path, in
/// order.
pub open spec fn path_params_declared(m: ApiDocModel) -> bool {
    forall|i: int, j: int|
        0 <= i < m.paths@.len() && 0 <= j < m.paths@[i].operations@.len() ==> op_params(
            #[trigger] m.paths@[i].operations@[j],
        ) == segment_params(m.paths@[i].segments@)
}

/// Every `POST`, `PATCH` and `DELETE` needs a bearer token, except the
/// login exchange that issues one.
pub open spec fn mutations_need_bearer(m: ApiDocModel) -> bool {
    forall|i: int, j: int|
        0 <= i < m.paths@.len() && 0 <= j < m.paths@[i].operations@.len() && (
        #[trigger] m.paths@[i].operations@[j]).method != DocMethod::Get ==> m.paths@[i].operations@[j].bearer
            || segments_view(m.paths@[i].segments@) == login_route()
}

/// No path has two operations with the same method.
pub open spec fn methods_distinct(m: ApiDocModel) -> bool {
    forall|i: int, j: int, k: int|
        0 <= i < m.paths@.len() && 0 <= j < m.paths@[i].operations@.len() && 0 <= k
            < m.paths@[i].operations@.len() && j != k ==> (#[trigger] m.paths@[i].operations@[j]).method
            != (#[trigger] m.paths@[i].operations@[k]).method
}

/// The methods each path answers, in the order of the paths: the REST
/// router's routes.
pub open spec fn route_methods() -> Seq<Seq<DocMethod>> {
    seq![
        seq![DocMethod::Get],
        seq![DocMethod::Get],
        seq![DocMethod::Get],
        seq![DocMethod::Post],
        seq![DocMethod::Post],
        seq![DocMethod::Get],
        seq![DocMethod::Get],
        seq![DocMethod::Get, DocMethod::Post],
        seq![DocMethod::Get, DocMethod::Patch, DocMethod::Delete],
        seq![DocMethod::Post],
        seq![DocMethod::Get, DocMethod::Post],
        seq![DocMethod::Get, DocMethod::Patch, DocMethod::Delete],
        seq![DocMethod::Get],
        seq![DocMethod::Get],
        seq![DocMethod::Post],
        seq![DocMethod::Post],
        seq![DocMethod::Post],
    ]
}

/// The REST router's paths, in order, segment by segment.
pub open spec fn route_segments() -> Seq<Seq<SegmentView>> {
    seq![
        seq![SegmentView::Lit("healthz"@)],
        seq![SegmentView::Lit("readyz"@)],
        seq![SegmentView::Lit("api"@), SegmentView::Lit("v1"@), SegmentView::Lit("auth"@), SegmentView::Lit("csrf"@)],
        seq![SegmentView::Lit("api"@), SegmentView::Lit("v1"@), SegmentView::Lit("auth"@), SegmentView::Lit("login"@)],
        seq![SegmentView::Lit("api"@), SegmentView::Lit("v1"@), SegmentView::Lit("auth"@), SegmentView::Lit("logout"@)],
        seq![SegmentView::Lit("api"@), SegmentView::Lit("v1"@), SegmentView::Lit("auth"@), SegmentView::Lit("me"@)],
        seq![SegmentView::Lit("api"@), SegmentView::Lit("v1"@), SegmentView::Lit("sites"@)],
        seq![SegmentView::Lit("api"@), SegmentView::Lit("v1"@), SegmentView::Lit("content"@), SegmentView::Param("type_slug"@)],
        seq![SegmentView::Lit("api"@), SegmentView::Lit("v1"@), SegmentView::Lit("content"@), SegmentView::Param("type_slug"@), SegmentView::Param("slug"@)],
        seq![SegmentView::Lit("api"@), SegmentView::Lit("v1"@), SegmentView::Lit("content"@), SegmentView::Param("type_slug"@), SegmentView::Param("slug"@), SegmentView::Lit("publish"@)],
        seq![SegmentView::Lit("api"@), SegmentView::Lit("v1"@), SegmentView::Lit("types"@)],
        seq![SegmentView::Lit("api"@), SegmentView::Lit("v1"@), SegmentView::Lit("types"@), SegmentView::Param("slug"@)],
        seq![SegmentView::Lit("api"@), SegmentView::Lit("v1"@), SegmentView::Lit("plugins"@)],
        seq![SegmentView::Lit("api"@), SegmentView::Lit("v1"@), SegmentView::Lit("plugins"@), SegmentView::Param("name"@)],
        seq![SegmentView::Lit("api"@), SegmentView::Lit("v1"@), SegmentView::Lit("plugins"@), SegmentView::Param("name"@), SegmentView::Lit("grant"@)],
        seq![SegmentView::Lit("api"@), SegmentView::Lit("v1"@), SegmentView::Lit("plugins"@), SegmentView::Param("name"@), SegmentView::Lit("reload"@)],
        seq![SegmentView::Lit("api"@), SegmentView::Lit("v1"@), SegmentView::Lit("plugins"@), SegmentView::Param("name"@), SegmentView::Lit("enabled"@)],
    ]
}

/// Every operation's tag is declared.
pub open spec fn tags_declared(m: ApiDocModel) -> bool {
    forall|i: int, j: int|
        0 <= i < m.paths@.len() && 0 <= j < m.paths@[i].operations@.len() ==> names_tag(
            m,
            (#[trigger] m.paths@[i].operations@[j]).tag@,
        )
}

// ---------------------------------------------------------------------------
// Construction
// ---------------------------------------------------------------------------

/// The parameters of a path, in order.
pub fn params_of(segs: &[DocSegment]) -> (res: Vec<&'static str>)
    ensures
        res@.map_values(|p: &'static str| p@) == segment_params(segs@),
{
    let mut out: Vec<&'static str> = Vec::new();
    let mut i: usize = 0;
    while i < segs.len()
        invariant
            0 <= i <= segs@.len(),
            out@.map_values(|p: &'static str| p@) == segment_params(segs@.take(i as int)),
        decreases segs@.len() - i,
    {
        assert(segs@.take(i + 1).drop_last() =~= segs@.take(i as int));
        assert(segs@.take(i + 1).last() == segs@[i as int]);
        let ghost before = out@;
        match segs[i] {
            DocSegment::Param(n) => {
                out.push(n);
                assert(out@.map_values(|p: &'static str| p@) =~= before.map_values(
                    |p: &'static str| p@,
                ).push(n@));
            },
            DocSegment::Lit(_) => {},
        }
        i += 1;
    }
    assert(segs@.take(segs@.len() as int) =~= segs@);
    out
}

/// The text of a path, such as `/api/v1/types/{slug}`.
pub fn path_text(segs: &[DocSegment]) -> (res: String)
    ensures
        res@ == spec_path_text(segs@),
{
    let mut out = String::new();
    let mut i: usize = 0;
    while i < segs.len()
        invariant
            0 <= i <= segs@.len(),
            out@ == spec_path_text(segs@.take(i as int)),
        decreases segs@.len() - i,
    {
        assert(segs@.take(i + 1).drop_last() =~= segs@.take(i as int));
        assert(segs@.take(i + 1).last() == segs@[i as int]);
        out.append("/");
        match segs[i] {
            DocSegment::Lit(t) => out.append(t),
            DocSegment::Param(n) => {
                out.append("{");
                out.append(n);
                out.append("}");
            },
        }
        i += 1;
    }
    assert(segs@.take(segs@.len() as int) =~= segs@);
    out
}

fn operation(
    method: DocMethod,
    tag: &'static str,
    summary: &'static str,
    segs: &[DocSegment],
    request_ref: Option<&'static str>,
    response: DocResponse,
    bearer: bool,
) -> (res: DocOperation)
    requires
        is_tag_name(tag@),
        opt_view(request_ref) matches Some(r) ==> is_schema_name(r),
        response_ref(response) matches Some(r) ==> is_schema_name(r),
        method != DocMethod::Get && !bearer ==> segments_view(segs@) == login_route(),
    ensures
        op_ok(res, segs@),
        res.method == method && res.tag == tag && res.summary == summary && res.request_ref
            == request_ref && res.response == response && res.bearer == bearer,
{
    let path_params = params_of(segs);
    DocOperation { method, tag, summary, path_params, request_ref, response, bearer }
}

fn doc_path(segments: Vec<DocSegment>, operations: Vec<DocOperation>) -> (res: DocPath)
    requires
        forall|j: int| 0 <= j < operations@.len() ==> op_ok(#[trigger] operations@[j], segments@),
        operations@.map_values(|o: DocOperation| o.method).no_duplicates(),
    ensures
        path_ok(res),
        res.segments@ == segments@,
        res.operations@ == operations@,
{
    DocPath { segments, operations }
}

fn push_path(paths: &mut Vec<DocPath>, p: DocPath)
    requires
        paths_ok(old(paths)@),
        path_ok(p),
    ensures
        paths_ok(final(paths)@),
        final(paths)@ == old(paths)@.push(p),
{
    paths.push(p);
}

fn prop(name: &'static str, ty: FieldType, description: Option<&'static str>, required: bool) -> (res:
    DocProperty)
    requires
        field_ref(ty) matches Some(r) ==> is_schema_name(r),
    ensures
        res == (DocProperty { name, ty, description, required }),
        field_ref(res.ty) matches Some(r) ==> is_schema_name(r),
{
    DocProperty { name, ty, description, required }
}

fn push_prop(props: &mut Vec<DocProperty>, p: DocProperty)
    requires
        props_ok(old(props)@),
        field_ref(p.ty) matches Some(r) ==> is_schema_name(r),
    ensures
        props_ok(final(props)@),
        final(props)@ == old(props)@.push(p),
{
    props.push(p);
}

fn push_schema(
    schemas: &mut Vec<DocSchema>,
    name: &'static str,
    description: Option<&'static str>,
    properties: Vec<DocProperty>,
)
    requires
        schemas_ok(old(schemas)@),
        props_ok(properties@),
    ensures
        schemas_ok(final(schemas)@),
        final(schemas)@.len() == old(schemas)@.len() + 1,
        forall|k: int| 0 <= k < old(schemas)@.len() ==> final(schemas)@[k] == old(schemas)@[k],
        final(schemas)@.last().name == name,
{
    schemas.push(DocSchema { name, description, properties });
}

fn lit(t: &'static str) -> (res: DocSegment)
    ensures
        res == DocSegment::Lit(t),
{
    DocSegment::Lit(t)
}

fn param(n: &'static str) -> (res: DocSegment)
    ensures
        res == DocSegment::Param(n),
{
    DocSegment::Param(n)
}

/// The component schemas, in the order the description lists them.
fn schemas() -> (res: Vec<DocSchema>)
    ensures
        schemas_ok(res@),
        res@.len() == 18,
        res@[0].name@ == "LoginBody"@,
        res@[1].name@ == "LoginResponse"@,
        res@[2].name@ == "MfaChallenge"@,
        res@[3].name@ == "Content"@,
        res@[4].name@ == "ContentPatch"@,
        res@[5].name@ == "ContentType"@,
        res@[6].name@ == "FieldDef"@,
        res@[7].name@ == "Page"@,
        res@[8].name@ == "Site"@,
        res@[9].name@ == "User"@,
        res@[10].name@ == "Role"@,
        res@[11].name@ == "Media"@,
        res@[12].name@ == "ContentVersion"@,
        res@[13].name@ == "CsrfTokenResponse"@,
        res@[14].name@ == "TypeUpdateResponse"@,
        res@[15].name@ == "PluginInfo"@,
        res@[16].name@ == "PluginGrantBody"@,
        res@[17].name@ == "PluginEnabledBody"@,
{
    let mut out: Vec<DocSchema> = Vec::new();
    let data = "Field-keyed object of FieldValue.";

    let mut p = Vec::new();
    push_prop(&mut p, prop("email", FieldType::Str, None, true));
    push_prop(&mut p, prop("password", FieldType::Str, None, true));
    push_schema(&mut out, "LoginBody", None, p);

    let mut p = Vec::new();
    push_prop(&mut p, prop("token", FieldType::Str, Some("Short-lived JWT."), true));
    push_prop(
        &mut p,
        prop("refresh_token", FieldType::Str, Some("Long-lived opaque refresh token."), true),
    );
    push_prop(&mut p, prop("user", FieldType::Ref("User"), None, true));
    push_schema(&mut out, "LoginResponse", None, p);

    let mut p = Vec::new();
    push_prop(&mut p, prop("mfa_required", FieldType::Bool, None, true));
    push_prop(&mut p, prop("mfa_token", FieldType::Str, None, true));
    push_schema(&mut out, "MfaChallenge", None, p);

    let mut p = Vec::new();
    push_prop(&mut p, prop("id", FieldType::Ulid, None, true));
    push_prop(&mut p, prop("site_id", FieldType::Ulid, None, true));
    push_prop(&mut p, prop("type_id", FieldType::Ulid, None, true));
    push_prop(&mut p, prop("slug", FieldType::Str, None, true));
    push_prop(&mut p, prop("locale", FieldType::Str, None, true));
    push_prop(&mut p, prop("status", FieldType::Str, Some("draft | published | archived"), true));
    push_prop(&mut p, prop("data", FieldType::Opaque, Some(data), true));
    push_prop(&mut p, prop("author_id", FieldType::Ulid, None, false));
    push_prop(&mut p, prop("created_at", FieldType::DateTime, None, true));
    push_prop(&mut p, prop("updated_at", FieldType::DateTime, None, true));
    push_prop(&mut p, prop("published_at", FieldType::DateTime, None, false));
    push_schema(&mut out, "Content", None, p);

    let mut p = Vec::new();
    push_prop(&mut p, prop("slug", FieldType::Str, None, false));
    push_prop(&mut p, prop("status", FieldType::Str, None, false));
    push_prop(&mut p, prop("data", FieldType::Opaque, Some(data), false));
    push_schema(
        &mut out,
        "ContentPatch",
        Some("Partial update — every field is optional and applies only when present."),
        p,
    );

    let mut p = Vec::new();
    push_prop(&mut p, prop("id", FieldType::Ulid, None, true));
    push_prop(&mut p, prop("site_id", FieldType::Ulid, None, true));
    push_prop(&mut p, prop("slug", FieldType::Str, None, true));
    push_prop(&mut p, prop("name", FieldType::Str, None, true));
    push_prop(&mut p, prop("description", FieldType::Str, None, false));
    push_prop(&mut p, prop("fields", FieldType::RefArray("FieldDef"), None, false));
    push_prop(&mut p, prop("singleton", FieldType::Bool, None, false));
    push_prop(&mut p, prop("title_field", FieldType::Str, None, false));
    push_prop(&mut p, prop("slug_field", FieldType::Str, None, false));
    push_prop(&mut p, prop("created_at", FieldType::DateTime, None, true));
    push_prop(&mut p, prop("updated_at", FieldType::DateTime, None, true));
    push_schema(&mut out, "ContentType", None, p);

    let mut p = Vec::new();
    push_prop(&mut p, prop("id", FieldType::Ulid, None, true));
    push_prop(&mut p, prop("slug", FieldType::Str, None, true));
    push_prop(&mut p, prop("name", FieldType::Str, None, true));
    push_prop(&mut p, prop("help", FieldType::Str, None, false));
    push_prop(
        &mut p,
        prop(
            "kind",
            FieldType::Opaque,
            Some(
                "Tagged union: text/rich_text/number/boolean/date/date_time/enum/reference/media/json/slug",
            ),
            true,
        ),
    );
    push_prop(&mut p, prop("required", FieldType::Bool, None, false));
    push_prop(&mut p, prop("localized", FieldType::Bool, None, false));
    push_prop(&mut p, prop("unique", FieldType::Bool, None, false));
    push_prop(&mut p, prop("hidden", FieldType::Bool, None, false));
    push_schema(&mut out, "FieldDef", None, p);

    let mut p = Vec::new();
    push_prop(
        &mut p,
        prop("items", FieldType::Opaque, Some("Backend-typed list elements (varies per endpoint)."), true),
    );
    push_prop(&mut p, prop("total", FieldType::Int, None, true));
    push_prop(&mut p, prop("page", FieldType::Int, None, true));
    push_prop(&mut p, prop("per_page", FieldType::Int, None, true));
    push_schema(&mut out, "Page", Some("Paginated list envelope."), p);

    let mut p = Vec::new();
    push_prop(&mut p, prop("id", FieldType::Ulid, None, true));
    push_prop(&mut p, prop("slug", FieldType::Str, None, true));
    push_prop(&mut p, prop("name", FieldType::Str, None, true));
    push_prop(&mut p, prop("description", FieldType::Str, Some("Optional."), false));
    push_prop(&mut p, prop("primary_url", FieldType::Str, Some("Optional URL."), false));
    push_prop(&mut p, prop("locales", FieldType::StrArray, None, false));
    push_prop(&mut p, prop("default_locale", FieldType::Str, None, true));
    push_prop(&mut p, prop("settings", FieldType::Opaque, Some("Free-form site settings"), false));
    push_prop(&mut p, prop("created_at", FieldType::DateTime, None, true));
    push_prop(&mut p, prop("updated_at", FieldType::DateTime, None, true));
    push_schema(&mut out, "Site", None, p);

    let mut p = Vec::new();
    push_prop(&mut p, prop("id", FieldType::Ulid, None, true));
    push_prop(&mut p, prop("email", FieldType::Str, None, true));
    push_prop(&mut p, prop("handle", FieldType::Str, None, true));
    push_prop(&mut p, prop("display_name", FieldType::Str, None, false));
    push_prop(&mut p, prop("roles", FieldType::UlidArray, None, false));
    push_prop(&mut p, prop("active", FieldType::Bool, None, true));
    push_prop(&mut p, prop("created_at", FieldType::DateTime, None, true));
    push_prop(&mut p, prop("last_login", FieldType::DateTime, None, false));
    push_prop(&mut p, prop("password_changed_at", FieldType::DateTime, None, false));
    push_schema(&mut out, "User", None, p);

    let mut p = Vec::new();
    push_prop(&mut p, prop("id", FieldType::Ulid, None, true));
    push_prop(&mut p, prop("name", FieldType::Str, None, true));
    push_prop(&mut p, prop("description", FieldType::Str, None, false));
    push_prop(
        &mut p,
        prop(
            "permissions",
            FieldType::Opaque,
            Some("Tagged union of Read/Write/Publish/ManageUsers/ManageSchema/Admin."),
            true,
        ),
    );
    push_schema(&mut out, "Role", None, p);

    let mut p = Vec::new();
    push_prop(&mut p, prop("id", FieldType::Ulid, None, true));
    push_prop(&mut p, prop("site_id", FieldType::Ulid, None, true));
    push_prop(&mut p, prop("key", FieldType::Str, None, true));
    push_prop(&mut p, prop("filename", FieldType::Str, None, true));
    push_prop(&mut p, prop("mime", FieldType::Str, None, true));
    push_prop(&mut p, prop("size", FieldType::Int, None, true));
    push_prop(&mut p, prop("width", FieldType::Int, None, false));
    push_prop(&mut p, prop("height", FieldType::Int, None, false));
    push_prop(&mut p, prop("alt", FieldType::Str, None, false));
    push_prop(
        &mut p,
        prop("kind", FieldType::Str, Some("image|video|audio|document|other"), true),
    );
    push_prop(&mut p, prop("uploaded_by", FieldType::Ulid, None, false));
    push_prop(&mut p, prop("created_at", FieldType::DateTime, None, true));
    push_schema(&mut out, "Media", None, p);

    let mut p = Vec::new();
    push_prop(&mut p, prop("id", FieldType::Ulid, None, true));
    push_prop(&mut p, prop("content_id", FieldType::Ulid, None, true));
    push_prop(&mut p, prop("site_id", FieldType::Ulid, None, false));
    push_prop(&mut p, prop("type_id", FieldType::Ulid, None, false));
    push_prop(&mut p, prop("slug", FieldType::Str, None, false));
    push_prop(&mut p, prop("locale", FieldType::Str, None, false));
    push_prop(&mut p, prop("status", FieldType::Str, None, false));
    push_prop(&mut p, prop("data", FieldType::Opaque, Some("Field-keyed snapshot."), false));
    push_prop(&mut p, prop("author_id", FieldType::Ulid, None, false));
    push_prop(&mut p, prop("captured_at", FieldType::DateTime, None, true));
    push_prop(&mut p, prop("parent_version", FieldType::Ulid, None, false));
    push_schema(&mut out, "ContentVersion", None, p);

    let mut p = Vec::new();
    push_prop(
        &mut p,
        prop(
            "token",
            FieldType::Str,
            Some("Hex token; mirror in the X-CSRF-Token header on mutating calls."),
            true,
        ),
    );
    push_schema(&mut out, "CsrfTokenResponse", None, p);

    let mut p = Vec::new();
    push_prop(&mut p, prop("type", FieldType::Ref("ContentType"), None, true));
    push_prop(
        &mut p,
        prop("rows_migrated", FieldType::Int, Some("Number of rows the schema migrator rewrote."), true),
    );
    push_prop(&mut p, prop("changes", FieldType::Opaque, Some("FieldChange[]"), true));
    push_schema(&mut out, "TypeUpdateResponse", None, p);

    let mut p = Vec::new();
    push_prop(&mut p, prop("name", FieldType::Str, None, true));
    push_prop(&mut p, prop("version", FieldType::Str, None, true));
    push_prop(&mut p, prop("description", FieldType::Str, None, false));
    push_prop(&mut p, prop("declared", FieldType::StrArray, None, true));
    push_prop(&mut p, prop("granted", FieldType::StrArray, None, true));
    push_prop(&mut p, prop("hooks", FieldType::StrArray, None, true));
    push_prop(&mut p, prop("enabled", FieldType::Bool, None, true));
    push_schema(&mut out, "PluginInfo", None, p);

    let mut p = Vec::new();
    push_prop(&mut p, prop("capabilities", FieldType::StrArray, None, true));
    push_schema(&mut out, "PluginGrantBody", None, p);

    let mut p = Vec::new();
    push_prop(&mut p, prop("enabled", FieldType::Bool, None, true));
    push_schema(&mut out, "PluginEnabledBody", None, p);

    out
}

/// The tags, in the order the description lists them.
fn tags() -> (res: Vec<DocTag>)
    ensures
        res@.len() == 5,
        res@[0].name@ == "auth"@,
        res@[1].name@ == "content"@,
        res@[2].name@ == "types"@,
        res@[3].name@ == "meta"@,
        res@[4].name@ == "plugins"@,
{
    vec![
        DocTag { name: "auth", description: "Login, logout, session introspection." },
        DocTag { name: "content", description: "CRUD over content entries." },
        DocTag { name: "types", description: "Content-type schema management + migration." },
        DocTag { name: "meta", description: "Health and readiness probes." },
        DocTag {
            name: "plugins",
            description: "WASM plugin host: list, inspect, grant capabilities, enable/disable, reload.",
        },
    ]
}

/// The paths, in the order the description lists them.
fn paths() -> (res: Vec<DocPath>)
    ensures
        paths_ok(res@),
        res@.len() == 17,
        forall|i: int| 0 <= i < 17 ==> methods_of(#[trigger] res@[i]) == route_methods()[i],
        forall|i: int| 0 <= i < 17 ==> segments_view((#[trigger] res@[i]).segments@)
            == route_segments()[i],
{
    let mut out: Vec<DocPath> = Vec::new();

    let s = vec![lit("healthz")];
    let o = vec![operation(DocMethod::Get, "meta", "Liveness probe.", &s, None, DocResponse::Text, false)];
    push_path(&mut out, doc_path(s, o));

    let s = vec![lit("readyz")];
    let o = vec![
        operation(DocMethod::Get, "meta", "Readiness probe (checks storage).", &s, None, DocResponse::Text, false),
    ];
    push_path(&mut out, doc_path(s, o));

    let s = vec![lit("api"), lit("v1"), lit("auth"), lit("csrf")];
    let o = vec![
        operation(
            DocMethod::Get,
            "auth",
            "Mint a CSRF double-submit token. Sets the `ferro_csrf` cookie and returns the same value as JSON for SPAs to mirror in the `X-CSRF-Token` header on mutating calls.",
            &s,
            None,
            DocResponse::Json("CsrfTokenResponse"),
            false,
        ),
    ];
    push_path(&mut out, doc_path(s, o));

    let s = vec![lit("api"), lit("v1"), lit("auth"), lit("login")];
    assert(segments_view(s@) =~= login_route());
    let o = vec![
        operation(
            DocMethod::Post,
            "auth",
            "Exchange email+password for a short-lived bearer JWT.",
            &s,
            Some("LoginBody"),
            DocResponse::Json("LoginResponse"),
            false,
        ),
    ];
    push_path(&mut out, doc_path(s, o));

    let s = vec![lit("api"), lit("v1"), lit("auth"), lit("logout")];
    let o = vec![operation(DocMethod::Post, "auth", "Logout.", &s, None, DocResponse::NoContent, true)];
    push_path(&mut out, doc_path(s, o));

    let s = vec![lit("api"), lit("v1"), lit("auth"), lit("me")];
    let o = vec![operation(DocMethod::Get, "auth", "Current user.", &s, None, DocResponse::Json("User"), true)];
    push_path(&mut out, doc_path(s, o));

    let s = vec![lit("api"), lit("v1"), lit("sites")];
    let o = vec![
        operation(DocMethod::Get, "content", "List sites.", &s, None, DocResponse::JsonArray("Site"), false),
    ];
    push_path(&mut out, doc_path(s, o));

    let s = vec![lit("api"), lit("v1"), lit("content"), param("type_slug")];
    let o = vec![
        operation(
            DocMethod::Get,
            "content",
            "List content entries for a type.",
            &s,
            None,
            DocResponse::Json("Page"),
            false,
        ),
        operation(
            DocMethod::Post,
            "content",
            "Create a content entry.",
            &s,
            Some("Content"),
            DocResponse::Json("Content"),
            true,
        ),
    ];
    push_path(&mut out, doc_path(s, o));

    let s = vec![lit("api"), lit("v1"), lit("content"), param("type_slug"), param("slug")];
    let o = vec![
        operation(DocMethod::Get, "content", "Get a content entry.", &s, None, DocResponse::Json("Content"), false),
        operation(
            DocMethod::Patch,
            "content",
            "Patch a content entry.",
            &s,
            Some("ContentPatch"),
            DocResponse::Json("Content"),
            true,
        ),
        operation(DocMethod::Delete, "content", "Delete a content entry.", &s, None, DocResponse::NoContent, true),
    ];
    push_path(&mut out, doc_path(s, o));

    let s = vec![
        lit("api"),
        lit("v1"),
        lit("content"),
        param("type_slug"),
        param("slug"),
        lit("publish"),
    ];
    let o = vec![
        operation(
            DocMethod::Post,
            "content",
            "Publish a content entry.",
            &s,
            None,
            DocResponse::Json("Content"),
            true,
        ),
    ];
    push_path(&mut out, doc_path(s, o));

    let s = vec![lit("api"), lit("v1"), lit("types")];
    let o = vec![
        operation(
            DocMethod::Get,
            "types",
            "List content types for the active site.",
            &s,
            None,
            DocResponse::JsonArray("ContentType"),
            false,
        ),
        operation(
            DocMethod::Post,
            "types",
            "Create a content type.",
            &s,
            Some("ContentType"),
            DocResponse::Json("ContentType"),
            true,
        ),
    ];
    push_path(&mut out, doc_path(s, o));

    let s = vec![lit("api"), lit("v1"), lit("types"), param("slug")];
    let o = vec![
        operation(DocMethod::Get, "types", "Get a content type.", &s, None, DocResponse::Json("ContentType"), false),
        operation(
            DocMethod::Patch,
            "types",
            "Update a content type and migrate existing content data.",
            &s,
            Some("ContentType"),
            DocResponse::Json("TypeUpdateResponse"),
            true,
        ),
        operation(DocMethod::Delete, "types", "Delete a content type.", &s, None, DocResponse::NoContent, true),
    ];
    push_path(&mut out, doc_path(s, o));

    let s = vec![lit("api"), lit("v1"), lit("plugins")];
    let o = vec![
        operation(
            DocMethod::Get,
            "plugins",
            "List installed WASM plugins (requires `manage_plugins`).",
            &s,
            None,
            DocResponse::JsonArray("PluginInfo"),
            true,
        ),
    ];
    push_path(&mut out, doc_path(s, o));

    let s = vec![lit("api"), lit("v1"), lit("plugins"), param("name")];
    let o = vec![
        operation(
            DocMethod::Get,
            "plugins",
            "Inspect a single plugin.",
            &s,
            None,
            DocResponse::Json("PluginInfo"),
            true,
        ),
    ];
    push_path(&mut out, doc_path(s, o));

    let s = vec![lit("api"), lit("v1"), lit("plugins"), param("name"), lit("grant")];
    let o = vec![
        operation(
            DocMethod::Post,
            "plugins",
            "Update granted capabilities (in-memory only — persist via ferro.toml `[[plugins.grants]]` to survive restart). Triggers a reload of the affected plugin.",
            &s,
            Some("PluginGrantBody"),
            DocResponse::Json("PluginInfo"),
            true,
        ),
    ];
    push_path(&mut out, doc_path(s, o));

    let s = vec![lit("api"), lit("v1"), lit("plugins"), param("name"), lit("reload")];
    let o = vec![
        operation(
            DocMethod::Post,
            "plugins",
            "Re-scan the plugin directory and reload all plugins. (Path `name` is currently unused; full reload is the only supported mode.)",
            &s,
            None,
            DocResponse::NoContent,
            true,
        ),
    ];
    push_path(&mut out, doc_path(s, o));

    let s = vec![lit("api"), lit("v1"), lit("plugins"), param("name"), lit("enabled")];
    let o = vec![
        operation(
            DocMethod::Post,
            "plugins",
            "Enable or disable a plugin's hook dispatch without unloading it.",
            &s,
            Some("PluginEnabledBody"),
            DocResponse::Json("PluginInfo"),
            true,
        ),
    ];
    push_path(&mut out, doc_path(s, o));

    out
}

/// The OpenAPI description of the REST surface. Every schema reference
/// resolves, every path parameter is declared by each operation of its
/// path, every tag is declared, and only the login exchange mutates
/// without a bearer token.
pub fn api_doc_model() -> (res: ApiDocModel)
    ensures
        refs_resolve(res),
        path_params_declared(res),
        mutations_need_bearer(res),
        tags_declared(res),
        methods_distinct(res),
        forall|i: int| 0 <= i < 17 ==> methods_of(#[trigger] res.paths@[i]) == route_methods()[i],
        forall|i: int| 0 <= i < 17 ==> segments_view((#[trigger] res.paths@[i]).segments@)
            == route_segments()[i],
        res.paths@.len() == 17,
        res.schemas@.len() == 18,
        res.tags@.len() == 5,
{
    let paths = paths();
    let schemas = schemas();
    let tags = tags();
    let res = ApiDocModel {
        title: "Ferro API",
        version: "0.1.0",
        description: "Ferro headless CMS — REST surface. GraphQL lives at /graphql.",
        paths,
        schemas,
        tags,
    };
    assert forall|n: Seq<char>| is_schema_name(n) implies names_schema(res, n) by {
        let s = res.schemas@;
        if n == "LoginBody"@ { assert(s[0].name@ == n); }
        else if n == "LoginResponse"@ { assert(s[1].name@ == n); }
        else if n == "MfaChallenge"@ { assert(s[2].name@ == n); }
        else if n == "Content"@ { assert(s[3].name@ == n); }
        else if n == "ContentPatch"@ { assert(s[4].name@ == n); }
        else if n == "ContentType"@ { assert(s[5].name@ == n); }
        else if n == "FieldDef"@ { assert(s[6].name@ == n); }
        else if n == "Page"@ { assert(s[7].name@ == n); }
        else if n == "Site"@ { assert(s[8].name@ == n); }
        else if n == "User"@ { assert(s[9].name@ == n); }
        else if n == "Role"@ { assert(s[10].name@ == n); }
        else if n == "Media"@ { assert(s[11].name@ == n); }
        else if n == "ContentVersion"@ { assert(s[12].name@ == n); }
        else if n == "CsrfTokenResponse"@ { assert(s[13].name@ == n); }
        else if n == "TypeUpdateResponse"@ { assert(s[14].name@ == n); }
        else if n == "PluginInfo"@ { assert(s[15].name@ == n); }
        else if n == "PluginGrantBody"@ { assert(s[16].name@ == n); }
        else { assert(s[17].name@ == n); }
    }
    assert forall|n: Seq<char>| is_tag_name(n) implies names_tag(res, n) by {
        let t = res.tags@;
        if n == "auth"@ { assert(t[0].name@ == n); }
        else if n == "content"@ { assert(t[1].name@ == n); }
        else if n == "types"@ { assert(t[2].name@ == n); }
        else if n == "meta"@ { assert(t[3].name@ == n); }
        else { assert(t[4].name@ == n); }
    }
    assert forall|i: int, j: int|
        0 <= i < res.paths@.len() && 0 <= j < res.paths@[i].operations@.len() implies op_ok(
        #[trigger] res.paths@[i].operations@[j],
        res.paths@[i].segments@,
    ) by {
        assert(path_ok(res.paths@[i]));
    }
    assert forall|i: int, j: int, k: int|
        0 <= i < res.paths@.len() && 0 <= j < res.paths@[i].operations@.len() && 0 <= k
            < res.paths@[i].operations@.len() && j != k implies (
    #[trigger] res.paths@[i].operations@[j]).method != (
    #[trigger] res.paths@[i].operations@[k]).method by {
        assert(path_ok(res.paths@[i]));
        assert(methods_of(res.paths@[i])[j] == res.paths@[i].operations@[j].method);
        assert(methods_of(res.paths@[i])[k] == res.paths@[i].operations@[k].method);
    }
    res
}

} // verus!
