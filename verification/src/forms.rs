//! The admin editors' form logic: what the content, user, role and schema
//! editors send when saving, the validation messages they show, and the
//! round trip between stored permissions and the roles editor's flags.
//! Rendering the forms and sending the requests is the browser's job.

use vstd::prelude::*;
use vstd::string::*;
use crate::admin::{flag_action, flag_is_scoped, opt_text, str_eq, PermFields, PermFlag};
use crate::primitives::random_bytes;
use crate::text::{chars_of, push_char, trim, trim_bounds};
use crate::totp::{digit, digit_char};

verus! {

/// The text of an optional `String`.
pub open spec fn opt_string(s: Option<String>) -> Option<Seq<char>> {
    match s {
        Some(v) => Some(v@),
        None => None,
    }
}

/// Whether `s` is empty once whitespace is trimmed.
pub fn is_blank(s: &str) -> (res: bool)
    ensures
        res == (trim(s@).len() == 0),
{
    let cs = chars_of(s);
    let (a, b) = trim_bounds(cs.as_slice(), 0, cs.len());
    assert(cs@.subrange(0, cs@.len() as int) =~= cs@);
    a == b
}

// ---------------------------------------------------------------------------
// Content editor
// ---------------------------------------------------------------------------

/// Body of a save of an existing entry.
#[derive(Debug)]
pub struct ContentPatch {
    /// The new slug, sent only when it changes.
    pub slug: Option<String>,
    /// The field data, as JSON text.
    pub data: String,
}

/// The patch sent when an existing entry is saved: the slug field is sent
/// only when it is non-empty and differs from the current slug.
pub fn content_save_body(slug: &str, new_slug: &str, data: String) -> (res: ContentPatch)
    ensures
        opt_string(res.slug) == (if new_slug@.len() > 0 && new_slug@ != slug@ {
            Some(new_slug@)
        } else {
            None
        }),
        res.data == data,
{
    let changed = !new_slug.is_empty() && !str_eq(new_slug, slug);
    let s = if changed {
        Some(new_slug.to_owned())
    } else {
        None
    };
    ContentPatch { slug: s, data }
}

/// A content type as the content editor knows it.
#[derive(Debug)]
pub struct TypeRef {
    pub id: String,
    pub slug: String,
    pub default_locale: Option<String>,
}

/// Body of the creation of a new entry.
#[derive(Debug)]
pub struct NewEntryBody {
    pub type_id: String,
    pub slug: String,
    pub locale: String,
    /// The field data, as JSON text.
    pub data: String,
}

/// The first type with slug `slug`, if any.
pub open spec fn find_type(types: Seq<TypeRef>, slug: Seq<char>) -> Option<TypeRef>
    decreases types.len(),
{
    if types.len() == 0 {
        None
    } else if types[0].slug@ == slug {
        Some(types[0])
    } else {
        find_type(types.drop_first(), slug)
    }
}

/// The body sent when a new entry of type `type_slug` is created: the
/// type's id and default locale (`en` when it has none); an unknown type
/// is refused with `Unknown content type`.
pub fn new_entry_body(types: &[TypeRef], type_slug: &str, new_slug: &str, data: String) -> (res:
    Result<NewEntryBody, String>)
    ensures
        match find_type(types@, type_slug@) {
            None => res matches Err(m) && m@ == "Unknown content type"@,
            Some(t) => res matches Ok(b) && b.type_id@ == t.id@ && b.slug@ == new_slug@
                && b.locale@ == match t.default_locale {
                Some(l) => l@,
                None => "en"@,
            } && b.data == data,
        },
{
    let mut k: usize = 0;
    assert(types@.skip(0) =~= types@);
    while k < types.len()
        invariant
            0 <= k <= types@.len(),
            find_type(types@, type_slug@) == find_type(types@.skip(k as int), type_slug@),
        decreases types@.len() - k,
    {
        assert(types@.skip(k as int).drop_first() =~= types@.skip(k + 1));
        assert(types@.skip(k as int)[0] == types@[k as int]);
        if str_eq(types[k].slug.as_str(), type_slug) {
            let t = &types[k];
            let locale = match &t.default_locale {
                Some(l) => l.clone(),
                None => "en".to_owned(),
            };
            return Ok(
                NewEntryBody { type_id: t.id.clone(), slug: new_slug.to_owned(), locale, data },
            );
        }
        k += 1;
    }
    Err("Unknown content type".to_owned())
}

// ---------------------------------------------------------------------------
// User editor
// ---------------------------------------------------------------------------

/// The user editor's fields. An empty `id` means a new user.
#[derive(Debug)]
pub struct UserForm {
    pub id: String,
    pub email: String,
    pub handle: String,
    pub display_name: String,
    pub password: String,
    pub roles: Vec<String>,
    pub active: bool,
}

/// What the user editor sends: a creation when `create`, otherwise an
/// update of the user `id`.
#[derive(Debug)]
pub struct UserBody {
    pub create: bool,
    pub id: String,
    pub email: String,
    pub handle: String,
    /// `None` is sent as `null`.
    pub display_name: Option<String>,
    /// `None` keeps the existing password.
    pub password: Option<String>,
    pub roles: Vec<String>,
    pub active: bool,
}

/// Validates and shapes a user save: email and handle are required (not
/// blank); a blank display name is sent as none; the password is sent only
/// when non-empty.
pub fn user_save(form: UserForm) -> (res: Result<UserBody, String>)
    ensures
        trim(form.email@).len() == 0 || trim(form.handle@).len() == 0 ==> (res matches Err(m)
            && m@ == "Email and handle are required."@),
        trim(form.email@).len() > 0 && trim(form.handle@).len() > 0 ==> (res matches Ok(b) && b.create
            == (form.id@.len() == 0) && b.id == form.id && b.email == form.email && b.handle
            == form.handle && b.display_name == (if trim(form.display_name@).len() == 0 {
            None
        } else {
            Some(form.display_name)
        }) && b.password == (if form.password@.len() == 0 {
            None
        } else {
            Some(form.password)
        }) && b.roles == form.roles && b.active == form.active),
{
    if is_blank(form.email.as_str()) || is_blank(form.handle.as_str()) {
        return Err("Email and handle are required.".to_owned());
    }
    let create = form.id.as_str().is_empty();
    let display_name = if is_blank(form.display_name.as_str()) {
        None
    } else {
        Some(form.display_name)
    };
    let password = if form.password.as_str().is_empty() {
        None
    } else {
        Some(form.password)
    };
    Ok(
        UserBody {
            create,
            id: form.id,
            email: form.email,
            handle: form.handle,
            display_name,
            password,
            roles: form.roles,
            active: form.active,
        },
    )
}

// ---------------------------------------------------------------------------
// Roles editor
// ---------------------------------------------------------------------------

/// The editor's flags, in the order the editor lists them.
pub open spec fn spec_all_flags() -> Seq<PermFlag> {
    seq![
        PermFlag::ReadGlobal,
        PermFlag::WriteGlobal,
        PermFlag::PublishGlobal,
        PermFlag::ManageUsers,
        PermFlag::ManageSchema,
        PermFlag::ManagePlugins,
        PermFlag::Admin,
    ]
}

/// The editor's flags, in the order the editor lists them.
pub fn all_flags() -> (res: Vec<PermFlag>)
    ensures
        res@ == spec_all_flags(),
{
    let v: Vec<PermFlag> = vec![
        PermFlag::ReadGlobal,
        PermFlag::WriteGlobal,
        PermFlag::PublishGlobal,
        PermFlag::ManageUsers,
        PermFlag::ManageSchema,
        PermFlag::ManagePlugins,
        PermFlag::Admin,
    ];
    assert(v@ =~= spec_all_flags());
    v
}

/// Whether a stored permission is the flag `f`.
pub open spec fn flag_matches(f: PermFlag, p: PermFields) -> bool {
    opt_string(p.action) == Some(flag_action(f)) && (flag_is_scoped(f) ==> opt_string(p.scope)
        == Some("global"@))
}

/// Whether some stored permission is the flag `f`.
pub open spec fn any_matches(perms: Seq<PermFields>, f: PermFlag) -> bool {
    exists|i: int| 0 <= i < perms.len() && flag_matches(f, #[trigger] perms[i])
}

fn as_str_opt(s: &Option<String>) -> (res: Option<&str>)
    ensures
        opt_text(res) == opt_string(*s),
{
    match s {
        Some(v) => Some(v.as_str()),
        None => None,
    }
}

fn some_perm_matches(perms: &[PermFields], f: PermFlag) -> (res: bool)
    ensures
        res == any_matches(perms@, f),
{
    let mut i: usize = 0;
    while i < perms.len()
        invariant
            0 <= i <= perms@.len(),
            forall|k: int| 0 <= k < i ==> !flag_matches(f, #[trigger] perms@[k]),
        decreases perms@.len() - i,
    {
        let p = &perms[i];
        if f.matches(as_str_opt(&p.action), as_str_opt(&p.scope)) {
            assert(flag_matches(f, perms@[i as int]));
            return true;
        }
        i += 1;
    }
    false
}

/// Filtering keeps a list free of duplicates.
proof fn lemma_filter_no_duplicates(s: Seq<PermFlag>, p: spec_fn(PermFlag) -> bool)
    requires
        s.no_duplicates(),
    ensures
        s.filter(p).no_duplicates(),
    decreases s.len(),
{
    reveal(Seq::filter);
    if s.len() > 0 {
        let rest = s.drop_last();
        assert(rest.no_duplicates());
        lemma_filter_no_duplicates(rest, p);
        if p(s.last()) {
            if rest.filter(p).contains(s.last()) {
                rest.lemma_filter_contains_rev(p, s.last());
                let k = choose|k: int| 0 <= k < rest.len() && rest[k] == s.last();
                assert(s[k] == s[s.len() - 1]);
            }
            let f = rest.filter(p);
            assert(f.push(s.last()).no_duplicates()) by {
                assert forall|i: int, j: int|
                    0 <= i < f.push(s.last()).len() && 0 <= j < f.push(s.last()).len() && i != j
                        implies f.push(s.last())[i] != f.push(s.last())[j] by {
                    if i == f.len() {
                        assert(f.contains(f[j]));
                    } else if j == f.len() {
                        assert(f.contains(f[i]));
                    }
                }
            }
        }
    }
}

/// The editor lists each flag once.
proof fn lemma_all_flags_distinct()
    ensures
        spec_all_flags().no_duplicates(),
{
}

/// The flags the editor shows as set for a role: every flag, in the
/// editor's order, that some stored permission is.
pub fn flags_of_permissions(perms: &[PermFields]) -> (res: Vec<PermFlag>)
    ensures
        res@ == spec_all_flags().filter(|f: PermFlag| any_matches(perms@, f)),
        res@.no_duplicates(),
{
    proof {
        lemma_all_flags_distinct();
        lemma_filter_no_duplicates(spec_all_flags(), |f: PermFlag| any_matches(perms@, f));
    }
    let all = all_flags();
    let ghost pred = |f: PermFlag| any_matches(perms@, f);
    let mut out: Vec<PermFlag> = Vec::new();
    let mut i: usize = 0;
    assert(all@.take(0).filter(pred) =~= Seq::<PermFlag>::empty()) by {
        reveal(Seq::filter);
    }
    while i < all.len()
        invariant
            0 <= i <= all@.len(),
            all@ == spec_all_flags(),
            pred == (|f: PermFlag| any_matches(perms@, f)),
            out@ == all@.take(i as int).filter(pred),
        decreases all@.len() - i,
    {
        let f = all[i];
        assert(all@.take(i + 1).drop_last() =~= all@.take(i as int));
        assert(all@.take(i + 1).last() == f);
        reveal(Seq::filter);
        if some_perm_matches(perms, f) {
            out.push(f);
        }
        i += 1;
    }
    assert(all@.take(all@.len() as int) =~= all@);
    out
}

/// The permission fields (`action`, `scope`) a flag stands for.
pub open spec fn flag_fields(f: PermFlag) -> (Seq<char>, Option<Seq<char>>) {
    (flag_action(f), if flag_is_scoped(f) {
        Some("global"@)
    } else {
        None
    })
}

/// The stored permissions of a role whose flags are `flags`: each flag's
/// fields, in the order of `flags`.
pub fn permissions_of_flags(flags: &[PermFlag]) -> (res: Vec<(&'static str, Option<&'static str>)>)
    ensures
        res@.len() == flags@.len(),
        forall|i: int|
            0 <= i < flags@.len() ==> (#[trigger] res@[i]).0@ == flag_fields(flags@[i]).0 && opt_text(
                res@[i].1,
            ) == flag_fields(flags@[i]).1,
{
    let mut out: Vec<(&'static str, Option<&'static str>)> = Vec::new();
    let mut i: usize = 0;
    while i < flags.len()
        invariant
            0 <= i <= flags@.len(),
            out@.len() == i,
            forall|k: int|
                0 <= k < i ==> (#[trigger] out@[k]).0@ == flag_fields(flags@[k]).0 && opt_text(
                    out@[k].1,
                ) == flag_fields(flags@[k]).1,
        decreases flags@.len() - i,
    {
        out.push(flags[i].to_fields());
        i += 1;
    }
    out
}

/// The editor's flags after a checkbox change: `flag` is removed, and
/// appended at the end when switched on.
pub fn toggle_flag(flags: Vec<PermFlag>, flag: PermFlag, on: bool) -> (res: Vec<PermFlag>)
    ensures
        res@ == flags@.filter(|f: PermFlag| f != flag) + if on {
            seq![flag]
        } else {
            Seq::<PermFlag>::empty()
        },
        flags@.no_duplicates() ==> res@.no_duplicates(),
{
    let ghost pred = |f: PermFlag| f != flag;
    proof {
        if flags@.no_duplicates() {
            lemma_filter_no_duplicates(flags@, pred);
        }
    }
    let mut out: Vec<PermFlag> = Vec::new();
    let mut i: usize = 0;
    assert(flags@.take(0).filter(pred) =~= Seq::<PermFlag>::empty()) by {
        reveal(Seq::filter);
    }
    while i < flags.len()
        invariant
            0 <= i <= flags@.len(),
            pred == (|f: PermFlag| f != flag),
            out@ == flags@.take(i as int).filter(pred),
        decreases flags@.len() - i,
    {
        let f = flags[i];
        assert(flags@.take(i + 1).drop_last() =~= flags@.take(i as int));
        assert(flags@.take(i + 1).last() == f);
        reveal(Seq::filter);
        if f != flag {
            out.push(f);
        }
        i += 1;
    }
    assert(flags@.take(flags@.len() as int) =~= flags@);
    let ghost kept = out@;
    if on {
        out.push(flag);
    }
    assert(out@ =~= kept + if on {
        seq![flag]
    } else {
        Seq::<PermFlag>::empty()
    });
    proof {
        if flags@.no_duplicates() && on {
            assert(!kept.contains(flag)) by {
                if kept.contains(flag) {
                    let k = choose|k: int| 0 <= k < kept.len() && kept[k] == flag;
                    flags@.lemma_filter_pred(pred, k);
                }
            }
            assert forall|i: int, j: int|
                0 <= i < out@.len() && 0 <= j < out@.len() && i != j implies out@[i] != out@[j] by {
                if i == kept.len() {
                    assert(kept.contains(kept[j]));
                } else if j == kept.len() {
                    assert(kept.contains(kept[i]));
                }
            }
        }
    }
    out
}

/// Different flags grant different actions.
pub proof fn lemma_flag_action_injective(f: PermFlag, g: PermFlag)
    ensures
        flag_action(f) == flag_action(g) <==> f == g,
{
    reveal_strlit("read");
    reveal_strlit("write");
    reveal_strlit("publish");
    reveal_strlit("manage_users");
    reveal_strlit("manage_schema");
    reveal_strlit("manage_plugins");
    reveal_strlit("admin");
    if flag_action(f) == flag_action(g) {
        assert(flag_action(f).len() == flag_action(g).len());
        assert(flag_action(f)[0] == flag_action(g)[0]);
    }
}

/// Round trip of the roles editor: a role saved with the flags `flags`
/// stores the permissions `perms` (each flag's fields, in order), and
/// reading those permissions back sets exactly the flags that were in
/// `flags`, in the editor's order and each once.
pub proof fn lemma_flags_round_trip(flags: Seq<PermFlag>, perms: Seq<PermFields>)
    requires
        perms.len() == flags.len(),
        forall|i: int|
            0 <= i < flags.len() ==> opt_string((#[trigger] perms[i]).action) == Some(
                flag_fields(flags[i]).0,
            ) && opt_string(perms[i].scope) == flag_fields(flags[i]).1,
    ensures
        spec_all_flags().filter(|f: PermFlag| any_matches(perms, f)) == spec_all_flags().filter(
            |f: PermFlag| flags.contains(f),
        ),
{
    let p1 = |f: PermFlag| any_matches(perms, f);
    let p2 = |f: PermFlag| flags.contains(f);
    assert forall|f: PermFlag| #[trigger] p1(f) == p2(f) by {
        if any_matches(perms, f) {
            let i = choose|i: int| 0 <= i < perms.len() && flag_matches(f, #[trigger] perms[i]);
            lemma_flag_action_injective(f, flags[i]);
            assert(flags[i] == f);
        }
        if flags.contains(f) {
            let i = choose|i: int| 0 <= i < flags.len() && flags[i] == f;
            assert(flag_matches(f, perms[i]));
        }
    }
    assert(p1 =~= p2);
}

/// What the roles editor sends.
#[derive(Debug)]
pub struct RoleBody {
    pub name: String,
    /// `None` is sent as `null`.
    pub description: Option<String>,
    /// The permissions, as (`action`, `scope`) fields.
    pub permissions: Vec<(&'static str, Option<&'static str>)>,
}

/// Validates and shapes a role save: the name is required (not blank); a
/// blank description is sent as none; the permissions are those of the
/// flags, in their order.
pub fn role_save(name: String, description: String, flags: &[PermFlag]) -> (res: Result<
    RoleBody,
    String,
>)
    ensures
        trim(name@).len() == 0 ==> (res matches Err(m) && m@ == "Name is required."@),
        trim(name@).len() > 0 ==> (res matches Ok(b) && b.name == name && b.description == (if trim(
            description@,
        ).len() == 0 {
            None
        } else {
            Some(description)
        }) && b.permissions@.len() == flags@.len() && forall|i: int|
            0 <= i < flags@.len() ==> (#[trigger] b.permissions@[i]).0@ == flag_fields(flags@[i]).0
                && opt_text(b.permissions@[i].1) == flag_fields(flags@[i]).1),
{
    if is_blank(name.as_str()) {
        return Err("Name is required.".to_owned());
    }
    let description = if is_blank(description.as_str()) {
        None
    } else {
        Some(description)
    };
    Ok(RoleBody { name, description, permissions: permissions_of_flags(flags) })
}

// ---------------------------------------------------------------------------
// Schema editor
// ---------------------------------------------------------------------------

/// Kinds of field the schema editor's "add field" presets create.
#[derive(Clone, Copy, Debug, PartialEq, Eq, Structural)]
pub enum FieldPreset {
    /// `{"type": "text", "multiline": false}`
    Text,
    /// `{"type": "rich_text", "format": "markdown"}`
    RichTextMarkdown,
    /// `{"type": "number", "int": false}`
    Number,
    /// `{"type": "boolean"}`
    Boolean,
    /// `{"type": "date"}`
    Date,
    /// `{"type": "text"}`, for any other preset name.
    PlainText,
}

/// The preset a preset name selects.
pub open spec fn spec_field_preset(kind: Seq<char>) -> FieldPreset {
    if kind == "text"@ {
        FieldPreset::Text
    } else if kind == "richtext"@ {
        FieldPreset::RichTextMarkdown
    } else if kind == "number"@ {
        FieldPreset::Number
    } else if kind == "boolean"@ {
        FieldPreset::Boolean
    } else if kind == "date"@ {
        FieldPreset::Date
    } else {
        FieldPreset::PlainText
    }
}

/// The preset a preset name selects.
pub fn field_preset(kind: &str) -> (res: FieldPreset)
    ensures
        res == spec_field_preset(kind@),
{
    if str_eq(kind, "text") {
        FieldPreset::Text
    } else if str_eq(kind, "richtext") {
        FieldPreset::RichTextMarkdown
    } else if str_eq(kind, "number") {
        FieldPreset::Number
    } else if str_eq(kind, "boolean") {
        FieldPreset::Boolean
    } else if str_eq(kind, "date") {
        FieldPreset::Date
    } else {
        FieldPreset::PlainText
    }
}

/// A field added by a preset: not required, localized, unique or hidden.
#[derive(Debug)]
pub struct FieldSpec {
    pub id: String,
    pub slug: String,
    pub name: String,
    pub kind: FieldPreset,
    pub required: bool,
    pub localized: bool,
    pub unique: bool,
    pub hidden: bool,
}

/// Adds a preset field to the schema being edited (`fields` is `None`
/// when the edited fields text is not valid): slug and name are required,
/// then the fields must be valid; the new field, with identifier `id`, is
/// appended.
pub fn add_field(
    fields: Option<Vec<FieldSpec>>,
    kind: &str,
    slug: &str,
    name: &str,
    id: String,
) -> (res: Result<Vec<FieldSpec>, String>)
    ensures
        slug@.len() == 0 || name@.len() == 0 ==> (res matches Err(m) && m@
            == "Field slug + name required."@),
        slug@.len() > 0 && name@.len() > 0 && fields is None ==> (res matches Err(m) && m@
            == "Fields JSON invalid; fix it before adding."@),
        slug@.len() > 0 && name@.len() > 0 ==> (fields matches Some(old) ==> (res matches Ok(v) && v@.len()
            == old@.len() + 1 && v@.take(old@.len() as int) == old@ && v@.last().id == id
            && v@.last().slug@ == slug@ && v@.last().name@ == name@ && v@.last().kind
            == spec_field_preset(kind@) && !v@.last().required && !v@.last().localized
            && !v@.last().unique && !v@.last().hidden)),
{
    if slug.is_empty() || name.is_empty() {
        return Err("Field slug + name required.".to_owned());
    }
    let mut v = match fields {
        Some(v) => v,
        None => return Err("Fields JSON invalid; fix it before adding.".to_owned()),
    };
    let ghost old = v@;
    v.push(
        FieldSpec {
            id,
            slug: slug.to_owned(),
            name: name.to_owned(),
            kind: field_preset(kind),
            required: false,
            localized: false,
            unique: false,
            hidden: false,
        },
    );
    assert(v@.take(old.len() as int) =~= old);
    Ok(v)
}

/// A JSON value as the schema editor sends it.
#[derive(Debug)]
pub enum Json {
    Null,
    Str(String),
    /// Any other value, as JSON text.
    Raw(String),
}

/// A JSON value as text.
pub enum JsonView {
    Null,
    Str(Seq<char>),
    Raw(Seq<char>),
}

pub open spec fn json_view(j: Json) -> JsonView {
    match j {
        Json::Null => JsonView::Null,
        Json::Str(s) => JsonView::Str(s@),
        Json::Raw(s) => JsonView::Raw(s@),
    }
}

/// An object's members as a map: a later member with the same key wins.
pub open spec fn members_map(s: Seq<(String, Json)>) -> Map<Seq<char>, JsonView>
    decreases s.len(),
{
    if s.len() == 0 {
        Map::empty()
    } else {
        members_map(s.drop_last()).insert(s.last().0@, json_view(s.last().1))
    }
}

/// Appending members overrides earlier ones with the same key and keeps
/// the rest.
pub proof fn lemma_members_append(a: Seq<(String, Json)>, b: Seq<(String, Json)>)
    ensures
        members_map(a + b) == members_map(a).union_prefer_right(members_map(b)),
    decreases b.len(),
{
    if b.len() == 0 {
        assert(a + b =~= a);
        assert(members_map(a).union_prefer_right(members_map(b)) =~= members_map(a));
    } else {
        assert((a + b).drop_last() =~= a + b.drop_last());
        assert((a + b).last() == b.last());
        lemma_members_append(a, b.drop_last());
        assert(members_map(a + b) =~= members_map(a).union_prefer_right(members_map(b)));
    }
}

/// The content type as the schema editor loaded it.
#[derive(Debug)]
pub enum ExistingType {
    /// Nothing was loaded: an empty object is the base.
    Missing,
    /// An object, by its members.
    Object(Vec<(String, Json)>),
    /// Any other JSON value, as text; it is sent unchanged.
    Other(String),
}

/// What the schema editor sends when it saves.
#[derive(Debug)]
pub enum TypeSave {
    /// A new type: `POST /api/v1/types` with these members.
    Create(Vec<(String, Json)>),
    /// An existing type: `PATCH /api/v1/types/{slug}` with this object.
    UpdateObject(Vec<(String, Json)>),
    /// An existing type whose loaded value was not an object, sent as is.
    UpdateRaw(String),
}

/// A string member.
pub open spec fn str_member(k: Seq<char>, v: Seq<char>) -> (Seq<char>, JsonView) {
    (k, JsonView::Str(v))
}

/// The members a save sets: slug, name, description (`null` when empty),
/// the fields and the update time.
pub open spec fn spec_type_members(
    slug: Seq<char>,
    name: Seq<char>,
    description: Seq<char>,
    fields: Seq<char>,
    now: Seq<char>,
) -> Seq<(Seq<char>, JsonView)> {
    seq![
        str_member("slug"@, slug),
        str_member("name"@, name),
        ("description"@, if description.len() == 0 {
            JsonView::Null
        } else {
            JsonView::Str(description)
        }),
        ("fields"@, JsonView::Raw(fields)),
        str_member("updated_at"@, now),
    ]
}

/// The members of a new type's body.
pub open spec fn spec_new_type_members(
    id: Seq<char>,
    site_id: Seq<char>,
    slug: Seq<char>,
    name: Seq<char>,
    description: Seq<char>,
    fields: Seq<char>,
    now: Seq<char>,
) -> Seq<(Seq<char>, JsonView)> {
    seq![
        str_member("id"@, id),
        str_member("site_id"@, site_id),
        str_member("slug"@, slug),
        str_member("name"@, name),
        ("description"@, if description.len() == 0 {
            JsonView::Null
        } else {
            JsonView::Str(description)
        }),
        ("fields"@, JsonView::Raw(fields)),
        ("singleton"@, JsonView::Raw("false"@)),
        ("title_field"@, JsonView::Null),
        ("slug_field"@, JsonView::Null),
        str_member("created_at"@, now),
        str_member("updated_at"@, now),
    ]
}

/// Members as text.
pub open spec fn members_view(s: Seq<(String, Json)>) -> Seq<(Seq<char>, JsonView)> {
    s.map_values(|m: (String, Json)| (m.0@, json_view(m.1)))
}

fn member(k: &str, v: Json) -> (res: (String, Json))
    ensures
        res.0@ == k@,
        res.1 == v,
{
    (k.to_owned(), v)
}

fn description_json(description: String) -> (res: Json)
    ensures
        json_view(res) == if description@.len() == 0 {
            JsonView::Null
        } else {
            JsonView::Str(description@)
        },
{
    if description.as_str().is_empty() {
        Json::Null
    } else {
        Json::Str(description)
    }
}

/// The schema editor's save. `fields` is the edited fields text as a JSON
/// array, `None` when it does not parse (refused with `Fields JSON
/// invalid.`); `site_id` is the site of the first known type; `new_id` the
/// identifier of a new type; `now` the current time. A new type is created
/// with its members; an existing one gets slug, name, description (`null`
/// when empty), fields and update time set over the members it was loaded
/// with.
pub fn type_save(
    is_new: bool,
    fields: Option<String>,
    slug: String,
    name: String,
    description: String,
    now: String,
    site_id: Option<String>,
    new_id: String,
    existing: ExistingType,
) -> (res: Result<TypeSave, String>)
    ensures
        fields is None ==> (res matches Err(m) && m@ == "Fields JSON invalid."@),
        fields matches Some(f) ==> res matches Ok(body) && if is_new {
            body matches TypeSave::Create(ms) && members_view(ms@) == spec_new_type_members(
                new_id@,
                match site_id {
                    Some(s) => s@,
                    None => Seq::<char>::empty(),
                },
                slug@,
                name@,
                description@,
                f@,
                now@,
            )
        } else {
            match existing {
                ExistingType::Missing => body matches TypeSave::UpdateObject(ms) && members_view(ms@)
                    == spec_type_members(slug@, name@, description@, f@, now@),
                ExistingType::Object(base) => body matches TypeSave::UpdateObject(ms) && members_view(
                    ms@,
                ) == members_view(base@) + spec_type_members(slug@, name@, description@, f@, now@),
                ExistingType::Other(raw) => body matches TypeSave::UpdateRaw(r) && r@ == raw@,
            }
        },
{
    let fields = match fields {
        Some(f) => f,
        None => return Err("Fields JSON invalid.".to_owned()),
    };
    if is_new {
        let site = match site_id {
            Some(s) => s,
            None => String::new(),
        };
        let now2 = now.clone();
        let ms = vec![
            member("id", Json::Str(new_id)),
            member("site_id", Json::Str(site)),
            member("slug", Json::Str(slug)),
            member("name", Json::Str(name)),
            member("description", description_json(description)),
            member("fields", Json::Raw(fields)),
            member("singleton", Json::Raw("false".to_owned())),
            member("title_field", Json::Null),
            member("slug_field", Json::Null),
            member("created_at", Json::Str(now)),
            member("updated_at", Json::Str(now2)),
        ];
        assert(members_view(ms@) =~= spec_new_type_members(
            new_id@,
            match site_id {
                Some(s) => s@,
                None => Seq::<char>::empty(),
            },
            slug@,
            name@,
            description@,
            fields@,
            now@,
        ));
        return Ok(TypeSave::Create(ms));
    }
    let mut base = match existing {
        ExistingType::Missing => Vec::new(),
        ExistingType::Object(ms) => ms,
        ExistingType::Other(raw) => return Ok(TypeSave::UpdateRaw(raw)),
    };
    let ghost before = base@;
    let mut patch = vec![
        member("slug", Json::Str(slug)),
        member("name", Json::Str(name)),
        member("description", description_json(description)),
        member("fields", Json::Raw(fields)),
        member("updated_at", Json::Str(now)),
    ];
    let ghost patch_view = patch@;
    assert(members_view(patch_view) =~= spec_type_members(slug@, name@, description@, fields@, now@));
    base.append(&mut patch);
    assert(members_view(base@) =~= members_view(before) + members_view(patch_view));
    Ok(TypeSave::UpdateObject(base))
}

/// Decimal text of `n`.
pub open spec fn spec_decimal(n: u64) -> Seq<char>
    decreases n,
{
    if n < 10 {
        seq![digit_char(n as u32)]
    } else {
        spec_decimal(n / 10) + seq![digit_char((n % 10) as u32)]
    }
}

/// Appends the decimal text of `n`.
pub fn push_decimal(out: &mut String, n: u64)
    ensures
        final(out)@ == old(out)@ + spec_decimal(n),
    decreases n,
{
    if n >= 10 {
        push_decimal(out, n / 10);
    }
    push_char(out, digit((n % 10) as u32));
    assert(n < 10 ==> n % 10 == n);
}

/// The schema editor's confirmation after a save: a created type is
/// named; an updated one also says how many rows were migrated (`0` when
/// the answer does not say).
pub fn save_toast(created: bool, slug: &str, rows_migrated: Option<u64>) -> (res: String)
    ensures
        res@ == if created {
            "Created "@ + slug@ + "."@
        } else {
            "Saved "@ + slug@ + " · "@ + spec_decimal(
                match rows_migrated {
                    Some(n) => n,
                    None => 0,
                },
            ) + " row(s) migrated."@
        },
{
    let mut out = String::new();
    if created {
        out.append("Created ");
        out.append(slug);
        out.append(".");
    } else {
        let n = match rows_migrated {
            Some(n) => n,
            None => 0,
        };
        out.append("Saved ");
        out.append(slug);
        out.append(" · ");
        push_decimal(&mut out, n);
        out.append(" row(s) migrated.");
    }
    out
}

/// Crockford's base32 alphabet.
pub open spec fn crockford_alphabet() -> Seq<char> {
    seq![
        '0', '1', '2', '3', '4', '5', '6', '7', '8', '9', 'A', 'B', 'C', 'D', 'E', 'F', 'G',
        'H', 'J', 'K', 'M', 'N', 'P', 'Q', 'R', 'S', 'T', 'V', 'W', 'X', 'Y', 'Z',
    ]
}

/// A field id from 26 random bytes: each byte picks a letter of Crockford's
/// alphabet by its low five bits.
pub fn field_id_from(bytes: &[u8]) -> (res: String)
    requires
        bytes@.len() == 26,
    ensures
        res@.len() == 26,
        forall|i: int| 0 <= i < 26 ==> #[trigger] res@[i] == crockford_alphabet()[(bytes@[i] % 32) as int],
{
    let table: Vec<char> = vec![
        '0', '1', '2', '3', '4', '5', '6', '7', '8', '9', 'A', 'B', 'C', 'D', 'E', 'F', 'G',
        'H', 'J', 'K', 'M', 'N', 'P', 'Q', 'R', 'S', 'T', 'V', 'W', 'X', 'Y', 'Z',
    ];
    assert(table@ =~= crockford_alphabet());
    let mut out = String::new();
    let mut i: usize = 0;
    while i < 26
        invariant
            bytes@.len() == 26,
            table@ == crockford_alphabet(),
            0 <= i <= 26,
            out@.len() == i,
            forall|k: int| 0 <= k < i ==> #[trigger] out@[k] == crockford_alphabet()[(bytes@[k] % 32) as int],
        decreases 26 - i,
    {
        let ghost before = out@;
        push_char(&mut out, table[(bytes[i] % 32) as usize]);
        assert(forall|k: int| 0 <= k < i ==> out@[k] == before[k]);
        i += 1;
    }
    out
}

/// A fresh 26-character field id in Crockford's alphabet.
pub fn new_field_id() -> (res: String)
    ensures
        res@.len() == 26,
        forall|i: int| 0 <= i < 26 ==> crockford_alphabet().contains(#[trigger] res@[i]),
{
    let bytes = random_bytes(26);
    let id = field_id_from(bytes.as_slice());
    assert forall|i: int| 0 <= i < 26 implies crockford_alphabet().contains(#[trigger] id@[i]) by {
        assert(id@[i] == crockford_alphabet()[(bytes@[i] % 32) as int]);
    }
    id
}

/// The type found for a slug is the first one with that slug: a type whose
/// slug matches, with no match before it, is the one found.
pub proof fn lemma_find_type_first(types: Seq<TypeRef>, slug: Seq<char>, k: int)
    requires
        0 <= k < types.len(),
        types[k].slug@ == slug,
        forall|j: int| 0 <= j < k ==> (#[trigger] types[j]).slug@ != slug,
    ensures
        find_type(types, slug) == Some(types[k]),
    decreases k,
{
    if k > 0 {
        let rest = types.drop_first();
        assert forall|j: int| 0 <= j < k - 1 implies (#[trigger] rest[j]).slug@ != slug by {
            assert(rest[j] == types[j + 1]);
        }
        assert(rest[k - 1] == types[k]);
        lemma_find_type_first(rest, slug, k - 1);
    }
}

/// No type has the slug: nothing is found.
pub proof fn lemma_find_type_none(types: Seq<TypeRef>, slug: Seq<char>)
    requires
        forall|j: int| 0 <= j < types.len() ==> (#[trigger] types[j]).slug@ != slug,
    ensures
        find_type(types, slug) is None,
    decreases types.len(),
{
    if types.len() > 0 {
        let rest = types.drop_first();
        assert forall|j: int| 0 <= j < rest.len() implies (#[trigger] rest[j]).slug@ != slug by {
            assert(rest[j] == types[j + 1]);
        }
        lemma_find_type_none(rest, slug);
    }
}

/// The decimal text of `10 * n + d` (for `n > 0`, `d < 10`) is that of `n`
/// followed by the digit `d`; a single digit is itself.
pub proof fn lemma_decimal_digits(n: u64, d: u64)
    requires
        d < 10,
        10 * n + d <= u64::MAX,
    ensures
        n > 0 ==> spec_decimal((10 * n + d) as u64) == spec_decimal(n) + seq![digit_char(d as u32)],
        spec_decimal(d) == seq![digit_char(d as u32)],
{
    let m = (10 * n + d) as u64;
    assert(m / 10 == n && m % 10 == d) by (nonlinear_arith)
        requires
            m == 10 * n + d,
            d < 10,
    ;
}

/// Decimal text has no leading zero, unless it is `0` itself.
pub proof fn lemma_decimal_no_leading_zero(n: u64)
    ensures
        spec_decimal(n).len() >= 1,
        n > 0 ==> spec_decimal(n)[0] != '0',
    decreases n,
{
    if n >= 10 {
        lemma_decimal_no_leading_zero(n / 10);
        assert(n / 10 > 0);
        assert(spec_decimal(n)[0] == spec_decimal(n / 10)[0]);
    }
}

} // verus!
