use ferro::admin::{PermFields, PermFlag};
use ferro::forms::{
    add_field, all_flags, content_save_body, field_id_from, field_preset, flags_of_permissions,
    is_blank, new_entry_body, new_field_id, permissions_of_flags, role_save, save_toast,
    toggle_flag, type_save, user_save, ExistingType, FieldPreset, FieldSpec, Json, TypeRef,
    TypeSave, UserForm,
};

fn perm(action: &str, scope: Option<&str>) -> PermFields {
    PermFields { action: Some(action.to_string()), scope: scope.map(|s| s.to_string()) }
}

fn form(id: &str, email: &str, handle: &str, display: &str, password: &str) -> UserForm {
    UserForm {
        id: id.into(),
        email: email.into(),
        handle: handle.into(),
        display_name: display.into(),
        password: password.into(),
        roles: vec!["r1".into()],
        active: true,
    }
}

fn field(id: &str, slug: &str) -> FieldSpec {
    FieldSpec {
        id: id.into(),
        slug: slug.into(),
        name: slug.into(),
        kind: FieldPreset::Text,
        required: true,
        localized: false,
        unique: false,
        hidden: false,
    }
}

#[test]
fn blank_text() {
    assert!(is_blank(""));
    assert!(is_blank("  \t\n"));
    assert!(!is_blank(" a "));
}

#[test]
fn content_save_sends_slug_only_when_changed() {
    let p = content_save_body("hello", "hello", "{}".into());
    assert_eq!(p.slug, None);
    assert_eq!(p.data, "{}");
    let p = content_save_body("hello", "", "{}".into());
    assert_eq!(p.slug, None);
    let p = content_save_body("hello", "hello-world", "{\"a\":1}".into());
    assert_eq!(p.slug.as_deref(), Some("hello-world"));
    assert_eq!(p.data, "{\"a\":1}");
}

#[test]
fn new_entry_uses_type_id_and_locale() {
    let types = vec![
        TypeRef { id: "t1".into(), slug: "post".into(), default_locale: Some("de".into()) },
        TypeRef { id: "t2".into(), slug: "page".into(), default_locale: None },
        TypeRef { id: "t3".into(), slug: "post".into(), default_locale: Some("fr".into()) },
    ];
    let b = new_entry_body(&types, "post", "first", "{}".into()).unwrap();
    assert_eq!(b.type_id, "t1");
    assert_eq!(b.slug, "first");
    assert_eq!(b.locale, "de");
    assert_eq!(b.data, "{}");
    let b = new_entry_body(&types, "page", "about", "{}".into()).unwrap();
    assert_eq!(b.type_id, "t2");
    assert_eq!(b.locale, "en");
    assert_eq!(new_entry_body(&types, "blog", "x", "{}".into()).unwrap_err(), "Unknown content type");
    assert_eq!(new_entry_body(&[], "post", "x", "{}".into()).unwrap_err(), "Unknown content type");
}

#[test]
fn user_save_rules() {
    assert_eq!(user_save(form("", " ", "h", "", "")).unwrap_err(), "Email and handle are required.");
    assert_eq!(user_save(form("", "a@b.c", "", "", "")).unwrap_err(), "Email and handle are required.");
    let b = user_save(form("", "a@b.c", "ann", "  ", "pw")).unwrap();
    assert!(b.create);
    assert_eq!(b.email, "a@b.c");
    assert_eq!(b.handle, "ann");
    assert_eq!(b.display_name, None);
    assert_eq!(b.password.as_deref(), Some("pw"));
    assert_eq!(b.roles, vec!["r1".to_string()]);
    assert!(b.active);
    let b = user_save(form("u1", "a@b.c", "ann", "Ann", "")).unwrap();
    assert!(!b.create);
    assert_eq!(b.id, "u1");
    assert_eq!(b.display_name.as_deref(), Some("Ann"));
    assert_eq!(b.password, None);
}

#[test]
fn flags_in_editor_order() {
    assert_eq!(
        all_flags(),
        vec![
            PermFlag::ReadGlobal,
            PermFlag::WriteGlobal,
            PermFlag::PublishGlobal,
            PermFlag::ManageUsers,
            PermFlag::ManageSchema,
            PermFlag::ManagePlugins,
            PermFlag::Admin,
        ]
    );
}

#[test]
fn flags_read_from_stored_permissions() {
    let perms = vec![
        perm("admin", None),
        perm("read", Some("global")),
        perm("write", Some("type")),
        perm("read", Some("global")),
        PermFields { action: None, scope: None },
        perm("manage_users", None),
    ];
    assert_eq!(
        flags_of_permissions(&perms),
        vec![PermFlag::ReadGlobal, PermFlag::ManageUsers, PermFlag::Admin]
    );
    assert_eq!(flags_of_permissions(&[]), Vec::<PermFlag>::new());
}

#[test]
fn flags_round_trip_through_permissions() {
    let flags = vec![PermFlag::Admin, PermFlag::WriteGlobal, PermFlag::ManageSchema];
    let stored = permissions_of_flags(&flags);
    assert_eq!(
        stored,
        vec![("admin", None), ("write", Some("global")), ("manage_schema", None)]
    );
    let perms: Vec<PermFields> = stored.iter().map(|(a, s)| perm(a, *s)).collect();
    assert_eq!(
        flags_of_permissions(&perms),
        vec![PermFlag::WriteGlobal, PermFlag::ManageSchema, PermFlag::Admin]
    );
}

#[test]
fn toggling_flags() {
    let flags = vec![PermFlag::ReadGlobal, PermFlag::Admin];
    let on = toggle_flag(flags.clone(), PermFlag::ManageUsers, true);
    assert_eq!(on, vec![PermFlag::ReadGlobal, PermFlag::Admin, PermFlag::ManageUsers]);
    let off = toggle_flag(on, PermFlag::ReadGlobal, false);
    assert_eq!(off, vec![PermFlag::Admin, PermFlag::ManageUsers]);
    let again = toggle_flag(flags, PermFlag::ReadGlobal, true);
    assert_eq!(again, vec![PermFlag::Admin, PermFlag::ReadGlobal]);
}

#[test]
fn role_save_rules() {
    assert_eq!(role_save("  ".into(), "d".into(), &[]).unwrap_err(), "Name is required.");
    let b = role_save("editor".into(), " ".into(), &[PermFlag::PublishGlobal]).unwrap();
    assert_eq!(b.name, "editor");
    assert_eq!(b.description, None);
    assert_eq!(b.permissions, vec![("publish", Some("global"))]);
    let b = role_save("editor".into(), "Edits things".into(), &[]).unwrap();
    assert_eq!(b.description.as_deref(), Some("Edits things"));
    assert!(b.permissions.is_empty());
}

#[test]
fn field_presets() {
    assert_eq!(field_preset("text"), FieldPreset::Text);
    assert_eq!(field_preset("richtext"), FieldPreset::RichTextMarkdown);
    assert_eq!(field_preset("number"), FieldPreset::Number);
    assert_eq!(field_preset("boolean"), FieldPreset::Boolean);
    assert_eq!(field_preset("date"), FieldPreset::Date);
    assert_eq!(field_preset("slug"), FieldPreset::PlainText);
}

#[test]
fn add_field_messages_and_append() {
    let fields = vec![field("f1", "title")];
    assert_eq!(
        add_field(Some(vec![]), "text", "", "Title", "x".into()).unwrap_err(),
        "Field slug + name required."
    );
    assert_eq!(
        add_field(None, "text", "", "", "x".into()).unwrap_err(),
        "Field slug + name required."
    );
    assert_eq!(
        add_field(None, "text", "body", "Body", "x".into()).unwrap_err(),
        "Fields JSON invalid; fix it before adding."
    );
    let v = add_field(Some(fields), "richtext", "body", "Body", "f2".into()).unwrap();
    assert_eq!(v.len(), 2);
    assert_eq!(v[0].id, "f1");
    let last = &v[1];
    assert_eq!(last.id, "f2");
    assert_eq!(last.slug, "body");
    assert_eq!(last.name, "Body");
    assert_eq!(last.kind, FieldPreset::RichTextMarkdown);
    assert!(!last.required && !last.localized && !last.unique && !last.hidden);
}


fn member_texts(ms: &[(String, Json)]) -> Vec<(String, String)> {
    ms.iter()
        .map(|(k, v)| {
            let t = match v {
                Json::Null => "null".to_string(),
                Json::Str(s) => format!("str:{s}"),
                Json::Raw(s) => format!("raw:{s}"),
            };
            (k.clone(), t)
        })
        .collect()
}

fn pairs(items: &[(&str, &str)]) -> Vec<(String, String)> {
    items.iter().map(|(k, v)| (k.to_string(), v.to_string())).collect()
}

#[test]
fn type_save_refuses_bad_fields() {
    let r = type_save(true, None, "post".into(), "Post".into(), "".into(), "now".into(), None, "id".into(), ExistingType::Missing);
    assert_eq!(r.unwrap_err(), "Fields JSON invalid.");
}

#[test]
fn type_save_creates_new_types() {
    let r = type_save(
        true,
        Some("[]".into()),
        "post".into(),
        "Post".into(),
        "".into(),
        "2024-01-01T00:00:00Z".into(),
        Some("site1".into()),
        "TYPEID".into(),
        ExistingType::Missing,
    );
    match r.unwrap() {
        TypeSave::Create(ms) => assert_eq!(
            member_texts(&ms),
            pairs(&[
                ("id", "str:TYPEID"),
                ("site_id", "str:site1"),
                ("slug", "str:post"),
                ("name", "str:Post"),
                ("description", "null"),
                ("fields", "raw:[]"),
                ("singleton", "raw:false"),
                ("title_field", "null"),
                ("slug_field", "null"),
                ("created_at", "str:2024-01-01T00:00:00Z"),
                ("updated_at", "str:2024-01-01T00:00:00Z"),
            ])
        ),
        other => panic!("unexpected {:?}", other),
    }
}

#[test]
fn type_save_updates_over_loaded_members() {
    let base = vec![("id".to_string(), Json::Str("T".into())), ("slug".to_string(), Json::Str("old".into()))];
    let r = type_save(
        false,
        Some("[1]".into()),
        "new".into(),
        "Name".into(),
        " ".into(),
        "now".into(),
        None,
        "unused".into(),
        ExistingType::Object(base),
    );
    match r.unwrap() {
        TypeSave::UpdateObject(ms) => assert_eq!(
            member_texts(&ms),
            pairs(&[
                ("id", "str:T"),
                ("slug", "str:old"),
                ("slug", "str:new"),
                ("name", "str:Name"),
                ("description", "str: "),
                ("fields", "raw:[1]"),
                ("updated_at", "str:now"),
            ])
        ),
        other => panic!("unexpected {:?}", other),
    }
    let r = type_save(false, Some("[]".into()), "s".into(), "n".into(), "".into(), "t".into(), None, "i".into(), ExistingType::Other("null".into()));
    assert!(matches!(r.unwrap(), TypeSave::UpdateRaw(ref raw) if raw == "null"));
}

#[test]
fn save_toasts() {
    assert_eq!(save_toast(true, "post", None), "Created post.");
    assert_eq!(save_toast(false, "post", Some(12)), "Saved post · 12 row(s) migrated.");
    assert_eq!(save_toast(false, "post", None), "Saved post · 0 row(s) migrated.");
    assert_eq!(save_toast(false, "p", Some(18446744073709551615)), "Saved p · 18446744073709551615 row(s) migrated.");
}

#[test]
fn field_ids_use_crockford_letters() {
    let bytes: Vec<u8> = (0u8..26).map(|b| b * 9).collect();
    let id = field_id_from(&bytes);
    let alphabet = "0123456789ABCDEFGHJKMNPQRSTVWXYZ";
    let expected: String = bytes.iter().map(|b| alphabet.as_bytes()[(b % 32) as usize] as char).collect();
    assert_eq!(id, expected);
    assert_eq!(field_id_from(&[32u8; 26]), "00000000000000000000000000");
    let fresh = new_field_id();
    assert_eq!(fresh.len(), 26);
    assert!(fresh.chars().all(|c| alphabet.contains(c)));
}
