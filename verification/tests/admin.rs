use ferro::admin::{role_names_for, summarise_perms, PermFields, PermFlag, RoleName};
use ferro::ordering::{dedup_sorted, sort_strings, text_le};

fn perm(action: Option<&str>, scope: Option<&str>) -> PermFields {
    PermFields { action: action.map(String::from), scope: scope.map(String::from) }
}

#[test]
fn summarise_perms_sorts_and_dedups() {
    assert_eq!(summarise_perms(&[]), "—");
    let perms = [
        perm(Some("write"), Some("global")),
        perm(Some("admin"), None),
        perm(Some("write"), Some("global")),
        perm(None, None),
        perm(Some("read"), Some("own")),
    ];
    assert_eq!(summarise_perms(&perms), "?, admin, read:own, write:global");
}

#[test]
fn role_names_resolve_and_sort() {
    let roles = [
        RoleName { id: "r1".into(), name: "editor".into() },
        RoleName { id: "r2".into(), name: "admin".into() },
    ];
    assert_eq!(role_names_for(&[], &roles), "—");
    let ids = ["r1".to_string(), "zz".to_string(), "r2".to_string(), "r1".to_string()];
    assert_eq!(role_names_for(&ids, &roles), "admin, editor, editor, zz");
}

#[test]
fn perm_flags_round_trip_through_fields() {
    let all = [
        PermFlag::ReadGlobal,
        PermFlag::WriteGlobal,
        PermFlag::PublishGlobal,
        PermFlag::ManageUsers,
        PermFlag::ManageSchema,
        PermFlag::ManagePlugins,
        PermFlag::Admin,
    ];
    for f in all {
        let (action, scope) = f.to_fields();
        assert!(f.matches(Some(action), scope));
        for g in all {
            if g != f {
                let (ga, gs) = g.to_fields();
                assert!(!f.matches(Some(ga), gs), "{f:?} matched {g:?}");
            }
        }
    }
    assert_eq!(PermFlag::Admin.label(), "Admin (super-user)");
    assert_eq!(PermFlag::ReadGlobal.to_fields(), ("read", Some("global")));
    assert!(!PermFlag::ReadGlobal.matches(Some("read"), Some("own")));
    assert!(!PermFlag::ReadGlobal.matches(Some("read"), None));
    assert!(PermFlag::ManageUsers.matches(Some("manage_users"), Some("anything")));
    assert!(!PermFlag::Admin.matches(None, None));
}

#[test]
fn ordering_is_by_code_point() {
    assert!(text_le("", "a"));
    assert!(text_le("ab", "abc"));
    assert!(!text_le("abc", "ab"));
    assert!(text_le("B", "a"));
    assert!(text_le("same", "same"));
    let v = vec!["pear".to_string(), "apple".into(), "Zoo".into(), "apple".into()];
    let s = sort_strings(&v);
    assert_eq!(s, vec!["Zoo", "apple", "apple", "pear"]);
    assert_eq!(dedup_sorted(&s), vec!["Zoo", "apple", "pear"]);
}
