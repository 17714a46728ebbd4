//! Display helpers and the REST error of the admin client.

use vstd::prelude::*;
use vstd::string::*;
use crate::ordering::{dedup_sorted, sort_strings, sorted, strictly_sorted};
use crate::text::{chars_of, find_char, index_of_char, push_char, push_chars};

verus! {

/// `s` without its trailing `Z`s.
pub open spec fn strip_trailing_z(s: Seq<char>) -> Seq<char>
    decreases s.len(),
{
    if s.len() > 0 && s.last() == 'Z' {
        strip_trailing_z(s.drop_last())
    } else {
        s
    }
}

/// A `YYYY-MM-DD` date: ten characters, digits with `-` at positions 4
/// and 7.
pub open spec fn is_date(d: Seq<char>) -> bool {
    &&& d.len() == 10
    &&& forall|i: int|
        0 <= i < 10 ==> if i == 4 || i == 7 {
            #[trigger] d[i] == '-'
        } else {
            '0' <= d[i] && d[i] <= '9'
        }
}

/// Human display of an RFC 3339 timestamp: trailing `Z`s dropped, the
/// `YYYY-MM-DD` date and the time joined by a space, fractional seconds
/// dropped. Text that does not have the date-`T`-time shape is returned
/// unchanged.
pub open spec fn spec_format_dt(s: Seq<char>) -> Seq<char> {
    let t = strip_trailing_z(s);
    if t.len() > 10 && is_date(t.take(10)) && t[10] == 'T' {
        let time = t.skip(11);
        t.take(10).push(' ') + time.take(index_of_char(time, '.') as int)
    } else {
        s
    }
}

fn date_prefix(cs: &[char]) -> (res: bool)
    requires
        cs@.len() >= 10,
    ensures
        res == is_date(cs@.take(10)),
{
    let mut i: usize = 0;
    while i < 10
        invariant
            0 <= i <= 10,
            cs@.len() >= 10,
            forall|k: int|
                0 <= k < i ==> if k == 4 || k == 7 {
                    #[trigger] cs@[k] == '-'
                } else {
                    '0' <= cs@[k] && cs@[k] <= '9'
                },
        decreases 10 - i,
    {
        let c = cs[i];
        let ok = if i == 4 || i == 7 {
            c == '-'
        } else {
            '0' <= c && c <= '9'
        };
        if !ok {
            assert(cs@.take(10)[i as int] == c);
            return false;
        }
        i += 1;
    }
    assert forall|k: int| 0 <= k < 10 implies if k == 4 || k == 7 {
        #[trigger] cs@.take(10)[k] == '-'
    } else {
        '0' <= cs@.take(10)[k] && cs@.take(10)[k] <= '9'
    } by {
        assert(cs@.take(10)[k] == cs@[k]);
    }
    true
}

/// Formats an RFC 3339 string for human display.
pub fn format_dt(s: &str) -> (res: String)
    ensures
        res@ == spec_format_dt(s@),
{
    let cs = chars_of(s);
    let mut end = cs.len();
    assert(cs@.take(cs@.len() as int) =~= cs@);
    while end > 0 && cs[end - 1] == 'Z'
        invariant
            0 <= end <= cs@.len(),
            strip_trailing_z(cs@) == strip_trailing_z(cs@.take(end as int)),
        decreases end,
    {
        assert(cs@.take(end as int).drop_last() =~= cs@.take(end - 1));
        end -= 1;
    }
    assert(cs@.take(cs@.len() as int) =~= cs@);
    let ghost t = cs@.take(end as int);
    assert(strip_trailing_z(cs@) == t);
    if end <= 10 {
        return s.to_owned();
    }
    assert(t.take(10) =~= cs@.take(10));
    if !date_prefix(cs.as_slice()) || cs[10] != 'T' {
        return s.to_owned();
    }
    let j = find_char(cs.as_slice(), 11, end, '.');
    let mut out = String::new();
    push_chars(&mut out, cs.as_slice(), 0, 10);
    push_char(&mut out, ' ');
    push_chars(&mut out, cs.as_slice(), 11, j);
    proof {
        let time = t.skip(11);
        assert(time =~= cs@.subrange(11, end as int));
        assert(t.take(10) =~= cs@.subrange(0, 10));
        assert(time.take(j - 11) =~= cs@.subrange(11, j as int));
    }
    out
}

/// `items` joined with `sep` between consecutive items.
pub open spec fn join(items: Seq<Seq<char>>, sep: Seq<char>) -> Seq<char>
    decreases items.len(),
{
    if items.len() == 0 {
        seq![]
    } else if items.len() == 1 {
        items[0]
    } else {
        join(items.drop_last(), sep) + sep + items.last()
    }
}

/// The texts of a list of strings.
pub open spec fn texts(items: Seq<String>) -> Seq<Seq<char>> {
    items.map_values(|s: String| s@)
}

/// `—` for an empty list, otherwise the items joined by `, `.
pub open spec fn spec_join_or_dash(items: Seq<Seq<char>>) -> Seq<char> {
    if items.len() == 0 {
        "—"@
    } else {
        join(items, ", "@)
    }
}

/// Joins `items` with `, `, or gives `—` when there are none.
pub fn join_or_dash(items: &[String]) -> (res: String)
    ensures
        res@ == spec_join_or_dash(texts(items@)),
{
    let mut out = String::new();
    if items.len() == 0 {
        out.append("—");
        return out;
    }
    let ghost all = texts(items@);
    out.append(items[0].as_str());
    assert(texts(items@.take(1)) =~= seq![items@[0]@]);
    let mut i: usize = 1;
    while i < items.len()
        invariant
            1 <= i <= items@.len(),
            all == texts(items@),
            out@ == join(texts(items@.take(i as int)), ", "@),
        decreases items@.len() - i,
    {
        assert(texts(items@.take(i + 1)).drop_last() =~= texts(items@.take(i as int)));
        assert(texts(items@.take(i + 1)).last() == items@[i as int]@);
        out.append(", ");
        out.append(items[i].as_str());
        i += 1;
    }
    assert(items@.take(items@.len() as int) =~= items@);
    out
}

/// Failure of an admin REST call.
#[derive(Debug)]
pub enum ApiError {
    /// The request could not be built, sent or decoded.
    Network(String),
    /// The server answered with a non-success status.
    Http {
        status: u16,
        message: String,
        /// The JSON error body as text, when there was one.
        body: Option<String>,
    },
}

impl ApiError {
    /// The human-readable message.
    pub fn message(&self) -> (res: String)
        ensures
            res@ == match *self {
                ApiError::Network(s) => s@,
                ApiError::Http { message, .. } => message@,
            },
    {
        match self {
            ApiError::Network(s) => s.clone(),
            ApiError::Http { message, .. } => message.clone(),
        }
    }

    /// The HTTP status, for server answers.
    pub fn status(&self) -> (res: Option<u16>)
        ensures
            res == match *self {
                ApiError::Http { status, .. } => Some(status),
                _ => None,
            },
    {
        match self {
            ApiError::Http { status, .. } => Some(*status),
            _ => None,
        }
    }
}

/// Whether two texts are equal.
pub fn str_eq(a: &str, b: &str) -> (res: bool)
    ensures
        res == (a@ == b@),
{
    a.to_owned() == b.to_owned()
}

/// Operator-friendly permission flags of the roles editor.
#[derive(Clone, Copy, Debug, PartialEq, Eq, Structural)]
pub enum PermFlag {
    ReadGlobal,
    WriteGlobal,
    PublishGlobal,
    ManageUsers,
    ManageSchema,
    ManagePlugins,
    Admin,
}

/// The `action` a flag grants.
pub open spec fn flag_action(f: PermFlag) -> Seq<char> {
    match f {
        PermFlag::ReadGlobal => "read"@,
        PermFlag::WriteGlobal => "write"@,
        PermFlag::PublishGlobal => "publish"@,
        PermFlag::ManageUsers => "manage_users"@,
        PermFlag::ManageSchema => "manage_schema"@,
        PermFlag::ManagePlugins => "manage_plugins"@,
        PermFlag::Admin => "admin"@,
    }
}

/// Whether a flag grants its action on the global scope (rather than
/// carrying no scope).
pub open spec fn flag_is_scoped(f: PermFlag) -> bool {
    f == PermFlag::ReadGlobal || f == PermFlag::WriteGlobal || f == PermFlag::PublishGlobal
}

/// The text of an optional string slice.
pub open spec fn opt_text(s: Option<&str>) -> Option<Seq<char>> {
    match s {
        Some(v) => Some(v@),
        None => None,
    }
}

impl PermFlag {
    /// The label shown next to the checkbox.
    pub fn label(self) -> (res: &'static str)
        ensures
            res@ == match self {
                PermFlag::ReadGlobal => "Read (global)"@,
                PermFlag::WriteGlobal => "Write (global)"@,
                PermFlag::PublishGlobal => "Publish (global)"@,
                PermFlag::ManageUsers => "Manage users"@,
                PermFlag::ManageSchema => "Manage schema"@,
                PermFlag::ManagePlugins => "Manage plugins"@,
                PermFlag::Admin => "Admin (super-user)"@,
            },
    {
        match self {
            PermFlag::ReadGlobal => "Read (global)",
            PermFlag::WriteGlobal => "Write (global)",
            PermFlag::PublishGlobal => "Publish (global)",
            PermFlag::ManageUsers => "Manage users",
            PermFlag::ManageSchema => "Manage schema",
            PermFlag::ManagePlugins => "Manage plugins",
            PermFlag::Admin => "Admin (super-user)",
        }
    }

    /// The permission the flag stands for, as its `action` and `scope`
    /// fields: scoped flags carry `"global"`, the others no scope.
    pub fn to_fields(self) -> (res: (&'static str, Option<&'static str>))
        ensures
            res.0@ == flag_action(self),
            opt_text(res.1) == if flag_is_scoped(self) {
                Some("global"@)
            } else {
                None::<Seq<char>>
            },
    {
        match self {
            PermFlag::ReadGlobal => ("read", Some("global")),
            PermFlag::WriteGlobal => ("write", Some("global")),
            PermFlag::PublishGlobal => ("publish", Some("global")),
            PermFlag::ManageUsers => ("manage_users", None),
            PermFlag::ManageSchema => ("manage_schema", None),
            PermFlag::ManagePlugins => ("manage_plugins", None),
            PermFlag::Admin => ("admin", None),
        }
    }

    /// Whether a stored permission with the given `action` and `scope`
    /// string fields is this flag: the action must match, and for scoped
    /// flags the scope must be `"global"`.
    pub fn matches(self, action: Option<&str>, scope: Option<&str>) -> (res: bool)
        ensures
            res == (opt_text(action) == Some(flag_action(self)) && (flag_is_scoped(self)
                ==> opt_text(scope) == Some("global"@))),
    {
        let (want, want_scope) = self.to_fields();
        let action_ok = match action {
            Some(a) => str_eq(a, want),
            None => false,
        };
        if !action_ok {
            return false;
        }
        match want_scope {
            None => true,
            Some(g) => match scope {
                Some(sc) => str_eq(sc, g),
                None => false,
            },
        }
    }
}

/// A stored permission as the roles editor reads it: its `action` and
/// `scope` fields, when they are strings.
#[derive(Debug)]
pub struct PermFields {
    pub action: Option<String>,
    pub scope: Option<String>,
}

/// Short text of a permission: `action:scope`, or `action` without a
/// scope, with `?` for a missing action.
pub open spec fn perm_label(p: PermFields) -> Seq<char> {
    let a = match p.action {
        Some(a) => a@,
        None => "?"@,
    };
    match p.scope {
        Some(sc) => a + ":"@ + sc@,
        None => a,
    }
}

fn label_of(p: &PermFields) -> (res: String)
    ensures
        res@ == perm_label(*p),
{
    let mut out = String::new();
    match &p.action {
        Some(a) => out.append(a.as_str()),
        None => out.append("?"),
    }
    match &p.scope {
        Some(sc) => {
            out.append(":");
            out.append(sc.as_str());
        },
        None => {},
    }
    out
}

proof fn lemma_same_multiset_same_set(a: Seq<Seq<char>>, b: Seq<Seq<char>>)
    requires
        a.to_multiset() == b.to_multiset(),
    ensures
        a.to_set() == b.to_set(),
{
    broadcast use vstd::seq_lib::group_to_multiset_ensures;

    assert forall|x: Seq<char>| #[trigger] a.to_set().contains(x) <==> b.to_set().contains(x) by {
        assert(a.contains(x) <==> a.to_multiset().count(x) > 0);
        assert(b.contains(x) <==> b.to_multiset().count(x) > 0);
    }
    assert(a.to_set() =~= b.to_set());
}

/// Summary of a role's permissions: `—` when there are none, otherwise the
/// distinct short texts in sorted order, joined by `, `.
pub fn summarise_perms(perms: &[PermFields]) -> (res: String)
    ensures
        perms@.len() == 0 ==> res@ == "—"@,
        perms@.len() > 0 ==> exists|items: Seq<Seq<char>>|
            strictly_sorted(items) && items.to_set() == perms@.map_values(|p: PermFields| perm_label(p)).to_set()
                && res@ == join(items, ", "@),
{
    if perms.len() == 0 {
        let mut out = String::new();
        out.append("—");
        return out;
    }
    let ghost want = perms@.map_values(|p: PermFields| perm_label(p));
    let mut labels: Vec<String> = Vec::new();
    let mut i: usize = 0;
    while i < perms.len()
        invariant
            0 <= i <= perms@.len(),
            want == perms@.map_values(|p: PermFields| perm_label(p)),
            texts(labels@) == want.take(i as int),
        decreases perms@.len() - i,
    {
        let l = label_of(&perms[i]);
        let ghost prev = labels@;
        labels.push(l);
        assert(labels@ == prev.push(l));
        assert(texts(labels@) =~= texts(prev).push(l@));
        assert(want[i as int] == perm_label(perms@[i as int]));
        assert(want.take(i + 1) =~= want.take(i as int).push(want[i as int]));
        i += 1;
    }
    assert(want.take(perms@.len() as int) =~= want);
    let sorted_labels = sort_strings(&labels);
    let items = dedup_sorted(&sorted_labels);
    proof {
        lemma_same_multiset_same_set(texts(sorted_labels@), texts(labels@));
        assert(want[0] == want[0]);
        assert(want.to_set().contains(want[0]));
        assert(texts(items@).to_set().contains(want[0]));
        assert(texts(items@).len() > 0);
    }
    join_or_dash(items.as_slice())
}

/// A role as the users editor reads it.
#[derive(Debug)]
pub struct RoleName {
    pub id: String,
    pub name: String,
}

/// The name of the first role with id `id`, or `id` itself.
pub open spec fn name_for(id: Seq<char>, roles: Seq<RoleName>) -> Seq<char>
    decreases roles.len(),
{
    if roles.len() == 0 {
        id
    } else if roles[0].id@ == id {
        roles[0].name@
    } else {
        name_for(id, roles.drop_first())
    }
}

fn lookup_name(id: &String, roles: &[RoleName]) -> (res: String)
    ensures
        res@ == name_for(id@, roles@),
{
    let mut k: usize = 0;
    assert(roles@.skip(0) =~= roles@);
    while k < roles.len()
        invariant
            0 <= k <= roles@.len(),
            name_for(id@, roles@) == name_for(id@, roles@.skip(k as int)),
        decreases roles@.len() - k,
    {
        assert(roles@.skip(k as int).drop_first() =~= roles@.skip(k + 1));
        assert(roles@.skip(k as int)[0] == roles@[k as int]);
        if roles[k].id == *id {
            return roles[k].name.clone();
        }
        k += 1;
    }
    id.clone()
}

/// Names of a user's roles for display: `—` when there are none,
/// otherwise each id's role name (or the id when no role has it), sorted
/// and joined by `, `.
pub fn role_names_for(role_ids: &[String], roles: &[RoleName]) -> (res: String)
    ensures
        role_ids@.len() == 0 ==> res@ == "—"@,
        role_ids@.len() > 0 ==> exists|items: Seq<Seq<char>>|
            sorted(items) && items.to_multiset() == role_ids@.map_values(|id: String| name_for(id@, roles@)).to_multiset()
                && res@ == join(items, ", "@),
{
    if role_ids.len() == 0 {
        let mut out = String::new();
        out.append("—");
        return out;
    }
    let ghost want = role_ids@.map_values(|id: String| name_for(id@, roles@));
    let mut names: Vec<String> = Vec::new();
    let mut i: usize = 0;
    while i < role_ids.len()
        invariant
            0 <= i <= role_ids@.len(),
            want == role_ids@.map_values(|id: String| name_for(id@, roles@)),
            texts(names@) == want.take(i as int),
        decreases role_ids@.len() - i,
    {
        let n = lookup_name(&role_ids[i], roles);
        let ghost prev = names@;
        names.push(n);
        assert(names@ == prev.push(n));
        assert(texts(names@) =~= texts(prev).push(n@));
        assert(want[i as int] == name_for(role_ids@[i as int]@, roles@));
        assert(want.take(i + 1) =~= want.take(i as int).push(want[i as int]));
        i += 1;
    }
    assert(want.take(role_ids@.len() as int) =~= want);
    let items = sort_strings(&names);
    proof {
        broadcast use vstd::seq_lib::group_to_multiset_ensures;

        assert(texts(names@).len() > 0);
        assert(texts(names@).to_multiset().len() > 0);
        assert(texts(items@).len() > 0);
    }
    join_or_dash(items.as_slice())
}

} // verus!
