//! Small decisions of the admin pages: the error lines shown when a list
//! fails to load, the schema list's field summary, and the user editor's
//! role checkboxes, and the TOTP settings panel's state machine.

use vstd::prelude::*;
use vstd::string::*;
use crate::admin::{join, str_eq};
use crate::text::chars_of;

verus! {

/// The plugins page's error line: a `403` names the missing permission, a
/// `503` means the plugin host is off.
pub open spec fn spec_plugins_load_error(status: Option<u16>, message: Seq<char>) -> Seq<char> {
    if status == Some(403u16) {
        message + " (your role doesn't have ManagePlugins)"@
    } else if status == Some(503u16) {
        "Plugin host not initialized — check ferro.toml [plugins]."@
    } else {
        message
    }
}

/// The plugins page's error line for a failed load.
pub fn plugins_load_error(status: Option<u16>, message: &str) -> (res: String)
    ensures
        res@ == spec_plugins_load_error(status, message@),
{
    if status == Some(403u16) {
        let mut m = message.to_owned();
        m.append(" (your role doesn't have ManagePlugins)");
        m
    } else if status == Some(503u16) {
        "Plugin host not initialized — check ferro.toml [plugins].".to_owned()
    } else {
        message.to_owned()
    }
}

/// The users page's error line for a failed load: a `403` names the
/// missing permission.
pub fn users_load_error(status: Option<u16>, message: &str) -> (res: String)
    ensures
        res@ == if status == Some(403u16) {
            message@ + " (your role doesn't have ManageUsers)"@
        } else {
            message@
        },
{
    let mut m = message.to_owned();
    if status == Some(403u16) {
        m.append(" (your role doesn't have ManageUsers)");
    }
    m
}

/// The slugs that are present, in order.
pub open spec fn present(items: Seq<Option<String>>) -> Seq<Seq<char>>
    decreases items.len(),
{
    if items.len() == 0 {
        seq![]
    } else {
        let prev = present(items.drop_last());
        match items.last() {
            Some(s) => prev.push(s@),
            None => prev,
        }
    }
}

/// The schema list's summary of a type's fields: the slugs of the fields
/// that have a string slug, joined by `, ` in order.
pub fn field_slug_summary(fields: &[Option<String>]) -> (res: String)
    ensures
        res@ == join(present(fields@), ", "@),
{
    let mut out = String::new();
    let mut count: usize = 0;
    let mut i: usize = 0;
    while i < fields.len()
        invariant
            0 <= i <= fields@.len(),
            count == present(fields@.take(i as int)).len(),
            count <= i,
            out@ == join(present(fields@.take(i as int)), ", "@),
        decreases fields@.len() - i,
    {
        assert(fields@.take(i + 1).drop_last() =~= fields@.take(i as int));
        assert(fields@.take(i + 1).last() == fields@[i as int]);
        match &fields[i] {
            Some(s) => {
                let ghost prev = present(fields@.take(i as int));
                if count > 0 {
                    out.append(", ");
                }
                out.append(s.as_str());
                proof {
                    let now = prev.push(s@);
                    assert(now.drop_last() =~= prev);
                    if prev.len() == 0 {
                        assert(join(now, ", "@) == now[0]);
                    }
                }
                count += 1;
            },
            None => {},
        }
        i += 1;
    }
    assert(fields@.take(fields@.len() as int) =~= fields@);
    out
}

/// The texts of a list of strings.
pub open spec fn views(items: Seq<String>) -> Seq<Seq<char>> {
    items.map_values(|s: String| s@)
}

/// The user editor's role ids after a checkbox change: `role` is removed,
/// and appended at the end when checked.
pub fn toggle_role(roles: Vec<String>, role: &str, on: bool) -> (res: Vec<String>)
    ensures
        views(res@) == views(roles@).filter(|r: Seq<char>| r != role@) + if on {
            seq![role@]
        } else {
            Seq::<Seq<char>>::empty()
        },
{
    let ghost pred = |r: Seq<char>| r != role@;
    let ghost all = views(roles@);
    let n = roles.len();
    assert(all.len() == n);
    let mut out: Vec<String> = Vec::new();
    let mut rest = roles;
    let mut i: usize = 0;
    assert(views(rest@) =~= all.skip(0));
    assert(all.take(0).filter(pred) =~= Seq::<Seq<char>>::empty()) by {
        reveal(Seq::filter);
    }
    while rest.len() > 0
        invariant
            all.len() <= usize::MAX,
            i + rest@.len() == all.len(),
            views(rest@) == all.skip(i as int),
            pred == (|r: Seq<char>| r != role@),
            views(out@) == all.take(i as int).filter(pred),
        decreases rest@.len(),
    {
        let ghost before_rest = rest@;
        assert(views(before_rest)[0] == all.skip(i as int)[0]);
        let item = rest.remove(0);
        assert(all.skip(i as int)[0] == item@);
        assert forall|k: int| 0 <= k < rest@.len() implies #[trigger] views(rest@)[k] == all.skip(
            i + 1,
        )[k] by {
            assert(rest@[k] == before_rest[k + 1]);
            assert(views(before_rest)[k + 1] == all.skip(i as int)[k + 1]);
        }
        assert(views(rest@) =~= all.skip(i + 1));
        assert(all.take(i + 1).drop_last() =~= all.take(i as int));
        assert(all.take(i + 1).last() == item@);
        reveal(Seq::filter);
        let keep = !str_eq(item.as_str(), role);
        let ghost before = out@;
        if keep {
            out.push(item);
            assert(views(out@) =~= views(before).push(all.take(i + 1).last()));
        }
        i += 1;
    }
    assert(all.take(all.len() as int) =~= all);
    let ghost kept = out@;
    if on {
        out.push(role.to_owned());
    }
    assert(views(out@) =~= views(kept) + if on {
        seq![role@]
    } else {
        Seq::<Seq<char>>::empty()
    });
    out
}

// ---------------------------------------------------------------------------
// TOTP settings panel
// ---------------------------------------------------------------------------

/// What the TOTP panel shows and holds.
#[derive(Debug)]
pub struct TotpPanelState {
    /// Whether the signed-in user has TOTP on.
    pub enabled: bool,
    /// The secret of a setup in progress (empty when none).
    pub secret: String,
    /// The `otpauth://` URI of that secret.
    pub uri: String,
    /// The code typed in.
    pub code: String,
    /// The status line.
    pub status: String,
    /// Whether the status line reports an error.
    pub status_err: bool,
}

/// What happens on the TOTP panel: a click, typing, or the answer of a
/// request the panel sent.
#[derive(Debug)]
pub enum TotpPanelEvent {
    BeginSetup,
    /// The setup request answered with these `secret` and `otpauth_uri`
    /// fields (`None` when absent or not strings).
    SetupOk { secret: Option<String>, uri: Option<String> },
    SetupErr { status: Option<u16>, message: String },
    ConfirmEnable,
    EnableOk,
    EnableErr { message: String },
    ConfirmDisable,
    DisableOk,
    DisableErr { message: String },
    Cancel,
    CodeInput(String),
}

/// The request the panel sends next, if any.
#[derive(Debug)]
pub enum TotpPanelAction {
    Nothing,
    /// `POST /api/v1/auth/totp/setup`.
    PostSetup,
    /// `POST /api/v1/auth/totp/enable` with this secret and code.
    PostEnable { secret: String, code: String },
    /// `POST /api/v1/auth/totp/disable` with this code.
    PostDisable { code: String },
}

/// The panel's state as text.
pub struct TotpPanelView {
    pub enabled: bool,
    pub secret: Seq<char>,
    pub uri: Seq<char>,
    pub code: Seq<char>,
    pub status: Seq<char>,
    pub status_err: bool,
}

pub open spec fn panel_view(s: TotpPanelState) -> TotpPanelView {
    TotpPanelView {
        enabled: s.enabled,
        secret: s.secret@,
        uri: s.uri@,
        code: s.code@,
        status: s.status@,
        status_err: s.status_err,
    }
}

/// A request as text.
pub enum TotpActionView {
    Nothing,
    PostSetup,
    PostEnable { secret: Seq<char>, code: Seq<char> },
    PostDisable { code: Seq<char> },
}

pub open spec fn action_view(a: TotpPanelAction) -> TotpActionView {
    match a {
        TotpPanelAction::Nothing => TotpActionView::Nothing,
        TotpPanelAction::PostSetup => TotpActionView::PostSetup,
        TotpPanelAction::PostEnable { secret, code } => TotpActionView::PostEnable {
            secret: secret@,
            code: code@,
        },
        TotpPanelAction::PostDisable { code } => TotpActionView::PostDisable { code: code@ },
    }
}

/// `already enabled`.
pub open spec fn already_enabled() -> Seq<char> {
    seq!['a', 'l', 'r', 'e', 'a', 'd', 'y', ' ', 'e', 'n', 'a', 'b', 'l', 'e', 'd']
}

/// Whether `c` lower-cases (in ASCII) to `n`.
pub open spec fn lower_eq(c: char, n: char) -> bool {
    c == n || ('A' <= c && c <= 'Z' && c as u32 + 32 == n as u32)
}

/// Whether the lower-cased message contains `already enabled`. (Only ASCII
/// capitals lower-case into the letters of that phrase.)
pub open spec fn says_already_enabled(m: Seq<char>) -> bool {
    exists|i: int| 0 <= i && i + 15 <= m.len() && #[trigger] phrase_at(m, i)
}

/// Whether `already enabled`, in any ASCII case, starts at `i`.
pub open spec fn phrase_at(m: Seq<char>, i: int) -> bool {
    forall|k: int| 0 <= k < 15 ==> lower_eq(#[trigger] m[i + k], already_enabled()[k])
}

/// The next state of the panel.
pub open spec fn spec_totp_next(v: TotpPanelView, e: TotpPanelEvent) -> TotpPanelView {
    match e {
        TotpPanelEvent::BeginSetup => TotpPanelView {
            status: "Generating secret…"@,
            status_err: false,
            ..v
        },
        TotpPanelEvent::SetupOk { secret, uri } => TotpPanelView {
            secret: match secret {
                Some(t) => t@,
                None => v.secret,
            },
            uri: match uri {
                Some(t) => t@,
                None => v.uri,
            },
            status: seq![],
            ..v
        },
        TotpPanelEvent::SetupErr { status, message } => TotpPanelView {
            enabled: v.enabled || (status == Some(400u16) && says_already_enabled(message@)),
            status: message@,
            status_err: true,
            ..v
        },
        TotpPanelEvent::ConfirmEnable => TotpPanelView {
            status: "Verifying…"@,
            status_err: false,
            ..v
        },
        TotpPanelEvent::EnableOk => TotpPanelView {
            enabled: true,
            secret: seq![],
            code: seq![],
            status: "TOTP enabled. New logins now require a code."@,
            status_err: false,
            ..v
        },
        TotpPanelEvent::ConfirmDisable => TotpPanelView {
            status: "Disabling…"@,
            status_err: false,
            ..v
        },
        TotpPanelEvent::DisableOk => TotpPanelView {
            enabled: false,
            code: seq![],
            status: "TOTP disabled."@,
            status_err: false,
            ..v
        },
        TotpPanelEvent::EnableErr { message } => TotpPanelView {
            status: message@,
            status_err: true,
            ..v
        },
        TotpPanelEvent::DisableErr { message } => TotpPanelView {
            status: message@,
            status_err: true,
            ..v
        },
        TotpPanelEvent::Cancel => TotpPanelView { secret: seq![], code: seq![], ..v },
        TotpPanelEvent::CodeInput(c) => TotpPanelView { code: c@, ..v },
    }
}

/// The request the panel sends on an event.
pub open spec fn spec_totp_action(v: TotpPanelView, e: TotpPanelEvent) -> TotpActionView {
    match e {
        TotpPanelEvent::BeginSetup => TotpActionView::PostSetup,
        TotpPanelEvent::ConfirmEnable => TotpActionView::PostEnable {
            secret: v.secret,
            code: v.code,
        },
        TotpPanelEvent::ConfirmDisable => TotpActionView::PostDisable { code: v.code },
        _ => TotpActionView::Nothing,
    }
}

fn lower_eq_char(c: char, n: char) -> (res: bool)
    ensures
        res == lower_eq(c, n),
{
    c == n || ('A' <= c && c <= 'Z' && (c as u32) + 32 == (n as u32))
}

/// Whether the lower-cased message contains `already enabled`.
pub fn mentions_already_enabled(message: &str) -> (res: bool)
    ensures
        res == says_already_enabled(message@),
{
    let cs = chars_of(message);
    let needle: Vec<char> = vec!['a', 'l', 'r', 'e', 'a', 'd', 'y', ' ', 'e', 'n', 'a', 'b', 'l', 'e', 'd'];
    assert(needle@ =~= already_enabled());
    if cs.len() < 15 {
        return false;
    }
    let mut i: usize = 0;
    let n = cs.len();
    let last = n - 15;
    while i <= last
        invariant
            cs@ == message@,
            needle@ == already_enabled(),
            cs@.len() >= 15,
            last == cs@.len() - 15,
            n == cs@.len(),
            0 <= i <= cs@.len() - 14,
            forall|p: int| 0 <= p < i ==> !#[trigger] phrase_at(cs@, p),
        decreases cs@.len() - i,
    {
        let mut k: usize = 0;
        let mut ok = true;
        while k < 15
            invariant
                cs@ == message@,
                needle@ == already_enabled(),
                i + 15 <= cs@.len(),
                i <= last,
                last == cs@.len() - 15,
            n == cs@.len(),
                0 <= k <= 15,
                ok == forall|q: int| 0 <= q < k ==> lower_eq(#[trigger] cs@[i + q], already_enabled()[q]),
            decreases 15 - k,
        {
            let same = lower_eq_char(cs[i + k], needle[k]);
            ok = ok && same;
            k += 1;
        }
        if ok {
            assert(phrase_at(cs@, i as int));
            assert(says_already_enabled(message@));
            return true;
        }
        i += 1;
    }
    assert forall|p: int| 0 <= p && p + 15 <= message@.len() implies !#[trigger] phrase_at(
        message@,
        p,
    ) by {
        assert(p < i);
    }
    false
}

/// One step of the TOTP settings panel: its next state and the request it
/// sends. A `400` answer to the setup request whose message says the
/// feature is `already enabled` marks it enabled.
pub fn totp_panel_step(state: TotpPanelState, event: TotpPanelEvent) -> (res: (
    TotpPanelState,
    TotpPanelAction,
))
    ensures
        panel_view(res.0) == spec_totp_next(panel_view(state), event),
        action_view(res.1) == spec_totp_action(panel_view(state), event),
{
    let mut s = state;
    match event {
        TotpPanelEvent::BeginSetup => {
            s.status = "Generating secret…".to_owned();
            s.status_err = false;
            (s, TotpPanelAction::PostSetup)
        },
        TotpPanelEvent::SetupOk { secret, uri } => {
            if let Some(t) = secret {
                s.secret = t;
            }
            if let Some(u) = uri {
                s.uri = u;
            }
            s.status = String::new();
            (s, TotpPanelAction::Nothing)
        },
        TotpPanelEvent::SetupErr { status, message } => {
            if status == Some(400u16) && mentions_already_enabled(message.as_str()) {
                s.enabled = true;
            }
            s.status = message;
            s.status_err = true;
            (s, TotpPanelAction::Nothing)
        },
        TotpPanelEvent::ConfirmEnable => {
            s.status = "Verifying…".to_owned();
            s.status_err = false;
            let a = TotpPanelAction::PostEnable { secret: s.secret.clone(), code: s.code.clone() };
            (s, a)
        },
        TotpPanelEvent::EnableOk => {
            s.enabled = true;
            s.secret = String::new();
            s.code = String::new();
            s.status_err = false;
            s.status = "TOTP enabled. New logins now require a code.".to_owned();
            (s, TotpPanelAction::Nothing)
        },
        TotpPanelEvent::EnableErr { message } => {
            s.status_err = true;
            s.status = message;
            (s, TotpPanelAction::Nothing)
        },
        TotpPanelEvent::ConfirmDisable => {
            s.status = "Disabling…".to_owned();
            s.status_err = false;
            let a = TotpPanelAction::PostDisable { code: s.code.clone() };
            (s, a)
        },
        TotpPanelEvent::DisableOk => {
            s.enabled = false;
            s.code = String::new();
            s.status_err = false;
            s.status = "TOTP disabled.".to_owned();
            (s, TotpPanelAction::Nothing)
        },
        TotpPanelEvent::DisableErr { message } => {
            s.status_err = true;
            s.status = message;
            (s, TotpPanelAction::Nothing)
        },
        TotpPanelEvent::Cancel => {
            s.secret = String::new();
            s.code = String::new();
            (s, TotpPanelAction::Nothing)
        },
        TotpPanelEvent::CodeInput(c) => {
            s.code = c;
            (s, TotpPanelAction::Nothing)
        },
    }
}

/// Every present slug is kept, wherever it stands, and absent ones add
/// nothing.
pub proof fn lemma_present_push(items: Seq<Option<String>>, x: Option<String>)
    ensures
        present(items.push(x)) == match x {
            Some(s) => present(items).push(s@),
            None => present(items),
        },
{
    assert(items.push(x).drop_last() =~= items);
}

/// Joining one more item appends the separator and the item.
pub proof fn lemma_join_push(items: Seq<Seq<char>>, sep: Seq<char>, x: Seq<char>)
    ensures
        join(items.push(x), sep) == if items.len() == 0 {
            x
        } else {
            join(items, sep) + sep + x
        },
{
    assert(items.push(x).drop_last() =~= items);
}

} // verus!
