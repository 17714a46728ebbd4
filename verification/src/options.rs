//! Plain configuration and request-parameter records of the API and the
//! admin client.

use vstd::prelude::*;

verus! {

/// Operator-tunable authentication flags.
#[derive(Debug, Clone, Copy)]
pub struct AuthOptions {
    /// Whether public sign-up is reachable. Off by default: most
    /// deployments are private instances.
    pub allow_public_signup: bool,
}

impl Default for AuthOptions {
    /// Public sign-up off.
    fn default() -> (res: Self)
        ensures
            !res.allow_public_signup,
    {
        AuthOptions { allow_public_signup: false }
    }
}

/// Query parameters of the live event stream.
#[derive(Debug)]
pub struct EventQuery {
    /// Restrict to events touching this content-type slug.
    pub type_slug: Option<String>,
    /// Bearer token for clients that cannot set headers.
    pub token: Option<String>,
}

/// The authenticated user as the admin client sees it (no password hash).
#[derive(Debug)]
pub struct AuthedUser {
    pub id: String,
    pub email: String,
    pub display_name: Option<String>,
    pub roles: Vec<String>,
}

/// A hook event as the live event stream sees it: its kind and, for the
/// kinds that concern a content type, the slug of that type.
#[derive(Debug)]
pub enum HookEvent {
    ContentCreated { type_slug: String },
    ContentUpdated { type_slug: String },
    ContentPublished { type_slug: String },
    ContentDeleted { type_slug: String },
    TypeMigrated { type_slug: String },
    /// Any kind added later; it concerns no content type.
    Other,
}

/// The `event:` name of a hook event on the stream.
pub open spec fn spec_event_kind(e: HookEvent) -> Seq<char> {
    match e {
        HookEvent::ContentCreated { .. } => "content.created"@,
        HookEvent::ContentUpdated { .. } => "content.updated"@,
        HookEvent::ContentPublished { .. } => "content.published"@,
        HookEvent::ContentDeleted { .. } => "content.deleted"@,
        HookEvent::TypeMigrated { .. } => "type.migrated"@,
        HookEvent::Other => "event"@,
    }
}

/// The slug of the content type an event concerns, if any.
pub open spec fn event_type_slug(e: HookEvent) -> Option<Seq<char>> {
    match e {
        HookEvent::ContentCreated { type_slug } => Some(type_slug@),
        HookEvent::ContentUpdated { type_slug } => Some(type_slug@),
        HookEvent::ContentPublished { type_slug } => Some(type_slug@),
        HookEvent::ContentDeleted { type_slug } => Some(type_slug@),
        HookEvent::TypeMigrated { type_slug } => Some(type_slug@),
        HookEvent::Other => None,
    }
}

/// The `event:` name of a hook event on the stream.
pub fn event_kind(e: &HookEvent) -> (res: &'static str)
    ensures
        res@ == spec_event_kind(*e),
{
    match e {
        HookEvent::ContentCreated { .. } => "content.created",
        HookEvent::ContentUpdated { .. } => "content.updated",
        HookEvent::ContentPublished { .. } => "content.published",
        HookEvent::ContentDeleted { .. } => "content.deleted",
        HookEvent::TypeMigrated { .. } => "type.migrated",
        HookEvent::Other => "event",
    }
}

/// Whether an event reaches a subscriber filtered by `type_slug`: without
/// a filter every event passes; with one, only events that concern the
/// content type with that slug pass, and events of other kinds are
/// dropped.
pub fn event_matches(e: &HookEvent, type_slug: Option<&str>) -> (res: bool)
    ensures
        type_slug is None ==> res,
        type_slug matches Some(f) ==> (res <==> event_type_slug(*e) == Some(f@)),
{
    let f = match type_slug {
        None => return true,
        Some(f) => f,
    };
    match e {
        HookEvent::ContentCreated { type_slug: t }
        | HookEvent::ContentUpdated { type_slug: t }
        | HookEvent::ContentPublished { type_slug: t }
        | HookEvent::ContentDeleted { type_slug: t }
        | HookEvent::TypeMigrated { type_slug: t } => crate::admin::str_eq(t.as_str(), f),
        HookEvent::Other => false,
    }
}

} // verus!
