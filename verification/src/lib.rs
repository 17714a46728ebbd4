//! Verified core of the Ferro CMS authentication and API layer: RFC 6238
//! one-time passwords, role-based access control, sessions, double-submit
//! CSRF checks, request guards, preview rendering and the admin client's
//! token handling.

pub mod admin;
pub mod api_doc;
pub mod api_error;
pub mod client;
pub mod csrf;
pub mod error;
pub mod forms;
pub mod guards;
pub mod jwt;
pub mod options;
pub mod pages;
pub mod ordering;
pub mod policy;
pub mod preview;
pub mod primitives;
pub mod request_auth;
pub mod service;
pub mod session;
pub mod text;
pub mod tokens;
pub mod totp;
