//! Trust plane of a link-sharing community site: typed opaque identifiers,
//! signed session envelopes, the email-token login state machine, invitations,
//! role-backed authorisation, and URL canonicalisation.

mod bootstrap;
mod clock;
mod comments;
mod config;
mod context;
mod crypto;
mod disposable;
mod email;
mod errors;
mod ids;
mod invites;
mod logins;
mod model;
mod mutation;
mod permission;
mod random;
mod roles;
mod session;
mod slug;
mod strutil;
mod url_canon;
mod urls;
mod users;

pub use bootstrap::bootstrap;
pub use bootstrap::needs_bootstrap;
pub use clock::Instant;
pub use comments::comment_count;
pub use comments::render_markdown;
pub use comments::NewCommentInput;
pub use config::random_session_key;
pub use config::Config;
pub use config::SmtpConfig;
pub use context::Context;
pub use disposable::is_disposable;
pub use disposable::normalize;
pub use email::login_email_body;
pub use email::login_email_subject;
pub use email::EmailMessage;
pub use errors::not_found;
pub use errors::request;
pub use errors::Error;
pub use errors::ServerError;
pub use ids::CommentID;
pub use ids::InviteID;
pub use ids::LoginID;
pub use ids::RoleID;
pub use ids::UrlID;
pub use ids::UserID;
pub use ids::ID;
pub use model::Comment;
pub use model::Invite;
pub use model::Login;
pub use model::Role;
pub use model::Store;
pub use model::Url;
pub use model::UrlUpvote;
pub use model::User;
pub use mutation::Mutation;
pub use mutation::Query;
pub use permission::Capability;
pub use permission::Permission;
pub use session::decode_session;
pub use session::Session;
pub use slug::slugify;
pub use url_canon::canonicalize;
pub use users::NewUserInput;
pub use users::UpdateUserInput;
