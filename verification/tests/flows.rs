//! End-to-end flows over the trust plane: login, sessions, invites,
//! permissions, registration, submissions and the XSRF gate.

use urls_core::bootstrap;
use urls_core::render_markdown;
use urls_core::Context;
use urls_core::Error;
use urls_core::Instant;
use urls_core::Invite;
use urls_core::Login;
use urls_core::Mutation;
use urls_core::NewCommentInput;
use urls_core::NewUserInput;
use urls_core::Permission;
use urls_core::Role;
use urls_core::Store;
use urls_core::Url;
use urls_core::User;

const XSRF: &str = "test-xsrf";
const T0: i64 = 1700000000;

fn ctx_at(t: i64) -> Context {
    Context::for_request(XSRF.to_string(), Instant::from_secs(t), None, None)
}

fn seed_user(store: &mut Store, name: &str, email: &str) -> User {
    User::create(
        store,
        Instant::from_secs(T0),
        NewUserInput { name: name.to_string(), email: email.to_string() },
    )
    .unwrap()
}

fn email_token_of(body: &str) -> String {
    body.split_whitespace()
        .find(|t| t.len() == 12)
        .expect("Email should contain a 12 character login token")
        .to_string()
}

#[test]
fn test_login() {
    let mut store = Store::new();
    let user = seed_user(&mut store, "Test User", "test.user@urls.fyi");
    let ctx = ctx_at(T0 + 10);

    let msg = Mutation::request_login(&mut store, &ctx, XSRF, "test.user@urls.fyi").unwrap();
    assert_eq!(msg.to_email, "test.user@urls.fyi");
    let token = email_token_of(&msg.body);
    assert_eq!(token.len(), 12);

    let session = Mutation::login(&mut store, &ctx, XSRF, "test.user@urls.fyi", &token).unwrap();
    assert_eq!(session.len(), 64);

    let mut ctx2 = ctx_at(T0 + 20);
    Login::use_session(&mut store, &mut ctx2, &session).unwrap();
    let viewer = ctx2.user_id().unwrap();
    assert!(viewer.same(&user.id));
    let loaded = User::find(&store, &viewer).unwrap();
    assert_eq!(loaded.email, "test.user@urls.fyi");
}

#[test]
fn test_revoke_login() {
    let mut store = Store::new();
    seed_user(&mut store, "Test User", "test.user@urls.fyi");
    let ctx = ctx_at(T0 + 10);

    let msg = Mutation::request_login(&mut store, &ctx, XSRF, "test.user@urls.fyi").unwrap();
    let token = email_token_of(&msg.body);
    let session = Mutation::login(&mut store, &ctx, XSRF, "test.user@urls.fyi", &token).unwrap();

    let mut ctx2 = ctx_at(T0 + 20);
    Login::use_session(&mut store, &mut ctx2, &session).unwrap();
    let viewer = ctx2.user_id().unwrap();
    let active = Login::active_for_user(&store, &viewer, ctx2.now());
    assert_eq!(active.len(), 1);
    let login_id = active[0].duplicate();

    Mutation::revoke_login(&mut store, &ctx2, XSRF, &login_id).unwrap();

    let mut ctx3 = ctx_at(T0 + 30);
    let r = Login::use_session(&mut store, &mut ctx3, &session);
    assert!(matches!(r, Err(Error::SessionRevoked)));
    assert!(ctx3.user_id().is_err());
    let active = Login::active_for_user(&store, &viewer, Instant::from_secs(T0 + 30));
    assert_eq!(active.len(), 0);
}

#[test]
fn session_window_slides_and_expires() {
    let mut store = Store::new();
    seed_user(&mut store, "Test User", "test.user@urls.fyi");
    let ctx = ctx_at(T0);
    let msg = Mutation::request_login(&mut store, &ctx, XSRF, "test.user@urls.fyi").unwrap();
    let token = email_token_of(&msg.body);
    let session = Mutation::login(&mut store, &ctx, XSRF, "test.user@urls.fyi", &token).unwrap();

    let day = 86400;
    // Used every 60 days, the session outlives the 90-day window many
    // times over.
    let mut t = T0;
    for _ in 0..5 {
        t += 60 * day;
        let mut c = ctx_at(t);
        Login::use_session(&mut store, &mut c, &session).unwrap();
    }
    // Left unused past 90 days, it expires, and stays expired.
    let mut c = ctx_at(t + 91 * day);
    let r = Login::use_session(&mut store, &mut c, &session);
    assert!(matches!(r, Err(Error::SessionExpired)));
    let mut c2 = ctx_at(t + 120 * day);
    let r2 = Login::use_session(&mut store, &mut c2, &session);
    assert!(matches!(r2, Err(Error::SessionExpired)));
}

#[test]
fn email_token_is_single_use() {
    let mut store = Store::new();
    seed_user(&mut store, "Test User", "test.user@urls.fyi");
    let ctx = ctx_at(T0);
    let msg = Mutation::request_login(&mut store, &ctx, XSRF, "test.user@urls.fyi").unwrap();
    let token = email_token_of(&msg.body);

    Mutation::login(&mut store, &ctx, XSRF, "test.user@urls.fyi", &token).unwrap();
    let again = Mutation::login(&mut store, &ctx, XSRF, "test.user@urls.fyi", &token);
    assert!(matches!(again, Err(Error::AlreadyClaimed)));
}

#[test]
fn stale_email_token_expires() {
    let mut store = Store::new();
    seed_user(&mut store, "Test User", "test.user@urls.fyi");
    let ctx = ctx_at(T0);
    let msg = Mutation::request_login(&mut store, &ctx, XSRF, "test.user@urls.fyi").unwrap();
    let token = email_token_of(&msg.body);

    let late = ctx_at(T0 + 3601);
    let r = Mutation::login(&mut store, &late, XSRF, "test.user@urls.fyi", &token);
    assert!(matches!(r, Err(Error::Expired)));

    let wrong = Mutation::login(&mut store, &ctx, XSRF, "test.user@urls.fyi", "wrongwrongwr");
    assert!(matches!(wrong, Err(Error::InvalidToken)));
}

#[test]
fn login_requests_are_rate_limited() {
    let mut store = Store::new();
    seed_user(&mut store, "Test User", "test.user@urls.fyi");
    let ctx = ctx_at(T0);

    for _ in 0..3 {
        Mutation::request_login(&mut store, &ctx, XSRF, "test.user@urls.fyi").unwrap();
    }
    let fourth = Mutation::request_login(&mut store, &ctx, XSRF, "test.user@urls.fyi");
    assert!(matches!(fourth, Err(Error::LoginRateLimited)));

    // Once the oldest requests fall out of the rolling hour, new ones go
    // through again.
    let later = ctx_at(T0 + 3601);
    assert!(Mutation::request_login(&mut store, &later, XSRF, "test.user@urls.fyi").is_ok());
}

#[test]
fn test_invite_limit() {
    let mut store = Store::new();
    let user = seed_user(&mut store, "Test User", "test.user@urls.fyi");
    let admin = seed_user(&mut store, "Test Administrator", "test.admin@urls.fyi");
    Role::create(&mut store, Instant::from_secs(T0), &admin.id, Permission::Administrator);

    let mut user_ctx = ctx_at(T0 + 1);
    let msg = Mutation::request_login(&mut store, &user_ctx, XSRF, "test.user@urls.fyi").unwrap();
    let token = email_token_of(&msg.body);
    let session =
        Mutation::login(&mut store, &user_ctx, XSRF, "test.user@urls.fyi", &token).unwrap();
    Login::use_session(&mut store, &mut user_ctx, &session).unwrap();

    for _ in 0..3 {
        Mutation::issue_invite(&mut store, &user_ctx, XSRF).unwrap();
    }
    let fourth = Mutation::issue_invite(&mut store, &user_ctx, XSRF);
    assert!(matches!(fourth, Err(Error::QuotaExceeded)));

    let mut admin_ctx = ctx_at(T0 + 2);
    let msg = Mutation::request_login(&mut store, &admin_ctx, XSRF, "test.admin@urls.fyi")
        .unwrap();
    let token = email_token_of(&msg.body);
    let session =
        Mutation::login(&mut store, &admin_ctx, XSRF, "test.admin@urls.fyi", &token).unwrap();
    Login::use_session(&mut store, &mut admin_ctx, &session).unwrap();

    for _ in 0..10 {
        Mutation::issue_invite(&mut store, &admin_ctx, XSRF).unwrap();
    }
    let _ = user;
}

#[test]
fn test_grant_revoke_permissions() {
    let mut store = Store::new();
    seed_user(&mut store, "Test User", "test.user@urls.fyi");
    let admin = seed_user(&mut store, "Test Administrator", "test.admin@urls.fyi");

    // Without the Administrator role the grant is refused.
    let mut admin_ctx = ctx_at(T0 + 1);
    let msg = Mutation::request_login(&mut store, &admin_ctx, XSRF, "test.admin@urls.fyi")
        .unwrap();
    let token = email_token_of(&msg.body);
    let session =
        Mutation::login(&mut store, &admin_ctx, XSRF, "test.admin@urls.fyi", &token).unwrap();
    Login::use_session(&mut store, &mut admin_ctx, &session).unwrap();

    let refused = Mutation::grant_permission(
        &mut store,
        &admin_ctx,
        XSRF,
        Permission::Moderator,
        "test.user@urls.fyi",
    );
    assert!(matches!(refused, Err(Error::NotAuthorized)));

    Role::create(&mut store, Instant::from_secs(T0), &admin.id, Permission::Administrator);

    Mutation::grant_permission(
        &mut store,
        &admin_ctx,
        XSRF,
        Permission::Moderator,
        "test.user@urls.fyi",
    )
    .unwrap();
    let target = User::find_by_email(&store, "test.user@urls.fyi").unwrap();
    let perms = User::permissions(&store, &target.id);
    assert_eq!(perms, vec![Permission::Moderator]);

    Mutation::revoke_permission(
        &mut store,
        &admin_ctx,
        XSRF,
        Permission::Moderator,
        "test.user@urls.fyi",
    )
    .unwrap();
    let perms = User::permissions(&store, &target.id);
    assert_eq!(perms, Vec::<Permission>::new());
}

#[test]
fn test_create_account() {
    let mut store = Store::new();
    seed_user(&mut store, "Test User", "test.user@urls.fyi");

    let mut ctx = ctx_at(T0 + 1);
    let msg = Mutation::request_login(&mut store, &ctx, XSRF, "test.user@urls.fyi").unwrap();
    let token = email_token_of(&msg.body);
    let session = Mutation::login(&mut store, &ctx, XSRF, "test.user@urls.fyi", &token).unwrap();
    Login::use_session(&mut store, &mut ctx, &session).unwrap();

    let invite = Mutation::issue_invite(&mut store, &ctx, XSRF).unwrap();
    let invite_token = invite.token.clone();
    assert_eq!(invite_token.len(), 32);

    let registered = Mutation::register_user(
        &mut store,
        &ctx,
        XSRF,
        NewUserInput {
            name: "Test Register User".to_string(),
            email: "test.register@urls.fyi".to_string(),
        },
        &invite_token,
    )
    .unwrap();
    assert_eq!(registered.email, "test.register@urls.fyi");
    let claimed = Invite::find_by_token(&store, &invite_token).unwrap();
    assert!(claimed.claimed_by.is_some());

    let twice = Mutation::register_user(
        &mut store,
        &ctx,
        XSRF,
        NewUserInput {
            name: "Test Register User Twice".to_string(),
            email: "test.register.twice@urls.fyi".to_string(),
        },
        &invite_token,
    );
    assert!(matches!(twice, Err(Error::AlreadyClaimed)));
    assert!(User::find_by_email(&store, "test.register.twice@urls.fyi").is_err());

    let used = User::invite(&store, &registered.id).expect("the registration claimed an invite");
    assert_eq!(used.token, invite_token);
    assert!(User::invite(&store, &registered.id).is_some());
}

#[test]
fn bootstrap_is_idempotent() {
    let mut store = Store::new();
    let first = bootstrap(
        &mut store,
        Instant::from_secs(T0),
        NewUserInput {
            name: "Operator".to_string(),
            email: "operator@urls.fyi".to_string(),
        },
    )
    .unwrap();
    assert!(first.is_some());
    assert_eq!(store.roles.len(), 1);

    let second = bootstrap(
        &mut store,
        Instant::from_secs(T0 + 5),
        NewUserInput {
            name: "Another Operator".to_string(),
            email: "another@urls.fyi".to_string(),
        },
    )
    .unwrap();
    assert!(second.is_none());
    assert_eq!(store.roles.len(), 1);
    assert_eq!(store.users.len(), 1);
}

#[test]
fn xsrf_gate_blocks_mutations() {
    let mut store = Store::new();
    seed_user(&mut store, "Test User", "test.user@urls.fyi");
    let ctx = ctx_at(T0);

    let r = Mutation::request_login(&mut store, &ctx, "another-token", "test.user@urls.fyi");
    assert!(matches!(r, Err(Error::XsrfMismatch)));
    assert_eq!(store.logins.len(), 0);

    let r = Mutation::issue_invite(&mut store, &ctx, "another-token");
    assert!(matches!(r, Err(Error::XsrfMismatch)));
    assert_eq!(store.invites.len(), 0);

    let r = Mutation::submit_url(&mut store, &ctx, "another-token", "https://urls.fyi/x");
    assert!(matches!(r, Err(Error::XsrfMismatch)));
    assert_eq!(store.urls.len(), 0);
}

#[test]
fn anonymous_contexts_are_refused() {
    let mut store = Store::new();
    let ctx = ctx_at(T0);
    let r = Mutation::issue_invite(&mut store, &ctx, XSRF);
    assert!(matches!(r, Err(Error::NotAuthenticated)));
}

#[test]
fn user_validation_rejects_bad_input() {
    let mut store = Store::new();
    let now = Instant::from_secs(T0);
    let bad_email = User::create(
        &mut store,
        now,
        NewUserInput { name: "Someone".to_string(), email: "not-an-email".to_string() },
    );
    assert!(matches!(bad_email, Err(Error::InvalidInput)));

    let disposable = User::create(
        &mut store,
        now,
        NewUserInput { name: "Someone".to_string(), email: "spam@memeil.top".to_string() },
    );
    assert!(matches!(disposable, Err(Error::InvalidInput)));

    let empty_name = User::create(
        &mut store,
        now,
        NewUserInput { name: "   ".to_string(), email: "fine@urls.fyi".to_string() },
    );
    assert!(matches!(empty_name, Err(Error::InvalidInput)));

    let missing = User::find_by_email(&store, "nobody@urls.fyi");
    assert!(matches!(missing, Err(Error::Internal)));
}

#[test]
fn submission_flow_with_cascade_delete() {
    let mut store = Store::new();
    seed_user(&mut store, "Test User", "test.user@urls.fyi");
    let mut ctx = ctx_at(T0);
    let msg = Mutation::request_login(&mut store, &ctx, XSRF, "test.user@urls.fyi").unwrap();
    let token = email_token_of(&msg.body);
    let session = Mutation::login(&mut store, &ctx, XSRF, "test.user@urls.fyi", &token).unwrap();
    Login::use_session(&mut store, &mut ctx, &session).unwrap();

    let canonical = Mutation::submit_url(
        &mut store,
        &ctx,
        XSRF,
        "https://urls.fyi/article?utm_source=feed&id=7",
    )
    .unwrap();
    assert_eq!(canonical, "https://urls.fyi/article?id=7");

    let bad_fetch = Mutation::record_submission(
        &mut store,
        &ctx,
        XSRF,
        canonical.clone(),
        404,
        None,
        None,
        None,
    );
    assert!(matches!(bad_fetch, Err(Error::FetchFailed(404))));

    let url = Mutation::record_submission(
        &mut store,
        &ctx,
        XSRF,
        canonical.clone(),
        200,
        Some("An Article".to_string()),
        None,
        None,
    )
    .unwrap();

    let dup = Mutation::record_submission(
        &mut store,
        &ctx,
        XSRF,
        canonical.clone(),
        200,
        None,
        None,
        None,
    );
    assert!(matches!(dup, Err(Error::DuplicateUrl)));

    let url_id = url.id.duplicate();
    Mutation::upvote_url(&mut store, &ctx, XSRF, &url_id).unwrap();
    assert_eq!(store.upvotes.len(), 1);

    Mutation::comment(
        &mut store,
        &ctx,
        XSRF,
        NewCommentInput {
            comment: " a **fine** link ".to_string(),
            url: url_id.duplicate(),
            replies_to: None,
        },
    )
    .unwrap();
    assert_eq!(store.comments.len(), 1);
    assert_eq!(store.comments[0].text, "a **fine** link");

    Mutation::delete_url(&mut store, &ctx, XSRF, &url_id).unwrap();
    assert_eq!(store.urls.len(), 0);
    assert_eq!(store.upvotes.len(), 0);
    assert_eq!(store.comments.len(), 0);
}

#[test]
fn comments_with_replies_are_censored() {
    let mut store = Store::new();
    seed_user(&mut store, "Test User", "test.user@urls.fyi");
    let mut ctx = ctx_at(T0);
    let msg = Mutation::request_login(&mut store, &ctx, XSRF, "test.user@urls.fyi").unwrap();
    let token = email_token_of(&msg.body);
    let session = Mutation::login(&mut store, &ctx, XSRF, "test.user@urls.fyi", &token).unwrap();
    Login::use_session(&mut store, &mut ctx, &session).unwrap();

    let canonical =
        Mutation::submit_url(&mut store, &ctx, XSRF, "https://urls.fyi/thread").unwrap();
    let url = Mutation::record_submission(
        &mut store,
        &ctx,
        XSRF,
        canonical,
        200,
        None,
        None,
        None,
    )
    .unwrap();

    Mutation::comment(
        &mut store,
        &ctx,
        XSRF,
        NewCommentInput {
            comment: "parent".to_string(),
            url: url.id.duplicate(),
            replies_to: None,
        },
    )
    .unwrap();
    let parent_id = store.comments[0].id.duplicate();
    Mutation::comment(
        &mut store,
        &ctx,
        XSRF,
        NewCommentInput {
            comment: "child".to_string(),
            url: url.id.duplicate(),
            replies_to: Some(parent_id.duplicate()),
        },
    )
    .unwrap();

    Mutation::delete_comment(&mut store, &ctx, XSRF, &parent_id).unwrap();
    assert_eq!(store.comments.len(), 2);
    assert_eq!(store.comments[0].text, "[DELETED]");

    let child_id = store.comments[1].id.duplicate();
    Mutation::delete_comment(&mut store, &ctx, XSRF, &child_id).unwrap();
    assert_eq!(store.comments.len(), 1);
}

#[test]
fn counts_and_metadata_refresh() {
    let mut store = Store::new();
    seed_user(&mut store, "Test User", "test.user@urls.fyi");
    let mut ctx = ctx_at(T0);
    let msg = Mutation::request_login(&mut store, &ctx, XSRF, "test.user@urls.fyi").unwrap();
    let token = email_token_of(&msg.body);
    let session = Mutation::login(&mut store, &ctx, XSRF, "test.user@urls.fyi", &token).unwrap();
    Login::use_session(&mut store, &mut ctx, &session).unwrap();

    let canonical = Mutation::submit_url(&mut store, &ctx, XSRF, "https://urls.fyi/counted").unwrap();
    let url = Mutation::record_submission(
        &mut store,
        &ctx,
        XSRF,
        canonical,
        200,
        None,
        Some("kept description".to_string()),
        None,
    )
    .unwrap();
    let url_id = url.id.duplicate();

    Mutation::upvote_url(&mut store, &ctx, XSRF, &url_id).unwrap();
    Mutation::comment(
        &mut store,
        &ctx,
        XSRF,
        NewCommentInput {
            comment: "counted".to_string(),
            url: url_id.duplicate(),
            replies_to: None,
        },
    )
    .unwrap();

    assert_eq!(Url::upvote_count(&store, &url_id), 1);
    assert_eq!(urls_core::comment_count(&store, &url_id), 1);
    assert!(Url::upvoted_by_viewer(&store, &ctx, &url_id));
    let anon = ctx_at(T0 + 1);
    assert!(!Url::upvoted_by_viewer(&store, &anon, &url_id));

    assert!(store.comments[0].html().contains("<p>counted</p>"));

    Url::update_url_meta(
        &mut store,
        Instant::from_secs(T0 + 50),
        &url_id,
        503,
        Some("A Late Title".to_string()),
        None,
        None,
    )
    .unwrap();
    assert_eq!(store.urls[0].status_code, 503);
    assert_eq!(store.urls[0].title.as_deref(), Some("A Late Title"));
    assert_eq!(store.urls[0].description.as_deref(), Some("kept description"));
}

#[test]
fn malformed_urls_are_rejected() {
    let mut store = Store::new();
    seed_user(&mut store, "Test User", "test.user@urls.fyi");
    let mut ctx = ctx_at(T0);
    let msg = Mutation::request_login(&mut store, &ctx, XSRF, "test.user@urls.fyi").unwrap();
    let token = email_token_of(&msg.body);
    let session = Mutation::login(&mut store, &ctx, XSRF, "test.user@urls.fyi", &token).unwrap();
    Login::use_session(&mut store, &mut ctx, &session).unwrap();

    let r = Mutation::submit_url(&mut store, &ctx, XSRF, "not a url at all");
    assert!(matches!(r, Err(Error::InvalidInput)));
    assert_eq!(store.urls.len(), 0);
}

#[test]
fn markdown_renders_html() {
    let html = render_markdown("a **fine** link");
    assert!(html.contains("<strong>fine</strong>"));
    let paragraph = render_markdown("plain text");
    assert!(paragraph.contains("<p>plain text</p>"));
}

#[test]
fn session_not_found_for_unknown_token() {
    let mut store = Store::new();
    let mut ctx = ctx_at(T0);
    let r = Login::use_session(&mut store, &mut ctx, "no-such-session-token");
    assert!(matches!(r, Err(Error::SessionNotFound)));
}

#[test]
fn revoking_another_users_login_is_refused() {
    let mut store = Store::new();
    seed_user(&mut store, "Test User", "test.user@urls.fyi");
    let other = seed_user(&mut store, "Other User", "other.user@urls.fyi");
    let ctx = ctx_at(T0);
    let msg = Mutation::request_login(&mut store, &ctx, XSRF, "test.user@urls.fyi").unwrap();
    let token = email_token_of(&msg.body);
    Mutation::login(&mut store, &ctx, XSRF, "test.user@urls.fyi", &token).unwrap();
    let login_id = store.logins[0].id.duplicate();

    let now = Instant::from_secs(T0 + 5);
    let r = Login::revoke(&mut store, &login_id, &other.id, now);
    assert!(matches!(r, Err(Error::NotAuthorized)));
}
