//! Resolved configuration values and the page error mapping.

use urls_core::not_found;
use urls_core::request;
use urls_core::Config;
use urls_core::Error;
use urls_core::ServerError;
use urls_core::SmtpConfig;

fn config_with(database_url: &str) -> Config {
    Config {
        database_url: database_url.to_string(),
        www_dir: "www/static".to_string(),
        session_key: b"test key".to_vec(),
        host_name: "localhost".to_string(),
        smtp_config: None,
    }
}

#[test]
fn database_file_strips_prefix_and_query() {
    let conf = config_with("file:urls.sqlite?mode=memory&cache=shared");
    assert_eq!(conf.database_file(), "urls.sqlite");

    let plain = config_with("file:urls.sqlite");
    assert_eq!(plain.database_file(), "urls.sqlite");

    let bare = config_with("urls.sqlite");
    assert_eq!(bare.database_file(), "urls.sqlite");
}

#[test]
fn smtp_port_defaults() {
    let smtp = SmtpConfig {
        smtp_host: "smtp.example.com".to_string(),
        smtp_port: None,
        smtp_user: "mailer".to_string(),
        smtp_password: "test-password".to_string(),
    };
    assert_eq!(smtp.port(), 587);
    let smtp = SmtpConfig { smtp_port: Some(2525), ..smtp };
    assert_eq!(smtp.port(), 2525);
    assert_eq!(smtp.host(), "smtp.example.com");
    assert_eq!(smtp.user(), "mailer");
}

#[test]
fn page_error_mapping() {
    assert_eq!(not_found(&Error::Internal), ServerError::NotFound);
    assert_eq!(request(&Error::InvalidInput), ServerError::Request);
}
