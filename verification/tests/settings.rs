//! The request gate around the store: a shared-key check driven by the
//! process settings.

use survey_store::{request_valid, Database, Settings};

fn settings(api_validation: bool) -> Settings {
    Settings {
        port: 8080,
        bind: "127.0.0.1".to_string(),
        database: Database {
            user: "survey".to_string(),
            password: "survey".to_string(),
            bind: "127.0.0.1".to_string(),
            port: 3306,
            name: "survey".to_string(),
        },
        api_key: "SECRET-REDACTED".to_string(),
        api_validation,
    }
}

#[test]
fn request_validation_follows_the_settings() {
    let guarded = settings(true);
    assert!(request_valid(&guarded, Some(&"SECRET-REDACTED".to_string())));
    assert!(!request_valid(&guarded, Some(&"wrong".to_string())));
    assert!(!request_valid(&guarded, None));
}

#[test]
fn validation_switched_off_admits_every_request() {
    let open = settings(false);
    assert!(request_valid(&open, None));
    assert!(request_valid(&open, Some(&"anything".to_string())));
}
