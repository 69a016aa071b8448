use bank_ledger::api_errors::BankApiError;
use bank_ledger::config::{parse_u16, AppConfig, DBConfig, SecurityConfig, ServerConfig};
use bank_ledger::errors::{AppError, BankError};

#[test]
fn parse_u16_accepts_plain_and_signed_numbers() {
    assert_eq!(parse_u16("8080"), Some(8080));
    assert_eq!(parse_u16("0"), Some(0));
    assert_eq!(parse_u16("+123"), Some(123));
    assert_eq!(parse_u16("65535"), Some(65535));
    assert_eq!(parse_u16("007"), Some(7));
}

#[test]
fn parse_u16_rejects_what_std_rejects() {
    assert_eq!(parse_u16(""), None);
    assert_eq!(parse_u16("+"), None);
    assert_eq!(parse_u16("65536"), None);
    assert_eq!(parse_u16("99999999999999999999"), None);
    assert_eq!(parse_u16("12a"), None);
    assert_eq!(parse_u16("-1"), None);
    assert_eq!(parse_u16(" 1"), None);
    assert_eq!(parse_u16("1 "), None);
    assert_eq!(parse_u16("++1"), None);
    // the model and std agree on every case above
    assert_eq!("8080".parse::<u16>().ok(), parse_u16("8080"));
    assert_eq!("+123".parse::<u16>().ok(), parse_u16("+123"));
    assert_eq!("65536".parse::<u16>().ok(), parse_u16("65536"));
    assert_eq!("12a".parse::<u16>().ok(), parse_u16("12a"));
    assert_eq!("".parse::<u16>().ok(), parse_u16(""));
    assert_eq!("+".parse::<u16>().ok(), parse_u16("+"));
}

#[test]
fn server_config_loads_host_and_port() {
    let cfg = ServerConfig::load(Some("0.0.0.0".to_string()), Some("9000".to_string())).unwrap();
    assert_eq!(cfg.host, "0.0.0.0");
    assert_eq!(cfg.port, 9000);
}

#[test]
fn server_config_reports_the_missing_parameter() {
    let missing_host = ServerConfig::load(None, Some("9000".to_string()));
    match missing_host {
        Err(AppError::Configuration(name, _)) => assert_eq!(name, "SERVER_HOST"),
        other => panic!("expected a configuration error, got {:?}", other),
    }
    let missing_port = ServerConfig::load(Some("h".to_string()), None);
    match missing_port {
        Err(AppError::Configuration(name, _)) => assert_eq!(name, "SERVER_PORT"),
        other => panic!("expected a configuration error, got {:?}", other),
    }
    let bad_port = ServerConfig::load(Some("h".to_string()), Some("eighty".to_string()));
    match bad_port {
        Err(AppError::Configuration(name, _)) => assert_eq!(name, "SERVER_PORT"),
        other => panic!("expected a configuration error, got {:?}", other),
    }
}

#[test]
fn security_config_keeps_the_default_max_age() {
    let cfg = SecurityConfig::load(Some("https://example.test".to_string())).unwrap();
    assert_eq!(cfg.cors_origin, "https://example.test");
    assert_eq!(cfg.cors_max_age, 600);

    let missing = SecurityConfig::load(None);
    assert!(matches!(missing, Err(AppError::Configuration(_, _))));
}

#[test]
fn db_config_loads_with_ten_pooled_connections() {
    let cfg = DBConfig::load(Some("postgres://localhost/bank".to_string())).unwrap();
    assert_eq!(cfg.database_url, "postgres://localhost/bank");
    assert_eq!(cfg.max_conn, 10);
}

#[test]
fn app_config_init_composes_the_sections() {
    let cfg = AppConfig::init(
        Some("127.0.0.1".to_string()),
        Some("8081".to_string()),
        Some("*".to_string()),
    )
    .unwrap();
    assert_eq!(cfg.server.host, "127.0.0.1");
    assert_eq!(cfg.server.port, 8081);
    assert_eq!(cfg.security.cors_origin, "*");
    assert_eq!(cfg.security.cors_max_age, 600);
    assert_eq!(cfg.db.database_url, "");
    assert_eq!(cfg.db.max_conn, 0);

    let missing_cors = AppConfig::init(
        Some("127.0.0.1".to_string()),
        Some("8081".to_string()),
        None,
    );
    match missing_cors {
        Err(AppError::Configuration(name, _)) => assert_eq!(name, "CORS_ORIGIN"),
        other => panic!("expected a configuration error, got {:?}", other),
    }
}

#[test]
fn defaults_match_the_documented_values() {
    let server = ServerConfig::default();
    assert_eq!(server.host, "127.0.0.1");
    assert_eq!(server.port, 8080);
    let security = SecurityConfig::default();
    assert_eq!(security.cors_origin, "*");
    assert_eq!(security.cors_max_age, 600);
    let app = AppConfig::default();
    assert_eq!(app.db.database_url, "");
    assert_eq!(app.db.max_conn, 0);
}

#[test]
fn cfg_err_replaces_an_empty_parameter_name() {
    let named = AppError::cfg_err("PORT".to_string(), "broken".to_string());
    match named {
        AppError::Configuration(name, msg) => {
            assert_eq!(name, "PORT");
            assert_eq!(msg, "broken");
        }
        other => panic!("expected a configuration error, got {:?}", other),
    }
    let unnamed = AppError::cfg_err(String::new(), "broken".to_string());
    match unnamed {
        AppError::Configuration(name, _) => assert_eq!(name, "ОБЩАЯ"),
        other => panic!("expected a configuration error, got {:?}", other),
    }
}

#[test]
fn error_constructors_build_their_variants() {
    assert!(matches!(AppError::db_err("x".to_string()), AppError::Database(_)));
    assert!(matches!(BankError::validation("x".to_string()), BankError::Validation(_)));
    assert!(matches!(BankError::not_found("x".to_string()), BankError::NotFound(_)));
    assert!(matches!(BankError::db_err("x".to_string()), BankError::Database(_)));
}

#[test]
fn status_codes_follow_the_error_kind() {
    assert_eq!(BankApiError::Domain(BankError::validation("v".to_string())).status_code(), 400);
    assert_eq!(BankApiError::Domain(BankError::InsufficientFunds).status_code(), 400);
    assert_eq!(BankApiError::Domain(BankError::db_err("d".to_string())).status_code(), 400);
    assert_eq!(BankApiError::Domain(BankError::not_found("n".to_string())).status_code(), 404);
    assert_eq!(BankApiError::Domain(BankError::Unauthorized).status_code(), 401);
    let wrapped = BankApiError::from(BankError::Unauthorized);
    assert_eq!(wrapped.status_code(), 401);
}
