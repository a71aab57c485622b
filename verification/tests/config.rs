use twebd::cli;
use twebd::log::{loggable, Color, LogLevel};
use twebd::net::DataProtocol;
use twebd::tls::{load_cert, load_priv_key, TlsConfigBuilder, TlsConfigError};

fn pem(section: &str, b64: &str) -> Vec<u8> {
    format!(
        "-----BEGIN {}-----\n{}\n-----END {}-----\n",
        section, b64, section
    )
    .into_bytes()
}

#[test]
fn cert_chain_is_extracted_from_pem() {
    // AQID is the base64 form of the bytes 1, 2, 3
    let bytes = pem("CERTIFICATE", "AQID");
    let chain = load_cert(&bytes).unwrap();
    assert_eq!(chain, vec![vec![1u8, 2, 3]]);
}

#[test]
fn empty_cert_pem_is_rejected() {
    let r = load_cert(&b"no pem here".to_vec());
    assert!(matches!(r, Err(TlsConfigError::Certificate)));
}

#[test]
fn exactly_one_private_key_is_required() {
    let one = pem("PRIVATE KEY", "AQID");
    assert_eq!(load_priv_key(&one).unwrap(), vec![1u8, 2, 3]);
    let none = b"nothing".to_vec();
    assert!(matches!(load_priv_key(&none), Err(TlsConfigError::PrivateKey)));
    let mut two = pem("PRIVATE KEY", "AQID");
    two.extend_from_slice(&pem("PRIVATE KEY", "BAUG"));
    assert!(matches!(load_priv_key(&two), Err(TlsConfigError::PrivateKey)));
}

#[test]
fn garbage_key_material_fails_in_the_backend() {
    let builder = TlsConfigBuilder::new(true, pem("CERTIFICATE", "AQID"), pem("PRIVATE KEY", "AQID"));
    assert_eq!(builder.https_enabled, true);
    let r = builder.build();
    assert!(matches!(r, Err(TlsConfigError::TlsError(_))));
}

#[test]
fn build_reports_missing_material_first() {
    let builder = TlsConfigBuilder::new(true, b"x".to_vec(), b"y".to_vec());
    assert!(matches!(builder.build(), Err(TlsConfigError::Certificate)));
    let builder = TlsConfigBuilder::new(true, pem("CERTIFICATE", "AQID"), b"y".to_vec());
    assert!(matches!(builder.build(), Err(TlsConfigError::PrivateKey)));
}

#[test]
fn command_line_defaults() {
    assert_eq!(cli::port(), 8080);
    assert_eq!(cli::protocol(), DataProtocol::Tcp);
    assert_eq!(cli::directory(), "./public".to_string());
    assert_eq!(cli::loglevel(), LogLevel::Info);
    assert_eq!(cli::threads(), 4);
    assert_eq!(cli::threads_max(), 10);
    assert_eq!(cli::https(), false);
    assert_eq!(cli::https_cert(), "./ssl/localhost.crt".to_string());
    assert_eq!(cli::https_priv_key(), "./ssl/localhost.key".to_string());
}

#[test]
fn log_levels_filter_by_severity() {
    assert!(loggable(&LogLevel::Error, &LogLevel::Info));
    assert!(loggable(&LogLevel::Info, &LogLevel::Info));
    assert!(!loggable(&LogLevel::Debug, &LogLevel::Info));
    assert!(!loggable(&LogLevel::Error, &LogLevel::Off));
}

#[test]
fn colors_wrap_the_message_in_ansi_escapes() {
    assert_eq!(Color::color(&Color::Red, "boom"), "\u{001b}[31;1mboom\u{001b}[0m");
    assert_eq!(Color::color(&Color::Plain, "x"), "\u{001b}[0mx\u{001b}[0m");
}

#[test]
fn well_formed_key_material_builds_a_config() {
    // a PKCS#8 v1 Ed25519 private key, which rustls accepts
    let key_pem = pem(
        "PRIVATE KEY",
        "MC4CAQAwBQYDK2VwBCIEIAEBAQEBAQEBAQEBAQEBAQEBAQEBAQEBAQEBAQEBAQEB",
    );
    let cert_pem = pem("CERTIFICATE", "AQID");
    let builder = TlsConfigBuilder::new(true, cert_pem, key_pem);
    assert!(builder.build().is_ok());
}
