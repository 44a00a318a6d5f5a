use config::{Config, File, FileFormat};
use rank2collection::app_config::AppConfig;

fn load(toml: &str) -> Config {
    Config::builder()
        .add_source(File::from_str(toml, FileFormat::Toml))
        .build()
        .unwrap()
}

const FULL: &str = r#"
neodb_enable = true
neodb_download = false
neodb_username = "alice"
neodb_token = "n-token"
bangumi_enable = "yes"
bangumi_download = true
bangumi_username = "sai"
bangumi_token = 12345
"#;

#[test]
fn from_file_reads_all_settings() {
    let settings = AppConfig::from_file(&load(FULL)).unwrap();
    assert!(settings.neodb_enable);
    assert!(!settings.neodb_download);
    assert_eq!(settings.neodb_username, "alice");
    assert_eq!(settings.neodb_token, "n-token");
    assert!(settings.bangumi_enable);
    assert!(settings.bangumi_download);
    assert_eq!(settings.bangumi_username, "sai");
    assert_eq!(settings.bangumi_token, "12345");
}

#[test]
fn from_file_reports_first_missing_setting() {
    let without_token = FULL.replace("neodb_token = \"n-token\"", "");
    let err = AppConfig::from_file(&load(&without_token)).unwrap_err();
    assert_eq!(err.key, "neodb_token");
    let nothing = AppConfig::from_file(&load("")).unwrap_err();
    assert_eq!(nothing.key, "neodb_enable");
}

#[test]
fn from_file_reports_badly_typed_setting() {
    let bad_flag = FULL.replace("bangumi_download = true", "bangumi_download = \"maybe\"");
    let err = AppConfig::from_file(&load(&bad_flag)).unwrap_err();
    assert_eq!(err.key, "bangumi_download");
}
