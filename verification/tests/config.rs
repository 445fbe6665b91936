use flowbit::config::{
    CONFIG_TEMPLATE, Config, ConfigError, FilterConfig, GithubConfig, ProjectConfig, UiConfig,
    config_file_under, default_api_base_url, default_status_field, token_from_gh_output,
};

fn config(token: Option<&str>) -> Config {
    Config {
        github: GithubConfig { token: token.map(|t| t.to_string()), api_base_url: default_api_base_url() },
        project: ProjectConfig { owner: "acme".to_string(), number: Some(1), status_field: default_status_field() },
        ui: UiConfig { default_view: None, open_command: None, date_format: None },
        filter: FilterConfig { assignee: None, labels: None, kind: None, status: None },
    }
}

#[test]
fn defaults() {
    assert_eq!(default_api_base_url(), "https://api.github.com");
    assert_eq!(default_status_field(), "Status");
    assert!(CONFIG_TEMPLATE.starts_with("[github]\n"));
    assert!(CONFIG_TEMPLATE.contains("owner = \"your-org-or-user\""));
}

#[test]
fn token_from_environment_first() {
    let c = config(Some("file-token"));
    assert_eq!(c.github_token(Some("env-token".to_string()), Some("cli-token".to_string())), Ok("env-token".to_string()));
}

#[test]
fn empty_environment_token_is_skipped() {
    let c = config(Some("file-token"));
    assert_eq!(c.github_token(Some(String::new()), Some("cli-token".to_string())), Ok("cli-token".to_string()));
    assert_eq!(c.github_token(Some(String::new()), None), Ok("file-token".to_string()));
    assert!(!Config::is_usable_token(&Some(String::new())));
    assert!(Config::is_usable_token(&Some("x".to_string())));
}

#[test]
fn token_missing_everywhere() {
    assert_eq!(config(None).github_token(None, None), Err(ConfigError::TokenNotFound));
    assert_eq!(config(Some("")).github_token(None, None), Err(ConfigError::TokenNotFound));
}

#[test]
fn token_from_cli_output() {
    assert_eq!(token_from_gh_output(true, b"  gho_abc\n".to_vec()).as_deref(), Some("gho_abc"));
    assert_eq!(token_from_gh_output(false, b"gho_abc\n".to_vec()), None);
    assert_eq!(token_from_gh_output(true, b" \n".to_vec()), None);
    assert_eq!(token_from_gh_output(true, vec![0xff, 0x41]), None);
}

#[test]
fn config_path_prefers_xdg() {
    assert_eq!(
        Config::config_path_from(Some("/xdg".to_string()), Some(b"/home/u".to_vec())),
        Ok(b"/xdg/flowbit/config.toml".to_vec())
    );
    assert_eq!(
        Config::config_path_from(None, Some(b"/home/u/".to_vec())),
        Ok(b"/home/u/.config/flowbit/config.toml".to_vec())
    );
    assert_eq!(Config::config_path_from(None, None), Err(ConfigError::NoHomeDirectory));
    assert_eq!(Config::config_path(Some("/etc/x".to_string())), Ok(b"/etc/x/flowbit/config.toml".to_vec()));
    assert_eq!(config_file_under(b""), b"flowbit/config.toml".to_vec());
}

#[test]
fn home_paths_keep_non_utf8_bytes() {
    let home = vec![b'/', b'h', 0xff, b'x'];
    let mut expected = home.clone();
    expected.extend_from_slice(b"/.config/flowbit/config.toml");
    assert_eq!(Config::config_path_from(None, Some(home)), Ok(expected));
}
