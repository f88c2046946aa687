use halvor::settings::{
    accepts_default, confirms_change, default_env_path, expand_path_input, get_config_dir, get_config_file_path,
    get_db_path, get_env_file_path, get_home_dir, get_release_channel, key_file_path, path_join,
    set_env_file_path, set_env_path, set_release_channel, HalConfig, PathInputError, ReleaseChannel,
};

#[test]
fn paths_under_the_home_directory() {
    assert_eq!(get_config_dir("/home/me"), "/home/me/.config/halvor");
    assert_eq!(get_config_file_path("/home/me/.config/halvor"), "/home/me/.config/halvor/config.toml");
    assert_eq!(get_db_path("/c/"), "/c/halvor.db");
    assert_eq!(key_file_path("/c"), "/c/.halvor_key");
    assert_eq!(default_env_path("/home/me"), "/home/me/.env");
    assert_eq!(path_join("", "x"), "x");
    assert_eq!(get_home_dir(None, Some("C:\\Users\\me")), Some("C:\\Users\\me".to_string()));
    assert_eq!(get_home_dir(Some("/h"), Some("/u")), Some("/h".to_string()));
    assert_eq!(get_home_dir(None, None), None);
}

#[test]
fn channel_and_env_file_settings() {
    assert_eq!(get_release_channel(None), ReleaseChannel::Stable);
    let c = set_release_channel(None, ReleaseChannel::Experimental);
    assert_eq!(c.release_channel, ReleaseChannel::Experimental);
    assert_eq!(c.env_file_path, None);
    let c = set_env_file_path(Some(c), "/x/.env");
    assert_eq!(c.env_file_path, Some("/x/.env".to_string()));
    assert_eq!(c.release_channel, ReleaseChannel::Experimental);
    assert_eq!(get_release_channel(Some(c)), ReleaseChannel::Experimental);
    assert_eq!(get_env_file_path(Some(set_env_path(None, "/y/.env"))), Some("/y/.env".to_string()));
    assert_eq!(get_env_file_path(Some(HalConfig::default())), None);
    assert_eq!(ReleaseChannel::Experimental.name(), "experimental");
}

#[test]
fn typed_paths() {
    assert_eq!(expand_path_input("  ~/envs/.env \n", "/home/me").unwrap(), "/home/me/envs/.env");
    assert_eq!(expand_path_input("~", "/home/me").unwrap(), "/home/me/");
    assert_eq!(expand_path_input("/abs/.env", "/home/me").unwrap(), "/abs/.env");
    assert_eq!(expand_path_input("   ", "/home/me"), Err(PathInputError::Empty));
}

#[test]
fn answers() {
    assert!(confirms_change(" Y \n"));
    assert!(!confirms_change("yes"));
    assert!(accepts_default(""));
    assert!(accepts_default("YES"));
    assert!(!accepts_default("no"));
}
