use syd::{file_name_of, resolve, resolve_entries, Config, ConfigError, SydError};

const FULL: &str = "[files]\nfolder = \"/backups/mirror\"\npaths = [\"/home/user/.vimrc\", \"/etc/hosts\"]\n\n[git]\nremote_url = \"git@example.com:user/dotfiles.git\"\nbranch = \"trunk\"\n";

#[test]
fn load_reads_every_field() {
    let text = FULL.to_string();
    let cfg = Config::load(Some(&text)).unwrap();
    assert_eq!(cfg.files.folder, "/backups/mirror");
    assert_eq!(cfg.files.paths, vec!["/home/user/.vimrc".to_string(), "/etc/hosts".to_string()]);
    assert_eq!(cfg.git.remote_url, "git@example.com:user/dotfiles.git");
    assert_eq!(cfg.git.branch, "trunk");
}

#[test]
fn load_defaults_branch_to_main() {
    let text = "[files]\nfolder = \"/m\"\npaths = []\n[git]\nremote_url = \"u\"\n".to_string();
    let cfg = Config::load(Some(&text)).unwrap();
    assert_eq!(cfg.git.branch, "main");
}

#[test]
fn load_defaults_paths_to_empty() {
    let text = "[files]\nfolder = \"/m\"\n[git]\nremote_url = \"u\"\n".to_string();
    let cfg = Config::load(Some(&text)).unwrap();
    assert!(cfg.files.paths.is_empty());
}

#[test]
fn load_rejects_missing_folder() {
    let text = "[files]\npaths = []\n[git]\nremote_url = \"u\"\n".to_string();
    let r = Config::load(Some(&text));
    assert!(matches!(r, Err(SydError::Config(ConfigError::Parse))));
}

#[test]
fn load_rejects_missing_remote_url() {
    let text = "[files]\nfolder = \"/m\"\npaths = []\n[git]\nbranch = \"main\"\n".to_string();
    let r = Config::load(Some(&text));
    assert!(matches!(r, Err(SydError::Config(ConfigError::Parse))));
}

#[test]
fn load_rejects_malformed_toml() {
    let text = "this is [[[ not toml".to_string();
    let r = Config::load(Some(&text));
    assert!(matches!(r, Err(SydError::Config(ConfigError::Parse))));
}

#[test]
fn load_without_file_is_not_found() {
    let r = Config::load(None);
    assert!(matches!(r, Err(SydError::Config(ConfigError::NotFound))));
}

#[test]
fn validate_accepts_loaded_config() {
    let text = FULL.to_string();
    let cfg = Config::load(Some(&text)).unwrap();
    assert!(cfg.validate().is_ok());
}

#[test]
fn resolve_keeps_absolute_path() {
    let p = "/etc/hosts".to_string();
    assert_eq!(resolve(&p).unwrap(), "/etc/hosts");
}

#[test]
fn resolve_keeps_relative_path_without_shorthand() {
    let p = "notes/todo.txt".to_string();
    assert_eq!(resolve(&p).unwrap(), "notes/todo.txt");
}

#[test]
fn file_name_of_takes_last_component() {
    assert_eq!(file_name_of(&"/a/b/conf.txt".to_string()).unwrap(), "conf.txt");
    assert_eq!(file_name_of(&"plain".to_string()).unwrap(), "plain");
    assert_eq!(file_name_of(&"/home/user/.vimrc".to_string()).unwrap(), ".vimrc");
}

#[test]
fn file_name_of_rejects_unusable_paths() {
    assert!(file_name_of(&"/".to_string()).is_none());
    assert!(file_name_of(&"/a/b/".to_string()).is_none());
    assert!(file_name_of(&"/a/..".to_string()).is_none());
    assert!(file_name_of(&".".to_string()).is_none());
    assert!(file_name_of(&"".to_string()).is_none());
}

#[test]
fn resolve_entries_extracts_mirror_names() {
    let text = "[files]\nfolder = \"/m\"\npaths = [\"/a/b/conf.txt\", \"/c/.bashrc\"]\n[git]\nremote_url = \"u\"\n"
        .to_string();
    let cfg = Config::load(Some(&text)).unwrap();
    let entries = resolve_entries(&cfg).unwrap();
    assert_eq!(entries.len(), 2);
    assert_eq!(entries[0].live_path, "/a/b/conf.txt");
    assert_eq!(entries[0].file_name, "conf.txt");
    assert_eq!(entries[1].live_path, "/c/.bashrc");
    assert_eq!(entries[1].file_name, ".bashrc");
}

#[test]
fn resolve_entries_rejects_path_without_file_name() {
    let text = "[files]\nfolder = \"/m\"\npaths = [\"/\"]\n[git]\nremote_url = \"u\"\n".to_string();
    let cfg = Config::load(Some(&text)).unwrap();
    let r = resolve_entries(&cfg);
    assert!(matches!(r, Err(SydError::Io(_))));
}
