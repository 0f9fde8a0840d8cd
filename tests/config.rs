use newnew::config::{config_path, expand_home, template_dir, Config, Settings};
use newnew::paths::join_path;

#[test]
fn default_settings_use_dev_in_home() {
    assert_eq!(Settings::in_home("/home/u").projects_dir, "/home/u/Dev");
    assert_eq!(Config::in_home("/home/u/").settings.projects_dir, "/home/u/Dev");
}

#[test]
fn tool_paths() {
    assert_eq!(config_path("/home/u"), "/home/u/.config/newnew/newnew.toml");
    assert_eq!(template_dir("/home/u"), "/home/u/.config/newnew/templates");
}

#[test]
fn join_paths() {
    assert_eq!(join_path("a", "b"), "a/b");
    assert_eq!(join_path("a/", "b"), "a/b");
    assert_eq!(join_path("", "b"), "b");
    assert_eq!(join_path("a", "/b"), "/b");
}

#[test]
fn home_is_expanded() {
    assert_eq!(expand_home("~", "/home/u"), "/home/u");
    assert_eq!(expand_home("~/Dev", "/home/u"), "/home/u/Dev");
    assert_eq!(expand_home("/srv/dev", "/home/u"), "/srv/dev");
    assert_eq!(expand_home("~other/x", "/home/u"), "~other/x");
}
