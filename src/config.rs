//! Where the tool keeps its files, and where projects are created. The
//! home directory is always passed in, never looked up here.
use vstd::prelude::*;
use crate::paths::{join_path, joined};
use crate::text::chars_of;

verus! {

/// Settings of the tool.
#[derive(Debug)]
pub struct Settings {
    /// The directory in which projects are created.
    pub projects_dir: String,
}

/// The tool's configuration.
#[derive(Debug)]
pub struct Config {
    pub settings: Settings,
}

/// The directory that holds the tool's configuration and templates.
pub open spec fn config_dir_of(home: Seq<char>) -> Seq<char> {
    joined(joined(home, ".config"@), "newnew"@)
}

/// The default directory for projects: `Dev` in the home directory.
pub open spec fn default_projects_dir(home: Seq<char>) -> Seq<char> {
    joined(home, "Dev"@)
}

impl Settings {
    /// The default settings for the given home directory.
    pub fn in_home(home: &str) -> (r: Settings)
        ensures
            r.projects_dir@ == default_projects_dir(home@),
    {
        Settings { projects_dir: join_path(home, "Dev") }
    }
}

impl Config {
    /// The default configuration for the given home directory.
    pub fn in_home(home: &str) -> (r: Config)
        ensures
            r.settings.projects_dir@ == default_projects_dir(home@),
    {
        Config { settings: Settings::in_home(home) }
    }
}

fn config_dir(home: &str) -> (r: String)
    ensures
        r@ == config_dir_of(home@),
{
    let dot_config = join_path(home, ".config");
    join_path(dot_config.as_str(), "newnew")
}

/// The configuration file.
pub fn config_path(home: &str) -> (r: String)
    ensures
        r@ == joined(config_dir_of(home@), "newnew.toml"@),
{
    let dir = config_dir(home);
    join_path(dir.as_str(), "newnew.toml")
}

/// The directory that holds template definitions and the files they copy.
pub fn template_dir(home: &str) -> (r: String)
    ensures
        r@ == joined(config_dir_of(home@), "templates"@),
{
    let dir = config_dir(home);
    join_path(dir.as_str(), "templates")
}

/// `path` with a leading `~` standing for the home directory: `~` alone is
/// the home directory, and `~/rest` is `rest` inside it. Other paths are
/// kept as they are.
pub open spec fn home_expanded(path: Seq<char>, home: Seq<char>) -> Seq<char> {
    if path.len() == 1 && path[0] == '~' {
        home
    } else if path.len() >= 2 && path[0] == '~' && path[1] == '/' {
        joined(home, path.skip(2))
    } else {
        path
    }
}

/// Resolves a leading `~` in a path against the home directory.
pub fn expand_home(path: &str, home: &str) -> (r: String)
    ensures
        r@ == home_expanded(path@, home@),
{
    let p = chars_of(path);
    if p.len() == 1 && p[0] == '~' {
        String::from_str(home)
    } else if p.len() >= 2 && p[0] == '~' && p[1] == '/' {
        let rest = crate::text::text_of(&p, 2, p.len());
        assert(rest@ =~= path@.skip(2));
        join_path(home, rest.as_str())
    } else {
        String::from_str(path)
    }
}

} // verus!
