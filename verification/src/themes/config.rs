//! The configuration that one theme may carry of its own.

use vstd::prelude::*;

use crate::config::{expand_and_resolve, plain, resolves_to, ConfigError};
use crate::paths::{join, joined};
use crate::themes::opt_text;

verus! {

/// The directories of one theme, resolved.
#[derive(Debug)]
pub struct ResolvedDirs {
    pub schemes: String,
    pub templates: String,
    pub render: String,
}

/// A theme's own configuration.
#[derive(Debug)]
pub struct Config {
    /// Whether the theme renders into the project's shared target.
    pub inherit: bool,
    pub dirs: ResolvedDirs,
}

/// The directories of one theme, as written.
#[derive(Debug)]
pub struct Dirs {
    pub schemes: String,
    pub templates: String,
    pub render: String,
}

impl Default for Dirs {
    fn default() -> (dirs: Self)
        ensures
            dirs.schemes@ == "schemes"@,
            dirs.templates@ == "templates"@,
            dirs.render@ == "render"@,
    {
        Dirs {
            schemes: "schemes".to_owned(),
            templates: "templates".to_owned(),
            render: "render".to_owned(),
        }
    }
}

/// A theme's configuration as written.
#[derive(Debug)]
pub struct Raw {
    pub inherit: bool,
    pub dirs: Dirs,
}

impl Default for Raw {
    fn default() -> (raw: Self)
        ensures
            !raw.inherit,
            raw.dirs.schemes@ == "schemes"@,
            raw.dirs.templates@ == "templates"@,
            raw.dirs.render@ == "render"@,
    {
        Raw { inherit: false, dirs: Dirs::default() }
    }
}

/// The directory that a theme renders into: under the project's shared
/// render target, in a directory of the theme's name, where the theme
/// inherits and the project has such a target; else the theme's own render
/// directory under the theme's directory.
pub open spec fn render_dir_of(
    inherit: bool,
    render: Seq<char>,
    themes_dir: Seq<char>,
    name: Seq<char>,
    render_all_into: Option<Seq<char>>,
) -> Seq<char> {
    if inherit && render_all_into is Some {
        joined(render_all_into->0, name)
    } else {
        joined(themes_dir, render)
    }
}

/// The directory that a theme renders into.
pub fn render_dir(
    inherit: bool,
    render: &str,
    themes_dir: &str,
    name: &str,
    render_all_into: &Option<String>,
) -> (dir: String)
    ensures
        dir@ == render_dir_of(inherit, render@, themes_dir@, name@, opt_text(*render_all_into)),
{
    if inherit {
        match render_all_into {
            Some(shared) => join(shared.as_str(), name),
            None => join(themes_dir, render),
        }
    } else {
        join(themes_dir, render)
    }
}

/// Resolves a theme's configuration as written against the theme's
/// directory. The render directory is fixed by what is written. The other two
/// are expanded as a shell would: where they hold nothing to expand they
/// always resolve, otherwise the environment decides, and the only failure is
/// that of expanding one of them.
pub fn load(raw: Raw, themes_dir: &str, name: &str, render_all_into: &Option<String>) -> (config:
    Result<Option<Config>, ConfigError>)
    ensures
        plain(raw.dirs.schemes@) && plain(raw.dirs.templates@) ==> config is Ok,
        match config {
            Ok(Some(c)) => {
                &&& c.inherit == raw.inherit
                &&& resolves_to(raw.dirs.schemes@, themes_dir@, c.dirs.schemes@)
                &&& resolves_to(raw.dirs.templates@, themes_dir@, c.dirs.templates@)
                &&& c.dirs.render@ == render_dir_of(
                    raw.inherit,
                    raw.dirs.render@,
                    themes_dir@,
                    name@,
                    opt_text(*render_all_into),
                )
            },
            Ok(None) => false,
            Err(error) => {
                &&& error matches ConfigError::ExpandingPath { path: p, .. } && !plain(p@) && (p@
                    == raw.dirs.schemes@ || p@ == raw.dirs.templates@)
            },
        },
{
    let schemes = match expand_and_resolve(raw.dirs.schemes.as_str(), themes_dir) {
        Ok(p) => p,
        Err(e) => {
            return Err(e);
        },
    };
    let templates = match expand_and_resolve(raw.dirs.templates.as_str(), themes_dir) {
        Ok(p) => p,
        Err(e) => {
            return Err(e);
        },
    };
    let render = render_dir(raw.inherit, raw.dirs.render.as_str(), themes_dir, name, render_all_into);
    Ok(Some(Config { inherit: raw.inherit, dirs: ResolvedDirs { schemes, templates, render } }))
}

} // verus!
