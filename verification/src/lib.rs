//! Incremental rendering of theme and colour-scheme artifacts.
//!
//! The crate keeps a generated tree in sync with the templates, themes and
//! schemes it was rendered from, without overwriting files that were edited by
//! hand afterwards. The library decides and the caller acts: reading and
//! writing files, rendering templates and inspecting repositories are left to
//! the caller, who hands the results in as plain values. The one thing the
//! library looks up itself is the environment, when it expands a path.

use vstd::prelude::*;

pub mod config;
pub mod digest;
pub mod extensions;
pub mod manifest;
pub mod ordered;
pub mod output;
pub mod paths;
pub mod render;
pub mod templates;
pub mod text;
pub mod themes;

pub use self::config::{Config, ProjectType};
pub use self::manifest::{Manifest, ManifestEntry};
pub use self::themes::{Scheme, Theme};

use self::config::ConfigError;
use self::manifest::Error as ManifestError;
use self::templates::providers::ProviderError;

verus! {

/// Why a run failed. Every failure of a run is one of these.
#[derive(Debug)]
pub enum Error {
    /// The configuration could not be found or resolved.
    Config(ConfigError),
    /// The stored record of the last run could not be had.
    Manifest(ManifestError),
    /// A theme could not be loaded.
    Theme(String),
    /// A scheme could not be loaded.
    Scheme(String),
    /// A palette is not well-formed.
    Swatch(String),
    /// A role could not be resolved.
    Role(String),
    /// A name is not valid.
    Name(String),
    /// A template could not be processed.
    Template(String),
    /// A directive is not well-formed.
    Directive(String),
    /// No link could be built for a hosting provider.
    Provider(ProviderError),
    /// A file could not be rendered.
    Rendering(String),
    /// The repository around a file could not be inspected.
    Upstream(String),
    /// A defect of this crate or of the code around it, not of the input.
    InternalBug { module: String, reason: String },
    /// A file could not be read or written.
    Io(String),
}

impl Error {
    /// The failure to process a template, with its cause.
    pub fn template(cause: String) -> (error: Self)
        ensures
            error matches Error::Template(c) && c == cause,
    {
        Error::Template(cause)
    }

    /// The failure to render a file, with its cause.
    pub fn rendering(cause: String) -> (error: Self)
        ensures
            error matches Error::Rendering(c) && c == cause,
    {
        Error::Rendering(cause)
    }

    /// What the error says.
    pub open spec fn text(&self) -> Seq<char> {
        match self {
            Error::Config(cause) => "configuration error: "@ + cause.text(),
            Error::Manifest(cause) => "manifest error: "@ + cause.text(),
            Error::Theme(cause) => "theme error: "@ + cause@,
            Error::Scheme(cause) => "scheme error: "@ + cause@,
            Error::Swatch(cause) => "palette error: "@ + cause@,
            Error::Role(cause) => "role error: "@ + cause@,
            Error::Name(cause) => "name validation error: "@ + cause@,
            Error::Template(cause) => "error processing template: "@ + cause@,
            Error::Directive(cause) => "directive error: "@ + cause@,
            Error::Provider(cause) => "git provider error: "@ + cause.text(),
            Error::Rendering(cause) => "error rendering: "@ + cause@,
            Error::Upstream(cause) => "upstream error: "@ + cause@,
            Error::InternalBug { module, reason } => "internal error in "@ + module@ + ": "@ + reason@ + "! this is a bug!"@,
            Error::Io(cause) => "file system error: "@ + cause@,
        }
    }

    /// What the error says, for a reader.
    pub fn message(&self) -> (m: String)
        ensures
            m@ == self.text(),
    {
        match self {
            Error::Config(cause) => {
                let mut m: String = "configuration error: ".to_owned();
                m.append(cause.message().as_str());
                m
            },
            Error::Manifest(cause) => {
                let mut m: String = "manifest error: ".to_owned();
                m.append(cause.message().as_str());
                m
            },
            Error::Theme(cause) => {
                let mut m: String = "theme error: ".to_owned();
                m.append(cause.as_str());
                m
            },
            Error::Scheme(cause) => {
                let mut m: String = "scheme error: ".to_owned();
                m.append(cause.as_str());
                m
            },
            Error::Swatch(cause) => {
                let mut m: String = "palette error: ".to_owned();
                m.append(cause.as_str());
                m
            },
            Error::Role(cause) => {
                let mut m: String = "role error: ".to_owned();
                m.append(cause.as_str());
                m
            },
            Error::Name(cause) => {
                let mut m: String = "name validation error: ".to_owned();
                m.append(cause.as_str());
                m
            },
            Error::Template(cause) => {
                let mut m: String = "error processing template: ".to_owned();
                m.append(cause.as_str());
                m
            },
            Error::Directive(cause) => {
                let mut m: String = "directive error: ".to_owned();
                m.append(cause.as_str());
                m
            },
            Error::Provider(cause) => {
                let mut m: String = "git provider error: ".to_owned();
                m.append(cause.message().as_str());
                m
            },
            Error::Rendering(cause) => {
                let mut m: String = "error rendering: ".to_owned();
                m.append(cause.as_str());
                m
            },
            Error::Upstream(cause) => {
                let mut m: String = "upstream error: ".to_owned();
                m.append(cause.as_str());
                m
            },
            Error::InternalBug { module, reason } => {
                let mut m: String = "internal error in ".to_owned();
                m.append(module.as_str());
                m.append(": ");
                m.append(reason.as_str());
                m.append("! this is a bug!");
                m
            },
            Error::Io(cause) => {
                let mut m: String = "file system error: ".to_owned();
                m.append(cause.as_str());
                m
            },
        }
    }
}

} // verus!
