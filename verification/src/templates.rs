//! Templates, and what a rendered file says about where it comes from.

use vstd::prelude::*;

pub mod providers;

verus! {

/// The suffix that marks a file as a template; it is not part of the name of
/// the file that is rendered from it.
pub const JINJA_TEMPLATE_SUFFIX: &'static str = ".jinja";

/// A template is left out where a segment of its path begins with this.
pub const SKIP_RENDERING_PREFIX: &'static str = "_";

/// The name under which every render context holds the set-membership test.
pub const SET_TEST_OBJECT: &'static str = "_set";

/// A template: its name, which is its path under the templates directory,
/// and its source.
#[derive(Debug)]
pub struct Template {
    pub name: String,
    pub source: String,
}

} // verus!
