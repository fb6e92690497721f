//! One render run: which files are rendered, where they go, and what is done
//! with each of them.

use vstd::prelude::*;

use crate::config::{provider_views, Config, ProjectType, Provider, ProviderView};
use crate::manifest::{Error as ManifestError, Manifest};
use crate::ordered::{overlaid, upserted};
use crate::output::strategy::decide_spec;
use crate::output::upstream::{
    known, no_annotation, Cache, Detected, Special, SpecialView, Upstream, UpstreamView,
};
use crate::output::{decide, Decision, FileStatus, WriteMode};
use crate::paths::{
    file_name, join, joined, last_component, names_entry, parent, parent_of, stripped,
};
use crate::templates::providers::{blob_link, build_blob, build_raw, raw_link};
use crate::templates::{
    Template, JINJA_TEMPLATE_SUFFIX, SET_TEST_OBJECT, SKIP_RENDERING_PREFIX,
};
use crate::text::{
    chars_of, contains, has_substring, matches_at, occurs_at, replace, replaced, same_text,
    strip_suffix, without_suffix,
};
use crate::themes::{opt_text, Scheme, Theme};
use crate::Error;

pub mod index;
pub mod replay;

pub use crate::paths::strip_prefix;

use self::index::{entry_of, opt_str, status_of, EntryView, Index, Inputs, VERSION};

verus! {

/// In the name of a template, stands for the name of the theme. A marker may
/// be written in braces, as in `{THEME}`; the braces then go with it.
pub const THEME_MARKER: &'static str = "THEME";

/// In the name of a template, stands for the name of the scheme.
pub const SCHEME_MARKER: &'static str = "SCHEME";

/// In the name of a template, stands for the name of a swatch; a template
/// with this in its name is rendered once for each swatch of the palette.
pub const SWATCH_MARKER: &'static str = "SWATCH";

/// The name under which a template refers to the current swatch.
pub const SWATCH_VARIABLE: &'static str = "swatch";

/// The state of one run.
#[derive(Debug)]
pub struct Session {
    /// The record of what was rendered, from the runs before and this one.
    pub index: Index,
    /// The hosting providers that links are built for.
    pub providers: Vec<Provider>,
    /// What was found out about repositories in this run.
    pub git_cache: Cache,
    /// The write policy.
    pub write_mode: WriteMode,
    /// Whether the run only reports what it would do.
    pub dry_run: bool,
}

impl Session {
    /// The session of a run, from the index that the run before stored, if
    /// any. An index stored under another format version is an error.
    pub fn new(
        stored: Option<Index>,
        providers: Vec<Provider>,
        write_mode: WriteMode,
        dry_run: bool,
    ) -> (session: Result<Self, Error>)
        ensures
            match stored {
                None => session matches Ok(s) && s.index@ == Seq::<(Seq<char>, EntryView)>::empty(),
                Some(given) => if given.version == VERSION {
                    session matches Ok(s) && s.index@ == overlaid(
                        Seq::<(Seq<char>, EntryView)>::empty(),
                        given@,
                    )
                } else {
                    session matches Err(
                        Error::Manifest(ManifestError::VersionMismatch { found, expected }),
                    ) && found == given.version && expected == VERSION
                },
            },
            session matches Ok(s) ==> {
                &&& s.index.version == VERSION
                &&& s.index.wf()
                &&& s.providers == providers
                &&& s.git_cache.entries@.len() == 0
                &&& s.write_mode == write_mode
                &&& s.dry_run == dry_run
            },
    {
        match Manifest::load_or_create(stored, VERSION) {
            Ok(index) => Ok(Session { index, providers, git_cache: Cache::new(), write_mode, dry_run }),
            Err(error) => Err(Error::Manifest(error)),
        }
    }

    /// Ends the run: hands back the index that is to be stored, or nothing
    /// where the run was a dry run.
    pub fn save(self) -> (index: Option<Index>)
        ensures
            self.dry_run ==> index is None,
            !self.dry_run ==> index == Some(self.index),
    {
        if !self.dry_run {
            Some(self.index)
        } else {
            None
        }
    }

    /// Records that the file at `path` was written from `inputs` and now
    /// holds `content`. A dry run records nothing.
    pub fn record(&mut self, path: &str, inputs: &Inputs, content: &str)
        ensures
            final(self).index@ == (if old(self).dry_run {
                old(self).index@
            } else {
                upserted(old(self).index@, path@, entry_of(path@, inputs@, content@))
            }),
            final(self).index.version == old(self).index.version,
            old(self).index.wf() ==> final(self).index.wf(),
            final(self).providers == old(self).providers,
            final(self).git_cache == old(self).git_cache,
            final(self).write_mode == old(self).write_mode,
            final(self).dry_run == old(self).dry_run,
    {
        if !self.dry_run {
            let entry = Index::create_entry(path, inputs, content);
            self.index.insert(entry);
        }
    }
}

/// Whether a template is rendered once per swatch: its name holds the swatch
/// marker.
pub fn uses_swatch_iteration(template_name: &str) -> (b: bool)
    ensures
        b == has_substring(template_name@, SWATCH_MARKER@),
{
    contains(template_name, SWATCH_MARKER)
}

/// Whether a template that is rendered once per swatch never refers to the
/// swatch: each of its files would then hold the same.
pub fn ignores_swatch(template: &Template) -> (b: bool)
    ensures
        b == (has_substring(template.name@, SWATCH_MARKER@) && !has_substring(
            template.source@,
            SWATCH_VARIABLE@,
        )),
{
    uses_swatch_iteration(template.name.as_str()) && !contains(
        template.source.as_str(),
        SWATCH_VARIABLE,
    )
}

/// A marker in braces.
pub open spec fn braced(marker: Seq<char>) -> Seq<char> {
    seq!['{'] + marker + seq!['}']
}

/// A name with a marker filled in: first every marker in braces is replaced
/// by the value, then every bare marker that is left.
pub open spec fn marked(name: Seq<char>, marker: Seq<char>, value: Seq<char>) -> Seq<char> {
    replaced(replaced(name, braced(marker), value), marker, value)
}

/// Fills a marker in a name, in braces or bare.
pub fn fill_marker(name: &str, marker: &str, value: &str) -> (filled: String)
    ensures
        filled@ == marked(name@, marker@, value@),
{
    let mut in_braces: String = "{".to_owned();
    in_braces.append(marker);
    in_braces.append("}");
    proof {
        reveal_strlit("{");
        reveal_strlit("}");
        assert("{"@ =~= seq!['{']);
        assert("}"@ =~= seq!['}']);
    }
    let first = replace(name, in_braces.as_str(), value);
    replace(first.as_str(), marker, value)
}

/// The name of an output file: the name of the template's file with the
/// markers replaced by the names they stand for, the theme's first, then the
/// scheme's, then the swatch's. Without a swatch the swatch marker stays as
/// it is.
pub open spec fn rendered_name(
    filename: Seq<char>,
    theme: Seq<char>,
    scheme: Seq<char>,
    swatch: Option<Seq<char>>,
) -> Seq<char> {
    let named = marked(marked(filename, THEME_MARKER@, theme), SCHEME_MARKER@, scheme);
    match swatch {
        Some(name) => marked(named, SWATCH_MARKER@, name),
        None => named,
    }
}

/// What is said of a template whose path names no file.
pub open spec fn corrupted_path(relative: Seq<char>) -> Seq<char> {
    "attempted to render to corrupted path `"@ + relative + "`"@
}

/// What is said of a theme that has no directory to render into.
pub open spec fn no_render_directory(theme: Seq<char>) -> Seq<char> {
    "theme `"@ + theme + "` has no render directory"@
}

/// What is said of a project of a single theme that has no render target.
pub open spec fn no_render_target() -> Seq<char> {
    "the project has no render target"@
}

/// An error is the defect of this module with the given reason.
pub open spec fn is_bug(error: Error, reason: Seq<char>) -> bool {
    error matches Error::InternalBug { module, reason: own } && module@ == "render"@ && own@
        == reason
}

/// An error is a failure of rendering with the given reason.
pub open spec fn is_rendering(error: Error, reason: Seq<char>) -> bool {
    error matches Error::Rendering(own) && own@ == reason
}

/// What a defect of this module says of itself.
pub open spec fn bug_text(reason: Seq<char>) -> Seq<char> {
    "internal error in "@ + "render"@ + ": "@ + reason + "! this is a bug!"@
}

/// What a failure of rendering says of itself.
pub open spec fn rendering_text(reason: Seq<char>) -> Seq<char> {
    "error rendering: "@ + reason
}

/// The directory that a theme renders into: its own render directory where it
/// has a configuration; else, for a project that is a single theme, the
/// project's shared render target. Any other theme has none, and the error
/// says so.
pub open spec fn base_dir_of(theme: Theme, config: Config) -> Result<Seq<char>, Seq<char>> {
    match theme.config {
        Some(own) => Ok(own.dirs.render@),
        None => match config.project_type {
            ProjectType::Polytheme => Err(no_render_directory(theme.name@)),
            ProjectType::Monotheme => match config.render_all_into {
                Some(dir) => Ok(dir@),
                None => Err(no_render_target()),
            },
        },
    }
}

/// The path of an output file: the render directory of the theme, then the
/// directories of the template, then the rendered name. Where the template's
/// path names no file, or the theme has no render directory, there is no
/// path, and the error says which of the two; the path is looked at first.
pub open spec fn output_path(
    theme: Theme,
    template_name: Seq<char>,
    scheme_name: Seq<char>,
    config: Config,
    swatch: Option<Seq<char>>,
) -> Result<Seq<char>, Seq<char>> {
    let relative = without_suffix(template_name, JINJA_TEMPLATE_SUFFIX@);
    if !names_entry(relative) {
        Err(corrupted_path(relative))
    } else {
        match base_dir_of(theme, config) {
            Err(reason) => Err(reason),
            Ok(base) => Ok(
                joined(
                    joined(base, parent_of(relative)),
                    rendered_name(last_component(relative), theme.name@, scheme_name, swatch),
                ),
            ),
        }
    }
}

/// The path to which a template is rendered for a theme and a scheme, and for
/// a swatch where it is rendered once per swatch. A path that cannot be had
/// is a defect of the code that chose the template or built the theme.
pub fn resolve_path(
    theme: &Theme,
    template_name: &str,
    scheme_name: &str,
    config: &Config,
    swatch_name: Option<&str>,
) -> (path: Result<String, Error>)
    ensures
        match output_path(*theme, template_name@, scheme_name@, *config, opt_str(swatch_name)) {
            Ok(expected) => path matches Ok(p) && p@ == expected,
            Err(reason) => path matches Err(error) && is_bug(error, reason),
        },
{
    let relative_path = strip_suffix(template_name, JINJA_TEMPLATE_SUFFIX);
    let filename = match file_name(relative_path.as_str()) {
        Some(name) => name,
        None => {
            let mut reason: String = "attempted to render to corrupted path `".to_owned();
            reason.append(relative_path.as_str());
            reason.append("`");
            return Err(Error::InternalBug { module: "render".to_owned(), reason });
        },
    };
    let parent_dirs = parent(relative_path.as_str());
    let with_theme = fill_marker(filename.as_str(), THEME_MARKER, theme.name.as_str());
    let with_scheme = fill_marker(with_theme.as_str(), SCHEME_MARKER, scheme_name);
    let render = match swatch_name {
        Some(swatch) => fill_marker(with_scheme.as_str(), SWATCH_MARKER, swatch),
        None => with_scheme,
    };
    let base_dir: String = match &theme.config {
        Some(theme_config) => theme_config.dirs.render.clone(),
        None => match config.project_type {
            ProjectType::Polytheme => {
                let mut reason: String = "theme `".to_owned();
                reason.append(theme.name.as_str());
                reason.append("` has no render directory");
                return Err(Error::InternalBug { module: "render".to_owned(), reason });
            },
            ProjectType::Monotheme => match &config.render_all_into {
                Some(dir) => dir.clone(),
                None => {
                    return Err(
                        Error::InternalBug {
                            module: "render".to_owned(),
                            reason: "the project has no render target".to_owned(),
                        },
                    );
                },
            },
        },
    };
    let in_dirs = join(base_dir.as_str(), parent_dirs.as_str());
    Ok(join(in_dirs.as_str(), render.as_str()))
}

/// What looking at the disk gave for one render path.
#[derive(Debug)]
pub struct Probe {
    /// The path in canonical form; `None` where it has none, as for a file
    /// that does not exist yet.
    pub canonical: Option<String>,
    /// The nearest directory at or above the path that is the root of a
    /// repository; `None` where the path lies in no repository.
    pub root: Option<String>,
    /// The remote and the branch of the repository at that root; `None` where
    /// they could not be found out, or were not looked for because the root
    /// is known.
    pub detected: Option<Detected>,
}

/// What is known of the repository at `root` once `detected` was taken in:
/// what was known before, else what was detected.
pub open spec fn learnt(entries: Seq<Upstream>, root: Seq<char>, detected: Option<Detected>)
    -> Option<UpstreamView> {
    match known(entries, root) {
        Some(before) => Some(before),
        None => match detected {
            Some(d) => Some(UpstreamView { root, url: d.url@, branch: d.branch@ }),
            None => None,
        },
    }
}

/// The repository that a path lies in, and the path relative to its root.
pub open spec fn located(
    entries: Seq<Upstream>,
    target: Seq<char>,
    root: Option<Seq<char>>,
    detected: Option<Detected>,
) -> Option<(UpstreamView, Seq<char>)> {
    match root {
        None => None,
        Some(r) => match learnt(entries, r, detected) {
            None => None,
            Some(info) => match stripped(target, info.root) {
                None => None,
                Some(rest) => Some((info, rest)),
            },
        },
    }
}

/// The repository that `target_path` lies in, and the path relative to the
/// root of that repository. `root` is the root of the repository around the
/// path, if there is one; the cache is asked about it, and learns what was
/// detected where it did not know the root.
pub fn git_info_with(
    target_path: &str,
    root: Option<&str>,
    detected: Option<Detected>,
    git_cache: &mut Cache,
) -> (info: Option<(Upstream, String)>)
    ensures
        match located(old(git_cache).entries@, target_path@, opt_str(root), detected) {
            Some((upstream, rest)) => info matches Some((u, r)) && u@ == upstream && r@ == rest,
            None => info is None,
        },
        root is None ==> final(git_cache).entries@ == old(git_cache).entries@,
        root matches Some(r) ==> final(git_cache).lookup(r@) == learnt(
            old(git_cache).entries@,
            r@,
            detected,
        ),
        forall|other: Seq<char>|
            old(git_cache).lookup(other) is Some ==> final(git_cache).lookup(other) == old(
                git_cache,
            ).lookup(other),
{
    let root = match root {
        Some(root) => root,
        None => {
            return None;
        },
    };
    let git_info = match git_cache.get_or_detect(root, detected) {
        Some(git_info) => git_info,
        None => {
            return None;
        },
    };
    let rel_path = match strip_prefix(target_path, git_info.root.as_str()) {
        Some(rel_path) => rel_path,
        None => {
            return None;
        },
    };
    Some((git_info, rel_path))
}

/// The repository that a render path lies in, found from the canonical form
/// of the path. A path without a canonical form lies in none, and the cache
/// is not asked.
pub fn resolve_with_autodetect(
    canonical: Option<&str>,
    root: Option<&str>,
    detected: Option<Detected>,
    git_cache: &mut Cache,
) -> (info: Option<(Upstream, String)>)
    ensures
        match canonical {
            None => info is None && final(git_cache).entries@ == old(git_cache).entries@,
            Some(path) => {
                &&& match located(old(git_cache).entries@, path@, opt_str(root), detected) {
                    Some((upstream, rest)) => info matches Some((u, r)) && u@ == upstream && r@
                        == rest,
                    None => info is None,
                }
                &&& root is None ==> final(git_cache).entries@ == old(git_cache).entries@
                &&& root matches Some(r) ==> final(git_cache).lookup(r@) == learnt(
                    old(git_cache).entries@,
                    r@,
                    detected,
                )
            },
        },
        forall|other: Seq<char>|
            old(git_cache).lookup(other) is Some ==> final(git_cache).lookup(other) == old(
                git_cache,
            ).lookup(other),
{
    match canonical {
        Some(abs_path) => git_info_with(abs_path, root, detected, git_cache),
        None => None,
    }
}

/// The annotation for a file in a repository: the link to the file, and the
/// link to its bare content where the provider has a template for it. Where
/// no link to the file can be built, the annotation says nothing.
pub open spec fn annotation_for(
    located: Option<(UpstreamView, Seq<char>)>,
    providers: Seq<ProviderView>,
) -> SpecialView {
    match located {
        None => no_annotation(),
        Some((upstream, rest)) => {
            let file = replaced(rest, "\\"@, "/"@);
            match blob_link(upstream.url, file, upstream.branch, providers) {
                None => no_annotation(),
                Some(blob) => SpecialView {
                    upstream_file: Some(blob),
                    upstream_repo: raw_link(upstream.url, file, upstream.branch, providers),
                },
            }
        },
    }
}

/// The upstream annotation for a render path. Nothing that goes wrong here is
/// an error: the annotation then says nothing.
pub fn build_upstream(probe: Probe, session: &mut Session) -> (special: Special)
    ensures
        special@ == annotation_for(
            match probe.canonical {
                Some(path) => located(
                    old(session).git_cache.entries@,
                    path@,
                    opt_text(probe.root),
                    probe.detected,
                ),
                None => None,
            },
            provider_views(old(session).providers@),
        ),
        final(session).index == old(session).index,
        final(session).providers == old(session).providers,
        final(session).write_mode == old(session).write_mode,
        final(session).dry_run == old(session).dry_run,
        probe.canonical is None || probe.root is None ==> final(session).git_cache.entries@
            == old(session).git_cache.entries@,
        probe.canonical is Some ==> (probe.root matches Some(r) ==> final(session).git_cache.lookup(
            r@,
        ) == learnt(old(session).git_cache.entries@, r@, probe.detected)),
        forall|other: Seq<char>|
            old(session).git_cache.lookup(other) is Some ==> final(session).git_cache.lookup(other)
                == old(session).git_cache.lookup(other),
{
    let canonical: Option<&str> = match &probe.canonical {
        Some(path) => Some(path.as_str()),
        None => None,
    };
    let root: Option<&str> = match &probe.root {
        Some(root) => Some(root.as_str()),
        None => None,
    };
    let (git_info, path) = match resolve_with_autodetect(
        canonical,
        root,
        probe.detected,
        &mut session.git_cache,
    ) {
        Some(found) => found,
        None => {
            return Special::default();
        },
    };
    let file_path = replace(path.as_str(), "\\", "/");
    let branch = git_info.branch.as_str();
    let blob = match build_blob(
        git_info.url.as_str(),
        file_path.as_str(),
        branch,
        &session.providers,
    ) {
        Ok(blob) => blob,
        Err(_) => {
            return Special::default();
        },
    };
    let repo = build_raw(git_info.url.as_str(), file_path.as_str(), branch, &session.providers);
    Special { upstream_file: Some(blob), upstream_repo: repo }
}

/// A segment of a path begins at position `i`.
pub open spec fn segment_start(name: Seq<char>, i: int) -> bool {
    0 <= i <= name.len() && (i == 0 || name[i - 1] == '/')
}

/// A segment of the template's path begins with the prefix that leaves a
/// template out.
pub open spec fn skipped(name: Seq<char>) -> bool {
    exists|i: int| segment_start(name, i) && occurs_at(name, SKIP_RENDERING_PREFIX@, i)
}

/// Whether a template is rendered at all: no segment of its path begins with
/// the prefix that leaves it out.
pub fn should_render(name: &str) -> (b: bool)
    ensures
        b == !skipped(name@),
{
    let v = chars_of(name);
    let prefix = chars_of(SKIP_RENDERING_PREFIX);
    let mut i: usize = 0;
    while i < v.len()
        invariant
            i <= v.len(),
            v@ == name@,
            prefix@ == SKIP_RENDERING_PREFIX@,
            forall|j: int|
                0 <= j < i ==> !(segment_start(name@, j) && occurs_at(
                    name@,
                    SKIP_RENDERING_PREFIX@,
                    j,
                )),
        decreases v.len() - i,
    {
        if (i == 0 || v[i - 1] == '/') && matches_at(&v, &prefix, i) {
            proof {
                assert(segment_start(name@, i as int) && occurs_at(
                    name@,
                    SKIP_RENDERING_PREFIX@,
                    i as int,
                ));
            }
            return false;
        }
        i += 1;
    }
    if (i == 0 || v[i - 1] == '/') && matches_at(&v, &prefix, i) {
        proof {
            assert(segment_start(name@, i as int) && occurs_at(
                name@,
                SKIP_RENDERING_PREFIX@,
                i as int,
            ));
        }
        return false;
    }
    true
}

/// `key` is one of the texts of `list`.
pub open spec fn has_text(list: Seq<String>, key: Seq<char>) -> bool {
    exists|i: int| 0 <= i < list.len() && (#[trigger] list[i])@ == key
}

/// Whether `key` is one of the texts of `list`.
pub fn holds(list: &Vec<String>, key: &str) -> (b: bool)
    ensures
        b == has_text(list@, key@),
{
    let mut i: usize = 0;
    while i < list.len()
        invariant
            i <= list.len(),
            forall|j: int| 0 <= j < i ==> (#[trigger] list@[j])@ != key@,
        decreases list.len() - i,
    {
        if same_text(list[i].as_str(), key) {
            return true;
        }
        i += 1;
    }
    false
}

/// What is said of a context that lacks the set-membership test.
pub open spec fn missing_test_object(scheme_name: Seq<char>, template_name: Seq<char>) -> Seq<
    char,
> {
    "scheme `"@ + scheme_name + "` context for template `"@ + template_name + "` missing `"@
        + SET_TEST_OBJECT@ + "` template variable"@
}

/// What is said of a template that could not be rendered.
pub open spec fn render_failure(
    scheme_name: Seq<char>,
    template_name: Seq<char>,
    cause: Seq<char>,
) -> Seq<char> {
    "rendering template `"@ + template_name + "` with scheme `"@ + scheme_name + "`: "@ + cause
}

/// The content of an output file: the header, then what the template
/// rendered to. `context_keys` are the names that the render context holds,
/// `rendered` is what rendering gave. A context without the set-membership
/// test is a defect of the code that built it, and comes before any failure
/// of rendering.
pub fn prepare(
    context_keys: &Vec<String>,
    rendered: Result<String, String>,
    header: &str,
    scheme_name: &str,
    template_name: &str,
) -> (output: Result<String, Error>)
    ensures
        match output {
            Ok(text) => {
                &&& has_text(context_keys@, SET_TEST_OBJECT@)
                &&& rendered matches Ok(body) && text@ == header@ + body@
            },
            Err(Error::InternalBug { module, reason }) => !has_text(
                context_keys@,
                SET_TEST_OBJECT@,
            ) && module@ == "render"@ && reason@ == missing_test_object(
                scheme_name@,
                template_name@,
            ),
            Err(Error::Rendering(reason)) => {
                &&& has_text(context_keys@, SET_TEST_OBJECT@)
                &&& rendered matches Err(cause) && reason@ == render_failure(
                    scheme_name@,
                    template_name@,
                    cause@,
                )
            },
            Err(_) => false,
        },
{
    if !holds(context_keys, SET_TEST_OBJECT) {
        let mut reason: String = "scheme `".to_owned();
        reason.append(scheme_name);
        reason.append("` context for template `");
        reason.append(template_name);
        reason.append("` missing `");
        reason.append(SET_TEST_OBJECT);
        reason.append("` template variable");
        return Err(Error::InternalBug { module: "render".to_owned(), reason });
    }
    match rendered {
        Ok(body) => {
            let mut text: String = header.to_owned();
            text.append(body.as_str());
            Ok(text)
        },
        Err(cause) => {
            let mut reason: String = "rendering template `".to_owned();
            reason.append(template_name);
            reason.append("` with scheme `");
            reason.append(scheme_name);
            reason.append("`: ");
            reason.append(cause.as_str());
            Err(Error::rendering(reason))
        },
    }
}

/// What the caller is to do with an output file.
#[derive(Clone, Copy, Debug, PartialEq, Eq, Structural)]
pub enum Action {
    /// Warn that the file was edited by hand; touch neither the file nor the
    /// index.
    Conflict,
    /// Say that the file would be written; touch neither the file nor the
    /// index.
    WouldWrite,
    /// Write the file, then record what was written.
    Write,
    /// Leave the file alone.
    Skip,
}

/// What follows from a decision: a file is only written outside a dry run.
pub open spec fn action_for(decision: Decision, dry_run: bool) -> Action {
    match decision {
        Decision::Conflict => Action::Conflict,
        Decision::Write | Decision::ForceWrite => if dry_run {
            Action::WouldWrite
        } else {
            Action::Write
        },
        Decision::Skip => Action::Skip,
    }
}

/// What is to be done for a decision.
pub fn execute(decision: Decision, dry_run: bool) -> (action: Action)
    ensures
        action == action_for(decision, dry_run),
{
    match decision {
        Decision::Conflict => Action::Conflict,
        _ => if decision.should_write() {
            if dry_run {
                Action::WouldWrite
            } else {
                Action::Write
            }
        } else {
            Action::Skip
        },
    }
}

/// What is reported of an output file.
pub open spec fn report_of(decision: Decision, dry_run: bool, path: Seq<char>) -> Seq<char> {
    match action_for(decision, dry_run) {
        Action::Conflict => "conflict: `"@ + path
            + "` (last modified by user; use `--force` to overwrite)"@,
        Action::WouldWrite => "would write `"@ + path + "` ("@
            + crate::output::strategy::label_spec(decision) + ")"@,
        Action::Write => "generated `"@ + path + "`"@,
        Action::Skip => "skipped `"@ + path + "` ("@ + crate::output::strategy::label_spec(
            decision,
        ) + ")"@,
    }
}

/// The line that reports what is done with an output file. Every decision is
/// reported, in a dry run too.
pub fn report(decision: Decision, dry_run: bool, path: &str) -> (line: String)
    ensures
        line@ == report_of(decision, dry_run, path@),
{
    match execute(decision, dry_run) {
        Action::Conflict => {
            let mut line: String = "conflict: `".to_owned();
            line.append(path);
            line.append("` (last modified by user; use `--force` to overwrite)");
            line
        },
        Action::WouldWrite => {
            let mut line: String = "would write `".to_owned();
            line.append(path);
            line.append("` (");
            line.append(decision.log_action());
            line.append(")");
            line
        },
        Action::Write => {
            let mut line: String = "generated `".to_owned();
            line.append(path);
            line.append("`");
            line
        },
        Action::Skip => {
            let mut line: String = "skipped `".to_owned();
            line.append(path);
            line.append("` (");
            line.append(decision.log_action());
            line.append(")");
            line
        },
    }
}

/// What was found and decided for one output file.
#[derive(Debug)]
pub struct Step {
    /// The content that the file is to have.
    pub output: String,
    /// How the file on disk relates to the index.
    pub status: FileStatus,
    /// What was decided for the file.
    pub decision: Decision,
    /// What the caller is to do.
    pub action: Action,
}

/// Decides what is done with one output file. `on_disk` is what the file at
/// `path` holds now, `None` where it is missing. The session is not changed:
/// once the caller has written the file, `Session::record` takes note of it.
pub fn write(
    session: &Session,
    path: &str,
    on_disk: Option<&str>,
    inputs: &Inputs,
    context_keys: &Vec<String>,
    rendered: Result<String, String>,
    header: &str,
) -> (step: Result<Step, Error>)
    ensures
        match step {
            Ok(s) => {
                &&& has_text(context_keys@, SET_TEST_OBJECT@)
                &&& rendered matches Ok(body) && s.output@ == header@ + body@
                &&& s.status == status_of(session.index@, path@, opt_str(on_disk), inputs@)
                &&& s.decision == decide_spec(s.status, session.write_mode)
                &&& s.action == action_for(s.decision, session.dry_run)
            },
            Err(Error::InternalBug { module, reason }) => {
                &&& !has_text(context_keys@, SET_TEST_OBJECT@)
                &&& module@ == "render"@
                &&& reason@ == missing_test_object(inputs.scheme@, inputs.template@)
            },
            Err(Error::Rendering(reason)) => {
                &&& has_text(context_keys@, SET_TEST_OBJECT@)
                &&& rendered matches Err(cause) && reason@ == render_failure(
                    inputs.scheme@,
                    inputs.template@,
                    cause@,
                )
            },
            Err(_) => false,
        },
{
    let output = match prepare(
        context_keys,
        rendered,
        header,
        inputs.scheme.as_str(),
        inputs.template.as_str(),
    ) {
        Ok(output) => output,
        Err(error) => {
            return Err(error);
        },
    };
    let status = session.index.check(path, on_disk, inputs);
    let decision = decide(status, session.write_mode);
    let action = execute(decision, session.dry_run);
    Ok(Step { output, status, decision, action })
}

/// One file that a run renders.
#[derive(Debug)]
pub struct Job {
    /// The name of the theme.
    pub theme: String,
    /// The name of the scheme.
    pub scheme: String,
    /// The name of the template.
    pub template: String,
    /// The name of the swatch, for a template that is rendered per swatch.
    pub swatch: Option<String>,
    /// The path of the file.
    pub path: String,
}

/// What a `Job` holds, as text.
pub struct JobView {
    pub theme: Seq<char>,
    pub scheme: Seq<char>,
    pub template: Seq<char>,
    pub swatch: Option<Seq<char>>,
    pub path: Seq<char>,
}

impl View for Job {
    type V = JobView;

    open spec fn view(&self) -> JobView {
        JobView {
            theme: self.theme@,
            scheme: self.scheme@,
            template: self.template@,
            swatch: opt_text(self.swatch),
            path: self.path@,
        }
    }
}

/// The views of a list of jobs.
pub open spec fn job_views(jobs: Seq<Job>) -> Seq<JobView> {
    jobs.map_values(|j: Job| j@)
}

/// The job that renders a template for a scheme, and for a swatch if one is
/// given. Where the output has no path there is none, and the error says why.
pub open spec fn job_for(
    theme: Theme,
    scheme: Scheme,
    template_name: Seq<char>,
    config: Config,
    swatch: Option<Seq<char>>,
) -> Result<JobView, Seq<char>> {
    match output_path(theme, template_name, scheme.name@, config, swatch) {
        Ok(path) => Ok(
            JobView { theme: theme.name@, scheme: scheme.name@, template: template_name, swatch, path },
        ),
        Err(reason) => Err(reason),
    }
}

/// The jobs for the first `n` swatches of the scheme's palette, in palette
/// order; the error of the first swatch that has no job, if there is one.
pub open spec fn swatch_jobs(
    theme: Theme,
    scheme: Scheme,
    template_name: Seq<char>,
    config: Config,
    n: nat,
) -> Result<Seq<JobView>, Seq<char>>
    decreases n,
{
    if n == 0 {
        Ok(Seq::<JobView>::empty())
    } else {
        match swatch_jobs(theme, scheme, template_name, config, (n - 1) as nat) {
            Err(reason) => Err(reason),
            Ok(before) => match job_for(
                theme,
                scheme,
                template_name,
                config,
                Some(scheme.palette@[n - 1].name@),
            ) {
                Err(reason) => Err(reason),
                Ok(job) => Ok(before.push(job)),
            },
        }
    }
}

/// The jobs of one template for one scheme: one for each swatch of the
/// palette, in palette order, where the template's name holds the swatch
/// marker; a single one otherwise.
pub open spec fn template_jobs(
    theme: Theme,
    scheme: Scheme,
    template_name: Seq<char>,
    config: Config,
) -> Result<Seq<JobView>, Seq<char>> {
    if has_substring(template_name, SWATCH_MARKER@) {
        swatch_jobs(theme, scheme, template_name, config, scheme.palette@.len())
    } else {
        match job_for(theme, scheme, template_name, config, None) {
            Ok(job) => Ok(seq![job]),
            Err(reason) => Err(reason),
        }
    }
}

/// Makes the job for one output file.
fn make_job(
    theme: &Theme,
    scheme: &Scheme,
    template_name: &str,
    config: &Config,
    swatch: Option<&str>,
) -> (job: Result<Job, Error>)
    ensures
        match job_for(*theme, *scheme, template_name@, *config, opt_str(swatch)) {
            Ok(expected) => job matches Ok(j) && j@ == expected,
            Err(reason) => job matches Err(error) && is_bug(error, reason),
        },
{
    match resolve_path(theme, template_name, scheme.name.as_str(), config, swatch) {
        Ok(path) => Ok(
            Job {
                theme: theme.name.clone(),
                scheme: scheme.name.clone(),
                template: template_name.to_owned(),
                swatch: match swatch {
                    Some(name) => Some(name.to_owned()),
                    None => None,
                },
                path,
            },
        ),
        Err(error) => Err(error),
    }
}

/// The files that one template is rendered to for one scheme. The only
/// failure is that of the first file whose path cannot be had.
pub fn apply_internal(theme: &Theme, scheme: &Scheme, template_name: &str, config: &Config) -> (jobs:
    Result<Vec<Job>, Error>)
    ensures
        match template_jobs(*theme, *scheme, template_name@, *config) {
            Ok(expected) => jobs matches Ok(list) && job_views(list@) == expected,
            Err(reason) => jobs matches Err(error) && is_bug(error, reason),
        },
{
    let mut jobs: Vec<Job> = Vec::new();
    if uses_swatch_iteration(template_name) {
        let mut i: usize = 0;
        proof {
            assert(job_views(jobs@) =~= Seq::<JobView>::empty());
        }
        while i < scheme.palette.len()
            invariant
                i <= scheme.palette.len(),
                swatch_jobs(*theme, *scheme, template_name@, *config, i as nat) == Ok::<
                    Seq<JobView>,
                    Seq<char>,
                >(job_views(jobs@)),
            decreases scheme.palette.len() - i,
        {
            let ghost before = jobs@;
            match make_job(
                theme,
                scheme,
                template_name,
                config,
                Some(scheme.palette[i].name.as_str()),
            ) {
                Ok(job) => {
                    jobs.push(job);
                    proof {
                        assert(job_views(jobs@) =~= job_views(before).push(job@));
                    }
                },
                Err(error) => {
                    proof {
                        lemma_swatch_jobs_fail(
                            *theme,
                            *scheme,
                            template_name@,
                            *config,
                            (i + 1) as nat,
                            scheme.palette@.len(),
                        );
                    }
                    return Err(error);
                },
            }
            i += 1;
        }
    } else {
        match make_job(theme, scheme, template_name, config, None) {
            Ok(job) => {
                jobs.push(job);
                proof {
                    assert(job_views(jobs@) =~= seq![job@]);
                }
            },
            Err(error) => {
                return Err(error);
            },
        }
    }
    Ok(jobs)
}

/// Once the jobs for some swatches cannot be had, those for more swatches
/// cannot either, for the same reason.
pub proof fn lemma_swatch_jobs_fail(
    theme: Theme,
    scheme: Scheme,
    template_name: Seq<char>,
    config: Config,
    n: nat,
    m: nat,
)
    requires
        n <= m,
        swatch_jobs(theme, scheme, template_name, config, n) is Err,
    ensures
        swatch_jobs(theme, scheme, template_name, config, m) == swatch_jobs(
            theme,
            scheme,
            template_name,
            config,
            n,
        ),
    decreases m,
{
    if n < m {
        lemma_swatch_jobs_fail(theme, scheme, template_name, config, n, (m - 1) as nat);
    }
}

/// A template that is rendered per swatch gives one job for each swatch of
/// the palette, in palette order.
pub proof fn lemma_one_job_per_swatch(
    theme: Theme,
    scheme: Scheme,
    template_name: Seq<char>,
    config: Config,
    n: nat,
)
    requires
        n <= scheme.palette@.len(),
        swatch_jobs(theme, scheme, template_name, config, n) is Ok,
    ensures
        swatch_jobs(theme, scheme, template_name, config, n)->Ok_0.len() == n,
        forall|i: int|
            0 <= i < n ==> (#[trigger] swatch_jobs(
                theme,
                scheme,
                template_name,
                config,
                n,
            )->Ok_0[i]) == job_for(
                theme,
                scheme,
                template_name,
                config,
                Some(scheme.palette@[i].name@),
            )->Ok_0,
        forall|i: int|
            0 <= i < n ==> (#[trigger] swatch_jobs(
                theme,
                scheme,
                template_name,
                config,
                n,
            )->Ok_0[i]).swatch == Some(scheme.palette@[i].name@),
    decreases n,
{
    if n > 0 {
        lemma_one_job_per_swatch(theme, scheme, template_name, config, (n - 1) as nat);
    }
}

/// Says of a failure that it came up while rendering.
fn as_rendering(error: Error) -> (wrapped: Error)
    ensures
        is_rendering(wrapped, error.text()),
{
    Error::rendering(error.message())
}

/// The files that one template is rendered to for one scheme. A failure is
/// reported as one of rendering, and says what the defect was.
pub fn apply(theme: &Theme, scheme: &Scheme, template_name: &str, config: &Config) -> (jobs: Result<
    Vec<Job>,
    Error,
>)
    ensures
        match template_jobs(*theme, *scheme, template_name@, *config) {
            Ok(expected) => jobs matches Ok(list) && job_views(list@) == expected,
            Err(reason) => jobs matches Err(error) && is_rendering(error, bug_text(reason)),
        },
{
    match apply_internal(theme, scheme, template_name, config) {
        Ok(jobs) => Ok(jobs),
        Err(error) => Err(as_rendering(error)),
    }
}

/// The jobs of the first `n` templates for one scheme, in the order of the
/// templates; the error of the first template that fails, if there is one. A
/// template that is left out contributes nothing.
pub open spec fn scheme_jobs(
    theme: Theme,
    scheme: Scheme,
    templates: Seq<Template>,
    config: Config,
    n: nat,
) -> Result<Seq<JobView>, Seq<char>>
    decreases n,
{
    if n == 0 {
        Ok(Seq::<JobView>::empty())
    } else {
        match scheme_jobs(theme, scheme, templates, config, (n - 1) as nat) {
            Err(reason) => Err(reason),
            Ok(before) => if skipped(templates[n - 1].name@) {
                Ok(before)
            } else {
                match template_jobs(theme, scheme, templates[n - 1].name@, config) {
                    Err(reason) => Err(reason),
                    Ok(jobs) => Ok(before + jobs),
                }
            },
        }
    }
}

/// The jobs of the first `n` schemes of a theme, in the order of the schemes.
pub open spec fn theme_jobs(theme: Theme, templates: Seq<Template>, config: Config, n: nat)
    -> Result<Seq<JobView>, Seq<char>>
    decreases n,
{
    if n == 0 {
        Ok(Seq::<JobView>::empty())
    } else {
        match theme_jobs(theme, templates, config, (n - 1) as nat) {
            Err(reason) => Err(reason),
            Ok(before) => match scheme_jobs(
                theme,
                theme.schemes@[n - 1],
                templates,
                config,
                templates.len(),
            ) {
                Err(reason) => Err(reason),
                Ok(jobs) => Ok(before + jobs),
            },
        }
    }
}

/// The jobs of the first `n` themes, in the order of the themes.
pub open spec fn run_jobs(themes: Seq<Theme>, templates: Seq<Template>, config: Config, n: nat)
    -> Result<Seq<JobView>, Seq<char>>
    decreases n,
{
    if n == 0 {
        Ok(Seq::<JobView>::empty())
    } else {
        match run_jobs(themes, templates, config, (n - 1) as nat) {
            Err(reason) => Err(reason),
            Ok(before) => match theme_jobs(
                themes[n - 1],
                templates,
                config,
                themes[n - 1].schemes@.len(),
            ) {
                Err(reason) => Err(reason),
                Ok(jobs) => Ok(before + jobs),
            },
        }
    }
}

/// Once the jobs for some templates cannot be had, those for more templates
/// cannot either, for the same reason.
pub proof fn lemma_scheme_jobs_fail(
    theme: Theme,
    scheme: Scheme,
    templates: Seq<Template>,
    config: Config,
    n: nat,
    m: nat,
)
    requires
        n <= m,
        scheme_jobs(theme, scheme, templates, config, n) is Err,
    ensures
        scheme_jobs(theme, scheme, templates, config, m) == scheme_jobs(
            theme,
            scheme,
            templates,
            config,
            n,
        ),
    decreases m,
{
    if n < m {
        lemma_scheme_jobs_fail(theme, scheme, templates, config, n, (m - 1) as nat);
    }
}

/// Once the jobs for some schemes cannot be had, those for more schemes
/// cannot either, for the same reason.
pub proof fn lemma_theme_jobs_fail(
    theme: Theme,
    templates: Seq<Template>,
    config: Config,
    n: nat,
    m: nat,
)
    requires
        n <= m,
        theme_jobs(theme, templates, config, n) is Err,
    ensures
        theme_jobs(theme, templates, config, m) == theme_jobs(theme, templates, config, n),
    decreases m,
{
    if n < m {
        lemma_theme_jobs_fail(theme, templates, config, n, (m - 1) as nat);
    }
}

/// Once the jobs for some themes cannot be had, those for more themes cannot
/// either, for the same reason.
pub proof fn lemma_run_jobs_fail(
    themes: Seq<Theme>,
    templates: Seq<Template>,
    config: Config,
    n: nat,
    m: nat,
)
    requires
        n <= m,
        run_jobs(themes, templates, config, n) is Err,
    ensures
        run_jobs(themes, templates, config, m) == run_jobs(themes, templates, config, n),
    decreases m,
{
    if n < m {
        lemma_run_jobs_fail(themes, templates, config, n, (m - 1) as nat);
    }
}

/// Adds the jobs of `more` to `jobs`.
fn add_jobs(jobs: &mut Vec<Job>, more: Vec<Job>)
    ensures
        job_views(final(jobs)@) == job_views(old(jobs)@) + job_views(more@),
{
    let mut more = more;
    let ghost before = jobs@;
    let ghost added = more@;
    jobs.append(&mut more);
    proof {
        assert(job_views(jobs@) =~= job_views(before) + job_views(added));
    }
}

/// The files that are rendered for one scheme: those of every template that
/// is not left out, in the order of the templates. The only failure is that
/// of the first template that fails.
pub fn all_with_internal(
    theme: &Theme,
    scheme: &Scheme,
    templates: &Vec<Template>,
    config: &Config,
) -> (jobs: Result<Vec<Job>, Error>)
    ensures
        match scheme_jobs(*theme, *scheme, templates@, *config, templates@.len()) {
            Ok(expected) => jobs matches Ok(list) && job_views(list@) == expected,
            Err(reason) => jobs matches Err(error) && is_rendering(error, bug_text(reason)),
        },
{
    let mut jobs: Vec<Job> = Vec::new();
    let mut i: usize = 0;
    proof {
        assert(job_views(jobs@) =~= Seq::<JobView>::empty());
    }
    while i < templates.len()
        invariant
            i <= templates.len(),
            scheme_jobs(*theme, *scheme, templates@, *config, i as nat) == Ok::<
                Seq<JobView>,
                Seq<char>,
            >(job_views(jobs@)),
        decreases templates.len() - i,
    {
        let template_name = templates[i].name.as_str();
        if should_render(template_name) {
            match apply(theme, scheme, template_name, config) {
                Ok(more) => {
                    add_jobs(&mut jobs, more);
                },
                Err(error) => {
                    proof {
                        lemma_scheme_jobs_fail(
                            *theme,
                            *scheme,
                            templates@,
                            *config,
                            (i + 1) as nat,
                            templates@.len(),
                        );
                    }
                    return Err(error);
                },
            }
        }
        i += 1;
    }
    Ok(jobs)
}

/// The files that are rendered for one scheme. A failure is reported as one
/// of rendering, and says what failed.
pub fn all_with(theme: &Theme, scheme: &Scheme, templates: &Vec<Template>, config: &Config) -> (jobs:
    Result<Vec<Job>, Error>)
    ensures
        match scheme_jobs(*theme, *scheme, templates@, *config, templates@.len()) {
            Ok(expected) => jobs matches Ok(list) && job_views(list@) == expected,
            Err(reason) => jobs matches Err(error) && is_rendering(
                error,
                rendering_text(bug_text(reason)),
            ),
        },
{
    match all_with_internal(theme, scheme, templates, config) {
        Ok(jobs) => Ok(jobs),
        Err(error) => Err(as_rendering(error)),
    }
}

/// The files that a run renders: for every theme, for every scheme of the
/// theme, those of every template that is not left out. The only failure is
/// that of the first scheme that fails.
pub fn all_internal(templates: &Vec<Template>, themes: &Vec<Theme>, config: &Config) -> (jobs:
    Result<Vec<Job>, Error>)
    ensures
        match run_jobs(themes@, templates@, *config, themes@.len()) {
            Ok(expected) => jobs matches Ok(list) && job_views(list@) == expected,
            Err(reason) => jobs matches Err(error) && is_rendering(
                error,
                rendering_text(bug_text(reason)),
            ),
        },
{
    let mut jobs: Vec<Job> = Vec::new();
    let mut t: usize = 0;
    proof {
        assert(job_views(jobs@) =~= Seq::<JobView>::empty());
    }
    while t < themes.len()
        invariant
            t <= themes.len(),
            run_jobs(themes@, templates@, *config, t as nat) == Ok::<Seq<JobView>, Seq<char>>(
                job_views(jobs@),
            ),
        decreases themes.len() - t,
    {
        let theme = &themes[t];
        let mut of_theme: Vec<Job> = Vec::new();
        let mut s: usize = 0;
        proof {
            assert(job_views(of_theme@) =~= Seq::<JobView>::empty());
        }
        while s < theme.schemes.len()
            invariant
                t < themes.len(),
                *theme == themes@[t as int],
                s <= theme.schemes.len(),
                run_jobs(themes@, templates@, *config, t as nat) is Ok,
                theme_jobs(*theme, templates@, *config, s as nat) == Ok::<
                    Seq<JobView>,
                    Seq<char>,
                >(job_views(of_theme@)),
            decreases theme.schemes.len() - s,
        {
            match all_with(theme, &theme.schemes[s], templates, config) {
                Ok(more) => {
                    add_jobs(&mut of_theme, more);
                },
                Err(error) => {
                    proof {
                        let failed = scheme_jobs(
                            *theme,
                            theme.schemes@[s as int],
                            templates@,
                            *config,
                            templates@.len(),
                        );
                        assert(theme_jobs(*theme, templates@, *config, (s + 1) as nat) == failed);
                        lemma_theme_jobs_fail(
                            *theme,
                            templates@,
                            *config,
                            (s + 1) as nat,
                            theme.schemes@.len(),
                        );
                        assert(run_jobs(themes@, templates@, *config, (t + 1) as nat) == failed);
                        lemma_run_jobs_fail(
                            themes@,
                            templates@,
                            *config,
                            (t + 1) as nat,
                            themes@.len(),
                        );
                    }
                    return Err(error);
                },
            }
            s += 1;
        }
        add_jobs(&mut jobs, of_theme);
        t += 1;
    }
    Ok(jobs)
}

/// The files that a run renders, in the order in which they are rendered. A
/// failure is reported as one of rendering, and says what failed.
pub fn all(templates: &Vec<Template>, themes: &Vec<Theme>, config: &Config) -> (jobs: Result<
    Vec<Job>,
    Error,
>)
    ensures
        match run_jobs(themes@, templates@, *config, themes@.len()) {
            Ok(expected) => jobs matches Ok(list) && job_views(list@) == expected,
            Err(reason) => jobs matches Err(error) && is_rendering(
                error,
                rendering_text(rendering_text(bug_text(reason))),
            ),
        },
{
    match all_internal(templates, themes, config) {
        Ok(jobs) => Ok(jobs),
        Err(error) => Err(as_rendering(error)),
    }
}

} // verus!
