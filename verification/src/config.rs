//! The project configuration and the hosting providers it knows.

use vstd::prelude::*;

use crate::extensions::Merge;
use crate::ordered::{
    distinct_keys, lemma_overlaid_from_empty, lemma_position_of, overlaid, position_of,
    provider_entries, provider_table_get, provider_table_insert, provider_table_into_values,
    provider_table_new, upserted, values_of,
};
use crate::paths::{
    absolute, ancestors, ancestors_of, join, joined, nearest_marked, nearest_marked_of, texts,
};
use crate::text::chars_of;
use crate::themes::{clone_opt, opt_text};

verus! {

/// A source-hosting service: its host and the templates of its links.
#[derive(Debug)]
pub struct Provider {
    /// The host name; the key under which the provider is found.
    pub host: String,
    /// The template of a link to a file as the service shows it.
    pub blob_path: Option<String>,
    /// The template of a link to a file's bare content.
    pub raw_path: Option<String>,
    /// The branch that links refer to, in place of the current one.
    pub branch: Option<String>,
}

/// What a `Provider` holds, as text.
pub struct ProviderView {
    pub host: Seq<char>,
    pub blob_path: Option<Seq<char>>,
    pub raw_path: Option<Seq<char>>,
    pub branch: Option<Seq<char>>,
}

impl View for Provider {
    type V = ProviderView;

    open spec fn view(&self) -> ProviderView {
        ProviderView {
            host: self.host@,
            blob_path: opt_text(self.blob_path),
            raw_path: opt_text(self.raw_path),
            branch: opt_text(self.branch),
        }
    }
}

impl Clone for Provider {
    fn clone(&self) -> (r: Self)
        ensures
            r == *self,
    {
        Provider {
            host: self.host.clone(),
            blob_path: clone_opt(&self.blob_path),
            raw_path: clone_opt(&self.raw_path),
            branch: clone_opt(&self.branch),
        }
    }
}

/// The name of the file that holds a configuration and marks a project root.
pub const FILENAME: &'static str = "theymer.toml";

/// What went wrong while a configuration was found or read.
#[derive(Debug)]
pub enum ConfigError {
    /// Neither the directory nor any directory above it holds a configuration.
    NoProjectRoot { cwd: String },
    /// The configuration could not be read.
    Reading { src: String },
    /// The configuration is not well-formed.
    Parsing { src: String },
    /// A path names a variable that could not be looked up.
    ExpandingPath { path: String, variable: String, cause: String },
    /// The working directory could not be moved to the project root.
    ChangingDir { cwd: String, root: String, src: String },
}

impl ConfigError {
    /// What the error says.
    pub open spec fn text(&self) -> Seq<char> {
        match self {
            ConfigError::NoProjectRoot { cwd } => "failed to find `theymer.toml` in `"@ + cwd@ + "` or any parent directory"@,
            ConfigError::Reading { src } => "failed to read `theymer.toml`: "@ + src@,
            ConfigError::Parsing { src } => "failed to parse `theymer.toml`: "@ + src@,
            ConfigError::ExpandingPath { path, variable, cause } => "failed to expand path `"@ + path@ + "`: error looking key '"@ + variable@ + "' up: "@ + cause@,
            ConfigError::ChangingDir { cwd, root, src } => "failed to move from `"@ + cwd@ + "` to project root `"@ + root@ + "`: "@ + src@,
        }
    }

    /// What the error says, for a reader.
    pub fn message(&self) -> (m: String)
        ensures
            m@ == self.text(),
    {
        match self {
            ConfigError::NoProjectRoot { cwd } => {
                let mut m: String = "failed to find `theymer.toml` in `".to_owned();
                m.append(cwd.as_str());
                m.append("` or any parent directory");
                m
            },
            ConfigError::Reading { src } => {
                let mut m: String = "failed to read `theymer.toml`: ".to_owned();
                m.append(src.as_str());
                m
            },
            ConfigError::Parsing { src } => {
                let mut m: String = "failed to parse `theymer.toml`: ".to_owned();
                m.append(src.as_str());
                m
            },
            ConfigError::ExpandingPath { path, variable, cause } => {
                let mut m: String = "failed to expand path `".to_owned();
                m.append(path.as_str());
                m.append("`: error looking key '");
                m.append(variable.as_str());
                m.append("' up: ");
                m.append(cause.as_str());
                m
            },
            ConfigError::ChangingDir { cwd, root, src } => {
                let mut m: String = "failed to move from `".to_owned();
                m.append(cwd.as_str());
                m.append("` to project root `");
                m.append(root.as_str());
                m.append("`: ");
                m.append(src.as_str());
                m
            },
        }
    }
}

/// The directories of a project.
#[derive(Debug)]
pub struct Dirs {
    pub themes: String,
    pub schemes: String,
    pub templates: String,
    pub render: String,
}

impl Default for Dirs {
    fn default() -> (dirs: Self)
        ensures
            dirs.themes@ == "themes"@,
            dirs.schemes@ == "schemes"@,
            dirs.templates@ == "templates"@,
            dirs.render@ == "render"@,
    {
        Dirs {
            themes: "themes".to_owned(),
            schemes: "schemes".to_owned(),
            templates: "templates".to_owned(),
            render: "render".to_owned(),
        }
    }
}

/// Whether a project holds one theme or several.
#[derive(Clone, Copy, Debug, PartialEq, Eq, Structural)]
pub enum ProjectType {
    /// The project is a single theme.
    Monotheme,
    /// The project holds a directory of themes.
    Polytheme,
}

/// A configuration as it is written: paths are neither expanded nor resolved,
/// and the providers are only those that the file names.
#[derive(Debug)]
pub struct Raw {
    pub strip_directives: Vec<Vec<String>>,
    pub dirs: Dirs,
    pub providers: Vec<Provider>,
    /// A directory into which every theme renders, in place of its own.
    pub render_all_into: Option<String>,
}

/// The configuration of a project, resolved against its root.
#[derive(Debug)]
pub struct Config {
    pub strip_directives: Vec<Vec<String>>,
    pub dirs: Dirs,
    pub providers: Vec<Provider>,
    pub project_type: ProjectType,
    pub project_root: String,
    /// A directory into which every theme renders, in place of its own.
    pub render_all_into: Option<String>,
}

/// The views of a list of providers.
pub open spec fn provider_views(list: Seq<Provider>) -> Seq<ProviderView> {
    list.map_values(|p: Provider| p@)
}

/// The providers that are known without any configuration.
pub open spec fn default_provider_views() -> Seq<ProviderView> {
    seq![
        ProviderView {
            host: "github.com"@,
            blob_path: Some("{host}/{owner}/{repo}/blob/{ref}/{file}"@),
            raw_path: Some("raw.githubusercontent.com/{owner}/{repo}/{ref}/{file}"@),
            branch: None,
        },
        ProviderView {
            host: "gitlab.com"@,
            blob_path: Some("{host}/{owner}/{repo}/-/blob/{ref}/{file}"@),
            raw_path: Some("{host}/{owner}/{repo}/-/raw/{ref}/{file}"@),
            branch: None,
        },
        ProviderView {
            host: "codeberg.org"@,
            blob_path: Some("{host}/{owner}/{repo}/src/branch/{ref}/{file}"@),
            raw_path: Some("{host}/{owner}/{repo}/raw/branch/{ref}/{file}"@),
            branch: None,
        },
        ProviderView {
            host: "bitbucket.org"@,
            blob_path: Some("{host}/{owner}/{repo}/src/{ref}/{file}"@),
            raw_path: Some("{host}/{owner}/{repo}/raw/{ref}/{file}"@),
            branch: None,
        },
    ]
}

/// The built-in providers, in their fixed order.
pub fn default_providers() -> (providers: Vec<Provider>)
    ensures
        provider_views(providers@) == default_provider_views(),
{
    let mut providers: Vec<Provider> = Vec::new();
    providers.push(
        Provider {
            host: "github.com".to_owned(),
            blob_path: Some("{host}/{owner}/{repo}/blob/{ref}/{file}".to_owned()),
            raw_path: Some("raw.githubusercontent.com/{owner}/{repo}/{ref}/{file}".to_owned()),
            branch: None,
        },
    );
    providers.push(
        Provider {
            host: "gitlab.com".to_owned(),
            blob_path: Some("{host}/{owner}/{repo}/-/blob/{ref}/{file}".to_owned()),
            raw_path: Some("{host}/{owner}/{repo}/-/raw/{ref}/{file}".to_owned()),
            branch: None,
        },
    );
    providers.push(
        Provider {
            host: "codeberg.org".to_owned(),
            blob_path: Some("{host}/{owner}/{repo}/src/branch/{ref}/{file}".to_owned()),
            raw_path: Some("{host}/{owner}/{repo}/raw/branch/{ref}/{file}".to_owned()),
            branch: None,
        },
    );
    providers.push(
        Provider {
            host: "bitbucket.org".to_owned(),
            blob_path: Some("{host}/{owner}/{repo}/src/{ref}/{file}".to_owned()),
            raw_path: Some("{host}/{owner}/{repo}/raw/{ref}/{file}".to_owned()),
            branch: None,
        },
    );
    proof {
        assert(provider_views(providers@) =~= default_provider_views());
    }
    providers
}

/// The configuration that stands for a file that says nothing: one strip
/// directive, `#:tombi`; the directories `themes`, `schemes`, `templates` and
/// `render`; the built-in providers; no shared render target.
pub open spec fn is_default(raw: Raw) -> bool {
    &&& raw.strip_directives@.len() == 1
    &&& texts(raw.strip_directives@[0]@) == seq!["#:tombi"@]
    &&& raw.dirs.themes@ == "themes"@
    &&& raw.dirs.schemes@ == "schemes"@
    &&& raw.dirs.templates@ == "templates"@
    &&& raw.dirs.render@ == "render"@
    &&& provider_views(raw.providers@) == default_provider_views()
    &&& raw.render_all_into is None
}

impl Default for Raw {
    fn default() -> (raw: Self)
        ensures
            is_default(raw),
    {
        let mut markers: Vec<String> = Vec::new();
        markers.push("#:tombi".to_owned());
        let mut strip_directives: Vec<Vec<String>> = Vec::new();
        strip_directives.push(markers);
        proof {
            assert(texts(strip_directives@[0]@) =~= seq!["#:tombi"@]);
        }
        Raw {
            strip_directives,
            dirs: Dirs::default(),
            providers: default_providers(),
            render_all_into: None,
        }
    }
}

/// Each provider under its host.
pub open spec fn keyed(list: Seq<ProviderView>) -> Seq<(Seq<char>, ProviderView)> {
    list.map_values(|p: ProviderView| (p.host, p))
}

/// A table of providers after the user's providers were taken in, in turn:
/// one whose host is in the table is merged over the provider of that host
/// and takes its place, any other is added at the end.
pub open spec fn with_user(table: Seq<(Seq<char>, ProviderView)>, user: Seq<ProviderView>) -> Seq<
    (Seq<char>, ProviderView),
>
    decreases user.len(),
{
    if user.len() == 0 {
        table
    } else {
        let before = with_user(table, user.drop_last());
        let own = user.last();
        match position_of(before, own.host) {
            Some(i) => upserted(before, own.host, Provider::merged(own, before[i].1)),
            None => upserted(before, own.host, own),
        }
    }
}

/// The providers of a project: the defaults, each overridden field by field
/// by the user's provider of the same host, then the user's other providers.
pub open spec fn resolved_providers(defaults: Seq<ProviderView>, user: Seq<ProviderView>) -> Seq<
    ProviderView,
> {
    values_of(with_user(overlaid(Seq::<(Seq<char>, ProviderView)>::empty(), keyed(defaults)), user))
}

/// Resolves the providers that a configuration names against the defaults.
pub fn merge_providers_with_defaults(user_providers: &[Provider]) -> (providers: Vec<Provider>)
    ensures
        provider_views(providers@) == resolved_providers(
            default_provider_views(),
            provider_views(user_providers@),
        ),
{
    let defaults = default_providers();
    let ghost base = keyed(default_provider_views());
    let ghost user = provider_views(user_providers@);
    let mut table = provider_table_new();
    let mut i: usize = 0;
    while i < defaults.len()
        invariant
            i <= defaults.len(),
            provider_views(defaults@) == default_provider_views(),
            base == keyed(default_provider_views()),
            provider_entries(table) == overlaid(
                Seq::<(Seq<char>, ProviderView)>::empty(),
                base.take(i as int),
            ),
        decreases defaults.len() - i,
    {
        let provider = defaults[i].clone();
        proof {
            assert(provider@ == provider_views(defaults@)[i as int]);
            assert(base.take(i + 1).drop_last() =~= base.take(i as int));
            assert(base.take(i + 1).last() == (provider@.host, provider@));
        }
        provider_table_insert(&mut table, provider.host.clone(), provider);
        i += 1;
    }
    proof {
        assert(base.take(base.len() as int) =~= base);
        assert(user.take(0) =~= Seq::<ProviderView>::empty());
    }
    let mut k: usize = 0;
    while k < user_providers.len()
        invariant
            k <= user_providers.len(),
            user == provider_views(user_providers@),
            provider_entries(table) == with_user(
                overlaid(Seq::<(Seq<char>, ProviderView)>::empty(), base),
                user.take(k as int),
            ),
        decreases user_providers.len() - k,
    {
        let own = user_providers[k].clone();
        proof {
            assert(own@ == user[k as int]);
            assert(user.take(k + 1).drop_last() =~= user.take(k as int));
            assert(user.take(k + 1).last() == own@);
        }
        let found: Option<Provider> = match provider_table_get(&table, own.host.as_str()) {
            Some(default) => Some(default.clone()),
            None => None,
        };
        match found {
            Some(default) => {
                let merged = own.merge(default);
                provider_table_insert(&mut table, merged.host.clone(), merged);
            },
            None => {
                provider_table_insert(&mut table, own.host.clone(), own);
            },
        }
        k += 1;
    }
    proof {
        assert(user.take(user.len() as int) =~= user);
    }
    provider_table_into_values(table)
}

/// The built-in providers have four different hosts.
pub proof fn lemma_default_hosts_differ()
    ensures
        default_provider_views().len() == 4,
        distinct_keys(keyed(default_provider_views())),
{
    reveal_strlit("github.com");
    reveal_strlit("gitlab.com");
    reveal_strlit("codeberg.org");
    reveal_strlit("bitbucket.org");
    let table = keyed(default_provider_views());
    assert(table[0].0 == "github.com"@);
    assert(table[1].0 == "gitlab.com"@);
    assert(table[2].0 == "codeberg.org"@);
    assert(table[3].0 == "bitbucket.org"@);
    assert("github.com"@[3] == 'h');
    assert("gitlab.com"@[3] == 'l');
    assert("github.com"@.len() == 10);
    assert("gitlab.com"@.len() == 10);
    assert("codeberg.org"@.len() == 12);
    assert("bitbucket.org"@.len() == 13);
}

/// The table that the defaults are put into holds them in their order.
pub proof fn lemma_default_table()
    ensures
        overlaid(Seq::<(Seq<char>, ProviderView)>::empty(), keyed(default_provider_views()))
            == keyed(default_provider_views()),
{
    lemma_default_hosts_differ();
    let table = keyed(default_provider_views());
    lemma_overlaid_from_empty(table, 4);
    assert(table.take(4) =~= table);
}

/// Where the configuration names no provider, the providers are exactly the
/// four built-in ones, in their order.
pub proof fn lemma_no_user_providers()
    ensures
        resolved_providers(default_provider_views(), Seq::<ProviderView>::empty())
            == default_provider_views(),
{
    lemma_default_table();
    assert(values_of(keyed(default_provider_views())) =~= default_provider_views());
}

/// A provider for `github.com` that sets only a branch changes only the
/// branch of the built-in one: the link templates stay, and so do the other
/// three providers.
pub proof fn lemma_branch_override_keeps_templates(branch: Seq<char>)
    ensures
        ({
            let own = ProviderView {
                host: "github.com"@,
                blob_path: None,
                raw_path: None,
                branch: Some(branch),
            };
            let resolved = resolved_providers(default_provider_views(), seq![own]);
            let defaults = default_provider_views();
            &&& resolved.len() == 4
            &&& resolved[0] == ProviderView {
                host: "github.com"@,
                blob_path: defaults[0].blob_path,
                raw_path: defaults[0].raw_path,
                branch: Some(branch),
            }
            &&& resolved[1] == defaults[1]
            &&& resolved[2] == defaults[2]
            &&& resolved[3] == defaults[3]
        }),
{
    let own = ProviderView {
        host: "github.com"@,
        blob_path: None,
        raw_path: None,
        branch: Some(branch),
    };
    let defaults = default_provider_views();
    let table = keyed(defaults);
    lemma_default_table();
    lemma_default_hosts_differ();
    let user = seq![own];
    assert(user.drop_last() =~= Seq::<ProviderView>::empty());
    assert(user.last() == own);
    assert(with_user(table, user.drop_last()) == table);
    lemma_position_of(table, own.host);
    assert(table[0].0 == own.host);
    assert(position_of(table, own.host) == Some(0int));
}

/// The kind of project: several themes where the themes directory exists, a
/// single theme where it does not.
pub fn detect_project_type(themes_dir_exists: bool) -> (kind: ProjectType)
    ensures
        kind == (if themes_dir_exists {
            ProjectType::Polytheme
        } else {
            ProjectType::Monotheme
        }),
{
    if themes_dir_exists {
        return ProjectType::Polytheme;
    }
    ProjectType::Monotheme
}

/// Where a configuration may lie: the configuration file's name under the
/// directory and under each directory above it, nearest first.
pub open spec fn candidates_of(cwd: Seq<char>) -> Seq<Seq<char>> {
    ancestors_of(cwd).map_values(|dir: Seq<char>| joined(dir, FILENAME@))
}

/// The paths at which a configuration is looked for, nearest first.
pub fn candidates(cwd: &str) -> (list: Vec<String>)
    ensures
        texts(list@) == candidates_of(cwd@),
{
    let dirs = ancestors(cwd);
    let mut list: Vec<String> = Vec::new();
    let mut i: usize = 0;
    while i < dirs.len()
        invariant
            i <= dirs.len(),
            texts(dirs@) == ancestors_of(cwd@),
            texts(list@) == candidates_of(cwd@).take(i as int),
        decreases dirs.len() - i,
    {
        let ghost before = list@;
        let candidate = join(dirs[i].as_str(), FILENAME);
        list.push(candidate);
        proof {
            assert(texts(dirs@)[i as int] == dirs@[i as int]@);
            assert(texts(list@) =~= texts(before).push(candidate@));
            assert(candidates_of(cwd@).take(i + 1) =~= candidates_of(cwd@).take(i as int).push(
                candidates_of(cwd@)[i as int],
            ));
        }
        i += 1;
    }
    proof {
        assert(candidates_of(cwd@).take(dirs@.len() as int) =~= candidates_of(cwd@));
    }
    list
}

/// Finds the project root: the nearest of the directory and the directories
/// above it at which a configuration is present. `present` says, for each of
/// them in the order of `candidates`, whether the file is there; a flag that
/// is missing counts as `false`.
pub fn find_project_root(cwd: &str, present: &Vec<bool>) -> (root: Result<String, ConfigError>)
    ensures
        match root {
            Ok(dir) => Some(dir@) == nearest_marked_of(cwd@, present@),
            Err(error) => {
                &&& nearest_marked_of(cwd@, present@) is None
                &&& error matches ConfigError::NoProjectRoot { cwd: c } && c@ == cwd@
            },
        },
{
    match nearest_marked(cwd, present) {
        Some(dir) => Ok(dir),
        None => Err(ConfigError::NoProjectRoot { cwd: cwd.to_owned() }),
    }
}

/// The character is white space, as Unicode defines it.
pub open spec fn white_space(c: char) -> bool {
    c == '\u{9}' || c == '\u{a}' || c == '\u{b}' || c == '\u{c}' || c == '\u{d}' || c == '\u{20}' || c == '\u{85}' || c == '\u{a0}' || c == '\u{1680}' || c == '\u{2000}' || c == '\u{2001}' || c == '\u{2002}' || c == '\u{2003}' || c == '\u{2004}' || c == '\u{2005}' || c == '\u{2006}' || c == '\u{2007}' || c == '\u{2008}' || c == '\u{2009}' || c == '\u{200a}' || c == '\u{2028}' || c == '\u{2029}' || c == '\u{202f}' || c == '\u{205f}' || c == '\u{3000}'
}

/// Whether the character is white space.
pub fn is_white_space(c: char) -> (b: bool)
    ensures
        b == white_space(c),
{
    c == '\u{9}' || c == '\u{a}' || c == '\u{b}' || c == '\u{c}' || c == '\u{d}' || c == '\u{20}' || c == '\u{85}' || c == '\u{a0}' || c == '\u{1680}' || c == '\u{2000}' || c == '\u{2001}' || c == '\u{2002}' || c == '\u{2003}' || c == '\u{2004}' || c == '\u{2005}' || c == '\u{2006}' || c == '\u{2007}' || c == '\u{2008}' || c == '\u{2009}' || c == '\u{200a}' || c == '\u{2028}' || c == '\u{2029}' || c == '\u{202f}' || c == '\u{205f}' || c == '\u{3000}'
}

/// The text holds nothing but white space.
pub open spec fn blank(text: Seq<char>) -> bool {
    forall|i: int| 0 <= i < text.len() ==> white_space(#[trigger] text[i])
}

/// Whether the text holds nothing but white space.
pub fn is_blank(text: &str) -> (b: bool)
    ensures
        b == blank(text@),
{
    let v = chars_of(text);
    let mut i: usize = 0;
    while i < v.len()
        invariant
            i <= v.len(),
            v@ == text@,
            forall|j: int| 0 <= j < i ==> white_space(#[trigger] v@[j]),
        decreases v.len() - i,
    {
        if !is_white_space(v[i]) {
            proof {
                assert(!white_space(text@[i as int]));
            }
            return false;
        }
        i += 1;
    }
    true
}

/// A configuration from the text of its file and from what decoding that
/// text gave: a blank file stands for the defaults, whatever the decoder made
/// of it; otherwise the decoder's result counts.
pub fn parse(content: &str, decoded: Result<Raw, String>) -> (raw: Result<Raw, ConfigError>)
    ensures
        blank(content@) ==> (raw matches Ok(defaults) && is_default(defaults)),
        !blank(content@) ==> match decoded {
            Ok(written) => raw == Ok::<Raw, ConfigError>(written),
            Err(reason) => (raw matches Err(ConfigError::Parsing { src }) && src == reason),
        },
{
    if is_blank(content) {
        return Ok(Raw::default());
    }
    match decoded {
        Ok(written) => Ok(written),
        Err(reason) => Err(ConfigError::Parsing { src: reason }),
    }
}

/// A path as it stands once it is anchored at a root: an absolute path stays
/// what it is, any other is taken relative to the root.
pub open spec fn anchored(path: Seq<char>, root: Seq<char>) -> Seq<char> {
    if absolute(path) {
        path
    } else {
        joined(root, path)
    }
}

/// Anchors an expanded path at the project root.
pub fn resolve_against(expanded: String, project_root: &str) -> (path: String)
    ensures
        path@ == anchored(expanded@, project_root@),
{
    if crate::paths::is_absolute(expanded.as_str()) {
        expanded
    } else {
        join(project_root, expanded.as_str())
    }
}

/// The path holds nothing that a shell would expand: no `$` anywhere, and no
/// `~` at its start.
pub open spec fn plain(path: Seq<char>) -> bool {
    (forall|i: int| 0 <= i < path.len() ==> path[i] != '$') && !(path.len() > 0 && path[0] == '~')
}

/// Expands a leading `~` and the environment variables in a path
/// (`shellexpand::full`). What comes out of a path that names a variable or
/// begins with `~` depends on the environment of the process, and nothing is
/// promised of it. A path that holds neither is handed back as it is and
/// never fails. For a variable that cannot be looked up, the error holds the
/// name of the variable and the cause in words.
#[verifier::external_body]
fn shell_expand(path: &str) -> (expanded: Result<String, (String, String)>)
    ensures
        match expanded {
            Ok(s) => plain(path@) ==> s@ == path@,
            Err(_) => !plain(path@),
        },
{
    match shellexpand::full(path) {
        Ok(expanded) => Ok(expanded.into_owned()),
        Err(error) => Err((error.var_name, error.cause.to_string())),
    }
}

/// Some expansion of a path, anchored at the root: what `expand_and_resolve`
/// may give whatever the environment holds.
pub open spec fn anchored_somewhere(path: Seq<char>, root: Seq<char>) -> bool {
    exists|expanded: Seq<char>| path == #[trigger] anchored(expanded, root)
}

/// `resolved` is what the written path resolves to under the root: the
/// written path itself, anchored, where it holds nothing to expand; some
/// expansion of it, anchored, otherwise.
pub open spec fn resolves_to(written: Seq<char>, root: Seq<char>, resolved: Seq<char>) -> bool {
    if plain(written) {
        resolved == anchored(written, root)
    } else {
        anchored_somewhere(resolved, root)
    }
}

/// Expands a path as a shell would and anchors it at the project root. A
/// path that holds nothing to expand always resolves; any other may fail,
/// with the environment.
pub fn expand_and_resolve(path: &str, project_root: &str) -> (resolved: Result<
    String,
    ConfigError,
>)
    ensures
        plain(path@) ==> resolved is Ok,
        match resolved {
            Ok(p) => resolves_to(path@, project_root@, p@),
            Err(error) => {
                &&& !plain(path@)
                &&& error matches ConfigError::ExpandingPath { path: p, .. } && p@ == path@
            },
        },
{
    match shell_expand(path) {
        Ok(expanded) => {
            let ghost e = expanded@;
            let p = resolve_against(expanded, project_root);
            proof {
                assert(p@ == anchored(e, project_root@));
            }
            Ok(p)
        },
        Err((variable, cause)) => Err(
            ConfigError::ExpandingPath { path: path.to_owned(), variable, cause },
        ),
    }
}

/// The paths that a configuration writes.
pub open spec fn written_in(raw: Raw, path: Seq<char>) -> bool {
    ||| path == raw.dirs.themes@
    ||| path == raw.dirs.schemes@
    ||| path == raw.dirs.templates@
    ||| path == raw.dirs.render@
    ||| (raw.render_all_into matches Some(dir) && path == dir@)
}

/// None of the paths that a configuration writes holds anything to expand.
pub open spec fn all_plain(raw: Raw) -> bool {
    &&& plain(raw.dirs.themes@)
    &&& plain(raw.dirs.schemes@)
    &&& plain(raw.dirs.templates@)
    &&& plain(raw.dirs.render@)
    &&& raw.render_all_into matches Some(dir) ==> plain(dir@)
}

/// Resolves a configuration as written against the project root.
/// `themes_dir_exists` says whether the themes directory, as written, exists
/// under the root. A configuration whose paths hold nothing to expand always
/// resolves; the only failure is that of expanding one of its paths.
pub fn load(raw: Raw, project_root: &str, themes_dir_exists: bool) -> (config: Result<
    Config,
    ConfigError,
>)
    ensures
        all_plain(raw) ==> config is Ok,
        match config {
            Ok(c) => {
                &&& c.strip_directives == raw.strip_directives
                &&& resolves_to(raw.dirs.themes@, project_root@, c.dirs.themes@)
                &&& resolves_to(raw.dirs.schemes@, project_root@, c.dirs.schemes@)
                &&& resolves_to(raw.dirs.templates@, project_root@, c.dirs.templates@)
                &&& resolves_to(raw.dirs.render@, project_root@, c.dirs.render@)
                &&& provider_views(c.providers@) == resolved_providers(
                    default_provider_views(),
                    provider_views(raw.providers@),
                )
                &&& c.project_type == (if themes_dir_exists {
                    ProjectType::Polytheme
                } else {
                    ProjectType::Monotheme
                })
                &&& c.project_root@ == project_root@
                &&& c.render_all_into is Some <==> raw.render_all_into is Some
                &&& c.render_all_into matches Some(d) ==> resolves_to(
                    raw.render_all_into->0@,
                    project_root@,
                    d@,
                )
            },
            Err(error) => {
                &&& error matches ConfigError::ExpandingPath { path: p, .. } && written_in(raw, p@)
                    && !plain(p@)
            },
        },
{
    let themes = match expand_and_resolve(raw.dirs.themes.as_str(), project_root) {
        Ok(p) => p,
        Err(e) => {
            return Err(e);
        },
    };
    let schemes = match expand_and_resolve(raw.dirs.schemes.as_str(), project_root) {
        Ok(p) => p,
        Err(e) => {
            return Err(e);
        },
    };
    let templates = match expand_and_resolve(raw.dirs.templates.as_str(), project_root) {
        Ok(p) => p,
        Err(e) => {
            return Err(e);
        },
    };
    let render = match expand_and_resolve(raw.dirs.render.as_str(), project_root) {
        Ok(p) => p,
        Err(e) => {
            return Err(e);
        },
    };
    let render_all_into = match &raw.render_all_into {
        Some(dir) => match expand_and_resolve(dir.as_str(), project_root) {
            Ok(p) => Some(p),
            Err(e) => {
                return Err(e);
            },
        },
        None => None,
    };
    let providers = merge_providers_with_defaults(raw.providers.as_slice());
    Ok(
        Config {
            strip_directives: raw.strip_directives,
            dirs: Dirs { themes, schemes, templates, render },
            providers,
            project_type: detect_project_type(themes_dir_exists),
            project_root: project_root.to_owned(),
            render_all_into,
        },
    )
}

} // verus!
