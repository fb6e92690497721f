//! The index of a render tree: for each output file, what it was rendered
//! from and what was written.

use vstd::prelude::*;

use crate::digest::digest_of;
use crate::manifest::{check_status, hash, status_against, Manifest, ManifestEntry};
use crate::ordered::{lemma_upserted_values, upserted, value_at};
use crate::output::strategy::{decide_spec, writes, Decision, WriteMode};
use crate::output::FileStatus;
use crate::text::same_text;

verus! {

/// The name of the file in which the index is stored.
pub const FILENAME: &'static str = "index.json";

/// The format version of the index.
pub const VERSION: u8 = 0;

/// The index: a manifest of render entries.
pub type Index = Manifest<Entry>;

/// The record of one rendered file.
#[derive(Debug)]
pub struct Entry {
    /// The output path.
    pub path: String,
    /// The name of the theme.
    pub theme: String,
    /// The name of the scheme.
    pub scheme: String,
    /// The name of the template.
    pub template: String,
    /// The digest of the file as it was written, after any formatting.
    pub render_hash: String,
    /// The digest of the theme, serialised.
    pub theme_hash: String,
    /// The digest of the scheme, serialised.
    pub scheme_hash: String,
    /// The digest of the template's source.
    pub template_hash: String,
}

/// What an `Entry` holds, as text.
pub struct EntryView {
    pub path: Seq<char>,
    pub theme: Seq<char>,
    pub scheme: Seq<char>,
    pub template: Seq<char>,
    pub render_hash: Seq<char>,
    pub theme_hash: Seq<char>,
    pub scheme_hash: Seq<char>,
    pub template_hash: Seq<char>,
}

impl View for Entry {
    type V = EntryView;

    open spec fn view(&self) -> EntryView {
        EntryView {
            path: self.path@,
            theme: self.theme@,
            scheme: self.scheme@,
            template: self.template@,
            render_hash: self.render_hash@,
            theme_hash: self.theme_hash@,
            scheme_hash: self.scheme_hash@,
            template_hash: self.template_hash@,
        }
    }
}

impl Clone for Entry {
    fn clone(&self) -> (r: Self)
        ensures
            r == *self,
    {
        Entry {
            path: self.path.clone(),
            theme: self.theme.clone(),
            scheme: self.scheme.clone(),
            template: self.template.clone(),
            render_hash: self.render_hash.clone(),
            theme_hash: self.theme_hash.clone(),
            scheme_hash: self.scheme_hash.clone(),
            template_hash: self.template_hash.clone(),
        }
    }
}

impl ManifestEntry for Entry {
    open spec fn path_text(entry: EntryView) -> Seq<char> {
        entry.path
    }

    open spec fn hash_text(entry: EntryView) -> Seq<char> {
        entry.render_hash
    }

    fn path(&self) -> (p: &str) {
        self.path.as_str()
    }

    fn hash(&self) -> (h: &str) {
        self.render_hash.as_str()
    }
}

/// What one output file is rendered from: the names of theme, scheme and
/// template, the theme and the scheme in their stable serialised form, and
/// the source of the template.
#[derive(Debug)]
pub struct Inputs {
    pub theme: String,
    pub scheme: String,
    pub template: String,
    pub theme_text: String,
    pub scheme_text: String,
    pub template_source: String,
}

/// What an `Inputs` holds, as text.
pub struct InputsView {
    pub theme: Seq<char>,
    pub scheme: Seq<char>,
    pub template: Seq<char>,
    pub theme_text: Seq<char>,
    pub scheme_text: Seq<char>,
    pub template_source: Seq<char>,
}

impl View for Inputs {
    type V = InputsView;

    open spec fn view(&self) -> InputsView {
        InputsView {
            theme: self.theme@,
            scheme: self.scheme@,
            template: self.template@,
            theme_text: self.theme_text@,
            scheme_text: self.scheme_text@,
            template_source: self.template_source@,
        }
    }
}

/// An input of the entry is no longer what it was when the file was written.
pub open spec fn stale(entry: EntryView, inputs: InputsView) -> bool {
    digest_of(inputs.theme_text) != entry.theme_hash || digest_of(inputs.scheme_text)
        != entry.scheme_hash || digest_of(inputs.template_source) != entry.template_hash
}

/// The status of an output file: untracked where the index has no entry for
/// its path; else modified where the file on disk is not what was written;
/// else stale where an input changed; else unchanged.
pub open spec fn status_of(
    index: Seq<(Seq<char>, EntryView)>,
    path: Seq<char>,
    on_disk: Option<Seq<char>>,
    inputs: InputsView,
) -> FileStatus {
    match value_at(index, path) {
        None => FileStatus::NotTracked,
        Some(entry) => status_against(entry.render_hash, on_disk, stale(entry, inputs)),
    }
}

/// The entry for a file at `path` that was rendered from `inputs` and holds
/// `content` now that it was written.
pub open spec fn entry_of(path: Seq<char>, inputs: InputsView, content: Seq<char>) -> EntryView {
    EntryView {
        path,
        theme: inputs.theme,
        scheme: inputs.scheme,
        template: inputs.template,
        render_hash: digest_of(content),
        theme_hash: digest_of(inputs.theme_text),
        scheme_hash: digest_of(inputs.scheme_text),
        template_hash: digest_of(inputs.template_source),
    }
}

/// The text inside an optional string slice.
pub open spec fn opt_str(o: Option<&str>) -> Option<Seq<char>> {
    match o {
        Some(s) => Some(s@),
        None => None,
    }
}

/// The digest of a theme in its serialised form.
pub fn hash_theme(theme_text: &str) -> (digest: String)
    ensures
        digest@ == digest_of(theme_text@),
{
    hash(theme_text)
}

/// The digest of a scheme in its serialised form.
pub fn hash_scheme(scheme_text: &str) -> (digest: String)
    ensures
        digest@ == digest_of(scheme_text@),
{
    hash(scheme_text)
}

/// The digest of a template's source.
pub fn hash_template(template_source: &str) -> (digest: String)
    ensures
        digest@ == digest_of(template_source@),
{
    hash(template_source)
}

impl Manifest<Entry> {
    /// The status of the output file at `path`, which now holds `on_disk`
    /// (`None` where it is missing), against what it would be rendered from.
    pub fn check(&self, path: &str, on_disk: Option<&str>, inputs: &Inputs) -> (status: FileStatus)
        ensures
            status == status_of(self@, path@, opt_str(on_disk), inputs@),
    {
        let entry = match self.get(path) {
            Some(entry) => entry,
            None => {
                return FileStatus::NotTracked;
            },
        };
        let theme_hash = hash_theme(inputs.theme_text.as_str());
        let scheme_hash = hash_scheme(inputs.scheme_text.as_str());
        let template_hash = hash_template(inputs.template_source.as_str());
        let changed = !same_text(theme_hash.as_str(), entry.theme_hash.as_str()) || !same_text(
            scheme_hash.as_str(),
            entry.scheme_hash.as_str(),
        ) || !same_text(template_hash.as_str(), entry.template_hash.as_str());
        check_status(entry.render_hash.as_str(), on_disk, changed)
    }

    /// The entry for the file at `path`, rendered from `inputs`, which holds
    /// `content` now that it was written.
    pub fn create_entry(path: &str, inputs: &Inputs, content: &str) -> (entry: Entry)
        ensures
            entry@ == entry_of(path@, inputs@, content@),
    {
        Entry {
            path: path.to_owned(),
            template: inputs.template.clone(),
            theme: inputs.theme.clone(),
            scheme: inputs.scheme.clone(),
            render_hash: hash(content),
            template_hash: hash_template(inputs.template_source.as_str()),
            theme_hash: hash_theme(inputs.theme_text.as_str()),
            scheme_hash: hash_scheme(inputs.scheme_text.as_str()),
        }
    }
}

/// A file that was just written and recorded is unchanged: once the entry
/// made for it is in the index, a check against the same content on disk and
/// the same inputs says so, and under the normal policy the file is skipped.
pub proof fn lemma_recorded_file_is_unchanged(
    index: Seq<(Seq<char>, EntryView)>,
    path: Seq<char>,
    inputs: InputsView,
    content: Seq<char>,
)
    ensures
        status_of(
            upserted(index, path, entry_of(path, inputs, content)),
            path,
            Some(content),
            inputs,
        ) == FileStatus::Unchanged,
        decide_spec(
            status_of(
                upserted(index, path, entry_of(path, inputs, content)),
                path,
                Some(content),
                inputs,
            ),
            WriteMode::Normal,
        ) == Decision::Skip,
{
    lemma_upserted_values(index, path, entry_of(path, inputs, content));
}

/// Where an input changed and the file on disk is still what was written, the
/// file is stale, never modified.
pub proof fn lemma_changed_input_is_stale(
    index: Seq<(Seq<char>, EntryView)>,
    path: Seq<char>,
    inputs: InputsView,
    content: Seq<char>,
)
    requires
        value_at(index, path) is Some,
        value_at(index, path)->0.render_hash == digest_of(content),
        stale(value_at(index, path)->0, inputs),
    ensures
        status_of(index, path, Some(content), inputs) == FileStatus::Stale,
{
}

/// Where the scheme changed, so that its digest is no longer the recorded
/// one, and the file on disk is still what was written, the file is stale,
/// never modified, whatever the other inputs are; it is written again.
pub proof fn lemma_changed_scheme_is_stale(
    index: Seq<(Seq<char>, EntryView)>,
    path: Seq<char>,
    inputs: InputsView,
    content: Seq<char>,
    mode: WriteMode,
)
    requires
        value_at(index, path) is Some,
        value_at(index, path)->0.render_hash == digest_of(content),
        digest_of(inputs.scheme_text) != value_at(index, path)->0.scheme_hash,
    ensures
        status_of(index, path, Some(content), inputs) == FileStatus::Stale,
        status_of(index, path, Some(content), inputs) != FileStatus::Modified,
        decide_spec(status_of(index, path, Some(content), inputs), mode) == Decision::Write,
{
}

/// A tracked file whose content on disk no longer has the recorded digest, or
/// which is gone, is modified, whatever its inputs are. Under the normal
/// policy that is a conflict; under the forcing policy the file is written.
pub proof fn lemma_edited_file_is_modified(
    index: Seq<(Seq<char>, EntryView)>,
    path: Seq<char>,
    inputs: InputsView,
    on_disk: Option<Seq<char>>,
)
    requires
        value_at(index, path) is Some,
        on_disk matches Some(content) ==> digest_of(content) != value_at(
            index,
            path,
        )->0.render_hash,
    ensures
        status_of(index, path, on_disk, inputs) == FileStatus::Modified,
        decide_spec(status_of(index, path, on_disk, inputs), WriteMode::Normal)
            == Decision::Conflict,
        writes(decide_spec(status_of(index, path, on_disk, inputs), WriteMode::Force)),
{
}

/// A path without an entry is untracked, whatever is on disk, and the file is
/// written under either policy.
pub proof fn lemma_unknown_path_is_untracked(
    index: Seq<(Seq<char>, EntryView)>,
    path: Seq<char>,
    inputs: InputsView,
    on_disk: Option<Seq<char>>,
    mode: WriteMode,
)
    requires
        value_at(index, path) is None,
    ensures
        status_of(index, path, on_disk, inputs) == FileStatus::NotTracked,
        decide_spec(status_of(index, path, on_disk, inputs), mode) == Decision::Write,
{
}

} // verus!
