//! The record of what was generated: one entry per output path, under a
//! format version, and the status of a file against its entry.

use vstd::prelude::*;

use crate::digest::{decimal, decimal_of, digest_of, fingerprint};
use crate::ordered::{
    distinct_keys, lemma_position_absent, lemma_position_is_first, lemma_upserted, overlaid,
    position_of, upserted, value_at,
};
use crate::output::FileStatus;
use crate::text::same_text;

verus! {

/// Why a manifest could not be had.
#[derive(Debug)]
pub enum Error {
    /// The stored manifest was written under another format version. It is
    /// never migrated.
    VersionMismatch { found: u8, expected: u8 },
    /// The stored manifest could not be read.
    Reading { path: String, src: String },
    /// The stored manifest is not well-formed.
    Parsing { path: String, src: String },
    /// The manifest could not be written.
    Writing { path: String, src: String },
}

impl Error {
    /// What the error says.
    pub open spec fn text(&self) -> Seq<char> {
        match self {
            Error::VersionMismatch { found, expected } => "stored under format version "@ + decimal_of(*found as nat) + ", expected version "@ + decimal_of(*expected as nat),
            Error::Reading { path, src } => "failed to read `"@ + path@ + "`: "@ + src@,
            Error::Parsing { path, src } => "failed to parse `"@ + path@ + "`: "@ + src@,
            Error::Writing { path, src } => "failed to write `"@ + path@ + "`: "@ + src@,
        }
    }

    /// What the error says, for a reader.
    pub fn message(&self) -> (m: String)
        ensures
            m@ == self.text(),
    {
        match self {
            Error::VersionMismatch { found, expected } => {
                let mut m: String = "stored under format version ".to_owned();
                m.append(decimal(*found).as_str());
                m.append(", expected version ");
                m.append(decimal(*expected).as_str());
                m
            },
            Error::Reading { path, src } => {
                let mut m: String = "failed to read `".to_owned();
                m.append(path.as_str());
                m.append("`: ");
                m.append(src.as_str());
                m
            },
            Error::Parsing { path, src } => {
                let mut m: String = "failed to parse `".to_owned();
                m.append(path.as_str());
                m.append("`: ");
                m.append(src.as_str());
                m
            },
            Error::Writing { path, src } => {
                let mut m: String = "failed to write `".to_owned();
                m.append(path.as_str());
                m.append("`: ");
                m.append(src.as_str());
                m
            },
        }
    }
}

/// What a manifest keeps per output file.
pub trait ManifestEntry: Sized + View {
    /// The output path, under which the entry is found.
    spec fn path_text(entry: Self::V) -> Seq<char>;

    /// The digest of the file as it was written.
    spec fn hash_text(entry: Self::V) -> Seq<char>;

    /// The output path.
    fn path(&self) -> (p: &str)
        ensures
            p@ == Self::path_text(self@),
    ;

    /// The digest of the file as it was written.
    fn hash(&self) -> (h: &str)
        ensures
            h@ == Self::hash_text(self@),
    ;
}

/// The digest of a text.
pub fn hash(content: &str) -> (digest: String)
    ensures
        digest@ == digest_of(content@),
{
    fingerprint(content)
}

/// The status of a tracked file. `on_disk` is what the file holds now, `None`
/// where it is missing; a missing file counts as one that differs from what
/// was written. `stale` says whether an input changed since.
pub open spec fn status_against(stored_hash: Seq<char>, on_disk: Option<Seq<char>>, stale: bool)
    -> FileStatus {
    match on_disk {
        None => FileStatus::Modified,
        Some(content) => if digest_of(content) != stored_hash {
            FileStatus::Modified
        } else if stale {
            FileStatus::Stale
        } else {
            FileStatus::Unchanged
        },
    }
}

/// The status of a tracked file against the digest stored for it.
pub fn check_status(stored_hash: &str, on_disk: Option<&str>, stale: bool) -> (status: FileStatus)
    ensures
        status == status_against(
            stored_hash@,
            match on_disk {
                Some(content) => Some(content@),
                None => None,
            },
            stale,
        ),
{
    match on_disk {
        None => FileStatus::Modified,
        Some(content) => {
            let now = hash(content);
            if !same_text(now.as_str(), stored_hash) {
                FileStatus::Modified
            } else if stale {
                FileStatus::Stale
            } else {
                FileStatus::Unchanged
            }
        },
    }
}

/// A versioned collection of entries, one per output path.
#[derive(Debug)]
pub struct Manifest<E> {
    /// The format version under which the manifest is stored.
    pub version: u8,
    /// The entries, in the order in which their paths were first recorded.
    pub entries: Vec<E>,
}

/// Each entry under its path.
pub open spec fn by_path<E: ManifestEntry>(entries: Seq<E>) -> Seq<(Seq<char>, E::V)> {
    entries.map_values(|e: E| (E::path_text(e@), e@))
}

impl<E: ManifestEntry> View for Manifest<E> {
    type V = Seq<(Seq<char>, E::V)>;

    /// The entries, each under its path.
    open spec fn view(&self) -> Seq<(Seq<char>, E::V)> {
        by_path(self.entries@)
    }
}

impl<E: ManifestEntry> Manifest<E> {
    /// No path has two entries.
    pub open spec fn wf(&self) -> bool {
        distinct_keys(self@)
    }

    /// The entry recorded for a path.
    pub open spec fn lookup(&self, path: Seq<char>) -> Option<E::V> {
        value_at(self@, path)
    }

    /// A manifest without entries.
    pub fn new(version: u8) -> (manifest: Self)
        ensures
            manifest.version == version,
            manifest@ == Seq::<(Seq<char>, E::V)>::empty(),
            manifest.wf(),
    {
        let manifest = Manifest { version, entries: Vec::new() };
        proof {
            assert(manifest@ =~= Seq::<(Seq<char>, E::V)>::empty());
        }
        manifest
    }

    /// The number of entries.
    pub fn len(&self) -> (n: usize)
        ensures
            n == self@.len(),
    {
        self.entries.len()
    }

    /// The position of the entry for a path.
    fn position(&self, path: &str) -> (found: Option<usize>)
        ensures
            match found {
                Some(i) => i < self.entries@.len() && position_of(self@, path@) == Some(i as int),
                None => position_of(self@, path@) is None,
            },
    {
        let mut i: usize = 0;
        while i < self.entries.len()
            invariant
                i <= self.entries.len(),
                forall|j: int| 0 <= j < i ==> (#[trigger] self@[j]).0 != path@,
            decreases self.entries.len() - i,
        {
            if same_text(self.entries[i].path(), path) {
                proof {
                    lemma_position_is_first(self@, path@, i as int);
                }
                return Some(i);
            }
            i += 1;
        }
        proof {
            lemma_position_absent(self@, path@);
        }
        None
    }

    /// The entry recorded for a path.
    pub fn get(&self, path: &str) -> (found: Option<&E>)
        ensures
            found is Some <==> self.lookup(path@) is Some,
            found matches Some(e) ==> Some(e@) == self.lookup(path@),
    {
        match self.position(path) {
            Some(i) => Some(&self.entries[i]),
            None => None,
        }
    }

    /// Records an entry: it takes the place of the entry of the same path, if
    /// there is one, and is added at the end otherwise.
    pub fn insert(&mut self, entry: E)
        ensures
            final(self)@ == upserted(old(self)@, E::path_text(entry@), entry@),
            final(self).version == old(self).version,
            old(self).wf() ==> final(self).wf(),
    {
        let ghost before = self@;
        proof {
            lemma_upserted(before, E::path_text(entry@), entry@);
        }
        match self.position(entry.path()) {
            Some(i) => {
                self.entries.set(i, entry);
                proof {
                    assert(self@ =~= before.update(i as int, (E::path_text(entry@), entry@)));
                }
            },
            None => {
                self.entries.push(entry);
                proof {
                    assert(self@ =~= before.push((E::path_text(entry@), entry@)));
                }
            },
        }
    }

    /// The manifest of a run, from what was stored by the run before: an
    /// empty manifest where nothing was stored, an error where the stored
    /// version is not the expected one. Of two stored entries for one path
    /// the later counts.
    pub fn load_or_create(stored: Option<Manifest<E>>, expected: u8) -> (manifest: Result<
        Self,
        Error,
    >)
        ensures
            match stored {
                None => manifest matches Ok(m) && m.version == expected && m@ == Seq::<
                    (Seq<char>, E::V),
                >::empty(),
                Some(s) => if s.version == expected {
                    manifest matches Ok(m) && m.version == expected && m@ == overlaid(
                        Seq::<(Seq<char>, E::V)>::empty(),
                        s@,
                    )
                } else {
                    manifest matches Err(Error::VersionMismatch { found, expected: e }) && found
                        == s.version && e == expected
                },
            },
            manifest matches Ok(m) ==> m.wf(),
    {
        match stored {
            None => Ok(Manifest::new(expected)),
            Some(s) => {
                if s.version != expected {
                    return Err(Error::VersionMismatch { found: s.version, expected });
                }
                let ghost all = s@;
                let mut manifest: Manifest<E> = Manifest::new(expected);
                let mut entries = s.entries;
                let ghost given = entries@;
                let mut taken: usize = 0;
                let total = entries.len();
                proof {
                    assert(all.take(0) =~= Seq::<(Seq<char>, E::V)>::empty());
                }
                while entries.len() > 0
                    invariant
                        all == by_path(given),
                        taken + entries@.len() == total,
                        total == given.len(),
                        entries@ == given.skip(taken as int),
                        manifest.version == expected,
                        manifest.wf(),
                        manifest@ == overlaid(
                            Seq::<(Seq<char>, E::V)>::empty(),
                            all.take(taken as int),
                        ),
                    decreases entries@.len(),
                {
                    let entry = entries.remove(0);
                    proof {
                        assert(entry == given[taken as int]);
                        assert(all.take(taken + 1).drop_last() =~= all.take(taken as int));
                        assert(all.take(taken + 1).last() == (E::path_text(entry@), entry@));
                        assert(given.skip(taken as int).remove(0) =~= given.skip(taken + 1));
                    }
                    manifest.insert(entry);
                    taken += 1;
                }
                proof {
                    assert(all.take(taken as int) =~= all);
                }
                Ok(manifest)
            },
        }
    }
}

} // verus!
