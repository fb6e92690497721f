//! Where an output file lives upstream: the repository around it, and the
//! links that a rendered file may carry.

use vstd::prelude::*;

use crate::themes::opt_text;

verus! {

/// The repository that a path lies in.
#[derive(Debug)]
pub struct Upstream {
    /// The working directory of the repository, as an absolute path.
    pub root: String,
    /// The address of the remote.
    pub url: String,
    /// The branch that is checked out.
    pub branch: String,
}

/// What an `Upstream` holds, as text.
pub struct UpstreamView {
    pub root: Seq<char>,
    pub url: Seq<char>,
    pub branch: Seq<char>,
}

impl View for Upstream {
    type V = UpstreamView;

    open spec fn view(&self) -> UpstreamView {
        UpstreamView { root: self.root@, url: self.url@, branch: self.branch@ }
    }
}

impl Clone for Upstream {
    fn clone(&self) -> (r: Self)
        ensures
            r == *self,
    {
        Upstream { root: self.root.clone(), url: self.url.clone(), branch: self.branch.clone() }
    }
}

/// The upstream annotation of one output file. Both links are absent where
/// nothing could be found out; that is never an error.
#[derive(Debug)]
pub struct Special {
    /// The link to the file as the hosting service shows it.
    pub upstream_file: Option<String>,
    /// The link to the file's bare content in the repository.
    pub upstream_repo: Option<String>,
}

/// What a `Special` holds, as text.
pub struct SpecialView {
    pub upstream_file: Option<Seq<char>>,
    pub upstream_repo: Option<Seq<char>>,
}

impl View for Special {
    type V = SpecialView;

    open spec fn view(&self) -> SpecialView {
        SpecialView {
            upstream_file: opt_text(self.upstream_file),
            upstream_repo: opt_text(self.upstream_repo),
        }
    }
}

/// The annotation that says nothing.
pub open spec fn no_annotation() -> SpecialView {
    SpecialView { upstream_file: None, upstream_repo: None }
}

impl Default for Special {
    fn default() -> (special: Self)
        ensures
            special@ == no_annotation(),
    {
        Special { upstream_file: None, upstream_repo: None }
    }
}

/// What is known of the remote of a repository.
#[derive(Debug)]
pub struct Detected {
    /// The address of the remote.
    pub url: String,
    /// The branch that is checked out.
    pub branch: String,
}

/// The first of `entries` whose root is `root`.
pub open spec fn known(entries: Seq<Upstream>, root: Seq<char>) -> Option<UpstreamView>
    decreases entries.len(),
{
    if entries.len() == 0 {
        None
    } else if entries[0].root@ == root {
        Some(entries[0]@)
    } else {
        known(entries.skip(1), root)
    }
}

/// What was found out about repositories during a run, by root. Nothing is
/// ever forgotten or changed: what is known of a root stays as it was first
/// learnt.
#[derive(Debug)]
pub struct Cache {
    pub entries: Vec<Upstream>,
}

impl Cache {
    /// What the cache knows of a root.
    pub open spec fn lookup(&self, root: Seq<char>) -> Option<UpstreamView> {
        known(self.entries@, root)
    }

    /// A cache that knows nothing.
    pub fn new() -> (cache: Self)
        ensures
            forall|root: Seq<char>| cache.lookup(root) is None,
            cache.entries@.len() == 0,
    {
        Cache { entries: Vec::new() }
    }

    /// What the cache knows of a root, as a copy.
    pub fn get(&self, root: &str) -> (found: Option<Upstream>)
        ensures
            found is Some <==> self.lookup(root@) is Some,
            found matches Some(u) ==> Some(u@) == self.lookup(root@),
    {
        let mut i: usize = 0;
        proof {
            assert(self.entries@.skip(0) =~= self.entries@);
        }
        while i < self.entries.len()
            invariant
                i <= self.entries.len(),
                self.lookup(root@) == known(self.entries@.skip(i as int), root@),
            decreases self.entries.len() - i,
        {
            proof {
                assert(self.entries@.skip(i as int)[0] == self.entries@[i as int]);
                assert(self.entries@.skip(i as int).skip(1) =~= self.entries@.skip(i + 1));
            }
            if crate::text::same_text(self.entries[i].root.as_str(), root) {
                return Some(self.entries[i].clone());
            }
            i += 1;
        }
        None
    }

    /// What is known of the repository at `root`, learning it first where it
    /// is not known yet. For a root that is known, the cache answers and
    /// `detected` is not looked at. For any other, what was detected is
    /// stored and handed back; where nothing was detected, nothing is stored.
    pub fn get_or_detect(&mut self, root: &str, detected: Option<Detected>) -> (found: Option<
        Upstream,
    >)
        ensures
            match old(self).lookup(root@) {
                Some(before) => found matches Some(u) && u@ == before && final(self).entries@
                    == old(self).entries@,
                None => match detected {
                    Some(d) => found matches Some(u) && u@ == (UpstreamView {
                        root: root@,
                        url: d.url@,
                        branch: d.branch@,
                    }) && final(self).lookup(root@) == Some(u@),
                    None => found is None && final(self).entries@ == old(self).entries@,
                },
            },
            forall|other: Seq<char>|
                old(self).lookup(other) is Some ==> final(self).lookup(other) == old(self).lookup(
                    other,
                ),
            forall|other: Seq<char>|
                other != root@ ==> final(self).lookup(other) == old(self).lookup(other),
    {
        match self.get(root) {
            Some(known) => Some(known),
            None => match detected {
                Some(d) => {
                    let learnt = Upstream { root: root.to_owned(), url: d.url, branch: d.branch };
                    let copy = learnt.clone();
                    proof {
                        lemma_known_after_push(self.entries@, learnt);
                    }
                    self.entries.push(learnt);
                    Some(copy)
                },
                None => None,
            },
        }
    }
}

/// A new entry at the end answers for its own root where that was not known,
/// and changes nothing else.
pub proof fn lemma_known_after_push_at(entries: Seq<Upstream>, added: Upstream, root: Seq<char>)
    ensures
        known(entries.push(added), root) == (match known(entries, root) {
            Some(u) => Some(u),
            None => if added.root@ == root {
                Some(added@)
            } else {
                None
            },
        }),
    decreases entries.len(),
{
    let all = entries.push(added);
    reveal_with_fuel(known, 2);
    if entries.len() == 0 {
        assert(all[0] == added);
        assert(all.skip(1) =~= Seq::<Upstream>::empty());
    } else {
        lemma_known_after_push_at(entries.skip(1), added, root);
        assert(all.skip(1) =~= entries.skip(1).push(added));
        assert(all[0] == entries[0]);
    }
}

/// A new entry at the end answers for its own root where that was not known,
/// and changes nothing else, whatever root is asked for.
pub proof fn lemma_known_after_push(entries: Seq<Upstream>, added: Upstream)
    ensures
        forall|root: Seq<char>|
            #[trigger] known(entries.push(added), root) == (match known(entries, root) {
                Some(u) => Some(u),
                None => if added.root@ == root {
                    Some(added@)
                } else {
                    None
                },
            }),
{
    assert forall|root: Seq<char>|
        #[trigger] known(entries.push(added), root) == (match known(entries, root) {
            Some(u) => Some(u),
            None => if added.root@ == root {
                Some(added@)
            } else {
                None
            },
        }) by {
        lemma_known_after_push_at(entries, added, root);
    }
}

} // verus!
