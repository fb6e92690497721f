//! Links into a hosting service: the address of a remote is taken apart, the
//! provider for its host is looked up, and the provider's templates are
//! filled in.

use vstd::prelude::*;

use crate::config::{keyed, provider_views, Provider, ProviderView};
use crate::ordered::{lemma_position_absent, lemma_position_is_first, position_of};
use crate::text::{
    chars_of, index_from, index_in, replace, replaced, string_of, strip_suffix, without_suffix,
};

verus! {

/// Why no link could be built.
#[derive(Debug)]
pub enum ProviderError {
    /// The address of the remote names no host, owner and repository.
    MalformedUrl { url: String },
    /// No provider is known for the host.
    UnknownHost { host: String },
    /// The provider of the host has no template for links to files.
    MissingBlobPath { host: String },
}

impl ProviderError {
    /// What the error says.
    pub open spec fn text(&self) -> Seq<char> {
        match self {
            ProviderError::MalformedUrl { url } => "remote `"@ + url@ + "` names no host, owner and repository"@,
            ProviderError::UnknownHost { host } => "no provider is known for host `"@ + host@ + "`"@,
            ProviderError::MissingBlobPath { host } => "the provider for host `"@ + host@ + "` has no `blob_path`"@,
        }
    }

    /// What the error says, for a reader.
    pub fn message(&self) -> (m: String)
        ensures
            m@ == self.text(),
    {
        match self {
            ProviderError::MalformedUrl { url } => {
                let mut m: String = "remote `".to_owned();
                m.append(url.as_str());
                m.append("` names no host, owner and repository");
                m
            },
            ProviderError::UnknownHost { host } => {
                let mut m: String = "no provider is known for host `".to_owned();
                m.append(host.as_str());
                m.append("`");
                m
            },
            ProviderError::MissingBlobPath { host } => {
                let mut m: String = "the provider for host `".to_owned();
                m.append(host.as_str());
                m.append("` has no `blob_path`");
                m
            },
        }
    }
}

/// The parts of a remote's address.
#[derive(Debug)]
pub struct Remote {
    pub host: String,
    pub owner: String,
    pub repo: String,
}

/// What a `Remote` holds, as text.
pub struct RemoteView {
    pub host: Seq<char>,
    pub owner: Seq<char>,
    pub repo: Seq<char>,
}

impl View for Remote {
    type V = RemoteView;

    open spec fn view(&self) -> RemoteView {
        RemoteView { host: self.host@, owner: self.owner@, repo: self.repo@ }
    }
}

/// Where the address proper begins: behind `://` if the first colon of the
/// text is followed by two slashes, at the start otherwise.
pub open spec fn scheme_end(url: Seq<char>) -> int {
    let colon = index_in(url, 0, ':');
    if colon + 2 < url.len() && url[colon + 1] == '/' && url[colon + 2] == '/' {
        colon + 3
    } else {
        0
    }
}

/// Where the host begins: behind the first `@`, if one stands before the
/// first slash of the address, else where the address begins.
pub open spec fn host_start(url: Seq<char>) -> int {
    let begin = scheme_end(url);
    let at = index_in(url, begin, '@');
    if at < index_in(url, begin, '/') {
        at + 1
    } else {
        begin
    }
}

/// Where the host ends: at the first slash or colon behind its start.
pub open spec fn host_end(url: Seq<char>) -> int {
    let begin = host_start(url);
    let slash = index_in(url, begin, '/');
    let colon = index_in(url, begin, ':');
    if slash <= colon {
        slash
    } else {
        colon
    }
}

/// The parts of the address of a remote. The address has the form
/// `host/owner/repo` or `host:owner/repo`, with an optional `scheme://` and an
/// optional `user@` before it and an optional `.git` behind it. None of host,
/// owner and repository may be empty, and the repository holds no slash.
pub open spec fn parsed(url: Seq<char>) -> Option<RemoteView> {
    let begin = host_start(url);
    let end = host_end(url);
    if end >= url.len() {
        None
    } else {
        let owner_end = index_in(url, end + 1, '/');
        if owner_end >= url.len() {
            None
        } else if index_in(url, owner_end + 1, '/') < url.len() {
            None
        } else {
            let host = url.subrange(begin, end);
            let owner = url.subrange(end + 1, owner_end);
            let repo = without_suffix(url.skip(owner_end + 1), ".git"@);
            if host.len() == 0 || owner.len() == 0 || repo.len() == 0 {
                None
            } else {
                Some(RemoteView { host, owner, repo })
            }
        }
    }
}

impl Remote {
    /// Takes the address of a remote apart.
    pub fn parse(url: &str) -> (remote: Option<Remote>)
        ensures
            remote is Some <==> parsed(url@) is Some,
            remote matches Some(r) ==> Some(r@) == parsed(url@),
    {
        let v = chars_of(url);
        let colon = index_from(&v, 0, ':');
        let begin: usize = if v.len() >= 3 && colon < v.len() - 2 && v[colon + 1] == '/' && v[colon
            + 2] == '/' {
            colon + 3
        } else {
            0
        };
        let at = index_from(&v, begin, '@');
        let start: usize = if at < index_from(&v, begin, '/') {
            at + 1
        } else {
            begin
        };
        let slash = index_from(&v, start, '/');
        let second_colon = index_from(&v, start, ':');
        let end: usize = if slash <= second_colon {
            slash
        } else {
            second_colon
        };
        if end >= v.len() {
            return None;
        }
        let owner_end = index_from(&v, end + 1, '/');
        if owner_end >= v.len() {
            return None;
        }
        if index_from(&v, owner_end + 1, '/') < v.len() {
            return None;
        }
        let host = string_of(&v, start, end);
        let owner = string_of(&v, end + 1, owner_end);
        let name = string_of(&v, owner_end + 1, v.len());
        proof {
            assert(v@.subrange(owner_end + 1, v@.len() as int) =~= v@.skip(owner_end + 1));
        }
        let repo = strip_suffix(name.as_str(), ".git");
        if host.as_str().unicode_len() == 0 || owner.as_str().unicode_len() == 0
            || repo.as_str().unicode_len() == 0 {
            return None;
        }
        Some(Remote { host, owner, repo })
    }
}

/// A template with its five placeholders filled in, one after the other.
pub open spec fn filled(
    template: Seq<char>,
    remote: RemoteView,
    reference: Seq<char>,
    file: Seq<char>,
) -> Seq<char> {
    replaced(
        replaced(
            replaced(
                replaced(replaced(template, "{host}"@, remote.host), "{owner}"@, remote.owner),
                "{repo}"@,
                remote.repo,
            ),
            "{ref}"@,
            reference,
        ),
        "{file}"@,
        file,
    )
}

/// Fills the placeholders `{host}`, `{owner}`, `{repo}`, `{ref}` and `{file}`
/// of a template.
pub fn substitute(template: &str, remote: &Remote, reference: &str, file: &str) -> (link: String)
    ensures
        link@ == filled(template@, remote@, reference@, file@),
{
    let a = replace(template, "{host}", remote.host.as_str());
    let b = replace(a.as_str(), "{owner}", remote.owner.as_str());
    let c = replace(b.as_str(), "{repo}", remote.repo.as_str());
    let d = replace(c.as_str(), "{ref}", reference);
    replace(d.as_str(), "{file}", file)
}

/// The position of the provider for a host: the first whose host it is.
pub open spec fn provider_for(providers: Seq<ProviderView>, host: Seq<char>) -> Option<int> {
    position_of(keyed(providers), host)
}

/// The reference that links point at: the provider's pinned branch where it
/// has one, the current branch otherwise.
pub open spec fn reference_of(provider: ProviderView, branch: Seq<char>) -> Seq<char> {
    match provider.branch {
        Some(pinned) => pinned,
        None => branch,
    }
}

/// Looks up the provider for a host.
pub fn find_provider(providers: &Vec<Provider>, host: &str) -> (found: Option<usize>)
    ensures
        found is Some <==> provider_for(provider_views(providers@), host@) is Some,
        found matches Some(i) ==> provider_for(provider_views(providers@), host@) == Some(
            i as int,
        ) && i < providers.len(),
{
    let ghost table = keyed(provider_views(providers@));
    let mut i: usize = 0;
    while i < providers.len()
        invariant
            i <= providers.len(),
            table == keyed(provider_views(providers@)),
            forall|j: int| 0 <= j < i ==> (#[trigger] table[j]).0 != host@,
        decreases providers.len() - i,
    {
        proof {
            assert(table[i as int].0 == providers@[i as int].host@);
        }
        if crate::text::same_text(providers[i].host.as_str(), host) {
            proof {
                lemma_position_is_first(table, host@, i as int);
            }
            return Some(i);
        }
        i += 1;
    }
    proof {
        lemma_position_absent(table, host@);
    }
    None
}

/// The link to a file as the hosting service shows it: the blob template of
/// the provider for the remote's host, filled in.
pub open spec fn blob_link(
    url: Seq<char>,
    file: Seq<char>,
    branch: Seq<char>,
    providers: Seq<ProviderView>,
) -> Option<Seq<char>> {
    match parsed(url) {
        None => None,
        Some(remote) => match provider_for(providers, remote.host) {
            None => None,
            Some(i) => match providers[i].blob_path {
                None => None,
                Some(template) => Some(
                    filled(template, remote, reference_of(providers[i], branch), file),
                ),
            },
        },
    }
}

/// The link to a file's bare content: the raw template of the provider for
/// the remote's host, filled in.
pub open spec fn raw_link(
    url: Seq<char>,
    file: Seq<char>,
    branch: Seq<char>,
    providers: Seq<ProviderView>,
) -> Option<Seq<char>> {
    match parsed(url) {
        None => None,
        Some(remote) => match provider_for(providers, remote.host) {
            None => None,
            Some(i) => match providers[i].raw_path {
                None => None,
                Some(template) => Some(
                    filled(template, remote, reference_of(providers[i], branch), file),
                ),
            },
        },
    }
}

/// Builds the link to a file of a repository as its hosting service shows it.
pub fn build_blob(url: &str, file_path: &str, branch: &str, providers: &Vec<Provider>) -> (link:
    Result<String, ProviderError>)
    ensures
        link is Ok <==> blob_link(url@, file_path@, branch@, provider_views(providers@)) is Some,
        link matches Ok(l) ==> Some(l@) == blob_link(
            url@,
            file_path@,
            branch@,
            provider_views(providers@),
        ),
        link matches Err(error) ==> match parsed(url@) {
            None => error matches ProviderError::MalformedUrl { url: u } && u@ == url@,
            Some(remote) => match provider_for(provider_views(providers@), remote.host) {
                None => error matches ProviderError::UnknownHost { host } && host@ == remote.host,
                Some(_) => error matches ProviderError::MissingBlobPath { host } && host@
                    == remote.host,
            },
        },
{
    let remote = match Remote::parse(url) {
        Some(remote) => remote,
        None => {
            return Err(ProviderError::MalformedUrl { url: url.to_owned() });
        },
    };
    let i = match find_provider(providers, remote.host.as_str()) {
        Some(i) => i,
        None => {
            return Err(ProviderError::UnknownHost { host: remote.host });
        },
    };
    let provider = &providers[i];
    proof {
        assert(provider_views(providers@)[i as int] == provider@);
    }
    let reference: &str = match &provider.branch {
        Some(pinned) => pinned.as_str(),
        None => branch,
    };
    match &provider.blob_path {
        Some(template) => Ok(substitute(template.as_str(), &remote, reference, file_path)),
        None => Err(ProviderError::MissingBlobPath { host: remote.host }),
    }
}

/// Builds the link to the bare content of a file of a repository, where the
/// provider for the remote's host has a template for it.
pub fn build_raw(url: &str, file_path: &str, branch: &str, providers: &Vec<Provider>) -> (link:
    Option<String>)
    ensures
        link is Some <==> raw_link(url@, file_path@, branch@, provider_views(providers@)) is Some,
        link matches Some(l) ==> Some(l@) == raw_link(
            url@,
            file_path@,
            branch@,
            provider_views(providers@),
        ),
{
    let remote = match Remote::parse(url) {
        Some(remote) => remote,
        None => {
            return None;
        },
    };
    let i = match find_provider(providers, remote.host.as_str()) {
        Some(i) => i,
        None => {
            return None;
        },
    };
    let provider = &providers[i];
    proof {
        assert(provider_views(providers@)[i as int] == provider@);
    }
    let reference: &str = match &provider.branch {
        Some(pinned) => pinned.as_str(),
        None => branch,
    };
    match &provider.raw_path {
        Some(template) => Some(substitute(template.as_str(), &remote, reference, file_path)),
        None => None,
    }
}

} // verus!
