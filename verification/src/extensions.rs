//! Layered overrides: a more specific value is merged over a less specific
//! one, part by part, and takes precedence wherever it says anything.

use vstd::prelude::*;

use crate::config::{Provider, ProviderView};
use crate::ordered::{
    distinct_keys, has_key, key_set, lemma_key_count, lemma_overlaid_keys, lemma_overlaid_self,
    overlaid,
};
use crate::paths::{file_name, last_component, names_entry};
use crate::text::{after_last, chars_of, lemma_after_last};
use crate::themes::{Extra, Meta, MetaView, Palette, RawScheme, RawSchemeView, Roles};

verus! {

/// A value that can be laid over a base of its own type.
pub trait Merge: Sized + View {
    /// What merging gives, in terms of what the two values hold.
    spec fn merged(this: Self::V, base: Self::V) -> Self::V;

    /// Merges `self` over `base`: `self` wins wherever it says anything.
    fn merge(self, base: Self) -> (r: Self)
        ensures
            r@ == Self::merged(self@, base@),
    ;
}

/// The first of two optional values that is present.
pub open spec fn first_some<T>(this: Option<T>, base: Option<T>) -> Option<T> {
    if this is Some {
        this
    } else {
        base
    }
}

impl<T> Merge for Option<T> {
    open spec fn merged(this: Option<T>, base: Option<T>) -> Option<T> {
        first_some(this, base)
    }

    fn merge(self, base: Self) -> (r: Self) {
        let ghost this = self;
        let r = if self.is_some() {
            self
        } else {
            base
        };
        proof {
            assert(Self::merged(this@, base@) == first_some(this, base));
        }
        r
    }
}

impl Merge for Meta {
    open spec fn merged(this: MetaView, base: MetaView) -> MetaView {
        MetaView {
            author: first_some(this.author, base.author),
            author_ascii: first_some(this.author_ascii, base.author_ascii),
            license: first_some(this.license, base.license),
            license_ascii: first_some(this.license_ascii, base.license_ascii),
            blurb: first_some(this.blurb, base.blurb),
            blurb_ascii: first_some(this.blurb_ascii, base.blurb_ascii),
        }
    }

    fn merge(self, base: Self) -> (r: Self) {
        Meta {
            author: self.author.merge(base.author),
            author_ascii: self.author_ascii.merge(base.author_ascii),
            license: self.license.merge(base.license),
            license_ascii: self.license_ascii.merge(base.license_ascii),
            blurb: self.blurb.merge(base.blurb),
            blurb_ascii: self.blurb_ascii.merge(base.blurb_ascii),
        }
    }
}

impl Merge for Extra {
    /// An empty list counts as absent.
    open spec fn merged(this: Seq<Seq<char>>, base: Seq<Seq<char>>) -> Seq<Seq<char>> {
        if this.len() == 0 {
            base
        } else {
            this
        }
    }

    fn merge(self, base: Self) -> (r: Self) {
        Extra { rainbow: if self.rainbow.len() == 0 {
            base.rainbow
        } else {
            self.rainbow
        } }
    }
}

impl Merge for Palette {
    /// The base's swatches in their order, each replaced by the swatch of the
    /// same name where `this` has one, followed by the other swatches of
    /// `this`.
    open spec fn merged(this: Seq<(Seq<char>, Seq<char>)>, base: Seq<(Seq<char>, Seq<char>)>) -> Seq<
        (Seq<char>, Seq<char>),
    > {
        overlaid(base, this)
    }

    fn merge(self, base: Self) -> (r: Self)
        ensures
            base.wf() ==> r.wf(),
    {
        proof {
            lemma_overlaid_keys(base@, self@);
        }
        let mut palette = base;
        let n = self.len();
        let mut i: usize = 0;
        while i < n
            invariant
                i <= n,
                n == self@.len(),
                palette@ == overlaid(base@, self@.take(i as int)),
            decreases n - i,
        {
            match self.get(i) {
                Some(swatch) => {
                    palette.replace(swatch);
                    proof {
                        assert(self@.take(i + 1).drop_last() =~= self@.take(i as int));
                    }
                },
                None => {},
            }
            i += 1;
        }
        proof {
            assert(self@.take(self@.len() as int) =~= self@);
        }
        palette
    }
}

impl Merge for Roles {
    /// The base's assignments, then those of `this`.
    open spec fn merged(this: Seq<(Seq<char>, Seq<char>)>, base: Seq<(Seq<char>, Seq<char>)>) -> Seq<
        (Seq<char>, Seq<char>),
    > {
        base + this
    }

    fn merge(self, base: Self) -> (r: Self) {
        let mut merged = base.0;
        let mut own = self.0;
        merged.append(&mut own);
        let r = Roles(merged);
        proof {
            assert(r@ =~= base@ + self@);
        }
        r
    }
}

impl Merge for RawScheme {
    open spec fn merged(this: RawSchemeView, base: RawSchemeView) -> RawSchemeView {
        RawSchemeView {
            scheme: first_some(this.scheme, base.scheme),
            scheme_ascii: first_some(this.scheme_ascii, base.scheme_ascii),
            meta: Meta::merged(this.meta, base.meta),
            palette: Palette::merged(this.palette, base.palette),
            roles: Roles::merged(this.roles, base.roles),
            extra: Extra::merged(this.extra, base.extra),
        }
    }

    fn merge(self, base: Self) -> (r: Self)
        ensures
            base.palette.wf() ==> r.palette.wf(),
    {
        RawScheme {
            scheme: self.scheme.merge(base.scheme),
            scheme_ascii: self.scheme_ascii.merge(base.scheme_ascii),
            meta: self.meta.merge(base.meta),
            palette: self.palette.merge(base.palette),
            roles: self.roles.merge(base.roles),
            extra: self.extra.merge(base.extra),
        }
    }
}

impl Merge for Provider {
    /// The host is the key under which a provider is found and is never
    /// merged: it is that of `this`.
    open spec fn merged(this: ProviderView, base: ProviderView) -> ProviderView {
        ProviderView {
            host: this.host,
            blob_path: first_some(this.blob_path, base.blob_path),
            raw_path: first_some(this.raw_path, base.raw_path),
            branch: first_some(this.branch, base.branch),
        }
    }

    fn merge(self, base: Self) -> (r: Self) {
        Provider {
            host: self.host,
            blob_path: self.blob_path.merge(base.blob_path),
            raw_path: self.raw_path.merge(base.raw_path),
            branch: self.branch.merge(base.branch),
        }
    }
}

/// Merging an optional value over itself gives it back.
pub proof fn lemma_option_merge_idempotent<T>(x: Option<T>)
    ensures
        Option::<T>::merged(x, x) == x,
{
}

/// Merging a `Meta` over itself gives it back.
pub proof fn lemma_meta_merge_idempotent(x: MetaView)
    ensures
        Meta::merged(x, x) == x,
{
}

/// Merging an `Extra` over itself gives it back.
pub proof fn lemma_extra_merge_idempotent(x: Seq<Seq<char>>)
    ensures
        Extra::merged(x, x) == x,
{
}

/// Merging a provider over itself gives it back.
pub proof fn lemma_provider_merge_idempotent(x: ProviderView)
    ensures
        Provider::merged(x, x) == x,
{
}

/// Merging a palette over itself gives it back.
pub proof fn lemma_palette_merge_idempotent(x: Seq<(Seq<char>, Seq<char>)>)
    requires
        distinct_keys(x),
    ensures
        Palette::merged(x, x) == x,
{
    lemma_overlaid_self(x, x.len() as int);
    assert(x.take(x.len() as int) =~= x);
}

/// Merging palettes drops no swatch name and invents none: a name is in the
/// merged palette exactly when it is in one of the two. Where no name stands
/// twice in the base, none does in the merged palette, which then has as many
/// swatches as the two have names between them.
pub proof fn lemma_palette_merge_keeps_names(
    this: Seq<(Seq<char>, Seq<char>)>,
    base: Seq<(Seq<char>, Seq<char>)>,
)
    ensures
        forall|name: Seq<char>|
            has_key(Palette::merged(this, base), name) <==> has_key(this, name) || has_key(
                base,
                name,
            ),
        distinct_keys(base) ==> distinct_keys(Palette::merged(this, base)),
        distinct_keys(base) ==> Palette::merged(this, base).len() == key_set(this).union(
            key_set(base),
        ).len(),
{
    lemma_overlaid_keys(base, this);
    if distinct_keys(base) {
        let merged = Palette::merged(this, base);
        lemma_key_count(merged);
        assert(key_set(merged) =~= key_set(this).union(key_set(base)));
    }
}

/// Role assignments are appended, never replaced: merging a list of them over
/// itself gives it back exactly when the list is empty.
pub proof fn lemma_roles_merge_idempotent(x: Seq<(Seq<char>, Seq<char>)>)
    ensures
        Roles::merged(x, x) == x <==> x.len() == 0,
{
    if x.len() == 0 {
        assert(x + x =~= x);
    } else {
        assert((x + x).len() != x.len());
    }
}

/// Merging a raw scheme over itself gives it back, where it makes no role
/// assignments.
pub proof fn lemma_raw_scheme_merge_idempotent(x: RawSchemeView)
    requires
        distinct_keys(x.palette),
        x.roles.len() == 0,
    ensures
        RawScheme::merged(x, x) == x,
{
    lemma_palette_merge_idempotent(x.palette);
    lemma_roles_merge_idempotent(x.roles);
}

/// The ASCII letter in lower case; any other character as it is.
pub open spec fn lower(c: char) -> char {
    if c == 'A' {
        'a'
    } else if c == 'B' {
        'b'
    } else if c == 'C' {
        'c'
    } else if c == 'D' {
        'd'
    } else if c == 'E' {
        'e'
    } else if c == 'F' {
        'f'
    } else if c == 'G' {
        'g'
    } else if c == 'H' {
        'h'
    } else if c == 'I' {
        'i'
    } else if c == 'J' {
        'j'
    } else if c == 'K' {
        'k'
    } else if c == 'L' {
        'l'
    } else if c == 'M' {
        'm'
    } else if c == 'N' {
        'n'
    } else if c == 'O' {
        'o'
    } else if c == 'P' {
        'p'
    } else if c == 'Q' {
        'q'
    } else if c == 'R' {
        'r'
    } else if c == 'S' {
        's'
    } else if c == 'T' {
        't'
    } else if c == 'U' {
        'u'
    } else if c == 'V' {
        'v'
    } else if c == 'W' {
        'w'
    } else if c == 'X' {
        'x'
    } else if c == 'Y' {
        'y'
    } else if c == 'Z' {
        'z'
    } else {
        c
    }
}

/// Two texts are the same but for the case of their ASCII letters.
pub open spec fn same_ignoring_case(a: Seq<char>, b: Seq<char>) -> bool {
    a.len() == b.len() && forall|i: int| 0 <= i < a.len() ==> lower(a[i]) == lower(b[i])
}

/// The extension of a path: what follows the last dot of its last component.
/// There is none where the component names no file, holds no dot, or holds
/// its only dot at its start.
pub open spec fn extension_of(path: Seq<char>) -> Option<Seq<char>> {
    let name = last_component(path);
    let dot = after_last(name, '.');
    if !names_entry(path) || dot <= 1 {
        None
    } else {
        Some(name.skip(dot))
    }
}

/// The path has the extension, whatever the case of its ASCII letters.
pub open spec fn extension_is(path: Seq<char>, ext: Seq<char>) -> bool {
    extension_of(path) matches Some(own) && same_ignoring_case(own, ext)
}

/// The ASCII letter in lower case; any other character as it is.
pub fn to_lower(c: char) -> (l: char)
    ensures
        l == lower(c),
{
    if c == 'A' {
        'a'
    } else if c == 'B' {
        'b'
    } else if c == 'C' {
        'c'
    } else if c == 'D' {
        'd'
    } else if c == 'E' {
        'e'
    } else if c == 'F' {
        'f'
    } else if c == 'G' {
        'g'
    } else if c == 'H' {
        'h'
    } else if c == 'I' {
        'i'
    } else if c == 'J' {
        'j'
    } else if c == 'K' {
        'k'
    } else if c == 'L' {
        'l'
    } else if c == 'M' {
        'm'
    } else if c == 'N' {
        'n'
    } else if c == 'O' {
        'o'
    } else if c == 'P' {
        'p'
    } else if c == 'Q' {
        'q'
    } else if c == 'R' {
        'r'
    } else if c == 'S' {
        's'
    } else if c == 'T' {
        't'
    } else if c == 'U' {
        'u'
    } else if c == 'V' {
        'v'
    } else if c == 'W' {
        'w'
    } else if c == 'X' {
        'x'
    } else if c == 'Y' {
        'y'
    } else if c == 'Z' {
        'z'
    } else {
        c
    }
}

/// Whether the path has the given extension, whatever the case of its ASCII
/// letters.
pub fn has_extension(path: &str, ext: &str) -> (b: bool)
    ensures
        b == extension_is(path@, ext@),
{
    let name = match file_name(path) {
        Some(name) => name,
        None => {
            return false;
        },
    };
    let v = chars_of(name.as_str());
    let e = chars_of(ext);
    let mut dot: usize = v.len();
    proof {
        assert(v@.take(v@.len() as int) =~= v@);
    }
    while dot > 0 && v[dot - 1] != '.'
        invariant
            dot <= v.len(),
            after_last(v@, '.') == after_last(v@.take(dot as int), '.'),
        decreases dot,
    {
        proof {
            assert(v@.take(dot as int).drop_last() =~= v@.take(dot - 1));
        }
        dot -= 1;
    }
    proof {
        lemma_after_last(v@.take(dot as int), '.');
    }
    if dot <= 1 {
        return false;
    }
    if v.len() - dot != e.len() {
        return false;
    }
    let ghost own = v@.skip(dot as int);
    proof {
        assert(extension_of(path@) == Some(own));
    }
    let mut i: usize = 0;
    while i < e.len()
        invariant
            i <= e.len(),
            dot <= v.len(),
            v.len() - dot == e.len(),
            own == v@.skip(dot as int),
            e@ == ext@,
            extension_of(path@) == Some(own),
            forall|j: int| 0 <= j < i ==> lower(own[j]) == lower(e@[j]),
        decreases e.len() - i,
    {
        if to_lower(v[dot + i]) != to_lower(e[i]) {
            proof {
                assert(own[i as int] == v@[dot + i]);
            }
            return false;
        }
        proof {
            assert(own[i as int] == v@[dot + i]);
        }
        i += 1;
    }
    true
}

/// Whether the path names a TOML file.
pub fn is_toml(path: &str) -> (b: bool)
    ensures
        b == extension_is(path@, "toml"@),
{
    has_extension(path, "toml")
}

/// Whether the path names a template.
pub fn is_jinja(path: &str) -> (b: bool)
    ensures
        b == extension_is(path@, "jinja"@),
{
    has_extension(path, "jinja")
}

} // verus!
