//! Themes and schemes as the render pipeline reads them, and the layered
//! records they are resolved from.

use indexmap::IndexMap;
use vstd::prelude::*;

use crate::ordered::{
    distinct_keys, lemma_upserted, overlaid, text_entries, text_table_get_index,
    text_table_insert, text_table_len, text_table_new, upserted,
};
use crate::paths::texts;

pub mod config;

verus! {

/// The text inside an optional string.
pub open spec fn opt_text(o: Option<String>) -> Option<Seq<char>> {
    match o {
        Some(s) => Some(s@),
        None => None,
    }
}

/// A copy of an optional string.
pub fn clone_opt(o: &Option<String>) -> (r: Option<String>)
    ensures
        r == *o,
{
    match o {
        Some(s) => Some(s.clone()),
        None => None,
    }
}

/// A copy of a list of strings.
pub fn clone_texts(list: &Vec<String>) -> (r: Vec<String>)
    ensures
        r@ == list@,
{
    let mut r: Vec<String> = Vec::new();
    let mut i: usize = 0;
    while i < list.len()
        invariant
            i <= list.len(),
            r@ == list@.take(i as int),
        decreases list.len() - i,
    {
        r.push(list[i].clone());
        i += 1;
        proof {
            assert(list@.take(i as int) =~= list@.take(i - 1).push(list@[i - 1]));
        }
    }
    proof {
        assert(list@.take(list@.len() as int) =~= list@);
    }
    r
}

/// One named colour of a palette.
#[derive(Debug)]
pub struct Swatch {
    /// The name by which the swatch is known; its identity within a palette.
    pub name: String,
    /// The colour, as text.
    pub color: String,
}

impl View for Swatch {
    type V = (Seq<char>, Seq<char>);

    open spec fn view(&self) -> (Seq<char>, Seq<char>) {
        (self.name@, self.color@)
    }
}

impl Clone for Swatch {
    fn clone(&self) -> (r: Self)
        ensures
            r == *self,
    {
        Swatch { name: self.name.clone(), color: self.color.clone() }
    }
}

/// The views of a list of swatches.
pub open spec fn swatch_views(list: Seq<Swatch>) -> Seq<(Seq<char>, Seq<char>)> {
    list.map_values(|s: Swatch| s@)
}

/// A set of swatches, each known by its name, in the order in which the names
/// were first added.
#[derive(Debug)]
pub struct Palette(pub IndexMap<String, String>);

impl View for Palette {
    type V = Seq<(Seq<char>, Seq<char>)>;

    /// The swatches as pairs of name and colour, in order.
    open spec fn view(&self) -> Seq<(Seq<char>, Seq<char>)> {
        text_entries(self.0)
    }
}

impl Palette {
    /// No name stands twice. Every palette that is made by the functions of
    /// this crate is so.
    pub open spec fn wf(&self) -> bool {
        distinct_keys(self@)
    }

    /// A palette without swatches.
    pub fn new() -> (palette: Self)
        ensures
            palette@ == Seq::<(Seq<char>, Seq<char>)>::empty(),
            palette.wf(),
    {
        Palette(text_table_new())
    }

    /// The number of swatches.
    pub fn len(&self) -> (n: usize)
        ensures
            n == self@.len(),
    {
        text_table_len(&self.0)
    }

    /// Puts a swatch into the palette: one of the same name is replaced where
    /// it stands, a new name goes to the end.
    pub fn replace(&mut self, swatch: Swatch)
        ensures
            final(self)@ == upserted(old(self)@, swatch.name@, swatch.color@),
            old(self).wf() ==> final(self).wf(),
    {
        proof {
            lemma_upserted(self@, swatch.name@, swatch.color@);
        }
        text_table_insert(&mut self.0, swatch.name, swatch.color);
    }

    /// The swatch at a position.
    pub fn get(&self, index: usize) -> (swatch: Option<Swatch>)
        ensures
            swatch is Some <==> index < self@.len(),
            swatch matches Some(s) ==> s@ == self@[index as int],
    {
        match text_table_get_index(&self.0, index) {
            Some((name, color)) => Some(Swatch { name: name.clone(), color: color.clone() }),
            None => None,
        }
    }

    /// The swatches, in order.
    pub fn swatches(&self) -> (list: Vec<Swatch>)
        ensures
            swatch_views(list@) == self@,
    {
        let n = self.len();
        let mut list: Vec<Swatch> = Vec::new();
        let mut i: usize = 0;
        while i < n
            invariant
                i <= n,
                n == self@.len(),
                swatch_views(list@) == self@.take(i as int),
            decreases n - i,
        {
            let ghost before = list@;
            match self.get(i) {
                Some(s) => {
                    list.push(s);
                    proof {
                        assert(swatch_views(list@) =~= swatch_views(before).push(
                            self@[i as int],
                        ));
                        assert(self@.take(i + 1) =~= self@.take(i as int).push(self@[i as int]));
                    }
                },
                None => {},
            }
            i += 1;
        }
        proof {
            assert(self@.take(self@.len() as int) =~= self@);
        }
        list
    }

    /// The palette that holds the given swatches, added in turn.
    pub fn from_swatches(list: &Vec<Swatch>) -> (palette: Self)
        ensures
            palette@ == overlaid(Seq::<(Seq<char>, Seq<char>)>::empty(), swatch_views(list@)),
            palette.wf(),
    {
        let mut palette = Palette::new();
        let mut i: usize = 0;
        while i < list.len()
            invariant
                i <= list.len(),
                palette.wf(),
                palette@ == overlaid(
                    Seq::<(Seq<char>, Seq<char>)>::empty(),
                    swatch_views(list@).take(i as int),
                ),
            decreases list.len() - i,
        {
            palette.replace(list[i].clone());
            i += 1;
            proof {
                let all = swatch_views(list@);
                assert(all.take(i as int).drop_last() =~= all.take(i - 1));
                assert(all.take(i as int).last() == list@[i - 1]@);
            }
        }
        proof {
            assert(swatch_views(list@).take(list@.len() as int) =~= swatch_views(list@));
        }
        palette
    }
}

/// A semantic colour assignment: a role and what it refers to.
#[derive(Debug)]
pub struct Role {
    /// The name of the role.
    pub name: String,
    /// What the role is assigned to, as written.
    pub value: String,
}

impl View for Role {
    type V = (Seq<char>, Seq<char>);

    open spec fn view(&self) -> (Seq<char>, Seq<char>) {
        (self.name@, self.value@)
    }
}

impl Clone for Role {
    fn clone(&self) -> (r: Self)
        ensures
            r == *self,
    {
        Role { name: self.name.clone(), value: self.value.clone() }
    }
}

/// Role assignments in the order in which they were made. A role may be
/// assigned more than once; the last assignment is the one that counts.
#[derive(Debug)]
pub struct Roles(pub Vec<Role>);

impl View for Roles {
    type V = Seq<(Seq<char>, Seq<char>)>;

    open spec fn view(&self) -> Seq<(Seq<char>, Seq<char>)> {
        self.0@.map_values(|r: Role| r@)
    }
}

/// Who made a scheme and under what terms, each also in an ASCII form.
#[derive(Debug)]
pub struct Meta {
    pub author: Option<String>,
    pub author_ascii: Option<String>,
    pub license: Option<String>,
    pub license_ascii: Option<String>,
    pub blurb: Option<String>,
    pub blurb_ascii: Option<String>,
}

/// What a `Meta` holds, as text.
pub struct MetaView {
    pub author: Option<Seq<char>>,
    pub author_ascii: Option<Seq<char>>,
    pub license: Option<Seq<char>>,
    pub license_ascii: Option<Seq<char>>,
    pub blurb: Option<Seq<char>>,
    pub blurb_ascii: Option<Seq<char>>,
}

impl View for Meta {
    type V = MetaView;

    open spec fn view(&self) -> MetaView {
        MetaView {
            author: opt_text(self.author),
            author_ascii: opt_text(self.author_ascii),
            license: opt_text(self.license),
            license_ascii: opt_text(self.license_ascii),
            blurb: opt_text(self.blurb),
            blurb_ascii: opt_text(self.blurb_ascii),
        }
    }
}

/// Optional extras of a scheme.
#[derive(Debug)]
pub struct Extra {
    /// Swatch names that make up the rainbow; absent when empty.
    pub rainbow: Vec<String>,
}

impl View for Extra {
    type V = Seq<Seq<char>>;

    open spec fn view(&self) -> Seq<Seq<char>> {
        texts(self.rainbow@)
    }
}

/// A scheme as written, before it is resolved: every part may be missing and
/// be supplied by a base record.
#[derive(Debug)]
pub struct RawScheme {
    pub scheme: Option<String>,
    pub scheme_ascii: Option<String>,
    pub meta: Meta,
    pub palette: Palette,
    pub roles: Roles,
    pub extra: Extra,
}

/// What a `RawScheme` holds.
pub struct RawSchemeView {
    pub scheme: Option<Seq<char>>,
    pub scheme_ascii: Option<Seq<char>>,
    pub meta: MetaView,
    pub palette: Seq<(Seq<char>, Seq<char>)>,
    pub roles: Seq<(Seq<char>, Seq<char>)>,
    pub extra: Seq<Seq<char>>,
}

impl View for RawScheme {
    type V = RawSchemeView;

    open spec fn view(&self) -> RawSchemeView {
        RawSchemeView {
            scheme: opt_text(self.scheme),
            scheme_ascii: opt_text(self.scheme_ascii),
            meta: self.meta@,
            palette: self.palette@,
            roles: self.roles@,
            extra: self.extra@,
        }
    }
}

/// A resolved scheme: the unit a template is rendered against.
#[derive(Debug)]
pub struct Scheme {
    /// The name of the scheme.
    pub name: String,
    /// The name in ASCII.
    pub name_ascii: String,
    /// The swatches of the palette, in palette order.
    pub palette: Vec<Swatch>,
}

impl RawScheme {
    /// The scheme that a record resolves to. It is named as the record says,
    /// else by `name`, which is the name of the file that holds it; its ASCII
    /// name is the one the record gives, else its name.
    pub fn into_scheme(self, name: &str) -> (scheme: Scheme)
        ensures
            scheme.name@ == (match self.scheme {
                Some(own) => own@,
                None => name@,
            }),
            scheme.name_ascii@ == (match self.scheme_ascii {
                Some(own) => own@,
                None => scheme.name@,
            }),
            swatch_views(scheme.palette@) == self.palette@,
    {
        let palette = self.palette.swatches();
        let scheme_name: String = match self.scheme {
            Some(own) => own,
            None => name.to_owned(),
        };
        let name_ascii: String = match self.scheme_ascii {
            Some(own) => own,
            None => scheme_name.clone(),
        };
        Scheme { name: scheme_name, name_ascii, palette }
    }
}

/// A theme: a named collection of schemes.
#[derive(Debug)]
pub struct Theme {
    /// The name of the theme.
    pub name: String,
    /// The name in ASCII.
    pub name_ascii: String,
    /// The schemes of the theme, in the order in which they were found.
    pub schemes: Vec<Scheme>,
    /// The theme's own configuration, where it has one.
    pub config: Option<config::Config>,
}

/// How the schemes of a theme are laid out on disk.
#[derive(Clone, Copy, Debug, PartialEq, Eq, Structural)]
pub enum Type {
    /// The theme is a single scheme, written in one file at its root.
    SingleScheme,
    /// The theme has a directory of schemes and may have a base that they
    /// all build on.
    MultiScheme,
}

/// The layout of a theme, from what there is in its directory: a root file
/// makes it a single scheme; else a base file or a schemes directory makes it
/// a theme of several schemes; a directory with none of these is no theme.
pub open spec fn layout_of(root_file: bool, base_file: bool, schemes_dir: bool) -> Option<Type> {
    if root_file {
        Some(Type::SingleScheme)
    } else if base_file || schemes_dir {
        Some(Type::MultiScheme)
    } else {
        None
    }
}

/// The layout of a theme. The flags say whether the theme's directory holds
/// the root file of a single scheme, the base file of several schemes, and a
/// schemes directory.
pub fn layout(root_file: bool, base_file: bool, schemes_dir: bool) -> (kind: Option<Type>)
    ensures
        kind == layout_of(root_file, base_file, schemes_dir),
{
    if root_file {
        Some(Type::SingleScheme)
    } else if base_file || schemes_dir {
        Some(Type::MultiScheme)
    } else {
        None
    }
}

/// Where the schemes of a theme are read from.
#[derive(Clone, Copy, Debug, PartialEq, Eq, Structural)]
pub enum Source {
    /// From the files of the schemes directory, each laid over the base.
    Directory,
    /// From the base record alone, which then is the one scheme.
    Base,
}

/// Where the schemes of a theme come from: a theme of a single scheme has
/// them from its root file; a theme of several schemes from its schemes
/// directory where that exists, else from its base file. Without any of
/// these the theme has no schemes.
pub open spec fn source_of(kind: Type, schemes_dir: bool, base: bool) -> Option<Source> {
    match kind {
        Type::SingleScheme => if base {
            Some(Source::Base)
        } else {
            None
        },
        Type::MultiScheme => if schemes_dir {
            Some(Source::Directory)
        } else if base {
            Some(Source::Base)
        } else {
            None
        },
    }
}

/// Where the schemes of a theme come from. `schemes_dir` says whether the
/// schemes directory is there, `base` whether the base record could be read.
pub fn source(kind: Type, schemes_dir: bool, base: bool) -> (from: Option<Source>)
    ensures
        from == source_of(kind, schemes_dir, base),
{
    match kind {
        Type::SingleScheme => if base {
            Some(Source::Base)
        } else {
            None
        },
        Type::MultiScheme => if schemes_dir {
            Some(Source::Directory)
        } else if base {
            Some(Source::Base)
        } else {
            None
        },
    }
}

/// The name of the file that holds the base of a theme of several schemes.
pub const MULTI_SCHEME_BASE_FILENAME: &'static str = "base.toml";

/// The name of the file that holds a theme of a single scheme.
pub const SINGLE_SCHEME_ROOT_FILENAME: &'static str = "theme.toml";

/// The file that holds the base record of a theme of the given layout.
pub fn base_path(themes_dir: &str, kind: Type) -> (path: String)
    ensures
        path@ == crate::paths::joined(
            themes_dir@,
            match kind {
                Type::SingleScheme => SINGLE_SCHEME_ROOT_FILENAME@,
                Type::MultiScheme => MULTI_SCHEME_BASE_FILENAME@,
            },
        ),
{
    match kind {
        Type::SingleScheme => crate::paths::join(themes_dir, SINGLE_SCHEME_ROOT_FILENAME),
        Type::MultiScheme => crate::paths::join(themes_dir, MULTI_SCHEME_BASE_FILENAME),
    }
}

} // verus!
