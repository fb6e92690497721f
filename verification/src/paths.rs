//! Paths as text. A path is a string whose components are separated by `/`;
//! one that begins with `/` is absolute. Nothing is looked up on disk: no
//! link is followed and no `..` is resolved. Where paths are compared
//! component by component, doubled and trailing separators and a `.` in the
//! middle of a path count for nothing.

use vstd::prelude::*;

use crate::text::{
    after_last, chars_of, first_index_of, index_from, lemma_after_last, same_text, string_of,
};

verus! {

/// The character between the components of a path.
pub const SEPARATOR: char = '/';

/// The path begins at the root.
pub open spec fn absolute(path: Seq<char>) -> bool {
    path.len() > 0 && path[0] == SEPARATOR
}

/// What follows the last separator of the path.
pub open spec fn last_component(path: Seq<char>) -> Seq<char> {
    path.skip(after_last(path, SEPARATOR))
}

/// The last component names a file or directory: it is neither empty nor one
/// of `.` and `..`.
pub open spec fn names_entry(path: Seq<char>) -> bool {
    let name = last_component(path);
    name.len() > 0 && name != seq!['.'] && name != seq!['.', '.']
}

/// The path without its last component and the separator before it. A path
/// with a single component has the empty parent, or `/` if it is absolute.
pub open spec fn parent_of(path: Seq<char>) -> Seq<char> {
    let k = after_last(path, SEPARATOR);
    if k == 0 {
        Seq::<char>::empty()
    } else if k == 1 {
        seq![SEPARATOR]
    } else {
        path.subrange(0, k - 1)
    }
}

/// `rel` taken relative to `base`: an absolute or lone `rel` stands for
/// itself, an empty one for `base`.
pub open spec fn joined(base: Seq<char>, rel: Seq<char>) -> Seq<char> {
    if rel.len() == 0 {
        base
    } else if base.len() == 0 || absolute(rel) {
        rel
    } else if base.last() == SEPARATOR {
        base + rel
    } else {
        base.push(SEPARATOR) + rel
    }
}

/// The pieces of a path between its separators, empty ones included.
pub open spec fn pieces(path: Seq<char>) -> Seq<Seq<char>>
    decreases path.len(),
{
    let k = first_index_of(path, SEPARATOR);
    if k < 0 || k >= path.len() {
        seq![path]
    } else {
        seq![path.take(k)] + pieces(path.skip(k + 1))
    }
}

/// The pieces that name something: an empty piece names nothing, and neither
/// does a piece `.`, unless it is the leading one.
pub open spec fn named(pieces: Seq<Seq<char>>, leading: bool) -> Seq<Seq<char>>
    decreases pieces.len(),
{
    if pieces.len() == 0 {
        Seq::<Seq<char>>::empty()
    } else {
        let rest = named(pieces.skip(1), false);
        if pieces[0].len() == 0 || (pieces[0] == seq!['.'] && !leading) {
            rest
        } else {
            seq![pieces[0]] + rest
        }
    }
}

/// The components of a path: the root, written `/`, where the path is
/// absolute, then the pieces that name something. Doubled and trailing
/// separators make no component.
pub open spec fn components_of(path: Seq<char>) -> Seq<Seq<char>> {
    if absolute(path) {
        seq![seq![SEPARATOR]] + named(pieces(path), false)
    } else {
        named(pieces(path), true)
    }
}

/// The path that is made of the given components.
pub open spec fn assembled(components: Seq<Seq<char>>) -> Seq<char>
    decreases components.len(),
{
    if components.len() == 0 {
        Seq::<char>::empty()
    } else {
        joined(assembled(components.drop_last()), components.last())
    }
}

/// `path` relative to `prefix`, component by component: where the components
/// of `prefix` are the first components of `path`, the path made of the
/// components that follow them.
pub open spec fn stripped(path: Seq<char>, prefix: Seq<char>) -> Option<Seq<char>> {
    let own = components_of(path);
    let leading = components_of(prefix);
    if leading.len() <= own.len() && own.take(leading.len() as int) == leading {
        Some(assembled(own.skip(leading.len() as int)))
    } else {
        None
    }
}

/// The path, its parent, the parent of that, and so on, down to the root or
/// the empty path.
pub open spec fn ancestors_of(path: Seq<char>) -> Seq<Seq<char>>
    decreases path.len(),
{
    if parent_of(path).len() >= path.len() {
        seq![path]
    } else {
        seq![path] + ancestors_of(parent_of(path))
    }
}

/// The views of a list of strings.
pub open spec fn texts(list: Seq<String>) -> Seq<Seq<char>> {
    list.map_values(|s: String| s@)
}

/// The position just behind the last separator.
fn split_point(path: &Vec<char>) -> (k: usize)
    ensures
        k == after_last(path@, SEPARATOR),
        k <= path.len(),
{
    let mut k: usize = path.len();
    proof {
        assert(path@.take(path@.len() as int) =~= path@);
    }
    while k > 0 && path[k - 1] != SEPARATOR
        invariant
            k <= path.len(),
            after_last(path@, SEPARATOR) == after_last(path@.take(k as int), SEPARATOR),
        decreases k,
    {
        proof {
            assert(path@.take(k as int).drop_last() =~= path@.take(k - 1));
        }
        k -= 1;
    }
    proof {
        lemma_after_last(path@.take(k as int), SEPARATOR);
    }
    k
}

/// Whether the path begins at the root.
pub fn is_absolute(path: &str) -> (b: bool)
    ensures
        b == absolute(path@),
{
    let v = chars_of(path);
    v.len() > 0 && v[0] == SEPARATOR
}

/// The last component of the path, where it names a file or directory.
pub fn file_name(path: &str) -> (name: Option<String>)
    ensures
        name is Some <==> names_entry(path@),
        name matches Some(n) ==> n@ == last_component(path@),
{
    let v = chars_of(path);
    let k = split_point(&v);
    let n: usize = v.len() - k;
    proof {
        assert(v@.subrange(k as int, v@.len() as int) =~= v@.skip(k as int));
    }
    if n == 0 {
        return None;
    }
    if n == 1 && v[k] == '.' {
        proof {
            assert(last_component(path@) =~= seq!['.']);
        }
        return None;
    }
    if n == 2 && v[k] == '.' && v[k + 1] == '.' {
        proof {
            assert(last_component(path@) =~= seq!['.', '.']);
        }
        return None;
    }
    proof {
        let name = last_component(path@);
        if name == seq!['.'] {
            assert(name.len() == 1 && name[0] == '.');
        }
        if name == seq!['.', '.'] {
            assert(name.len() == 2 && name[0] == '.' && name[1] == '.');
        }
    }
    Some(string_of(&v, k, v.len()))
}

/// The path without its last component.
pub fn parent(path: &str) -> (p: String)
    ensures
        p@ == parent_of(path@),
{
    let v = chars_of(path);
    let k = split_point(&v);
    if k == 0 {
        String::new()
    } else if k == 1 {
        let p = string_of(&v, 0, 1);
        proof {
            lemma_after_last(v@, SEPARATOR);
            assert(v@.subrange(0, 1) =~= seq![SEPARATOR]);
        }
        p
    } else {
        string_of(&v, 0, k - 1)
    }
}

/// `rel` taken relative to `base`.
pub fn join(base: &str, rel: &str) -> (p: String)
    ensures
        p@ == joined(base@, rel@),
{
    let b = chars_of(base);
    let r = chars_of(rel);
    if r.len() == 0 {
        return base.to_owned();
    }
    if b.len() == 0 || r[0] == SEPARATOR {
        return rel.to_owned();
    }
    let mut p: String = base.to_owned();
    if b[b.len() - 1] != SEPARATOR {
        p.append("/");
        proof {
            reveal_strlit("/");
            assert("/"@ =~= seq![SEPARATOR]);
            assert(base@ + seq![SEPARATOR] =~= base@.push(SEPARATOR));
        }
    }
    p.append(rel);
    p
}

/// The pieces of a path between its separators.
pub fn split(path: &str) -> (list: Vec<String>)
    ensures
        texts(list@) == pieces(path@),
{
    let v = chars_of(path);
    let mut list: Vec<String> = Vec::new();
    let mut i: usize = 0;
    proof {
        assert(v@.skip(0) =~= v@);
        assert(texts(list@) + pieces(v@.skip(0)) =~= pieces(v@));
    }
    loop
        invariant_except_break
            i <= v.len(),
            v@ == path@,
            pieces(path@) == texts(list@) + pieces(v@.skip(i as int)),
        ensures
            texts(list@) == pieces(path@),
        decreases v.len() - i,
    {
        let k = index_from(&v, i, SEPARATOR);
        let piece = string_of(&v, i, k);
        let ghost before = list@;
        let ghost rest = v@.skip(i as int);
        proof {
            assert(v@.subrange(i as int, k as int) =~= rest.take(k - i));
        }
        list.push(piece);
        proof {
            assert(texts(list@) =~= texts(before).push(piece@));
        }
        if k >= v.len() {
            proof {
                assert(rest.take(k - i) =~= rest);
                assert(texts(before) + seq![rest] =~= texts(before).push(rest));
            }
            break ;
        }
        proof {
            assert(rest.skip(k - i + 1) =~= v@.skip(k + 1));
            assert(texts(before) + (seq![rest.take(k - i)] + pieces(v@.skip(k + 1))) =~= texts(
                before,
            ).push(piece@) + pieces(v@.skip(k + 1)));
        }
        i = k + 1;
    }
    list
}

/// The components of a path.
pub fn components(path: &str) -> (list: Vec<String>)
    ensures
        texts(list@) == components_of(path@),
{
    let all = split(path);
    let rooted = is_absolute(path);
    let mut list: Vec<String> = Vec::new();
    if rooted {
        list.push("/".to_owned());
    }
    proof {
        reveal_strlit("/");
        assert("/"@ =~= seq![SEPARATOR]);
        assert(texts(all@).skip(0) =~= texts(all@));
        if rooted {
            assert(texts(list@) =~= seq![seq![SEPARATOR]]);
        } else {
            assert(texts(list@) =~= Seq::<Seq<char>>::empty());
        }
    }
    let mut j: usize = 0;
    while j < all.len()
        invariant
            j <= all.len(),
            rooted == absolute(path@),
            texts(all@) == pieces(path@),
            components_of(path@) == texts(list@) + named(
                texts(all@).skip(j as int),
                j == 0 && !rooted,
            ),
        decreases all.len() - j,
    {
        let ghost rest = texts(all@).skip(j as int);
        let ghost before = list@;
        let piece = all[j].clone();
        proof {
            reveal_strlit(".");
            assert("."@ =~= seq!['.']);
            assert(rest[0] == all@[j as int]@);
            assert(rest.skip(1) =~= texts(all@).skip(j + 1));
        }
        let empty = piece.as_str().unicode_len() == 0;
        let dot = same_text(piece.as_str(), ".");
        if !(empty || (dot && !(j == 0 && !rooted))) {
            list.push(piece);
            proof {
                assert(texts(list@) =~= texts(before).push(rest[0]));
                assert(texts(before) + (seq![rest[0]] + named(rest.skip(1), false)) =~= texts(
                    before,
                ).push(rest[0]) + named(rest.skip(1), false));
            }
        }
        j += 1;
    }
    proof {
        assert(texts(list@) + Seq::<Seq<char>>::empty() =~= texts(list@));
    }
    list
}

/// The path that is made of the components from position `from` on.
pub fn assemble(list: &Vec<String>, from: usize) -> (path: String)
    requires
        from <= list.len(),
    ensures
        path@ == assembled(texts(list@).skip(from as int)),
{
    let ghost rest = texts(list@).skip(from as int);
    let mut path = String::new();
    let mut i: usize = from;
    proof {
        assert(rest.take(0) =~= Seq::<Seq<char>>::empty());
    }
    while i < list.len()
        invariant
            from <= i <= list.len(),
            rest == texts(list@).skip(from as int),
            path@ == assembled(rest.take(i - from)),
        decreases list.len() - i,
    {
        proof {
            assert(rest.take(i - from + 1).drop_last() =~= rest.take(i - from));
            assert(rest.take(i - from + 1).last() == list@[i as int]@);
        }
        path = join(path.as_str(), list[i].as_str());
        i += 1;
    }
    proof {
        assert(rest.take(list@.len() - from) =~= rest);
    }
    path
}

/// `path` relative to `prefix`, component by component; `None` where the
/// components of `prefix` are not the first components of `path`.
pub fn strip_prefix(path: &str, prefix: &str) -> (rest: Option<String>)
    ensures
        rest is Some <==> stripped(path@, prefix@) is Some,
        rest matches Some(r) ==> Some(r@) == stripped(path@, prefix@),
{
    let own = components(path);
    let leading = components(prefix);
    if leading.len() > own.len() {
        return None;
    }
    let mut i: usize = 0;
    while i < leading.len()
        invariant
            i <= leading.len() <= own.len(),
            texts(own@) == components_of(path@),
            texts(leading@) == components_of(prefix@),
            forall|j: int| 0 <= j < i ==> texts(own@)[j] == texts(leading@)[j],
        decreases leading.len() - i,
    {
        proof {
            assert(texts(own@)[i as int] == own@[i as int]@);
            assert(texts(leading@)[i as int] == leading@[i as int]@);
        }
        if !same_text(own[i].as_str(), leading[i].as_str()) {
            proof {
                assert(texts(own@).take(leading@.len() as int)[i as int] == texts(own@)[i as int]);
            }
            return None;
        }
        i += 1;
    }
    proof {
        assert(texts(own@).take(leading@.len() as int) =~= texts(leading@));
    }
    Some(assemble(&own, leading.len()))
}

/// The path and all of its ancestors, nearest first.
pub fn ancestors(path: &str) -> (list: Vec<String>)
    ensures
        texts(list@) == ancestors_of(path@),
{
    let mut list: Vec<String> = Vec::new();
    let mut current: String = path.to_owned();
    proof {
        assert(texts(list@) + ancestors_of(current@) =~= ancestors_of(path@));
    }
    loop
        invariant_except_break
            ancestors_of(path@) == texts(list@) + ancestors_of(current@),
        ensures
            texts(list@) == ancestors_of(path@),
        decreases current@.len(),
    {
        let up = parent(current.as_str());
        let ghost before = list@;
        let done = up.as_str().unicode_len() >= current.as_str().unicode_len();
        let ghost cur = current@;
        list.push(current);
        proof {
            assert(texts(list@) =~= texts(before).push(cur));
        }
        if done {
            proof {
                assert(texts(before) + seq![cur] =~= texts(before).push(cur));
            }
            break;
        }
        proof {
            assert(texts(before) + (seq![cur] + ancestors_of(up@)) =~= texts(before).push(cur)
                + ancestors_of(up@));
        }
        current = up;
    }
    list
}

/// The position of the first flag that is set among the first `limit` flags.
pub open spec fn first_marked(marked: Seq<bool>, limit: int) -> Option<int>
    decreases marked.len(),
{
    if marked.len() == 0 || limit <= 0 {
        None
    } else if marked[0] {
        Some(0)
    } else {
        match first_marked(marked.skip(1), limit - 1) {
            Some(i) => Some(i + 1),
            None => None,
        }
    }
}

/// `first_marked` finds a flag that is set, within the limit, with none set
/// before it; it finds none only where none is set within the limit.
pub proof fn lemma_first_marked(marked: Seq<bool>, limit: int)
    ensures
        first_marked(marked, limit) matches Some(i) ==> 0 <= i < marked.len() && i < limit
            && marked[i] && forall|j: int| 0 <= j < i ==> !marked[j],
        first_marked(marked, limit) is None ==> forall|j: int|
            0 <= j < marked.len() && j < limit ==> !marked[j],
    decreases marked.len(),
{
    if marked.len() == 0 || limit <= 0 {
    } else if marked[0] {
    } else {
        let rest = marked.skip(1);
        lemma_first_marked(rest, limit - 1);
        match first_marked(rest, limit - 1) {
            Some(i) => {
                assert(rest[i] == marked[i + 1]);
                assert forall|j: int| 0 <= j < i + 1 implies !marked[j] by {
                    if j > 0 {
                        assert(rest[j - 1] == marked[j]);
                    }
                }
            },
            None => {
                assert forall|j: int| 0 <= j < marked.len() && j < limit implies !marked[j] by {
                    if j > 0 {
                        assert(rest[j - 1] == marked[j]);
                    }
                }
            },
        }
    }
}

/// The nearest of a path and its ancestors that is marked. `marked` holds a
/// flag for each of them, nearest first; a flag that is missing counts as
/// not set.
pub open spec fn nearest_marked_of(path: Seq<char>, marked: Seq<bool>) -> Option<Seq<char>> {
    match first_marked(marked, ancestors_of(path).len() as int) {
        Some(i) => Some(ancestors_of(path)[i]),
        None => None,
    }
}

/// The nearest of a path and its ancestors that is marked.
pub fn nearest_marked(path: &str, marked: &Vec<bool>) -> (found: Option<String>)
    ensures
        found is Some <==> nearest_marked_of(path@, marked@) is Some,
        found matches Some(dir) ==> Some(dir@) == nearest_marked_of(path@, marked@),
        found is Some <==> exists|i: int|
            0 <= i < marked@.len() && i < ancestors_of(path@).len() && marked@[i],
{
    proof {
        lemma_first_marked(marked@, ancestors_of(path@).len() as int);
    }
    let dirs = ancestors(path);
    let ghost limit = ancestors_of(path@).len() as int;
    let mut i: usize = 0;
    proof {
        assert(marked@.skip(0) =~= marked@);
    }
    while i < dirs.len() && i < marked.len()
        invariant
            i <= dirs.len(),
            i <= marked.len(),
            texts(dirs@) == ancestors_of(path@),
            limit == ancestors_of(path@).len(),
            first_marked(marked@, limit) == (match first_marked(marked@.skip(i as int), limit - i) {
                Some(k) => Some(k + i),
                None => None,
            }),
        decreases dirs.len() - i,
    {
        let ghost rest = marked@.skip(i as int);
        proof {
            assert(rest[0] == marked@[i as int]);
            assert(rest.skip(1) =~= marked@.skip(i + 1));
        }
        if marked[i] {
            let dir = dirs[i].clone();
            proof {
                assert(texts(dirs@)[i as int] == dirs@[i as int]@);
            }
            return Some(dir);
        }
        i += 1;
    }
    None
}

} // verus!
