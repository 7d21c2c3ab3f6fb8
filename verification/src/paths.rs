//! Paths as text, with `/` between their components.

use vstd::prelude::*;
use crate::text;
use crate::text::{same, split_at_char, chars_of};

verus! {

/// Whether a path starts at the root of the file system.
pub open spec fn is_absolute(path: Seq<char>) -> bool {
    path.len() > 0 && path[0] == '/'
}

/// What stands between the separators of a path.
pub open spec fn pieces(path: Seq<char>) -> Seq<Seq<char>> {
    text::split(path, '/')
}

/// Whether a piece names an entry of a directory.
pub open spec fn is_name(piece: Seq<char>) -> bool {
    piece != ""@ && piece != "."@ && piece != ".."@
}

/// The names on a path, in order.
pub open spec fn names(path: Seq<char>) -> Seq<Seq<char>> {
    pieces(path).filter(|piece: Seq<char>| is_name(piece))
}

/// Whether a path steps to a parent directory anywhere.
pub open spec fn climbs(path: Seq<char>) -> bool {
    pieces(path).contains(".."@)
}

/// The parts of a path that tell paths apart: all pieces but empty ones and steps to the same
/// directory.
pub open spec fn components(path: Seq<char>) -> Seq<Seq<char>> {
    pieces(path).filter(|piece: Seq<char>| piece != ""@ && piece != "."@)
}

/// Whether two paths have the same components and start at the same place.
pub open spec fn same_path(a: Seq<char>, b: Seq<char>) -> bool {
    &&& is_absolute(a) == is_absolute(b)
    &&& (pieces(a)[0] == "."@) == (pieces(b)[0] == "."@)
    &&& components(a) == components(b)
}

/// The path of `name` in the directory `base`.
pub open spec fn join(base: Seq<char>, name: Seq<char>) -> Seq<char> {
    if is_absolute(name) {
        name
    } else if base.len() == 0 || base.last() == '/' {
        base + name
    } else {
        base.push('/') + name
    }
}

/// The path that results from joining each of `parts` in turn.
pub open spec fn join_all(base: Seq<char>, parts: Seq<Seq<char>>) -> Seq<char>
    decreases parts.len(),
{
    if parts.len() == 0 {
        base
    } else {
        join(join_all(base, parts.drop_last()), parts.last())
    }
}

/// Joins `name` to the directory `base`; an absolute `name` stands for itself.
pub fn join_path(base: &str, name: &str) -> (r: String)
    ensures
        r@ == join(base@, name@),
{
    let chars = chars_of(base);
    if has_prefix_slash(name) {
        name.to_owned()
    } else if chars.len() == 0 || chars[chars.len() - 1] == '/' {
        base.to_owned().concat(name)
    } else {
        let mut r = base.to_owned();
        r.push('/');
        r.concat(name)
    }
}

fn has_prefix_slash(path: &str) -> (r: bool)
    ensures
        r == is_absolute(path@),
{
    let chars = chars_of(path);
    chars.len() > 0 && chars[0] == '/'
}

/// Tells whether a path starts at the root of the file system.
pub fn path_is_absolute(path: &str) -> (r: bool)
    ensures
        r == is_absolute(path@),
{
    has_prefix_slash(path)
}

/// What the pieces of a path amount to.
pub struct PathParts {
    /// The names on the path, in order.
    pub names: Vec<String>,
    /// Whether a parent directory is stepped to.
    pub climbs: bool,
}

proof fn lemma_filter_push(s: Seq<Seq<char>>, piece: Seq<char>)
    ensures
        s.push(piece).filter(|p: Seq<char>| is_name(p)) == if is_name(piece) {
            s.filter(|p: Seq<char>| is_name(p)).push(piece)
        } else {
            s.filter(|p: Seq<char>| is_name(p))
        },
{
    reveal(Seq::filter);
    assert(s.push(piece).drop_last() == s);
}

/// Takes a path apart.
pub fn path_parts(path: &str) -> (r: PathParts)
    ensures
        r.names.deep_view() == names(path@),
        r.climbs == climbs(path@),
{
    let all = split_at_char(path, '/');
    let ghost seen = all.deep_view();
    let mut found: Vec<String> = Vec::new();
    let mut up: bool = false;
    let mut i: usize = 0;
    proof {
        reveal(Seq::filter);
        assert(found.deep_view() == seen.take(0).filter(|p: Seq<char>| is_name(p)));
    }
    while i < all.len()
        invariant
            i <= all.len(),
            seen == all.deep_view(),
            seen == pieces(path@),
            found.deep_view() == seen.take(i as int).filter(|p: Seq<char>| is_name(p)),
            up == seen.take(i as int).contains(".."@),
        decreases all.len() - i,
    {
        let piece = &all[i];
        let ghost before = found.deep_view();
        proof {
            assert(piece@ == seen[i as int]);
            assert(seen.take(i + 1) == seen.take(i as int).push(piece@));
            lemma_filter_push(seen.take(i as int), piece@);
            assert forall|p: Seq<char>| #[trigger] seen.take(i + 1).contains(p) == (seen.take(
                i as int,
            ).contains(p) || p == piece@) by {
                if seen.take(i as int).contains(p) {
                    let k = choose|k: int| 0 <= k < i && seen.take(i as int)[k] == p;
                    assert(seen.take(i + 1)[k] == p);
                }
                if p == piece@ {
                    assert(seen.take(i + 1)[i as int] == p);
                }
            }
        }
        if same(piece.as_str(), "..") {
            up = true;
        } else if !same(piece.as_str(), "") && !same(piece.as_str(), ".") {
            found.push(piece.clone());
            assert(found.deep_view() == before.push(piece@));
        }
        i += 1;
    }
    assert(seen.take(seen.len() as int) == seen);
    PathParts { names: found, climbs: up }
}

proof fn lemma_component_push(s: Seq<Seq<char>>, piece: Seq<char>)
    ensures
        s.push(piece).filter(|p: Seq<char>| p != ""@ && p != "."@) == if piece != ""@ && piece
            != "."@ {
            s.filter(|p: Seq<char>| p != ""@ && p != "."@).push(piece)
        } else {
            s.filter(|p: Seq<char>| p != ""@ && p != "."@)
        },
{
    reveal(Seq::filter);
    assert(s.push(piece).drop_last() == s);
}

/// Gives the components of a path.
pub fn components_of(path: &str) -> (r: Vec<String>)
    ensures
        r.deep_view() == components(path@),
{
    let all = split_at_char(path, '/');
    let ghost seen = all.deep_view();
    let mut found: Vec<String> = Vec::new();
    let mut i: usize = 0;
    proof {
        reveal(Seq::filter);
        assert(found.deep_view() == seen.take(0).filter(|p: Seq<char>| p != ""@ && p != "."@));
    }
    while i < all.len()
        invariant
            i <= all.len(),
            seen == all.deep_view(),
            found.deep_view() == seen.take(i as int).filter(
                |p: Seq<char>| p != ""@ && p != "."@,
            ),
        decreases all.len() - i,
    {
        let piece = &all[i];
        let ghost before = found.deep_view();
        proof {
            assert(piece@ == seen[i as int]);
            assert(seen.take(i + 1) == seen.take(i as int).push(piece@));
            lemma_component_push(seen.take(i as int), piece@);
        }
        if !same(piece.as_str(), "") && !same(piece.as_str(), ".") {
            found.push(piece.clone());
            assert(found.deep_view() == before.push(piece@));
        }
        i += 1;
    }
    assert(seen.take(seen.len() as int) == seen);
    found
}

/// Whether two lists hold the same texts.
pub fn same_texts(a: &Vec<String>, b: &Vec<String>) -> (r: bool)
    ensures
        r == (a.deep_view() == b.deep_view()),
{
    if a.len() != b.len() {
        assert(a.deep_view().len() != b.deep_view().len());
        return false;
    }
    let mut i: usize = 0;
    while i < a.len()
        invariant
            i <= a.len(),
            a.len() == b.len(),
            forall|j: int| 0 <= j < i ==> a@[j]@ == b@[j]@,
        decreases a.len() - i,
    {
        if !same(a[i].as_str(), b[i].as_str()) {
            assert(a.deep_view()[i as int] != b.deep_view()[i as int]);
            return false;
        }
        i += 1;
    }
    assert(a.deep_view() == b.deep_view());
    true
}

fn starts_here(path: &str) -> (r: bool)
    ensures
        r == (pieces(path@)[0] == "."@),
{
    let all = split_at_char(path, '/');
    proof {
        text::lemma_split_not_empty(path@, '/');
        assert(all.deep_view()[0] == all@[0]@);
    }
    same(all[0].as_str(), ".")
}

/// Tells whether two paths have the same components and start at the same place.
pub fn is_same_path(a: &str, b: &str) -> (r: bool)
    ensures
        r == same_path(a@, b@),
{
    path_is_absolute(a) == path_is_absolute(b) && starts_here(a) == starts_here(b) && same_texts(
        &components_of(a),
        &components_of(b),
    )
}

/// Joins every name in turn.
pub fn join_names(base: &str, parts: &Vec<String>) -> (r: String)
    ensures
        r@ == join_all(base@, parts.deep_view()),
{
    let ghost all = parts.deep_view();
    let mut r = base.to_owned();
    let mut i: usize = 0;
    assert(all.take(0) == Seq::<Seq<char>>::empty());
    while i < parts.len()
        invariant
            i <= parts.len(),
            all == parts.deep_view(),
            r@ == join_all(base@, all.take(i as int)),
        decreases parts.len() - i,
    {
        r = join_path(r.as_str(), parts[i].as_str());
        assert(all.take(i + 1).drop_last() == all.take(i as int));
        assert(all.take(i + 1).last() == parts@[i as int]@);
        i += 1;
    }
    assert(all.take(all.len() as int) == all);
    r
}

/// A path without what does not matter at its end: separators, and steps to the same directory
/// behind a separator.
pub open spec fn without_tail(path: Seq<char>) -> Seq<char>
    decreases path.len(),
{
    if path.len() > 1 && (path.last() == '/' || (path.last() == '.' && path[path.len() - 2]
        == '/')) {
        without_tail(path.drop_last())
    } else {
        path
    }
}

/// The last name on a path, if the path ends in one.
pub open spec fn file_name(path: Seq<char>) -> Option<Seq<char>> {
    let last = pieces(without_tail(path)).last();
    if is_name(last) {
        Some(last)
    } else {
        None
    }
}

/// The directory that a path with a file name lies in.
pub open spec fn directory(path: Seq<char>) -> Seq<char> {
    let whole = without_tail(path);
    without_tail(whole.take(whole.len() - pieces(whole).last().len()))
}

/// The directory that a path lies in, unless there is nothing above it.
pub open spec fn parent(path: Seq<char>) -> Option<Seq<char>> {
    let whole = without_tail(path);
    if whole.len() == 0 || whole == seq!['/'] {
        None
    } else {
        Some(directory(path))
    }
}

/// `path` with its file name replaced, or with `name` joined where it has none.
pub open spec fn with_file_name(path: Seq<char>, name: Seq<char>) -> Seq<char> {
    match file_name(path) {
        Some(_) => join(directory(path), name),
        None => join(path, name),
    }
}

fn drop_tail(path: &str) -> (r: String)
    ensures
        r@ == without_tail(path@),
{
    let chars = chars_of(path);
    let mut end: usize = chars.len();
    assert(path@.take(end as int) == path@);
    while end > 1 && (chars[end - 1] == '/' || (chars[end - 1] == '.' && chars[end - 2] == '/'))
        invariant
            end <= chars.len(),
            chars@ == path@,
            without_tail(path@) == without_tail(path@.take(end as int)),
        decreases end,
    {
        assert(path@.take(end as int).drop_last() == path@.take(end - 1));
        end -= 1;
    }
    assert(path@.subrange(0, end as int) == path@.take(end as int));
    path.substring_char(0, end).to_owned()
}

/// Gives the last name on a path, if the path ends in one.
pub fn file_name_of(path: &str) -> (r: Option<String>)
    ensures
        match r {
            Some(name) => file_name(path@) == Some(name@),
            None => file_name(path@) is None,
        },
{
    let whole = drop_tail(path);
    let mut all = split_at_char(whole.as_str(), '/');
    let ghost seen = all.deep_view();
    proof {
        text::lemma_split_not_empty(whole@, '/');
        assert(seen.last() == all@.last()@);
    }
    match all.pop() {
        None => None,
        Some(last) => {
            if same(last.as_str(), "") || same(last.as_str(), ".") || same(last.as_str(), "..") {
                None
            } else {
                Some(last)
            }
        },
    }
}

proof fn lemma_last_piece_fits(s: Seq<char>)
    ensures
        pieces(s).len() >= 1,
        pieces(s).last().len() <= s.len(),
    decreases s.len(),
{
    text::lemma_split_not_empty(s, '/');
    if s.len() > 0 {
        lemma_last_piece_fits(s.drop_last());
    }
}

fn directory_of(path: &str) -> (r: String)
    ensures
        r@ == directory(path@),
{
    let whole = drop_tail(path);
    let mut all = split_at_char(whole.as_str(), '/');
    proof {
        lemma_last_piece_fits(whole@);
        assert(all.deep_view().last() == all@.last()@);
    }
    let m: usize = match all.pop() {
        None => 0,
        Some(last) => last.as_str().unicode_len(),
    };
    let n: usize = whole.as_str().unicode_len();
    assert(whole@.subrange(0, n - m) == whole@.take(n - m));
    drop_tail(whole.as_str().substring_char(0, n - m))
}

/// Gives the directory that a path lies in, unless there is nothing above it.
pub fn parent_of(path: &str) -> (r: Option<String>)
    ensures
        match r {
            Some(dir) => parent(path@) == Some(dir@),
            None => parent(path@) is None,
        },
{
    let whole = drop_tail(path);
    proof {
        reveal_strlit("/");
        assert("/"@ == seq!['/']);
    }
    if whole.as_str().is_empty() || same(whole.as_str(), "/") {
        None
    } else {
        Some(directory_of(path))
    }
}

/// Replaces the file name of `path`, or joins `name` where it has none.
pub fn sibling(path: &str, name: &str) -> (r: String)
    ensures
        r@ == with_file_name(path@, name@),
{
    match file_name_of(path) {
        None => join_path(path, name),
        Some(_) => join_path(directory_of(path).as_str(), name),
    }
}

proof fn lemma_filter_concat(a: Seq<Seq<char>>, b: Seq<Seq<char>>, keep: spec_fn(Seq<char>) -> bool)
    ensures
        (a + b).filter(keep) == a.filter(keep) + b.filter(keep),
    decreases b.len(),
{
    reveal(Seq::filter);
    if b.len() == 0 {
        assert(a + b == a);
        assert(a.filter(keep) + b.filter(keep) == a.filter(keep));
    } else {
        lemma_filter_concat(a, b.drop_last(), keep);
        assert((a + b).drop_last() == a + b.drop_last());
        assert((a + b).last() == b.last());
        if keep(b.last()) {
            assert(a.filter(keep) + b.drop_last().filter(keep).push(b.last()) == (a.filter(keep)
                + b.drop_last().filter(keep)).push(b.last()));
        }
    }
}

proof fn lemma_blank_pieces(path: Seq<char>)
    requires
        path.len() == 0 || path == seq!['.'],
    ensures
        components(path) == Seq::<Seq<char>>::empty(),
        names(path) == Seq::<Seq<char>>::empty(),
{
    let nothing = Seq::<Seq<char>>::empty();
    reveal(Seq::filter);
    reveal_strlit("");
    reveal_strlit(".");
    reveal_strlit("..");
    assert(!path.contains('/'));
    text::law_split_cuts_at_separators(Seq::empty(), path, '/');
    assert(nothing.push(path) == seq![path]);
    if path.len() == 0 {
        assert(path == ""@);
    } else {
        assert(path == "."@);
    }
    lemma_component_push(nothing, path);
    lemma_filter_push(nothing, path);
}

/// Joining a relative path to a base puts its components behind those of the base; the base says
/// where the path begins. An absolute path stands for itself.
pub proof fn law_join_puts_components_behind(base: Seq<char>, name: Seq<char>)
    ensures
        name.len() > 0 && name[0] == '/' ==> join(base, name) == name,
        !(name.len() > 0 && name[0] == '/') ==> {
            &&& components(join(base, name)) == components(base) + components(name)
            &&& name.is_suffix_of(join(base, name))
            &&& base.is_prefix_of(join(base, name))
            &&& base.len() > 0 ==> is_absolute(join(base, name)) == (base[0] == '/')
        },
{
    if !(name.len() > 0 && name[0] == '/') {
        let keep = |p: Seq<char>| p != ""@ && p != "."@;
        let whole = join(base, name);
        assert(whole.skip(whole.len() - name.len()) == name);
        if base.len() == 0 {
            assert(base + name == name);
            lemma_blank_pieces(base);
            assert(Seq::<Seq<char>>::empty() + components(name) == components(name));
        } else if base.last() == '/' {
            let stem = base.drop_last();
            assert(stem.push('/') == base);
            text::lemma_split_join(stem, name, '/');
            text::lemma_split_join(stem, Seq::empty(), '/');
            assert(stem.push('/') + Seq::<char>::empty() == base);
            lemma_filter_concat(pieces(stem), pieces(name), keep);
            lemma_filter_concat(pieces(stem), pieces(Seq::empty()), keep);
            lemma_blank_pieces(Seq::empty());
            assert(components(stem) + Seq::<Seq<char>>::empty() == components(stem));
        } else {
            text::lemma_split_join(base, name, '/');
            lemma_filter_concat(pieces(base), pieces(name), keep);
        }
    }
}

/// A name without a slash is the one component of itself, unless it is empty or a single dot.
pub proof fn law_single_names_are_components(name: Seq<char>)
    requires
        !name.contains('/'),
        name.len() > 0,
        name != seq!['.'],
    ensures
        components(name) == seq![name],
        name != seq!['.', '.'] ==> names(name) == seq![name] && !climbs(name),
        name == seq!['.', '.'] ==> names(name) == Seq::<Seq<char>>::empty() && climbs(name),
{
    let nothing = Seq::<Seq<char>>::empty();
    reveal(Seq::filter);
    reveal_strlit("");
    reveal_strlit(".");
    reveal_strlit("..");
    text::law_split_cuts_at_separators(Seq::empty(), name, '/');
    assert(nothing.push(name) == seq![name]);
    assert("."@ == seq!['.']);
    assert(".."@ == seq!['.', '.']);
    assert(name != ""@ && name != "."@);
    lemma_component_push(nothing, name);
    lemma_filter_push(nothing, name);
    assert(pieces(name)[0] == name);
    if climbs(name) {
        let i = choose|i: int| 0 <= i < pieces(name).len() && pieces(name)[i] == ".."@;
        assert(i == 0);
    }
}

/// A path climbs exactly if one of the texts between its slashes is two dots.
pub proof fn law_climbing_is_seen_anywhere(a: Seq<char>, b: Seq<char>)
    ensures
        climbs(a.push('/') + b) == (climbs(a) || climbs(b)),
        names(a.push('/') + b) == names(a) + names(b),
        components(a.push('/') + b) == components(a) + components(b),
{
    text::lemma_split_join(a, b, '/');
    lemma_filter_concat(pieces(a), pieces(b), |p: Seq<char>| is_name(p));
    lemma_filter_concat(pieces(a), pieces(b), |p: Seq<char>| p != ""@ && p != "."@);
    let all = pieces(a) + pieces(b);
    if climbs(a) {
        let i = choose|i: int| 0 <= i < pieces(a).len() && pieces(a)[i] == ".."@;
        assert(all[i] == ".."@);
    }
    if climbs(b) {
        let i = choose|i: int| 0 <= i < pieces(b).len() && pieces(b)[i] == ".."@;
        assert(all[pieces(a).len() + i] == ".."@);
    }
    if all.contains(".."@) {
        let i = choose|i: int| 0 <= i < all.len() && all[i] == ".."@;
        if i < pieces(a).len() {
            assert(pieces(a)[i] == ".."@);
        } else {
            assert(pieces(b)[i - pieces(a).len()] == ".."@);
        }
    }
}

proof fn lemma_no_tail(dir: Seq<char>, name: Seq<char>)
    requires
        !name.contains('/'),
        name.len() > 0,
        name != seq!['.'],
    ensures
        without_tail(dir.push('/') + name) == dir.push('/') + name,
        without_tail(name) == name,
{
    let path = dir.push('/') + name;
    let n = name.len() as int;
    assert(name.contains(name[n - 1]));
    assert(path.last() == name[n - 1]);
    if n > 1 {
        assert(name.contains(name[n - 2]));
        assert(path[path.len() - 2] == name[n - 2]);
    } else {
        assert(name == seq![name[0]]);
    }
}

/// The file name of a path is what stands behind its last slash; putting another one there changes
/// nothing else, and the directory above is what stands before that slash.
pub proof fn law_file_name_is_behind_the_last_slash(
    dir: Seq<char>,
    name: Seq<char>,
    other: Seq<char>,
)
    requires
        !name.contains('/'),
        name.len() > 0,
        name != seq!['.'],
        name != seq!['.', '.'],
    ensures
        file_name(dir.push('/') + name) == Some(name),
        file_name(name) == Some(name),
        dir.len() > 0 && dir.last() != '/' && dir.last() != '.' ==> parent(dir.push('/') + name)
            == Some(dir),
        dir.len() > 0 && dir.last() != '/' && dir.last() != '.' && other.len() > 0 && other[0]
            != '/' ==> with_file_name(dir.push('/') + name, other) == dir.push('/') + other,
{
    let path = dir.push('/') + name;
    lemma_no_tail(dir, name);
    text::law_split_cuts_at_separators(dir, name, '/');
    reveal_strlit("");
    reveal_strlit(".");
    reveal_strlit("..");
    assert(seq!['.'] == "."@);
    assert(seq!['.', '.'] == ".."@);
    assert(is_name(name));
    if dir.len() > 0 && dir.last() != '/' && dir.last() != '.' {
        assert(path.take(path.len() - name.len()) == dir.push('/'));
        assert(dir.push('/').drop_last() == dir);
        assert(without_tail(dir.push('/')) == without_tail(dir)) by {
            assert(dir.push('/').len() > 1);
        }
        assert(path != seq!['/']) by {
            assert(path.len() > 1);
        }
    }
}

/// Two paths are the same place only if they begin at the same place and have the same components.
pub proof fn law_same_paths_have_the_same_components(a: Seq<char>, b: Seq<char>)
    ensures
        same_path(a, a),
        same_path(a, b) == same_path(b, a),
        same_path(a, b) ==> components(a) == components(b) && (a.len() > 0 && a[0] == '/') == (
        b.len() > 0 && b[0] == '/'),
        a.len() > 0 && b.len() > 0 && a[0] == '/' && b[0] == '/' && components(a) == components(b)
            ==> same_path(a, b),
{
    if a.len() > 0 && b.len() > 0 && a[0] == '/' && b[0] == '/' {
        lemma_absolute_pieces(a);
        lemma_absolute_pieces(b);
        reveal_strlit(".");
    }
}

proof fn lemma_absolute_pieces(a: Seq<char>)
    requires
        a.len() > 0,
        a[0] == '/',
    ensures
        pieces(a).len() >= 1,
        pieces(a)[0].len() == 0,
{
    let rest = a.skip(1);
    assert(a == Seq::<char>::empty().push('/') + rest);
    text::lemma_split_join(Seq::empty(), rest, '/');
    text::law_split_cuts_at_separators(Seq::empty(), Seq::empty(), '/');
}

/// Names are joined one after the other.
pub proof fn law_names_are_joined_in_turn(base: Seq<char>, parts: Seq<Seq<char>>, name: Seq<char>)
    ensures
        join_all(base, Seq::empty()) == base,
        join_all(base, parts.push(name)) == join(join_all(base, parts), name),
{
    assert(parts.push(name).drop_last() =~= parts);
}

} // verus!
