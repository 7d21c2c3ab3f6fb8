//! Which paths an archive and a registry entry may name.

use vstd::prelude::*;
use crate::failure;
use crate::failure::{Failure, FailureView};
use crate::paths;
use crate::paths::{join_names, path_is_absolute, path_parts};
use crate::text;
use crate::text::{debug_string, has_char, same, trimmed};

verus! {

/// The failure for a path that could lead out of the directory it is meant for.
pub open spec fn unsafe_path(path: Seq<char>) -> FailureView {
    failure::failure("unsafe archive path: "@ + text::debug_text(path))
}

/// Whether a path in an archive is accepted, and why not. `None` stands for a path that is not
/// text.
pub open spec fn archive_path_verdict(path: Option<Seq<char>>) -> Result<(), FailureView> {
    match path {
        None => Err(failure::failure("archive path is not valid UTF-8"@)),
        Some(p) => if p.contains('\\') || p.contains('\0') || paths::is_absolute(p)
            || paths::climbs(p) {
            Err(unsafe_path(p))
        } else if paths::names(p).len() == 0 {
            Err(failure::failure("empty archive path"@))
        } else {
            Ok(())
        },
    }
}

/// Accepts a path in an archive only if it stays below the directory it is unpacked into.
pub fn validate_archive_path(path: Option<&str>) -> (r: Result<(), Failure>)
    ensures
        match r {
            Ok(()) => archive_path_verdict(text::text_option(path)) == Ok::<(), FailureView>(()),
            Err(e) => archive_path_verdict(text::text_option(path)) == Err::<(), FailureView>(e@),
        },
{
    let p = match path {
        None => {
            return Err(Failure::new("archive path is not valid UTF-8".to_owned()));
        },
        Some(p) => p,
    };
    let parts = path_parts(p);
    if has_char(p, '\\') || has_char(p, '\0') || path_is_absolute(p) || parts.climbs {
        return Err(
            Failure::new("unsafe archive path: ".to_owned().concat(debug_string(p).as_str())),
        );
    }
    assert(parts.names.deep_view().len() == parts.names@.len());
    if parts.names.len() == 0 {
        return Err(Failure::new("empty archive path".to_owned()));
    }
    Ok(())
}

/// Whether a text can be the name of a file in a directory on every platform.
pub open spec fn is_safe_component(component: Seq<char>) -> bool {
    &&& paths::is_name(component)
    &&& !component.contains('/')
    &&& !component.contains('\\')
    &&& !component.contains('\0')
}

/// The failure for a file name that is not one.
pub open spec fn unsafe_component(component: Seq<char>) -> FailureView {
    failure::failure("unsafe archive filename: "@ + text::debug_text(component))
}

/// Accepts a text as the name of a file.
pub fn validate_archive_component(component: &str) -> (r: Result<(), Failure>)
    ensures
        match r {
            Ok(()) => is_safe_component(component@),
            Err(e) => !is_safe_component(component@) && e@ == unsafe_component(component@),
        },
{
    if same(component, "") || same(component, ".") || same(component, "..") || has_char(
        component,
        '/',
    ) || has_char(component, '\\') || has_char(component, '\0') {
        Err(
            Failure::new(
                "unsafe archive filename: ".to_owned().concat(debug_string(component).as_str()),
            ),
        )
    } else {
        Ok(())
    }
}

/// Where the executable of a payload lies, given the command that the registry declares.
pub open spec fn resolved_command(extracted_dir: Seq<char>, cmd: Seq<char>) -> Result<
    Seq<char>,
    FailureView,
> {
    let path = text::trim(cmd);
    if paths::is_absolute(path) {
        Err(
            failure::failure(
                "binary command path must be relative to the extracted payload: "@ + cmd,
            ),
        )
    } else if paths::climbs(path) {
        Err(
            failure::failure(
                "binary command path must stay within the extracted payload: "@ + cmd,
            ),
        )
    } else {
        Ok(paths::join_all(extracted_dir, paths::names(path)))
    }
}

/// Resolves the command that the registry declares within the unpacked payload.
pub fn resolve_cmd_path(extracted_dir: &str, cmd: &str) -> (r: Result<String, Failure>)
    ensures
        match r {
            Ok(path) => resolved_command(extracted_dir@, cmd@) == Ok::<Seq<char>, FailureView>(
                path@,
            ),
            Err(e) => resolved_command(extracted_dir@, cmd@) == Err::<Seq<char>, FailureView>(e@),
        },
{
    let path = trimmed(cmd);
    if path_is_absolute(path.as_str()) {
        return Err(
            Failure::new(
                "binary command path must be relative to the extracted payload: ".to_owned().concat(
                    cmd,
                ),
            ),
        );
    }
    let parts = path_parts(path.as_str());
    if parts.climbs {
        return Err(
            Failure::new(
                "binary command path must stay within the extracted payload: ".to_owned().concat(
                    cmd,
                ),
            ),
        );
    }
    Ok(join_names(extracted_dir, &parts.names))
}

/// What lies below `base`: `base` itself, or `base` followed by separators and names only.
pub open spec fn lies_within(base: Seq<char>, path: Seq<char>) -> bool {
    &&& base.is_prefix_of(path)
    &&& !paths::climbs(path.skip(base.len() as int))
}

proof fn lemma_join_names_within(base: Seq<char>, parts: Seq<Seq<char>>)
    requires
        forall|i: int|
            0 <= i < parts.len() ==> paths::is_name(#[trigger] parts[i]) && !parts[i].contains('/'),
    ensures
        lies_within(base, paths::join_all(base, parts)),
        parts.len() == 0 || (paths::join_all(base, parts).len() > 0 && paths::join_all(
            base,
            parts,
        ).last() != '/'),
    decreases parts.len(),
{
    reveal_strlit("");
    reveal_strlit("..");
    reveal_with_fuel(text::split, 2);
    if parts.len() == 0 {
        assert(base.skip(base.len() as int) == Seq::<char>::empty());
        assert(paths::pieces(Seq::<char>::empty()) =~= seq![Seq::<char>::empty()]);
        assert(!paths::climbs(Seq::<char>::empty())) by {
            assert(Seq::<char>::empty().len() != ".."@.len());
        }
    } else {
        let front = parts.drop_last();
        let name = parts.last();
        assert forall|i: int| 0 <= i < front.len() implies paths::is_name(#[trigger] front[i])
            && !front[i].contains('/') by {
            assert(front[i] == parts[i]);
        }
        lemma_join_names_within(base, front);
        let inner = paths::join_all(base, front);
        let all = paths::join_all(base, parts);
        assert(paths::is_name(parts[parts.len() - 1]) && !parts[parts.len() - 1].contains('/'));
        assert(name.len() > 0) by {
            if name.len() == 0 {
                assert(name == ""@);
            }
        }
        assert(!paths::is_absolute(name)) by {
            if name[0] == '/' {
                assert(name.contains('/'));
            }
        }
        assert(all.last() == name.last());
        assert(all.last() != '/') by {
            assert(name[name.len() - 1] == name.last());
        }
        assert(base.is_prefix_of(all)) by {
            assert(all.take(base.len() as int) == inner.take(base.len() as int));
            assert(inner.take(base.len() as int) == base);
        }
        let rest = inner.skip(base.len() as int);
        lemma_single_piece(name);
        if inner.len() == 0 || inner.last() == '/' {
            assert(front.len() == 0);
            assert(inner == base);
            assert(all.skip(base.len() as int) == name);
            assert(paths::pieces(name) == seq![name]);
        } else {
            assert(all.skip(base.len() as int) == rest.push('/') + name);
            text::lemma_split_join(rest, name, '/');
            assert(!paths::climbs(all.skip(base.len() as int))) by {
                let joined = paths::pieces(rest) + seq![name];
                if joined.contains(".."@) {
                    let k = choose|k: int| 0 <= k < joined.len() && joined[k] == ".."@;
                    if k < paths::pieces(rest).len() {
                        assert(paths::pieces(rest)[k] == ".."@);
                        assert(paths::climbs(rest));
                    }
                }
            }
        }
    }
}

proof fn lemma_single_piece(s: Seq<char>)
    requires
        !s.contains('/'),
    ensures
        paths::pieces(s) == seq![s],
    decreases s.len(),
{
    if s.len() > 0 {
        let front = s.drop_last();
        assert forall|i: int| 0 <= i < front.len() implies front[i] != '/' by {
            assert(s[i] == front[i]);
            assert(s.contains(s[i]));
        }
        lemma_single_piece(front);
        assert(s.contains(s[s.len() - 1]));
        assert(front.push(s.last()) == s);
        assert(paths::pieces(s) =~= seq![s]);
    } else {
        assert(s == Seq::<char>::empty());
        assert(paths::pieces(s) =~= seq![s]);
    }
}

/// A command that is accepted names something within the payload.
pub proof fn law_commands_stay_within(extracted_dir: Seq<char>, cmd: Seq<char>)
    requires
        resolved_command(extracted_dir, cmd) is Ok,
    ensures
        lies_within(extracted_dir, resolved_command(extracted_dir, cmd)->Ok_0),
{
    let path = text::trim(cmd);
    lemma_names_are_names(path);
    lemma_join_names_within(extracted_dir, paths::names(path));
}

proof fn lemma_names_are_names(path: Seq<char>)
    ensures
        forall|i: int|
            0 <= i < paths::names(path).len() ==> paths::is_name(#[trigger] paths::names(path)[i])
                && !paths::names(path)[i].contains('/'),
{
    let all = paths::pieces(path);
    let keep = |piece: Seq<char>| paths::is_name(piece);
    text::lemma_pieces_hold_no_separator(path, '/');
    assert forall|i: int| 0 <= i < paths::names(path).len() implies paths::is_name(
        #[trigger] paths::names(path)[i],
    ) && !paths::names(path)[i].contains('/') by {
        let name = paths::names(path)[i];
        all.lemma_filter_pred(keep, i);
        assert(all.filter(keep)[i] == name);
        all.lemma_filter_contains_rev(keep, name);
        let k = choose|k: int| 0 <= k < all.len() && all[k] == name;
        assert(!text::split(path, '/')[k].contains('/'));
    }
}

/// An archive path that is accepted, joined to the directory it is unpacked into, names something
/// within that directory.
pub proof fn law_archive_paths_stay_within(destination: Seq<char>, path: Seq<char>)
    requires
        archive_path_verdict(Some(path)) is Ok,
    ensures
        lies_within(destination, paths::join(destination, path)),
{
    reveal_strlit("..");
    let all = paths::join(destination, path);
    if destination.len() == 0 || destination.last() == '/' {
        assert(all == destination + path);
        assert(all.take(destination.len() as int) == destination);
        assert(all.skip(destination.len() as int) == path);
    } else {
        let empty = Seq::<char>::empty();
        assert(all.take(destination.len() as int) == destination);
        assert(all.skip(destination.len() as int) == empty.push('/') + path);
        text::lemma_split_join(empty, path, '/');
        lemma_single_piece(empty);
        let joined = seq![empty] + paths::pieces(path);
        if joined.contains(".."@) {
            let k = choose|k: int| 0 <= k < joined.len() && joined[k] == ".."@;
            if k > 0 {
                assert(paths::pieces(path)[k - 1] == ".."@);
            } else {
                assert(empty.len() == ".."@.len());
            }
            assert(false);
        }
    }
}

/// A path of an archive is refused exactly if it is not text, could lead out of the archive, or
/// names nothing.
pub proof fn law_archive_paths_are_refused_for_a_reason(p: Seq<char>)
    ensures
        archive_path_verdict(None) is Err,
        p.contains('\\') ==> archive_path_verdict(Some(p)) is Err,
        p.contains('\0') ==> archive_path_verdict(Some(p)) is Err,
        p.len() > 0 && p[0] == '/' ==> archive_path_verdict(Some(p)) is Err,
        p.len() == 0 ==> archive_path_verdict(Some(p)) is Err,
        archive_path_verdict(Some(p.push('/') + ".."@)) is Err,
        archive_path_verdict(Some(".."@)) is Err,
        archive_path_verdict(Some(".."@.push('/') + p)) is Err,
{
    reveal_strlit("..");
    let dots = ".."@;
    assert(dots =~= seq!['.', '.']);
    assert(!dots.contains('/'));
    paths::law_single_names_are_components(dots);
    paths::law_climbing_is_seen_anywhere(p, dots);
    paths::law_climbing_is_seen_anywhere(dots, p);
    if p.len() == 0 {
        reveal(Seq::filter);
        reveal_strlit("");
        text::law_split_cuts_at_separators(Seq::empty(), p, '/');
        assert(p =~= ""@);
        let pieces = seq![p];
        assert(pieces.drop_last() =~= Seq::<Seq<char>>::empty());
        assert(pieces.last() == p);
        assert(pieces.drop_last().filter(|piece: Seq<char>| paths::is_name(piece))
            =~= Seq::<Seq<char>>::empty());
        assert(paths::names(p) =~= Seq::<Seq<char>>::empty());
    }
}

/// A name that holds none of the marks that separate or end paths may stand in an archive, alone and
/// below every path that may.
pub proof fn law_plain_names_may_stand_in_archives(a: Seq<char>, name: Seq<char>)
    requires
        name.len() > 0,
        name != seq!['.'],
        name != seq!['.', '.'],
        !name.contains('/'),
        !name.contains('\\'),
        !name.contains('\0'),
    ensures
        is_safe_component(name),
        archive_path_verdict(Some(name)) is Ok,
        archive_path_verdict(Some(a)) is Ok ==> archive_path_verdict(Some(a.push('/') + name)) is Ok,
{
    reveal_strlit("");
    reveal_strlit(".");
    reveal_strlit("..");
    assert("."@ =~= seq!['.']);
    assert(".."@ =~= seq!['.', '.']);
    paths::law_single_names_are_components(name);
    assert(name.contains(name[0]));
    if archive_path_verdict(Some(a)) is Ok {
        let whole = a.push('/') + name;
        paths::law_climbing_is_seen_anywhere(a, name);
        assert(a.len() > 0) by {
            if a.len() == 0 {
                law_archive_paths_are_refused_for_a_reason(a);
            }
        }
        assert(whole[0] == a[0]);
        assert forall|c: char| c != '/' && whole.contains(c) implies a.contains(c)
            || name.contains(c) by {
            let i = choose|i: int| 0 <= i < whole.len() && whole[i] == c;
            if i < a.len() {
                assert(a[i] == c);
            } else if i > a.len() {
                assert(name[i - a.len() - 1] == c);
            }
        }
    }
}

/// The name of an archive is safe exactly if it is a single name of a file.
pub proof fn law_safe_components_are_single_names(name: Seq<char>)
    ensures
        is_safe_component(name) <==> name.len() > 0 && name != seq!['.'] && name != seq!['.', '.']
            && !name.contains('/') && !name.contains('\\') && !name.contains('\0'),
{
    reveal_strlit("");
    reveal_strlit(".");
    reveal_strlit("..");
    assert("."@ =~= seq!['.']);
    assert(".."@ =~= seq!['.', '.']);
    if name.len() == 0 {
        assert(name =~= ""@);
    }
}

proof fn lemma_names_are_components(base: Seq<char>, parts: Seq<Seq<char>>)
    requires
        forall|i: int|
            #![trigger parts[i]]
            0 <= i < parts.len() ==> paths::is_name(parts[i]) && !parts[i].contains('/'),
    ensures
        paths::components(paths::join_all(base, parts)) == paths::components(base) + parts,
    decreases parts.len(),
{
    if parts.len() == 0 {
        assert(paths::components(base) + parts =~= paths::components(base));
    } else {
        reveal_strlit("");
        reveal_strlit(".");
        let front = parts.drop_last();
        let name = parts.last();
        assert(name == parts[parts.len() - 1]);
        assert forall|i: int| 0 <= i < front.len() implies paths::is_name(#[trigger] front[i])
            && !front[i].contains('/') by {
            assert(front[i] == parts[i]);
        }
        lemma_names_are_components(base, front);
        assert("."@ =~= seq!['.']);
        assert(name.len() > 0) by {
            if name.len() == 0 {
                assert(name =~= ""@);
            }
        }
        assert(name.contains(name[0]));
        paths::law_single_names_are_components(name);
        paths::law_join_puts_components_behind(paths::join_all(base, front), name);
        assert(paths::components(base) + parts =~= (paths::components(base) + front) + seq![name]);
    }
}

proof fn lemma_names_hold_no_slash(path: Seq<char>)
    ensures
        forall|i: int|
            #![trigger paths::names(path)[i]]
            0 <= i < paths::names(path).len() ==> paths::is_name(paths::names(path)[i])
                && !paths::names(path)[i].contains('/'),
{
    let all = paths::pieces(path);
    let keep = |piece: Seq<char>| paths::is_name(piece);
    text::lemma_pieces_hold_no_separator(path, '/');
    assert forall|i: int| 0 <= i < paths::names(path).len() implies paths::is_name(
        #[trigger] paths::names(path)[i],
    ) && !paths::names(path)[i].contains('/') by {
        let name = paths::names(path)[i];
        all.lemma_filter_pred(keep, i);
        assert(all.filter(keep).contains(name));
        all.lemma_filter_contains_rev(keep, name);
        let k = choose|k: int| 0 <= k < all.len() && all[k] == name;
        assert(!all[k].contains('/'));
    }
}

/// A command is found exactly if it is given as a path below the payload, and it is found where its
/// names lead to: nowhere above, and nowhere else.
pub proof fn law_commands_are_found_by_their_names(extracted_dir: Seq<char>, cmd: Seq<char>)
    ensures
        ({
            let path = text::trim(cmd);
            let found = resolved_command(extracted_dir, cmd);
            &&& found is Ok <==> !(path.len() > 0 && path[0] == '/') && !paths::climbs(path)
            &&& found is Ok ==> paths::components(found->Ok_0) == paths::components(extracted_dir)
                + paths::names(path)
        }),
{
    let path = text::trim(cmd);
    lemma_names_hold_no_slash(path);
    lemma_names_are_components(extracted_dir, paths::names(path));
}

} // verus!
