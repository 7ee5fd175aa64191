//! Laws of the names of entries: where an entry of the package is placed, and
//! whether its name leads out of the engine's directory.

use vstd::prelude::*;

use crate::installer::{
    build_prefix, climbs, entry_step, is_here, is_up, keeps_inside, lemma_placed_names,
    lemma_vendor_names, name_in_build, names_along, place_name, placed_name, slashed,
    stays_inside, step_for, EntryStep, PACKAGE_PREFIX,
};
use crate::paths::Platform;
use crate::text::{before_first, lemma_before_first, lemma_before_first_joined, pieces_of};

verus! {

/// Whether a name in the package is that of something in the directory of a build,
/// and called so in there.
pub open spec fn in_build(name: Seq<char>, build: Seq<char>, rest: Seq<char>) -> bool {
    &&& build.len() > 0
    &&& forall|i: int| 0 <= i < build.len() ==> #[trigger] build[i] != '/'
    &&& name == "package/vendor/"@ + build + "/"@ + rest
}

/// Whether an entry of that name is placed under that name inside the engine's
/// directory: without `package/vendor/` and the name of its build where it has
/// them, else without `package/` where it has that, else as it is.
pub open spec fn is_placed(name: Seq<char>, placed: Seq<char>) -> bool {
    let bare = forall|build: Seq<char>, rest: Seq<char>| !#[trigger] in_build(name, build, rest);
    &&& forall|build: Seq<char>, rest: Seq<char>| #[trigger]
        in_build(name, build, rest) ==> placed == rest
    &&& bare ==> forall|rest: Seq<char>| name == #[trigger] ("package/"@ + rest) ==> placed == rest
    &&& bare && (forall|rest: Seq<char>| name != #[trigger] ("package/"@ + rest)) ==> placed
        == name
}

proof fn lemma_in_build(name: Seq<char>, build: Seq<char>, rest: Seq<char>)
    requires
        in_build(name, build, rest),
    ensures
        placed_name(name) == rest,
{
    reveal_strlit("/");
    assert("/"@ == seq!['/']);
    assert(name == build_prefix(build) + rest);
    assert(!build.contains('/'));
    lemma_vendor_names(build, rest);
}

proof fn lemma_is_placed(name: Seq<char>)
    ensures
        is_placed(name, placed_name(name)),
{
    let placed = placed_name(name);
    lemma_placed_names(name);
    assert forall|build: Seq<char>, rest: Seq<char>| #[trigger]
        in_build(name, build, rest) implies placed == rest by {
        lemma_in_build(name, build, rest);
    }
    if forall|build: Seq<char>, rest: Seq<char>| !#[trigger] in_build(name, build, rest) {
        if name_in_build(name) is Some {
            let build = choose|build: Seq<char>|
                build.len() > 0 && !build.contains('/') && name == #[trigger] build_prefix(build)
                    + placed;
            reveal_strlit("/");
            assert("/"@ == seq!['/']);
            assert(name == "package/vendor/"@ + build + "/"@ + placed);
            assert forall|i: int| 0 <= i < build.len() implies #[trigger] build[i] != '/' by {
                assert(build.contains(build[i]));
            }
            assert(in_build(name, build, placed));
        }
        assert forall|rest: Seq<char>| name == #[trigger] ("package/"@ + rest) implies placed
            == rest by {
            assert(name.take(PACKAGE_PREFIX@.len() as int) == PACKAGE_PREFIX@);
            assert(name.skip(PACKAGE_PREFIX@.len() as int) == rest);
        }
        if forall|rest: Seq<char>| name != #[trigger] ("package/"@ + rest) {
            if PACKAGE_PREFIX@.is_prefix_of(name) {
                assert(name == "package/"@ + placed);
            }
        }
    }
}

/// An entry is placed under its name without the front that only the package
/// needs, whole and whatever its length.
pub proof fn law_place_name(name: &str, placed: String)
    requires
        call_ensures(place_name, (name,), placed),
    ensures
        is_placed(name@, placed@),
{
    lemma_is_placed(name@);
}

/// Whether a character separates the names of a path.
pub open spec fn splits(platform: Platform, c: char) -> bool {
    c == '/' || (platform == Platform::Windows && c == '\\')
}

/// The names with a slash between each and the next.
pub open spec fn joined(names: Seq<Seq<char>>) -> Seq<char>
    decreases names.len(),
{
    if names.len() == 0 {
        Seq::empty()
    } else if names.len() == 1 {
        names[0]
    } else {
        names[0].push('/') + joined(names.drop_first())
    }
}

/// Whether these are the names along a path: free of separators, and with one
/// between each and the next they are the path.
pub open spec fn spells(platform: Platform, path: Seq<char>, names: Seq<Seq<char>>) -> bool {
    &&& names.len() > 0
    &&& forall|k: int, i: int|
        0 <= k < names.len() && 0 <= i < names[k].len() ==> !splits(
            platform,
            #[trigger] names[k][i],
        )
    &&& joined(names).len() == path.len()
    &&& forall|i: int|
        0 <= i < path.len() ==> if splits(platform, #[trigger] path[i]) {
            joined(names)[i] == '/'
        } else {
            joined(names)[i] == path[i]
        }
}

/// How many directories deep the first names of a row lead: down by each, up by
/// `..`, and nowhere by `.` and by an empty name.
pub open spec fn level(names: Seq<Seq<char>>, count: nat) -> int
    decreases count,
{
    if count == 0 {
        0
    } else {
        let name = names[count - 1];
        level(names, (count - 1) as nat) + if name == seq!['.', '.'] {
            -1int
        } else if name.len() == 0 || name == seq!['.'] {
            0
        } else {
            1
        }
    }
}

/// Whether a path with these names leads nowhere but into the directory that it is
/// joined to: it begins with no separator and no drive, and however many of its
/// names are followed, they never lead above the start.
pub open spec fn leads_inside(
    platform: Platform,
    path: Seq<char>,
    names: Seq<Seq<char>>,
) -> bool {
    &&& path.len() > 0 ==> !splits(platform, path[0])
    &&& !(platform == Platform::Windows && path.len() > 1 && path[1] == ':' && ('a' <= path[0]
        <= 'z' || 'A' <= path[0] <= 'Z'))
    &&& forall|count: nat| count <= names.len() ==> #[trigger] level(names, count) >= 0
}

proof fn lemma_joined_pieces(text: Seq<char>)
    ensures
        joined(pieces_of(text, '/')) == text,
        pieces_of(text, '/').len() > 0,
        forall|k: int, i: int|
            0 <= k < pieces_of(text, '/').len() && 0 <= i < pieces_of(text, '/')[k].len()
                ==> #[trigger] pieces_of(text, '/')[k][i] != '/',
    decreases text.len(),
{
    lemma_before_first(text, '/');
    let end = before_first(text, '/') as int;
    let pieces = pieces_of(text, '/');
    let front = text.take(end);
    assert forall|i: int| 0 <= i < end implies #[trigger] front[i] != '/' by {
        assert(front.contains(front[i]));
    }
    if end < text.len() {
        let rest = text.skip(end + 1);
        lemma_joined_pieces(rest);
        assert(pieces.drop_first() == pieces_of(rest, '/'));
        assert(pieces[0] == front);
        assert(joined(pieces) == front.push('/') + rest);
        assert(text == front.push('/') + rest);
        assert forall|k: int, i: int|
            0 <= k < pieces.len() && 0 <= i < pieces[k].len() implies #[trigger] pieces[k][i]
            != '/' by {
            if k > 0 {
                assert(pieces[k] == pieces_of(rest, '/')[k - 1]);
            }
        }
    } else {
        assert(front == text);
        assert(pieces[0] == text);
    }
}

proof fn lemma_pieces_joined(names: Seq<Seq<char>>)
    requires
        names.len() > 0,
        forall|k: int, i: int|
            0 <= k < names.len() && 0 <= i < names[k].len() ==> #[trigger] names[k][i] != '/',
    ensures
        pieces_of(joined(names), '/') == names,
    decreases names.len(),
{
    let first = names[0];
    let text = joined(names);
    assert(!first.contains('/')) by {
        if first.contains('/') {
            let i = choose|i: int| 0 <= i < first.len() && first[i] == '/';
            assert(names[0][i] == '/');
        }
    }
    if names.len() == 1 {
        lemma_before_first(text, '/');
        let end = before_first(text, '/') as int;
        if end < text.len() {
            assert(first.contains(first[end]));
        }
        assert(pieces_of(text, '/') == names);
    } else {
        let rest = names.drop_first();
        assert forall|k: int, i: int|
            0 <= k < rest.len() && 0 <= i < rest[k].len() implies #[trigger] rest[k][i] != '/' by {
            assert(names[k + 1][i] != '/');
        }
        lemma_pieces_joined(rest);
        lemma_before_first_joined(first, '/', joined(rest));
        let end = first.len() as int;
        assert(text.take(end) == first);
        assert(text.skip(end + 1) == joined(rest));
        assert(pieces_of(text, '/') == seq![first] + rest);
        assert(names == seq![first] + rest);
    }
}

/// Every path has its names, and no others.
pub proof fn lemma_spelling(platform: Platform, path: Seq<char>, names: Seq<Seq<char>>)
    ensures
        spells(platform, path, names_along(platform, path)),
        spells(platform, path, names) ==> names == names_along(platform, path),
{
    let plain = slashed(platform, path);
    let along = names_along(platform, path);
    lemma_joined_pieces(plain);
    assert(joined(along) == plain);
    assert forall|k: int, i: int|
        0 <= k < along.len() && 0 <= i < along[k].len() implies !splits(
        platform,
        #[trigger] along[k][i],
    ) by {
        lemma_piece_characters(plain, k, i);
    }
    if spells(platform, path, names) {
        assert forall|k: int, i: int|
            0 <= k < names.len() && 0 <= i < names[k].len() implies #[trigger] names[k][i]
            != '/' by {}
        lemma_pieces_joined(names);
        assert(joined(names) == plain) by {
            assert forall|i: int| 0 <= i < plain.len() implies joined(names)[i] == plain[i] by {
                assert(splits(platform, path[i]) == splits(platform, path[i]));
            }
        }
    }
}

/// What stands in a piece of a text stands in the text.
proof fn lemma_piece_characters(text: Seq<char>, k: int, i: int)
    requires
        0 <= k < pieces_of(text, '/').len(),
        0 <= i < pieces_of(text, '/')[k].len(),
    ensures
        exists|j: int| 0 <= j < text.len() && #[trigger] text[j] == pieces_of(text, '/')[k][i],
    decreases text.len(),
{
    lemma_before_first(text, '/');
    let end = before_first(text, '/') as int;
    let pieces = pieces_of(text, '/');
    if end < text.len() {
        let rest = text.skip(end + 1);
        assert(pieces.drop_first() == pieces_of(rest, '/'));
        if k == 0 {
            assert(pieces[0] == text.take(end));
            assert(text[i] == pieces[k][i]);
        } else {
            assert(pieces[k] == pieces_of(rest, '/')[k - 1]);
            lemma_piece_characters(rest, k - 1, i);
            let j = choose|j: int|
                0 <= j < rest.len() && #[trigger] rest[j] == pieces_of(rest, '/')[k - 1][i];
            assert(text[j + end + 1] == pieces[k][i]);
        }
    } else {
        assert(pieces[0] == text);
        assert(text[i] == pieces[k][i]);
    }
}

proof fn lemma_level_shift(names: Seq<Seq<char>>, count: nat)
    requires
        0 < count <= names.len(),
    ensures
        level(names, count) == level(names, 1) + level(names.drop_first(), (count - 1) as nat),
    decreases count,
{
    if count > 1 {
        lemma_level_shift(names, (count - 1) as nat);
        assert(names.drop_first()[count - 2] == names[count - 1]);
    }
}

proof fn lemma_climbs(names: Seq<Seq<char>>, depth: nat)
    ensures
        !climbs(names, depth) <==> forall|count: nat|
            count <= names.len() ==> depth + #[trigger] level(names, count) >= 0,
    decreases names.len(),
{
    assert(level(names, 0) == 0);
    if names.len() > 0 {
        let rest = names.drop_first();
        let first = names.first();
        if is_up(first) {
            assert(first == seq!['.', '.']);
        }
        if is_here(first) && first.len() > 0 {
            assert(first == seq!['.']);
        }
        assert(names[0] == first);
        reveal_with_fuel(level, 2);
        let step = level(names, 1);
        assert forall|count: nat| 0 < count <= names.len() implies #[trigger] level(names, count)
            == step + level(rest, (count - 1) as nat) by {
            lemma_level_shift(names, count);
        }
        if depth + step >= 0 {
            let next = (depth + step) as nat;
            lemma_climbs(rest, next);
            assert(climbs(names, depth) == climbs(rest, next));
            if climbs(rest, next) {
                let bad = choose|count: nat|
                    count <= rest.len() && next + #[trigger] level(rest, count) < 0;
                assert(level(names, (bad + 1) as nat) == step + level(rest, bad));
            } else {
                assert forall|count: nat| count <= names.len() implies depth
                    + #[trigger] level(names, count) >= 0 by {
                    if count > 0 {
                        assert(next + level(rest, (count - 1) as nat) >= 0);
                    }
                }
            }
        } else {
            assert(climbs(names, depth));
            assert(depth + level(names, 1) < 0);
        }
    }
}

/// The names along a path decide whether it stays inside.
pub proof fn lemma_leads_inside(platform: Platform, path: Seq<char>)
    ensures
        stays_inside(platform, path) <==> leads_inside(
            platform,
            path,
            names_along(platform, path),
        ),
{
    lemma_climbs(names_along(platform, path), 0);
}

/// A path is let pass if and only if it leads nowhere but into the directory that
/// it is joined to.
pub proof fn law_keeps_inside(platform: Platform, path: &str, yes: bool, names: Seq<Seq<char>>)
    requires
        call_ensures(keeps_inside, (platform, path), yes),
        spells(platform, path@, names),
    ensures
        yes <==> leads_inside(platform, path@, names),
{
    lemma_spelling(platform, path@, names);
    lemma_leads_inside(platform, path@);
}

/// Whether an entry that is placed under that name, with these names along it, is
/// unpacked: it is the name of a file and leads nowhere but inside.
pub open spec fn is_unpacked(
    platform: Platform,
    placed: Seq<char>,
    names: Seq<Seq<char>>,
) -> bool {
    placed.len() > 0 && placed[placed.len() - 1] != '/' && leads_inside(platform, placed, names)
}

/// Whether that is the step for an entry of that name: it is unpacked to the name
/// that it is placed under, exactly, or passed over.
pub open spec fn is_step(platform: Platform, name: Seq<char>, step: EntryStep) -> bool {
    exists|placed: Seq<char>, names: Seq<Seq<char>>| #[trigger]
        is_placed(name, placed) && #[trigger] spells(platform, placed, names) && match step {
            EntryStep::Unpack(to) => to@ == placed && is_unpacked(platform, placed, names),
            EntryStep::Skip => !is_unpacked(platform, placed, names),
        }
}

pub proof fn lemma_is_step(platform: Platform, name: Seq<char>, step: EntryStep)
    requires
        step@ == step_for(platform, name),
    ensures
        is_step(platform, name, step),
{
    let placed = placed_name(name);
    let names = names_along(platform, placed);
    lemma_is_placed(name);
    lemma_spelling(platform, placed, names);
    lemma_leads_inside(platform, placed);
    assert(is_placed(name, placed) && spells(platform, placed, names));
}

/// An entry is unpacked to exactly the name that it is placed under, if that is the
/// name of a file and leads nowhere but into the engine's directory, and passed
/// over otherwise.
pub proof fn law_entry_step(platform: Platform, name: &str, step: EntryStep)
    requires
        call_ensures(entry_step, (platform, name), step),
    ensures
        is_step(platform, name@, step),
{
    lemma_is_step(platform, name@, step);
}

/// What lies in the directory of a build, whichever build it is, is unpacked to
/// exactly the rest of its name, whatever its length.
pub proof fn lemma_step_in_build(
    platform: Platform,
    name: Seq<char>,
    build: Seq<char>,
    rest: Seq<char>,
    names: Seq<Seq<char>>,
    step: EntryStep,
)
    requires
        in_build(name, build, rest),
        spells(platform, rest, names),
        is_unpacked(platform, rest, names),
        is_step(platform, name, step),
    ensures
        step matches EntryStep::Unpack(to) && to@ == rest,
{
    let (placed, along) = choose|placed: Seq<char>, along: Seq<Seq<char>>| #[trigger]
        is_placed(name, placed) && #[trigger] spells(platform, placed, along) && match step {
            EntryStep::Unpack(to) => to@ == placed && is_unpacked(platform, placed, along),
            EntryStep::Skip => !is_unpacked(platform, placed, along),
        };
    assert(placed == rest);
    lemma_spelling(platform, rest, names);
    lemma_spelling(platform, rest, along);
}

} // verus!
