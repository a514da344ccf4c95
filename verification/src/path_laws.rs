//! What holds of paths on both kinds of machines.

use crate::path as paths;
use crate::path::{PathModel, PathStyle};
use crate::path_order;
use crate::path_prefix as prefixes;
use vstd::prelude::*;

verus! {

/// A Unix path of a text.
pub open spec fn posix(text: Seq<char>) -> PathModel {
    PathModel { style: PathStyle::Posix, text }
}

/// A Windows path of a text.
pub open spec fn windows(text: Seq<char>) -> PathModel {
    PathModel { style: PathStyle::Windows, text }
}

/// The components of a Unix path are the names between its slashes, behind the root where it starts
/// with one. Empty names and `.` behind others do not count.
pub proof fn law_components_go_name_by_name(text: Seq<char>, name: Seq<char>)
    requires
        text.len() > 0,
        !name.contains('/'),
    ensures
        paths::components(posix(Seq::empty())) == Seq::<Seq<char>>::empty(),
        paths::components(posix(seq!['/'])) == seq![seq!['/']],
        name.len() == 0 || name == seq!['.'] ==> paths::components(posix(text.push('/') + name))
            == paths::components(posix(text)),
        name.len() > 0 && name != seq!['.'] ==> paths::components(posix(text.push('/') + name))
            == paths::components(posix(text)).push(name),
{
    let none = Seq::<char>::empty();
    assert(none.skip(0) =~= none);
    assert(crate::text::pieces(none, '/') == seq![none]);
    assert(none != seq!['.']) by {
        assert(seq!['.'].len() == 1);
    }
    assert(seq![none].drop_last() =~= Seq::<Seq<char>>::empty());
    assert(paths::kept(false, Seq::<Seq<char>>::empty()) =~= Seq::<Seq<char>>::empty());
    assert(paths::kept(false, seq![none]) =~= Seq::<Seq<char>>::empty());
    assert(none.skip(paths::prefix_text(posix(none)).len() as int) =~= none);
    assert(paths::body(posix(none)) == none);
    assert(paths::components(posix(none)) =~= Seq::<Seq<char>>::empty());

    let root = seq!['/'];
    assert(root.skip(0) =~= root);
    assert(root.drop_last() =~= none);
    let parts = seq![none].push(none);
    assert(crate::text::pieces(root, '/') == parts);
    assert(parts.drop_last() =~= seq![none]);
    assert(paths::kept(false, parts) == paths::kept(false, seq![none]));
    assert(paths::components(posix(root)) =~= seq![root]);

    let whole = text.push('/') + name;
    crate::text::lemma_pieces_append(text, name, '/');
    crate::text::lemma_pieces_whole(name, '/');
    crate::text::lemma_pieces_shape(text, '/');
    assert(text.skip(0) =~= text);
    assert(whole.skip(0) =~= whole);
    let before = crate::text::pieces(text, '/');
    let after = crate::text::pieces(whole, '/');
    assert(after =~= before.push(name));
    assert(after.drop_last() =~= before);
    assert(after[0] == before[0]);
    assert(whole[0] == text[0]);
    assert(paths::start_component(posix(whole)) == paths::start_component(posix(text)));
    if name.len() > 0 && name != seq!['.'] {
        assert(paths::components(posix(whole)) =~= paths::components(posix(text)).push(name));
    }
}

/// A Unix path leads from the root where it starts with a slash.
pub proof fn law_rooted_paths_are_absolute(text: Seq<char>)
    ensures
        paths::absolute(posix(text)) <==> text.len() > 0 && text[0] == '/',
{
    assert(text.skip(0) =~= text);
}

/// A Unix path extended by one from the root is that path; by any other it goes on behind a slash,
/// which is put in where none is.
pub proof fn law_extended_paths_go_on_behind_a_slash(base: Seq<char>, other: Seq<char>)
    ensures
        ({
            let made = paths::joined_path(posix(base), other);
            let rooted = other.len() > 0 && other[0] == '/';
            &&& made.style == PathStyle::Posix
            &&& rooted || base.len() == 0 ==> made.text == other
            &&& !rooted && base.len() > 0 && base.last() == '/' ==> made.text == base + other
            &&& !rooted && base.len() > 0 && base.last() != '/' ==> made.text == base + seq!['/']
                + other
        }),
{
    assert(other.skip(0) =~= other);
    assert(Seq::<char>::empty() + other =~= other);
    assert(base.push('/') + other =~= base + seq!['/'] + other);
    if base.len() == 0 {
        assert(base + other =~= other);
    }
}

/// Every path lies in itself and in its parent. What lies in a directory that lies in another lies
/// in that one too, and two paths that lie in each other are the same.
pub proof fn law_directories_hold_paths(a: PathModel, b: PathModel, c: PathModel)
    ensures
        paths::within(a, a),
        paths::parent_of(a) matches Some(parent) ==> paths::within(a, parent) && !paths::within(
            parent,
            a,
        ),
        paths::within(a, b) && paths::within(b, c) ==> paths::within(a, c),
        paths::within(a, b) && paths::within(b, a) ==> paths::same_path(a, b),
{
    if let Some(parent) = paths::parent_of(a) {
        paths::law_parent_drops_the_last_component(a);
        assert(paths::components(parent) =~= paths::components(a).take(
            paths::components(a).len() - 1,
        ));
    }
    let first = paths::components(a);
    let second = paths::components(b);
    let third = paths::components(c);
    if paths::within(a, b) && paths::within(b, c) {
        assert forall|i: int| 0 <= i < third.len() implies third[i] == first[i] by {
            assert(second.take(third.len() as int)[i] == third[i]);
            assert(first.take(second.len() as int)[i] == second[i]);
        }
        assert(third =~= first.take(third.len() as int));
    }
    if paths::within(a, b) && paths::within(b, a) {
        assert(first =~= second);
    }
}

/// A directory stands before what lies in it.
pub proof fn law_directories_stand_before_what_they_hold(path: PathModel, directory: PathModel)
    requires
        paths::within(path, directory),
    ensures
        path_order::path_le(directory, path),
{
    lemma_front_stands_before(
        path.style,
        paths::components(directory),
        paths::components(path),
    );
}

proof fn lemma_front_stands_before(style: PathStyle, front: Seq<Seq<char>>, whole: Seq<Seq<char>>)
    requires
        front.is_prefix_of(whole),
    ensures
        path_order::components_le(style, front, whole),
    decreases front.len(),
{
    if front.len() > 0 {
        assert(front.skip(1) =~= whole.skip(1).take(front.len() - 1));
        lemma_front_stands_before(style, front.skip(1), whole.skip(1));
    }
}

/// A drive is a letter with a colon, told by the letter and not by its case. Its paths may be
/// written with either slash, and lead from the root where one follows the colon.
pub proof fn law_drives_are_told_by_letter(letter: char, rest: Seq<char>)
    requires
        'a' <= letter && letter <= 'z',
    ensures
        ({
            let text = seq![letter, ':'] + rest;
            let upper = seq![(letter as u8 - 32) as char, ':'] + rest;
            &&& prefixes::windows_prefix(text) matches Some(prefix) && prefix.length == 2
                && prefix.disk && !prefix.verbatim && !prefix.open
            &&& prefixes::windows_prefix(upper) == prefixes::windows_prefix(text)
            &&& paths::same_path(windows(text), windows(upper))
            &&& paths::absolute(windows(text)) <==> rest.len() > 0 && (rest[0] == '\\' || rest[0]
                == '/')
            &&& paths::same_path(
                windows(text),
                windows(
                    seq![letter, ':'] + Seq::new(
                        rest.len(),
                        |i: int|
                            if rest[i] == '/' {
                                '\\'
                            } else {
                                rest[i]
                            },
                    ),
                ),
            )
        }),
{
    let capital = (letter as u8 - 32) as char;
    let turned = Seq::new(
        rest.len(),
        |i: int|
            if rest[i] == '/' {
                '\\'
            } else {
                rest[i]
            },
    );
    let text = seq![letter, ':'] + rest;
    let upper = seq![capital, ':'] + rest;
    let plain = seq![letter, ':'] + turned;
    assert('A' <= capital && capital <= 'Z');
    assert(text[0] == letter && upper[0] == capital && plain[0] == letter);
    assert(text[1] == ':' && upper[1] == ':' && plain[1] == ':');
    assert(text.skip(2) =~= rest);
    assert(upper.skip(2) =~= rest);
    assert(plain.skip(2) =~= turned);
    assert(prefixes::with_backslashes(rest) =~= turned);
    assert(prefixes::with_backslashes(turned) =~= turned);
    assert(paths::body(windows(text)) == turned);
    assert(paths::body(windows(upper)) == turned);
    assert(paths::body(windows(plain)) == turned);
}

/// A server and a share behind two separators, of either kind, stand in front of the names of a
/// path.
pub proof fn law_shares_stand_before_names(
    server: Seq<char>,
    share: Seq<char>,
    rest: Seq<char>,
    sep: char,
)
    requires
        prefixes::separates(sep),
        server.len() > 0,
        share.len() > 0,
        server != seq!['.'],
        server != seq!['?'],
        forall|i: int| 0 <= i < server.len() ==> !prefixes::separates(#[trigger] server[i]),
        forall|i: int| 0 <= i < share.len() ==> !prefixes::separates(#[trigger] share[i]),
        rest.len() > 0 ==> prefixes::separates(rest[0]),
    ensures
        ({
            let text = seq![sep, sep] + server + seq![sep] + share + rest;
            prefixes::windows_prefix(text) matches Some(prefix) && prefix.length == 3 + server.len()
                + share.len() && !prefix.disk && !prefix.verbatim && !prefix.open && prefix.name
                == seq!['\\', '\\'] + server + seq!['\\'] + share
        }),
        paths::absolute(windows(seq![sep, sep] + server + seq![sep] + share + rest)),
{
    let text = seq![sep, sep] + server + seq![sep] + share + rest;
    let plain = prefixes::with_backslashes(text);
    let middle = 2 + server.len() as int;
    let end = middle + 1 + share.len() as int;
    assert(text[0] == sep && text[1] == sep && text[middle] == sep);
    assert forall|i: int| 2 <= i < middle implies #[trigger] plain[i] == server[i - 2] && plain[i]
        != '\\' by {
        assert(text[i] == server[i - 2]);
    }
    assert forall|i: int| middle < i < end implies #[trigger] plain[i] == share[i - middle - 1]
        && plain[i] != '\\' by {
        assert(text[i] == share[i - middle - 1]);
    }
    if end < text.len() {
        assert(text[end] == rest[0]);
    }
    assert(plain[middle] == '\\');
    prefixes::lemma_segment_is(plain, 2, middle);
    prefixes::lemma_segment_is(plain, middle + 1, end);
    if plain[3] == '\\' {
        assert(middle == 3);
        assert(server =~= seq![server[0]]);
        assert(text[2] == server[0]);
    }
    assert(text[2] == server[0]);
    if prefixes::starts_verbatim(text) {
        assert(plain[3] == '\\');
        assert(server =~= seq!['?']);
    }
    assert(plain.take(end) =~= seq!['\\', '\\'] + server + seq!['\\'] + share);
}

/// Behind `\\?\` a drive is a prefix by itself, and what follows is taken as it is written.
pub proof fn law_verbatim_drives(letter: char, rest: Seq<char>)
    requires
        prefixes::is_drive_letter(letter),
        rest.len() > 0 ==> rest[0] == '\\',
    ensures
        ({
            let text = seq!['\\', '\\', '?', '\\', letter, ':'] + rest;
            prefixes::windows_prefix(text) matches Some(prefix) && prefix.length == 6
                && prefix.verbatim && !prefix.disk && !prefix.open
        }),
{
    let text = seq!['\\', '\\', '?', '\\', letter, ':'] + rest;
    assert(text[0] == '\\' && text[1] == '\\' && text[2] == '?' && text[3] == '\\');
    assert(text[4] == letter && text[5] == ':');
    if rest.len() > 0 {
        assert(text[6] == rest[0]);
    }
}

/// A device behind `\\.\`, with either slash, stands in front of the names of a path.
pub proof fn law_devices_stand_before_names(device: Seq<char>, rest: Seq<char>, sep: char)
    requires
        prefixes::separates(sep),
        forall|i: int| 0 <= i < device.len() ==> !prefixes::separates(#[trigger] device[i]),
        rest.len() > 0 ==> prefixes::separates(rest[0]),
    ensures
        ({
            let text = seq![sep, sep, '.', sep] + device + rest;
            prefixes::windows_prefix(text) matches Some(prefix) && prefix.length == 4 + device.len()
                && !prefix.disk && !prefix.verbatim && !prefix.open
        }),
{
    let text = seq![sep, sep, '.', sep] + device + rest;
    let plain = prefixes::with_backslashes(text);
    let end = 4 + device.len() as int;
    assert(text[0] == sep && text[1] == sep && text[2] == '.' && text[3] == sep);
    assert forall|i: int| 4 <= i < end implies #[trigger] plain[i] != '\\' by {
        assert(text[i] == device[i - 4]);
    }
    if end < text.len() {
        assert(text[end] == rest[0]);
    }
    prefixes::lemma_segment_is(plain, 4, end);
}

/// A text that starts with neither a drive nor two separators has no prefix.
pub proof fn law_other_paths_have_no_prefix(text: Seq<char>)
    requires
        text.len() < 2 || !((prefixes::is_drive_letter(text[0]) && text[1] == ':') || (
        prefixes::separates(text[0]) && prefixes::separates(text[1]))),
    ensures
        prefixes::windows_prefix(text) is None,
        !paths::absolute(windows(text)),
{
}

/// A Windows path extended by one with a prefix is that path; one from the root keeps the prefix of
/// the first; any other goes on behind a backslash, which is put in where no separator is.
pub proof fn law_extended_windows_paths(base: Seq<char>, other: Seq<char>)
    requires
        !paths::is_verbatim(windows(base)),
    ensures
        ({
            let made = paths::joined_path(windows(base), other);
            let added = prefixes::windows_prefix(other);
            let rooted = other.len() > 0 && prefixes::separates(other[0]);
            let drive_only = base.len() == 2 && prefixes::is_drive_letter(base[0]) && base[1] == ':';
            &&& made.style == PathStyle::Windows
            &&& added is Some ==> made.text == other
            &&& added is None && rooted ==> made.text == paths::prefix_text(windows(base)) + other
            &&& added is None && !rooted && base.len() > 0 && !prefixes::separates(base.last())
                && !drive_only ==> made.text == base + seq!['\\'] + other
            &&& added is None && !rooted && (base.len() == 0 || prefixes::separates(base.last())
                || drive_only) ==> made.text == base + other
        }),
{
    assert(other.skip(0) =~= other);
    assert(base.push('\\') + other =~= base + seq!['\\'] + other);
    prefixes::lemma_prefix_shape(base);
    if base.len() == 2 && prefixes::is_drive_letter(base[0]) && base[1] == ':' {
        assert(prefixes::windows_prefix(base) matches Some(prefix) && prefix.disk);
    }
}

/// Behind a verbatim prefix an extension goes name by name: `.` stays, `..` goes up from a name, the
/// root goes back to the prefix, and any other name is put behind.
pub proof fn law_verbatim_paths_go_name_by_name(
    parts: Seq<Seq<char>>,
    more: Seq<Seq<char>>,
    next: Seq<char>,
)
    ensures
        paths::followed(parts, Seq::empty()) == parts,
        ({
            let done = paths::followed(parts, more);
            let then_done = paths::followed(parts, more.push(next));
            &&& next == seq!['.'] ==> then_done == done
            &&& next == seq!['\\'] ==> then_done == done.take(1).push(next)
            &&& next == seq!['.', '.'] && done.len() > 1 && paths::is_name(
                PathStyle::Windows,
                done.last(),
            ) ==> then_done == done.drop_last()
            &&& next == seq!['.', '.'] && !(done.len() > 1 && paths::is_name(
                PathStyle::Windows,
                done.last(),
            )) ==> then_done == done
            &&& next != seq!['.'] && next != seq!['.', '.'] && next != seq!['\\'] ==> then_done
                == done.push(next)
        }),
{
    assert(more.push(next).drop_last() =~= more);
    assert(seq!['.'][0] == '.' && seq!['\\'][0] == '\\' && seq!['.', '.'].len() == 2);
}

} // verus!
