//! Host paths: path text in the style of its host, compared and taken apart by its components.

use crate::path_prefix::{find_windows_prefix, turn_slashes, PathPrefix, PrefixModel};
use crate::text::{chars_of, same_texts, split_text, text_between};
use vstd::prelude::*;

verus! {

/// How paths are written on a machine.
#[derive(Clone, Copy, Debug, PartialEq, Eq, Structural)]
pub enum PathStyle {
    Posix,
    Windows,
}

/// A path on a host. Two paths are equal when they have the same style and the same components.
#[derive(Debug)]
pub struct HostPath {
    pub style: PathStyle,
    pub text: String,
}

/// A path, with its text as a sequence of characters.
#[verifier::ext_equal]
pub struct PathModel {
    pub style: PathStyle,
    pub text: Seq<char>,
}

impl View for HostPath {
    type V = PathModel;

    open spec fn view(&self) -> PathModel {
        PathModel { style: self.style, text: self.text@ }
    }
}

/// The character that separates the components of a path.
pub open spec fn separator(style: PathStyle) -> char {
    match style {
        PathStyle::Posix => '/',
        PathStyle::Windows => '\\',
    }
}

/// What stands in front of the names of a path, on Windows.
pub open spec fn prefix_of(path: PathModel) -> Option<PrefixModel> {
    match path.style {
        PathStyle::Posix => None,
        PathStyle::Windows => crate::path_prefix::windows_prefix(path.text),
    }
}

/// Whether the names of a path are taken as they are written.
pub open spec fn is_verbatim(path: PathModel) -> bool {
    prefix_of(path) matches Some(prefix) && prefix.verbatim
}

/// The text of the prefix of a path, as it is written.
pub open spec fn prefix_text(path: PathModel) -> Seq<char> {
    match prefix_of(path) {
        Some(prefix) => path.text.take(prefix.length),
        None => Seq::<char>::empty(),
    }
}

/// The text behind the prefix of a path, with one kind of separator.
pub open spec fn body(path: PathModel) -> Seq<char> {
    let rest = path.text.skip(prefix_text(path).len() as int);
    if path.style == PathStyle::Windows && !is_verbatim(path) {
        crate::path_prefix::with_backslashes(rest)
    } else {
        rest
    }
}

/// Whether a separator stands in front of the names of a path.
pub open spec fn is_rooted(path: PathModel) -> bool {
    body(path).len() > 0 && body(path)[0] == separator(path.style)
}

/// Whether a path says by itself where it leads: from the root directory, on Windows that of a
/// drive, a share or a device.
pub open spec fn absolute(path: PathModel) -> bool {
    match path.style {
        PathStyle::Posix => is_rooted(path),
        PathStyle::Windows => prefix_of(path) matches Some(prefix) && (!prefix.disk || is_rooted(
            path,
        )),
    }
}

/// Whether the root directory is among the components of a path. It always is behind a share or a
/// device.
pub open spec fn has_root(path: PathModel) -> bool {
    is_rooted(path) || (prefix_of(path) matches Some(prefix) && !prefix.disk && !prefix.verbatim)
}

/// Whether a piece between separators counts as a component.
pub open spec fn is_component(verbatim: bool, piece: Seq<char>) -> bool {
    piece.len() > 0 && (verbatim || piece != seq!['.'])
}

/// The pieces that count as components, in order.
pub open spec fn kept(verbatim: bool, parts: Seq<Seq<char>>) -> Seq<Seq<char>>
    decreases parts.len(),
{
    if parts.len() == 0 {
        Seq::<Seq<char>>::empty()
    } else if is_component(verbatim, parts.last()) {
        kept(verbatim, parts.drop_last()).push(parts.last())
    } else {
        kept(verbatim, parts.drop_last())
    }
}

/// The pieces of a path that name something: neither empty nor, unless they are taken as they are
/// written, `.`.
pub open spec fn named_components(path: PathModel) -> Seq<Seq<char>> {
    kept(is_verbatim(path), crate::text::pieces(body(path), separator(path.style)))
}

/// The component for the prefix of a path, if it has one: its plainest text with a separator behind
/// it, which no name has.
pub open spec fn prefix_component(path: PathModel) -> Seq<Seq<char>> {
    match prefix_of(path) {
        Some(prefix) => seq![prefix.name.push('\\')],
        None => Seq::<Seq<char>>::empty(),
    }
}

/// What stands in the place of the root among the components of a path: the root itself, `.` at the
/// start of a relative path, or nothing.
pub open spec fn start_component(path: PathModel) -> Seq<Seq<char>> {
    if has_root(path) {
        seq![seq![separator(path.style)]]
    } else if prefix_of(path) is None && crate::text::pieces(body(path), separator(path.style))[0]
        == seq!['.'] {
        seq![seq!['.']]
    } else {
        Seq::<Seq<char>>::empty()
    }
}

/// The components of a path: the prefix, the root or a leading `.`, then the pieces that name
/// something.
pub open spec fn components(path: PathModel) -> Seq<Seq<char>> {
    prefix_component(path) + start_component(path) + named_components(path)
}

/// Whether two paths are the same path.
pub open spec fn same_path(left: PathModel, right: PathModel) -> bool {
    left.style == right.style && components(left) == components(right)
}

/// Whether a component is an ordinary name rather than a prefix, the root, `.` or `..`.
pub open spec fn is_name(style: PathStyle, component: Seq<char>) -> bool {
    component != seq!['.'] && component != seq!['.', '.'] && !component.contains(separator(style))
}

/// Components joined by single separators.
pub open spec fn joined(parts: Seq<Seq<char>>, separator: char) -> Seq<char>
    decreases parts.len(),
{
    if parts.len() == 0 {
        Seq::<char>::empty()
    } else if parts.len() == 1 {
        parts[0]
    } else {
        joined(parts.drop_last(), separator).push(separator) + parts.last()
    }
}

/// The text of the root behind a prefix. Where a share is missing, a second separator keeps the
/// next name from being read as one.
pub open spec fn root_text(path: PathModel) -> Seq<char> {
    if prefix_of(path) matches Some(prefix) && prefix.open {
        seq![separator(path.style), separator(path.style)]
    } else {
        seq![separator(path.style)]
    }
}

/// The plainest text of names behind the prefix of a path, from the root or not.
pub open spec fn rendered(path: PathModel, rest: Seq<Seq<char>>) -> Seq<char> {
    let sep = separator(path.style);
    prefix_text(path) + if rest.len() > 0 && rest[0] == seq![sep] {
        root_text(path) + joined(rest.skip(1), sep)
    } else if rest.len() > 0 && (prefix_of(path) matches Some(prefix) && !prefix.disk) {
        root_text(path) + joined(rest, sep)
    } else {
        joined(rest, sep)
    }
}

/// The plainest path with the prefix of a path and the given components, which include it.
pub open spec fn with_components(path: PathModel, parts: Seq<Seq<char>>) -> PathModel {
    PathModel {
        style: path.style,
        text: if parts.len() == 0 {
            Seq::<char>::empty()
        } else {
            rendered(path, parts.skip(prefix_component(path).len() as int))
        },
    }
}

/// The parent of a path, if its last component is neither a prefix nor the root.
pub open spec fn parent_of(path: PathModel) -> Option<PathModel> {
    let parts = components(path);
    if parts.len() > 0 && !parts.last().contains(separator(path.style)) {
        Some(with_components(path, parts.drop_last()))
    } else {
        None
    }
}

/// The last component of a path, if it is an ordinary name.
pub open spec fn file_name_of(path: PathModel) -> Option<Seq<char>> {
    let parts = components(path);
    if parts.len() > 0 && is_name(path.style, parts.last()) {
        Some(parts.last())
    } else {
        None
    }
}

/// Components followed by others, of which `.` stays where it is, `..` goes up from a name, and the
/// root goes back to the prefix.
pub open spec fn followed(parts: Seq<Seq<char>>, more: Seq<Seq<char>>) -> Seq<Seq<char>>
    decreases more.len(),
{
    if more.len() == 0 {
        parts
    } else {
        let done = followed(parts, more.drop_last());
        let next = more.last();
        if next == seq!['\\'] {
            done.take(1).push(next)
        } else if next == seq!['.'] {
            done
        } else if next == seq!['.', '.'] {
            if done.len() > 1 && is_name(PathStyle::Windows, done.last()) {
                done.drop_last()
            } else {
                done
            }
        } else {
            done.push(next)
        }
    }
}

/// Whether a separator goes between a path and what it is extended by.
pub open spec fn wants_separator(path: PathModel) -> bool {
    match path.style {
        PathStyle::Posix => path.text.len() > 0 && path.text.last() != '/',
        PathStyle::Windows => path.text.len() > 0 && !crate::path_prefix::separates(
            path.text.last(),
        ) && !(prefix_of(path) matches Some(prefix) && prefix.disk && path.text.len() == 2),
    }
}

/// A path extended by another: one with a prefix, or on Unix one from the root, replaces it; on
/// Windows one from the root keeps its prefix.
pub open spec fn joined_path(base: PathModel, other: Seq<char>) -> PathModel {
    let added = PathModel { style: base.style, text: other };
    let text = if base.style == PathStyle::Posix && is_rooted(added) {
        other
    } else if prefix_of(added) is Some {
        other
    } else if is_verbatim(base) && other.len() > 0 {
        with_components(base, followed(components(base), components(added))).text
    } else if is_rooted(added) {
        prefix_text(base) + other
    } else if wants_separator(base) {
        base.text.push(separator(base.style)) + other
    } else {
        base.text + other
    };
    PathModel { style: base.style, text }
}

/// Whether the components of `base` are the first components of `path`.
pub open spec fn within(path: PathModel, base: PathModel) -> bool {
    path.style == base.style && components(base).is_prefix_of(components(path))
}

/// What a sequence of paths stands for.
pub open spec fn path_models(paths: Seq<HostPath>) -> Seq<PathModel> {
    Seq::new(paths.len(), |i: int| paths[i]@)
}

/// What is kept is one of the pieces.
pub proof fn lemma_kept_holds(verbatim: bool, parts: Seq<Seq<char>>)
    ensures
        forall|i: int|
            0 <= i < kept(verbatim, parts).len() ==> is_component(
                verbatim,
                #[trigger] kept(verbatim, parts)[i],
            ) && parts.contains(kept(verbatim, parts)[i]),
    decreases parts.len(),
{
    if parts.len() > 0 {
        lemma_kept_holds(verbatim, parts.drop_last());
        let all = kept(verbatim, parts);
        assert forall|i: int| 0 <= i < all.len() implies is_component(verbatim, #[trigger] all[i])
            && parts.contains(all[i]) by {
            let earlier = kept(verbatim, parts.drop_last());
            if i < earlier.len() {
                assert(parts.drop_last().contains(earlier[i]));
                let j = choose|j: int|
                    0 <= j < parts.drop_last().len() && parts.drop_last()[j] == earlier[i];
                assert(parts[j] == earlier[i]);
            } else {
                assert(parts[parts.len() - 1] == all[i]);
            }
        }
    }
}

proof fn lemma_kept_append(verbatim: bool, left: Seq<Seq<char>>, right: Seq<Seq<char>>)
    ensures
        kept(verbatim, left + right) == kept(verbatim, left) + kept(verbatim, right),
    decreases right.len(),
{
    if right.len() == 0 {
        assert(left + right =~= left);
        assert(kept(verbatim, left) + kept(verbatim, right) =~= kept(verbatim, left));
    } else {
        lemma_kept_append(verbatim, left, right.drop_last());
        assert((left + right).drop_last() =~= left + right.drop_last());
        assert(kept(verbatim, left + right) =~= kept(verbatim, left) + kept(verbatim, right));
    }
}

proof fn lemma_kept_all(verbatim: bool, parts: Seq<Seq<char>>)
    requires
        forall|i: int| 0 <= i < parts.len() ==> is_component(verbatim, #[trigger] parts[i]),
    ensures
        kept(verbatim, parts) == parts,
    decreases parts.len(),
{
    if parts.len() > 0 {
        lemma_kept_all(verbatim, parts.drop_last());
        assert(parts.drop_last().push(parts.last()) =~= parts);
    } else {
        assert(kept(verbatim, parts) =~= parts);
    }
}

proof fn lemma_kept_one(verbatim: bool, piece: Seq<char>)
    ensures
        kept(verbatim, seq![piece]) == if is_component(verbatim, piece) {
            seq![piece]
        } else {
            Seq::<Seq<char>>::empty()
        },
{
    assert(seq![piece].drop_last() =~= Seq::<Seq<char>>::empty());
    assert(kept(verbatim, seq![piece].drop_last()) =~= Seq::<Seq<char>>::empty());
    assert(Seq::<Seq<char>>::empty().push(piece) =~= seq![piece]);
}

/// Whether names can be listed as components of a path: each is one, and none holds a separator.
pub open spec fn proper_names(path: PathModel, names: Seq<Seq<char>>) -> bool {
    forall|i: int|
        #![trigger names[i]]
        0 <= i < names.len() ==> is_component(is_verbatim(path), names[i]) && holds_no_separator(
            path,
            names[i],
        )
}

/// Whether a text holds nothing that separates names in a path.
pub open spec fn holds_no_separator(path: PathModel, text: Seq<char>) -> bool {
    !text.contains(separator(path.style)) && (path.style == PathStyle::Windows && !is_verbatim(path)
        ==> !text.contains('/'))
}

/// The pieces of a text are made of its characters.
proof fn lemma_pieces_chars(text: Seq<char>, separator: char, absent: char)
    requires
        !text.contains(absent),
    ensures
        forall|i: int|
            0 <= i < crate::text::pieces(text, separator).len() ==> !(
            #[trigger] crate::text::pieces(text, separator)[i]).contains(absent),
    decreases text.len(),
{
    if text.len() > 0 {
        let front = text.drop_last();
        assert forall|j: int| 0 <= j < front.len() implies front[j] != absent by {
            assert(text.contains(text[j]));
        }
        assert(text.contains(text[text.len() - 1]));
        lemma_pieces_chars(front, separator, absent);
        crate::text::lemma_pieces_shape(front, separator);
        let before = crate::text::pieces(front, separator);
        let all = crate::text::pieces(text, separator);
        assert forall|i: int| 0 <= i < all.len() implies !(#[trigger] all[i]).contains(absent) by {
            if i < before.len() {
                assert(!before[i].contains(absent));
                if i == before.len() - 1 && text.last() != separator {
                    assert forall|j: int| 0 <= j < all[i].len() implies all[i][j] != absent by {
                        if j < before[i].len() {
                            assert(before[i].contains(before[i][j]));
                        }
                    }
                }
            }
        }
    }
}

/// The names of a path are proper ones.
pub proof fn lemma_names_proper(path: PathModel)
    ensures
        proper_names(path, named_components(path)),
{
    let sep = separator(path.style);
    let all = crate::text::pieces(body(path), sep);
    crate::text::lemma_pieces_shape(body(path), sep);
    lemma_kept_holds(is_verbatim(path), all);
    if path.style == PathStyle::Windows && !is_verbatim(path) {
        assert(!body(path).contains('/'));
        lemma_pieces_chars(body(path), sep, '/');
    }
}

proof fn lemma_pieces_joined(parts: Seq<Seq<char>>, separator: char)
    requires
        parts.len() > 0,
        forall|i: int| 0 <= i < parts.len() ==> !(#[trigger] parts[i]).contains(separator),
    ensures
        crate::text::pieces(joined(parts, separator), separator) == parts,
    decreases parts.len(),
{
    if parts.len() == 1 {
        crate::text::lemma_pieces_whole(parts[0], separator);
        assert(seq![parts[0]] =~= parts);
    } else {
        lemma_pieces_joined(parts.drop_last(), separator);
        crate::text::lemma_pieces_append(
            joined(parts.drop_last(), separator),
            parts.last(),
            separator,
        );
        crate::text::lemma_pieces_whole(parts.last(), separator);
        assert(parts.drop_last() + seq![parts.last()] =~= parts);
    }
}

proof fn lemma_joined_start(parts: Seq<Seq<char>>, separator: char)
    requires
        parts.len() > 0,
        parts[0].len() > 0,
    ensures
        joined(parts, separator).len() >= parts[0].len(),
        joined(parts, separator).take(parts[0].len() as int) == parts[0],
        joined(parts, separator).len() > parts[0].len() ==> joined(
            parts,
            separator,
        )[parts[0].len() as int] == separator,
    decreases parts.len(),
{
    let text = joined(parts, separator);
    if parts.len() > 1 {
        lemma_joined_start(parts.drop_last(), separator);
        let front = joined(parts.drop_last(), separator);
        assert(text.take(parts[0].len() as int) =~= front.take(parts[0].len() as int));
    } else {
        assert(text.take(parts[0].len() as int) =~= parts[0]);
    }
}

/// Joined names hold no other characters than theirs and the separator.
proof fn lemma_joined_chars(parts: Seq<Seq<char>>, separator: char, absent: char)
    requires
        separator != absent,
        forall|i: int| 0 <= i < parts.len() ==> !(#[trigger] parts[i]).contains(absent),
    ensures
        !joined(parts, separator).contains(absent),
    decreases parts.len(),
{
    let text = joined(parts, separator);
    if parts.len() == 1 {
        assert(!parts[0].contains(absent));
    } else if parts.len() > 1 {
        let front = joined(parts.drop_last(), separator);
        assert forall|i: int| 0 <= i < parts.drop_last().len() implies !(
        #[trigger] parts.drop_last()[i]).contains(absent) by {
            assert(!parts[i].contains(absent));
        }
        lemma_joined_chars(parts.drop_last(), separator, absent);
        assert(!parts[parts.len() - 1].contains(absent));
        assert forall|j: int| 0 <= j < text.len() implies text[j] != absent by {
            if j < front.len() {
                assert(front.contains(front[j]));
            } else if j > front.len() {
                assert(parts.last().contains(parts.last()[j - front.len() - 1]));
            }
        }
    }
}

/// Separators in front of a text do not change its names.
proof fn lemma_leading_separator(verbatim: bool, text: Seq<char>, separator: char)
    ensures
        kept(verbatim, crate::text::pieces(seq![separator] + text, separator)) == kept(
            verbatim,
            crate::text::pieces(text, separator),
        ),
        crate::text::pieces(seq![separator] + text, separator)[0].len() == 0,
{
    let empty = Seq::<char>::empty();
    assert(empty.push(separator) + text =~= seq![separator] + text);
    crate::text::lemma_pieces_append(empty, text, separator);
    let first = crate::text::pieces(empty, separator);
    assert(first =~= seq![empty]);
    lemma_kept_append(verbatim, first, crate::text::pieces(text, separator));
    lemma_kept_one(verbatim, empty);
    assert(Seq::<Seq<char>>::empty() + kept(verbatim, crate::text::pieces(text, separator))
        =~= kept(verbatim, crate::text::pieces(text, separator)));
}

/// A text without slashes has only one kind of separator.
proof fn lemma_backslashes_kept(text: Seq<char>)
    requires
        !text.contains('/'),
    ensures
        crate::path_prefix::with_backslashes(text) == text,
{
    assert forall|i: int| 0 <= i < text.len() implies text[i] != '/' by {
        assert(text.contains(text[i]));
    }
    assert(crate::path_prefix::with_backslashes(text) =~= text);
}

/// The body of a path whose text is the prefix of another, unchanged, and something without other
/// separators.
proof fn lemma_body_behind_prefix(path: PathModel, made: PathModel, rest: Seq<char>)
    requires
        made.style == path.style,
        made.text == prefix_text(path) + rest,
        prefix_of(made) == prefix_of(path),
        path.style == PathStyle::Windows && !is_verbatim(path) ==> !rest.contains('/'),
    ensures
        body(made) == rest,
{
    if path.style == PathStyle::Windows {
        crate::path_prefix::lemma_prefix_shape(path.text);
    }
    let length = prefix_text(path).len() as int;
    assert(prefix_text(made).len() == length);
    assert(made.text.skip(length) =~= rest);
    if path.style == PathStyle::Windows && !is_verbatim(path) {
        lemma_backslashes_kept(rest);
    }
}

/// Writing out names behind the prefix and the start of a path gives a path with exactly those
/// components, as long as the prefix stays what it is.
proof fn lemma_with_names(path: PathModel, names: Seq<Seq<char>>)
    requires
        proper_names(path, names),
        is_verbatim(path) && !is_rooted(path) ==> names.len() == 0,
        prefix_component(path).len() + start_component(path).len() + names.len() > 0,
        prefix_of(
            with_components(path, prefix_component(path) + start_component(path) + names),
        ) == prefix_of(path),
    ensures
        ({
            let made = with_components(
                path,
                prefix_component(path) + start_component(path) + names,
            );
            &&& components(made) == prefix_component(path) + start_component(path) + names
            &&& is_rooted(path) ==> is_rooted(made)
        }),
{
    let sep = separator(path.style);
    let start = start_component(path);
    let parts = prefix_component(path) + start + names;
    let made = with_components(path, parts);
    let rest = parts.skip(prefix_component(path).len() as int);
    assert(rest =~= start + names);
    let verbatim = is_verbatim(path);
    if path.style == PathStyle::Windows {
        crate::path_prefix::lemma_prefix_shape(path.text);
    }
    assert(prefix_text(path) + Seq::<char>::empty() =~= prefix_text(path));
    if has_root(path) {
        assert(rest[0] == seq![sep]);
        assert(rest.skip(1) =~= names);
        let tail = joined(names, sep);
        let written = root_text(path) + tail;
        if path.style == PathStyle::Windows && !verbatim {
            lemma_joined_chars(names, sep, '/');
            assert forall|j: int| 0 <= j < written.len() implies written[j] != '/' by {
                if j >= root_text(path).len() {
                    assert(tail.contains(tail[j - root_text(path).len()]));
                }
            }
        }
        lemma_body_behind_prefix(path, made, written);
        assert(is_rooted(made));
        if names.len() > 0 {
            lemma_pieces_joined(names, sep);
            lemma_kept_all(verbatim, names);
        } else {
            assert(crate::text::pieces(tail, sep) =~= seq![Seq::<char>::empty()]);
            lemma_kept_one(verbatim, Seq::<char>::empty());
            assert(names =~= Seq::<Seq<char>>::empty());
        }
        lemma_leading_separator(verbatim, tail, sep);
        if root_text(path).len() == 2 {
            lemma_leading_separator(verbatim, seq![sep] + tail, sep);
            assert(seq![sep] + (seq![sep] + tail) =~= written);
        }
        assert(named_components(made) =~= names);
    } else {
        let written = joined(rest, sep);
        assert forall|i: int| 0 <= i < rest.len() implies !(#[trigger] rest[i]).contains(sep)
            && !rest[i].contains('/') || verbatim by {
            if i < start.len() {
                assert(rest[i] == seq!['.']);
                assert(!seq!['.'].contains(sep));
            } else {
                assert(rest[i] == names[i - start.len()]);
            }
        }
        assert(verbatim ==> rest.len() == 0);
        if rest.len() > 0 {
            assert(rest[0].len() > 0) by {
                if start.len() == 0 {
                    assert(rest[0] == names[0]);
                }
            }
            assert(rest[0] != seq![sep]) by {
                assert(!rest[0].contains(sep));
                assert(seq![sep][0] == sep);
            }
            if path.style == PathStyle::Windows {
                lemma_joined_chars(rest, sep, '/');
            }
            lemma_joined_start(rest, sep);
            assert(written.take(rest[0].len() as int)[0] == written[0]);
            assert(rest[0].contains(rest[0][0]));
        }
        lemma_body_behind_prefix(path, made, written);
        assert(!is_rooted(made));
        if rest.len() > 0 {
            lemma_pieces_joined(rest, sep);
            lemma_kept_append(verbatim, start, names);
            lemma_kept_all(verbatim, names);
            if start.len() > 0 {
                assert(start =~= seq![seq!['.']]);
                lemma_kept_one(verbatim, seq!['.']);
                assert(Seq::<Seq<char>>::empty() + names =~= names);
            } else {
                assert(start + names =~= names);
            }
            assert(start.len() == 0 && prefix_of(path) is None ==> rest[0] != seq!['.']);
        } else {
            assert(crate::text::pieces(written, sep) =~= seq![Seq::<char>::empty()]);
            lemma_kept_one(verbatim, Seq::<char>::empty());
            assert(names =~= Seq::<Seq<char>>::empty());
        }
        assert(named_components(made) =~= names);
        assert(start_component(made) =~= start);
    }
    assert(prefix_component(made) =~= prefix_component(path));
    assert(components(made) =~= parts);
}

/// What stands first among the pieces of a text is what the text starts with.
proof fn lemma_first_piece(text: Seq<char>, separator: char)
    ensures
        crate::text::pieces(text, separator)[0].len() <= text.len(),
        text.take(crate::text::pieces(text, separator)[0].len() as int) == crate::text::pieces(
            text,
            separator,
        )[0],
        crate::text::pieces(text, separator).len() == 1 ==> crate::text::pieces(
            text,
            separator,
        )[0].len() == text.len(),
    decreases text.len(),
{
    let all = crate::text::pieces(text, separator);
    if text.len() > 0 {
        let front = text.drop_last();
        lemma_first_piece(front, separator);
        crate::text::lemma_pieces_shape(front, separator);
        let before = crate::text::pieces(front, separator);
        let first = before[0];
        if text.last() != separator && before.len() == 1 {
            assert(before.drop_last().push(before.last().push(text.last()))[0] =~= first.push(
                text.last(),
            ));
            assert(front.take(front.len() as int) =~= front);
            assert(text.take(text.len() as int) =~= front.push(text.last()));
        } else {
            assert(all[0] == first);
            assert(text.take(first.len() as int) =~= front.take(first.len() as int));
        }
    } else {
        assert(text.take(0) =~= Seq::<char>::empty());
    }
}

/// The first of the pieces is kept first, where it is a component.
proof fn lemma_kept_first(verbatim: bool, parts: Seq<Seq<char>>)
    requires
        parts.len() > 0,
        is_component(verbatim, parts[0]),
    ensures
        kept(verbatim, parts).len() > 0,
        kept(verbatim, parts)[0] == parts[0],
{
    assert(parts =~= seq![parts[0]] + parts.skip(1));
    lemma_kept_append(verbatim, seq![parts[0]], parts.skip(1));
    lemma_kept_one(verbatim, parts[0]);
}

/// Leaving off the last names of a Windows path without a prefix gives it none.
proof fn lemma_no_prefix_stays(path: PathModel, names: Seq<Seq<char>>)
    requires
        path.style == PathStyle::Windows,
        prefix_of(path) is None,
        names.is_prefix_of(named_components(path)),
    ensures
        prefix_of(with_components(path, start_component(path) + names)) is None,
{
    let start = start_component(path);
    let parts = prefix_component(path) + start + names;
    assert(start + names =~= parts);
    let made = with_components(path, start + names);
    let text = made.text;
    assert(parts.skip(0) =~= parts);
    lemma_names_proper(path);
    assert forall|i: int| 0 <= i < names.len() implies names[i] == named_components(path)[i] by {}
    if parts.len() > 0 {
        assert(prefix_text(path) + joined(parts, '\\') =~= joined(parts, '\\'));
        if has_root(path) {
            assert(parts[0] == seq!['\\']);
            assert(parts.skip(1) =~= names);
            assert(text =~= seq!['\\'] + joined(names, '\\'));
            if names.len() > 0 {
                lemma_joined_start(names, '\\');
                let first = names[0];
                assert(joined(names, '\\').take(first.len() as int)[0] == first[0]);
                assert(first.contains(first[0]));
                assert(text[1] == first[0]);
            }
        } else {
            let all = crate::text::pieces(body(path), '\\');
            let first = all[0];
            crate::text::lemma_pieces_shape(body(path), '\\');
            lemma_first_piece(body(path), '\\');
            if first.len() == 0 {
                // An unrooted text without a first piece is empty.
                assert(body(path).len() == 0) by {
                    if body(path).len() > 0 {
                        lemma_empty_first_piece(body(path), '\\');
                    }
                }
                assert(all =~= seq![Seq::<char>::empty()]);
                lemma_kept_one(false, Seq::<char>::empty());
            } else {
                if first != seq!['.'] {
                    lemma_kept_first(false, all);
                }
                assert(parts[0] == first);
                assert(parts[0] != seq!['\\']) by {
                    assert(!first.contains('\\'));
                    assert(seq!['\\'][0] == '\\');
                }
                lemma_joined_start(parts, '\\');
                assert(first.contains(first[0]));
                assert(text =~= joined(parts, '\\'));
                assert(text.take(first.len() as int)[0] == text[0]);
                assert(body(path).take(first.len() as int)[0] == body(path)[0]);
                if first.len() >= 2 {
                    assert(text.take(first.len() as int)[1] == text[1]);
                    assert(body(path).take(first.len() as int)[1] == body(path)[1]);
                }
                assert(body(path) =~= crate::path_prefix::with_backslashes(path.text)) by {
                    assert(path.text.skip(0) =~= path.text);
                }
                assert(text[0] == body(path)[0]);
            }
        }
    }
}

/// A text whose first piece is empty starts with the separator.
proof fn lemma_empty_first_piece(text: Seq<char>, separator: char)
    requires
        text.len() > 0,
        crate::text::pieces(text, separator)[0].len() == 0,
    ensures
        text[0] == separator,
    decreases text.len(),
{
    let front = text.drop_last();
    let before = crate::text::pieces(front, separator);
    crate::text::lemma_pieces_shape(front, separator);
    if front.len() == 0 {
        assert(before =~= seq![Seq::<char>::empty()]);
        if text.last() != separator {
            assert(crate::text::pieces(text, separator)[0] == before.last().push(text.last()));
        }
    } else {
        lemma_first_piece(front, separator);
        if before[0].len() == 0 {
            lemma_empty_first_piece(front, separator);
        } else {
            assert(crate::text::pieces(text, separator)[0].len() > 0) by {
                if before.len() == 1 && text.last() != separator {
                    assert(before.drop_last().push(before.last().push(text.last()))[0]
                        == before.last().push(text.last()));
                }
            }
        }
    }
}

/// Leaving off the last names of a path leaves its prefix as it is.
proof fn lemma_shorter_prefix(path: PathModel, names: Seq<Seq<char>>)
    requires
        names.is_prefix_of(named_components(path)),
        names.len() < named_components(path).len(),
        prefix_component(path).len() + start_component(path).len() + names.len() > 0,
    ensures
        prefix_of(
            with_components(path, prefix_component(path) + start_component(path) + names),
        ) == prefix_of(path),
{
    if path.style == PathStyle::Windows {
        match prefix_of(path) {
            None => {
                assert(prefix_component(path) + start_component(path) + names
                    =~= start_component(path) + names);
                lemma_no_prefix_stays(path, names);
            },
            Some(prefix) => {
                let sep = '\\';
                let start = start_component(path);
                let parts = prefix_component(path) + start + names;
                let rest = parts.skip(1);
                assert(rest =~= start + names);
                crate::path_prefix::lemma_prefix_shape(path.text);
                assert(prefix.length < path.text.len()) by {
                    if prefix.length == path.text.len() {
                        assert(body(path) =~= Seq::<char>::empty());
                        lemma_kept_one(is_verbatim(path), Seq::<char>::empty());
                    }
                }
                lemma_names_proper(path);
                assert forall|i: int| 0 <= i < names.len() implies names[i] == named_components(
                    path,
                )[i] by {}
                if prefix.open && has_root(path) && names.len() > 0 {
                    assert(root_text(path)[1] == sep);
                }
                if !prefix.disk {
                    assert(body(path)[0] == sep);
                    assert(rest[0] == seq![sep]);
                }
                let written = if rest.len() > 0 && rest[0] == seq![sep] {
                    root_text(path) + joined(rest.skip(1), sep)
                } else {
                    joined(rest, sep)
                };
                crate::path_prefix::lemma_prefix_stays(path.text, written);
            },
        }
    }
}

/// A path is equal to itself, and equality goes both ways and carries over.
pub proof fn law_same_path_is_an_equivalence(a: PathModel, b: PathModel, c: PathModel)
    ensures
        same_path(a, a),
        same_path(a, b) == same_path(b, a),
        same_path(a, b) && same_path(b, c) ==> same_path(a, c),
{
}

/// A path with a parent has a name or a leading dot to leave off.
proof fn lemma_parent_shape(path: PathModel)
    requires
        parent_of(path) is Some,
    ensures
        ({
            let parts = components(path);
            let names = named_components(path);
            let front = prefix_component(path) + start_component(path);
            ||| names.len() > 0 && parts.drop_last() == front + names.drop_last()
            ||| names.len() == 0 && parts.drop_last().len() == 0 && !has_root(path) && prefix_of(
                path,
            ) is None
        }),
{
    let parts = components(path);
    let names = named_components(path);
    let front = prefix_component(path) + start_component(path);
    let sep = separator(path.style);
    if names.len() > 0 {
        assert(parts.drop_last() =~= front + names.drop_last());
    } else {
        assert(parts =~= front);
        if has_root(path) {
            assert(parts.last() == seq![sep]);
            assert(parts.last()[0] == sep);
            assert(parts.last().contains(sep));
        } else if prefix_of(path) is Some {
            let name = prefix_of(path)->0.name;
            assert(parts.last() == name.push('\\'));
            assert(parts.last()[name.len() as int] == sep);
            assert(parts.last().contains(sep));
        }
    }
}

/// The parent's components are the path's own without the last.
pub proof fn law_parent_drops_the_last_component(path: PathModel)
    ensures
        parent_of(path) matches Some(parent) ==> parent.style == path.style && prefix_of(parent)
            == prefix_of(path) && components(parent) == components(path).drop_last(),
{
    if let Some(parent) = parent_of(path) {
        lemma_parent_shape(path);
        if components(path).drop_last().len() == 0 {
            lemma_empty_path(parent);
        } else {
            lemma_parent_components(path);
        }
    }
}

/// The empty path has no components.
proof fn lemma_empty_path(path: PathModel)
    requires
        path.text.len() == 0,
    ensures
        components(path) == Seq::<Seq<char>>::empty(),
        prefix_of(path) is None,
{
    assert(prefix_of(path) is None);
    assert(body(path) =~= Seq::<char>::empty());
    let sep = separator(path.style);
    let all = crate::text::pieces(body(path), sep);
    assert(all =~= seq![Seq::<char>::empty()]);
    lemma_kept_one(false, Seq::<char>::empty());
    assert(all[0].len() == 0);
    assert(components(path) =~= Seq::<Seq<char>>::empty());
}

proof fn lemma_parent_components(path: PathModel)
    requires
        parent_of(path) is Some,
        components(path).drop_last().len() > 0,
    ensures
        components(parent_of(path)->0) == components(path).drop_last(),
        prefix_of(parent_of(path)->0) == prefix_of(path),
        is_rooted(path) ==> is_rooted(parent_of(path)->0),
{
    lemma_parent_shape(path);
    let names = named_components(path).drop_last();
    lemma_names_proper(path);
    assert(proper_names(path, names)) by {
        assert forall|i: int|
            #![trigger names[i]]
            0 <= i < names.len() implies is_component(is_verbatim(path), names[i])
            && holds_no_separator(path, names[i]) by {
            assert(names[i] == named_components(path)[i]);
        }
    }
    assert(names.is_prefix_of(named_components(path)));
    assert(is_verbatim(path) && !is_rooted(path) ==> named_components(path).len() == 0) by {
        if is_verbatim(path) && !is_rooted(path) {
            crate::path_prefix::lemma_prefix_shape(path.text);
            assert(body(path) =~= Seq::<char>::empty());
            lemma_kept_one(true, Seq::<char>::empty());
        }
    }
    lemma_shorter_prefix(path, names);
    lemma_with_names(path, names);
}

/// The parent of an absolute path is absolute.
pub proof fn law_parent_of_absolute_is_absolute(path: PathModel)
    requires
        absolute(path),
    ensures
        parent_of(path) matches Some(parent) ==> absolute(parent),
{
    if parent_of(path) is Some {
        lemma_parent_shape(path);
        lemma_parent_components(path);
    }
}

/// A single ordinary name, as the last component of a path can be.
pub open spec fn single_name(path: PathModel, name: Seq<char>) -> bool {
    is_component(is_verbatim(path), name) && holds_no_separator(path, name)
}

/// The file name of a path is the last of its names.
pub proof fn lemma_file_name_is_named(path: PathModel)
    requires
        file_name_of(path) is Some,
    ensures
        named_components(path).len() > 0,
        named_components(path)[named_components(path).len() - 1] == file_name_of(path)->0,
        named_components(path).contains(file_name_of(path)->0),
{
    lemma_parent_shape(path);
    let names = named_components(path);
    assert(names.len() > 0) by {
        if names.len() == 0 {
            assert(components(path) =~= start_component(path));
        }
    }
    assert(components(path).last() == names[names.len() - 1]);
}

/// The file name of a path is a single ordinary name, and a path that has one has a parent.
pub proof fn law_file_name_is_a_single_name(path: PathModel)
    ensures
        file_name_of(path) matches Some(name) ==> single_name(path, name) && parent_of(path) is Some,
{
    if file_name_of(path) is Some {
        lemma_file_name_is_named(path);
        lemma_names_proper(path);
    }
}

/// Whether a path extended by a name stays in its place: the name is not read as a prefix or as
/// part of one, and behind a verbatim prefix there is a root and the name is an ordinary one. On
/// Unix it always stays.
pub open spec fn keeps_place(base: PathModel, name: Seq<char>) -> bool {
    let added = PathModel { style: base.style, text: name };
    base.style == PathStyle::Windows ==> {
        &&& prefix_of(added) is None
        &&& prefix_of(joined_path(base, name)) == prefix_of(base)
        &&& is_verbatim(base) ==> is_rooted(base) && name != seq!['.', '.'] && components(added)
            == seq![name] && name != seq!['.']
    }
}

/// A path extended by a name has that name as its last component and its own components before.
pub proof fn law_join_appends_the_name(base: PathModel, name: Seq<char>)
    requires
        single_name(base, name),
        keeps_place(base, name),
    ensures
        components(joined_path(base, name)) == components(base).push(name),
        is_verbatim(joined_path(base, name)) == is_verbatim(base),
{
    let sep = separator(base.style);
    let added = PathModel { style: base.style, text: name };
    let made = joined_path(base, name);
    assert(name.contains(name[0]));
    if is_verbatim(base) {
        let more = components(added);
        assert(more.drop_last() =~= Seq::<Seq<char>>::empty());
        assert(followed(components(base), more.drop_last()) == components(base));
        assert(name != seq!['\\']) by {
            assert(seq!['\\'][0] == '\\');
        }
        let names = named_components(base).push(name);
        lemma_names_proper(base);
        assert(components(base).push(name) =~= prefix_component(base) + start_component(base)
            + names);
        lemma_with_names(base, names);
    } else {
        assert(!is_rooted(added)) by {
            if prefix_of(added) is None {
                assert(added.text.skip(0) =~= name);
            }
        }
        let mid = if wants_separator(base) {
            seq![sep]
        } else {
            Seq::<char>::empty()
        };
        assert(made.text =~= base.text + mid + name);
        if base.style == PathStyle::Windows {
            crate::path_prefix::lemma_prefix_shape(base.text);
        }
        let length = prefix_text(base).len() as int;
        assert(prefix_text(made).len() == length);
        assert(made.text.skip(length) =~= base.text.skip(length) + mid + name);
        assert(body(made) =~= body(base) + mid + name) by {
            if base.style == PathStyle::Windows {
                lemma_backslashes_kept(name);
                let left = base.text.skip(length);
                assert(crate::path_prefix::with_backslashes(left + mid + name)
                    =~= crate::path_prefix::with_backslashes(left) + mid
                    + crate::path_prefix::with_backslashes(name));
            }
        }
        lemma_extended_names(base, made, mid, name);
    }
}

proof fn lemma_extended_names(base: PathModel, made: PathModel, mid: Seq<char>, name: Seq<char>)
    requires
        made.style == base.style,
        prefix_of(made) == prefix_of(base),
        !is_verbatim(base),
        single_name(base, name),
        wants_separator(base) ==> mid == seq![separator(base.style)],
        !wants_separator(base) ==> mid == Seq::<char>::empty(),
        made.text == base.text + mid + name,
        body(made) == body(base) + mid + name,
    ensures
        components(made) == components(base).push(name),
{
    let sep = separator(base.style);
    let text = body(made);
    let own = body(base);
    crate::text::lemma_pieces_whole(name, sep);
    lemma_kept_one(false, name);
    crate::text::lemma_pieces_shape(own, sep);
    assert(name.contains(name[0]));
    if base.style == PathStyle::Windows {
        crate::path_prefix::lemma_prefix_shape(base.text);
        crate::path_prefix::lemma_prefix_shape(made.text);
    }
    if own.len() == 0 {
        assert(own =~= Seq::<char>::empty());
        let none = crate::text::pieces(own, sep);
        assert(none =~= seq![Seq::<char>::empty()]);
        lemma_kept_one(false, Seq::<char>::empty());
        assert(none[0].len() == 0);
        if mid.len() == 0 {
            assert(text =~= name);
            assert(!(prefix_of(base) matches Some(prefix) && !prefix.disk)) by {
                if prefix_of(base) matches Some(prefix) && !prefix.disk {
                    assert(made.text[prefix_of(base)->0.length] == name[0]);
                }
            }
        } else {
            assert(text =~= seq![sep] + name);
            lemma_leading_separator(false, name, sep);
        }
        assert(named_components(made) =~= seq![name]);
        assert(named_components(base) =~= Seq::<Seq<char>>::empty());
        assert(start_component(made) =~= start_component(base));
    } else {
        assert(text[0] == own[0]);
        assert(own.last() == sep <==> mid.len() == 0) by {
            let length = prefix_text(base).len() as int;
            assert(own[own.len() - 1] == own.last());
            assert(base.text.skip(length).last() == base.text.last());
        }
        if mid.len() > 0 {
            assert(own.push(sep) + name =~= text);
            crate::text::lemma_pieces_append(own, name, sep);
            lemma_kept_append(false, crate::text::pieces(own, sep), seq![name]);
            assert(crate::text::pieces(text, sep)[0] == crate::text::pieces(own, sep)[0]);
        } else {
            let front = own.drop_last();
            let empty = Seq::<char>::empty();
            assert(front.push(sep) + name =~= text);
            assert(front.push(sep) + empty =~= own);
            crate::text::lemma_pieces_append(front, name, sep);
            crate::text::lemma_pieces_append(front, empty, sep);
            crate::text::lemma_pieces_shape(front, sep);
            assert(crate::text::pieces(empty, sep) =~= seq![empty]);
            lemma_kept_one(false, empty);
            lemma_kept_append(false, crate::text::pieces(front, sep), seq![name]);
            lemma_kept_append(
                false,
                crate::text::pieces(front, sep),
                crate::text::pieces(empty, sep),
            );
            assert(crate::text::pieces(text, sep)[0] == crate::text::pieces(front, sep)[0]);
            assert(crate::text::pieces(own, sep)[0] == crate::text::pieces(front, sep)[0]);
        }
        assert(named_components(made) =~= named_components(base).push(name));
        assert(start_component(made) =~= start_component(base));
    }
    assert(prefix_component(made) =~= prefix_component(base));
    assert(components(made) =~= components(base).push(name));
}

impl HostPath {
    /// A Unix path with the given text.
    pub fn new(text: &str) -> (path: Self)
        ensures
            path@ == (PathModel { style: PathStyle::Posix, text: text@ }),
    {
        HostPath { style: PathStyle::Posix, text: text.to_string() }
    }

    /// A path with the given text in a style.
    pub fn with_style(style: PathStyle, text: &str) -> (path: Self)
        ensures
            path@ == (PathModel { style, text: text@ }),
    {
        HostPath { style, text: text.to_string() }
    }

    /// The text of the path.
    pub fn as_str(&self) -> (text: &str)
        ensures
            text@ == self@.text,
    {
        self.text.as_str()
    }

    /// The prefix of the path.
    fn prefix(&self) -> (prefix: Option<PathPrefix>)
        ensures
            match prefix {
                Some(prefix) => prefix_of(self@) == Some(prefix@) && prefix.length
                    <= self.text@.len(),
                None => prefix_of(self@) is None,
            },
    {
        match self.style {
            PathStyle::Posix => None,
            PathStyle::Windows => {
                proof {
                    crate::path_prefix::lemma_prefix_shape(self.text@);
                }
                find_windows_prefix(self.text.as_str())
            },
        }
    }

    /// The text behind the prefix of the path.
    fn body_text(&self, prefix: &Option<PathPrefix>) -> (text: String)
        requires
            match *prefix {
                Some(prefix) => prefix_of(self@) == Some(prefix@) && prefix.length
                    <= self.text@.len(),
                None => prefix_of(self@) is None,
            },
        ensures
            text@ == body(self@),
    {
        let chars = chars_of(self.text.as_str());
        let start: usize = match prefix {
            Some(prefix) => prefix.length,
            None => 0,
        };
        let verbatim = match prefix {
            Some(prefix) => prefix.verbatim,
            None => false,
        };
        let rest = text_between(&chars, start, chars.len());
        assert(prefix_text(self@).len() == start);
        assert(rest@ =~= self.text@.skip(start as int));
        match self.style {
            PathStyle::Posix => rest,
            PathStyle::Windows => if verbatim {
                rest
            } else {
                turn_slashes(rest.as_str())
            },
        }
    }

    /// Whether the path says by itself where it leads.
    pub fn is_absolute(&self) -> (result: bool)
        ensures
            result == absolute(self@),
    {
        let prefix = self.prefix();
        let rest = chars_of(self.body_text(&prefix).as_str());
        let rooted = rest.len() > 0 && rest[0] == separator_char(self.style);
        match self.style {
            PathStyle::Posix => rooted,
            PathStyle::Windows => match &prefix {
                Some(prefix) => !prefix.disk || rooted,
                None => false,
            },
        }
    }

    /// The components of the path.
    pub fn component_texts(&self) -> (parts: Vec<String>)
        ensures
            crate::text::texts(parts@) == components(self@),
    {
        let prefix = self.prefix();
        let rest = self.body_text(&prefix);
        let separator = separator_char(self.style);
        let verbatim = match &prefix {
            Some(prefix) => prefix.verbatim,
            None => false,
        };
        let all = split_text(rest.as_str(), separator);
        let chars = chars_of(rest.as_str());
        let mut parts: Vec<String> = Vec::new();
        proof {
            crate::text::lemma_pieces_shape(rest@, separator);
            reveal_strlit(".");
            assert("."@ =~= seq!['.']);
        }
        let ghost every = crate::text::pieces(rest@, separator);
        let leading_dot = is_dot(&all[0]);
        assert(all@[0]@ == every[0]);
        let mut has_root = chars.len() > 0 && chars[0] == separator;
        let mut is_relative = true;
        assert(crate::text::texts(parts@) =~= Seq::<Seq<char>>::empty());
        match prefix {
            Some(prefix) => {
                let mut name = prefix.name;
                name.push('\\');
                let ghost word = name@;
                if !prefix.disk && !prefix.verbatim {
                    has_root = true;
                }
                is_relative = false;
                parts.push(name);
                assert(crate::text::texts(parts@) =~= seq![word]);
            },
            None => {},
        }
        assert(crate::text::texts(parts@) =~= prefix_component(self@));
        let ghost first = crate::text::texts(parts@);
        if has_root {
            parts.push(root_string(self.style));
            assert(crate::text::texts(parts@) =~= first + seq![seq![separator]]);
        } else if is_relative && leading_dot {
            parts.push(".".to_string());
            assert(crate::text::texts(parts@) =~= first + seq![seq!['.']]);
        } else {
            assert(first + Seq::<Seq<char>>::empty() =~= first);
        }
        let ghost front = crate::text::texts(parts@);
        assert(front =~= prefix_component(self@) + start_component(self@));
        let mut i: usize = 0;
        assert(every.take(0) =~= Seq::<Seq<char>>::empty());
        assert(front + kept(verbatim, every.take(0)) =~= front);
        while i < all.len()
            invariant
                i <= all.len(),
                crate::text::texts(all@) == every,
                crate::text::texts(parts@) == front + kept(verbatim, every.take(i as int)),
            decreases all.len() - i,
        {
            assert(every[i as int] == all@[i as int]@);
            assert(every.take(i + 1).drop_last() =~= every.take(i as int));
            let ghost before = crate::text::texts(parts@);
            if all[i].as_str().unicode_len() > 0 && (verbatim || !is_dot(&all[i])) {
                parts.push(all[i].clone());
                assert(crate::text::texts(parts@) =~= before.push(every[i as int]));
                assert(before.push(every[i as int]) =~= front + kept(
                    verbatim,
                    every.take(i + 1),
                ));
            }
            i += 1;
        }
        assert(every.take(i as int) =~= every);
        assert(crate::text::texts(parts@) =~= components(self@));
        parts
    }

    /// Whether two paths have the same style and the same components.
    pub fn is_same(&self, other: &HostPath) -> (result: bool)
        ensures
            result == same_path(self@, other@),
    {
        let left = self.component_texts();
        let right = other.component_texts();
        self.style == other.style && same_texts(&left, &right)
    }

    /// Whether the path is `base` or lies below it.
    pub fn starts_with(&self, base: &HostPath) -> (result: bool)
        ensures
            result == within(self@, base@),
    {
        let whole = self.component_texts();
        let front = base.component_texts();
        let ghost all = components(self@);
        let ghost first = components(base@);
        if self.style != base.style || front.len() > whole.len() {
            return false;
        }
        let mut i: usize = 0;
        while i < front.len()
            invariant
                i <= front.len() <= whole.len(),
                self.style == base.style,
                crate::text::texts(whole@) == all,
                crate::text::texts(front@) == first,
                all == components(self@),
                first == components(base@),
                forall|j: int| 0 <= j < i ==> all[j] == first[j],
            decreases front.len() - i,
        {
            assert(all[i as int] == whole@[i as int]@);
            assert(first[i as int] == front@[i as int]@);
            if whole[i] != front[i] {
                assert(all.subrange(0, first.len() as int)[i as int] != first[i as int]);
                return false;
            }
            i += 1;
        }
        assert(all.subrange(0, first.len() as int) =~= first);
        true
    }

    /// The path with the same prefix and the given components, which include it.
    pub(crate) fn with_parts(&self, parts: &Vec<String>) -> (path: HostPath)
        requires
            parts@.len() == 0 || parts@.len() >= prefix_component(self@).len(),
        ensures
            path@ == with_components(self@, crate::text::texts(parts@)),
    {
        let ghost all = crate::text::texts(parts@);
        if parts.len() == 0 {
            let path = HostPath { style: self.style, text: String::new() };
            assert(path@.text =~= Seq::<char>::empty());
            return path;
        }
        let separator = separator_char(self.style);
        let prefix = self.prefix();
        let mut text = String::new();
        let mut start: usize = 0;
        let mut open = false;
        let mut follows_root = false;
        assert(text@ =~= Seq::<char>::empty());
        match &prefix {
            Some(prefix) => {
                let chars = chars_of(self.text.as_str());
                text = text_between(&chars, 0, prefix.length);
                assert(text@ =~= self.text@.take(prefix.length as int));
                start = 1;
                open = prefix.open;
                follows_root = !prefix.disk;
            },
            None => {},
        }
        assert(text@ =~= prefix_text(self@));
        let ghost rest = all.skip(start as int);
        assert(start == prefix_component(self@).len());
        let ghost front = text@;
        let rooted = start < parts.len() && is_separator(&parts[start], separator);
        proof {
            if start < parts@.len() {
                assert(rest[0] == parts@[start as int]@);
            }
        }
        if rooted || (follows_root && start < parts.len()) {
            text.push(separator);
            if open {
                text.push(separator);
            }
            assert(text@ =~= front + root_text(self@));
        }
        let ghost head = text@;
        if rooted {
            start = start + 1;
        }
        append_joined(&mut text, parts, start, separator);
        proof {
            if rooted {
                assert(all.skip(start as int) =~= rest.skip(1));
                assert(text@ =~= front + (root_text(self@) + joined(rest.skip(1), separator)));
            } else {
                assert(all.skip(start as int) =~= rest);
                if follows_root && rest.len() > 0 {
                    assert(text@ =~= front + (root_text(self@) + joined(rest, separator)));
                } else {
                    assert(text@ =~= front + joined(rest, separator));
                }
            }
        }
        HostPath { style: self.style, text }
    }

    /// The parent directory of the path, if its last component is neither a prefix nor the root.
    pub fn parent(&self) -> (result: Option<HostPath>)
        ensures
            match result {
                Some(parent) => parent_of(self@) == Some(parent@),
                None => parent_of(self@) is None,
            },
    {
        let mut parts = self.component_texts();
        let ghost all = components(self@);
        let count: usize = parts.len();
        if count == 0 {
            return None;
        }
        assert(all.last() == parts@[count - 1]@);
        if holds_char(&parts[count - 1], separator_char(self.style)) {
            return None;
        }
        parts.pop();
        assert(crate::text::texts(parts@) =~= all.drop_last());
        proof {
            lemma_parent_shape(self@);
        }
        Some(self.with_parts(&parts))
    }

    /// The last component of the path, if it is an ordinary name.
    pub fn file_name(&self) -> (result: Option<String>)
        ensures
            match result {
                Some(name) => file_name_of(self@) == Some(name@),
                None => file_name_of(self@) is None,
            },
    {
        let mut parts = self.component_texts();
        let ghost all = components(self@);
        let count: usize = parts.len();
        if count == 0 {
            return None;
        }
        assert(all.last() == parts@[count - 1]@);
        let last = parts.remove(count - 1);
        if is_plain_name(self.style, &last) {
            Some(last)
        } else {
            None
        }
    }

    /// The path extended by another.
    pub fn join(&self, other: &str) -> (path: HostPath)
        ensures
            path@ == joined_path(self@, other@),
    {
        let added = HostPath { style: self.style, text: other.to_string() };
        let added_prefix = added.prefix();
        let rest = chars_of(added.body_text(&added_prefix).as_str());
        let rooted = rest.len() > 0 && rest[0] == separator_char(self.style);
        if self.style == PathStyle::Posix && rooted {
            return added;
        }
        if added_prefix.is_some() {
            return added;
        }
        let prefix = self.prefix();
        let verbatim = match &prefix {
            Some(prefix) => prefix.verbatim,
            None => false,
        };
        let disk = match &prefix {
            Some(prefix) => prefix.disk,
            None => false,
        };
        if verbatim && other.unicode_len() > 0 {
            let own = self.component_texts();
            let more = added.component_texts();
            assert(prefix_component(self@).len() == 1);
            assert(crate::text::texts(own@).len() == own@.len());
            let parts = follow(own, &more);
            return self.with_parts(&parts);
        }
        let base = chars_of(self.text.as_str());
        if rooted {
            let length: usize = match &prefix {
                Some(prefix) => prefix.length,
                None => 0,
            };
            let mut text = text_between(&base, 0, length);
            assert(text@ =~= prefix_text(self@));
            text.append(other);
            return HostPath { style: self.style, text };
        }
        let mut text = self.text.clone();
        if base.len() > 0 {
            let last = base[base.len() - 1];
            let wanted = match self.style {
                PathStyle::Posix => last != '/',
                PathStyle::Windows => last != '\\' && last != '/' && !(disk && base.len() == 2),
            };
            if wanted {
                text.push(separator_char(self.style));
            }
        }
        text.append(other);
        HostPath { style: self.style, text }
    }
}

impl Clone for HostPath {
    fn clone(&self) -> (copy: Self)
        ensures
            copy == *self,
    {
        HostPath { style: self.style, text: self.text.clone() }
    }
}

impl PartialEq for HostPath {
    fn eq(&self, other: &Self) -> (result: bool) {
        self.is_same(other)
    }
}

impl vstd::std_specs::cmp::PartialEqSpecImpl for HostPath {
    open spec fn obeys_eq_spec() -> bool {
        true
    }

    open spec fn eq_spec(&self, other: &Self) -> bool {
        same_path(self@, other@)
    }
}

impl Eq for HostPath {

}

/// The character that separates the components of a path.
pub(crate) fn separator_char(style: PathStyle) -> (c: char)
    ensures
        c == separator(style),
{
    match style {
        PathStyle::Posix => '/',
        PathStyle::Windows => '\\',
    }
}

fn root_string(style: PathStyle) -> (text: String)
    ensures
        text@ == seq![separator(style)],
{
    let mut text = String::new();
    text.push(separator_char(style));
    assert(text@ =~= seq![separator(style)]);
    text
}

fn is_separator(piece: &String, separator: char) -> (result: bool)
    ensures
        result == (piece@ == seq![separator]),
{
    let chars = chars_of(piece.as_str());
    let result = chars.len() == 1 && chars[0] == separator;
    assert(result ==> piece@ =~= seq![separator]);
    result
}

fn is_dot(piece: &String) -> (result: bool)
    ensures
        result == (piece@ == seq!['.']),
{
    is_separator(piece, '.')
}

fn is_dot_dot(piece: &String) -> (result: bool)
    ensures
        result == (piece@ == seq!['.', '.']),
{
    let chars = chars_of(piece.as_str());
    let result = chars.len() == 2 && chars[0] == '.' && chars[1] == '.';
    assert(result ==> piece@ =~= seq!['.', '.']);
    result
}

fn holds_char(piece: &String, c: char) -> (result: bool)
    ensures
        result == piece@.contains(c),
{
    let chars = chars_of(piece.as_str());
    let mut i: usize = 0;
    while i < chars.len()
        invariant
            i <= chars@.len(),
            chars@ == piece@,
            forall|k: int| 0 <= k < i ==> #[trigger] piece@[k] != c,
        decreases chars@.len() - i,
    {
        if chars[i] == c {
            assert(piece@[i as int] == c);
            return true;
        }
        i += 1;
    }
    false
}

fn is_plain_name(style: PathStyle, component: &String) -> (result: bool)
    ensures
        result == is_name(style, component@),
{
    !is_dot(component) && !is_dot_dot(component) && !holds_char(component, separator_char(style))
}

/// Lets components be followed by others.
fn follow(parts: Vec<String>, more: &Vec<String>) -> (result: Vec<String>)
    requires
        parts@.len() > 0,
    ensures
        crate::text::texts(result@) == followed(
            crate::text::texts(parts@),
            crate::text::texts(more@),
        ),
        result@.len() > 0,
{
    let ghost own = crate::text::texts(parts@);
    let ghost all = crate::text::texts(more@);
    let mut result = parts;
    let mut i: usize = 0;
    assert(all.take(0) =~= Seq::<Seq<char>>::empty());
    while i < more.len()
        invariant
            i <= more@.len(),
            all == crate::text::texts(more@),
            crate::text::texts(result@) == followed(own, all.take(i as int)),
            result@.len() > 0,
        decreases more@.len() - i,
    {
        let ghost done = crate::text::texts(result@);
        let ghost next = all[i as int];
        proof {
            assert(all.take(i + 1).drop_last() =~= all.take(i as int));
            assert(all.take(i + 1).last() == next);
            assert(next == more@[i as int]@);
        }
        if is_separator(&more[i], '\\') {
            result.truncate(1);
            assert(crate::text::texts(result@) =~= done.take(1));
            result.push(more[i].clone());
            assert(crate::text::texts(result@) =~= done.take(1).push(next));
        } else if is_dot(&more[i]) {
        } else if is_dot_dot(&more[i]) {
            let last: usize = result.len() - 1;
            assert(done.last() == result@[last as int]@);
            if is_plain_name(PathStyle::Windows, &result[last]) && last > 0 {
                result.pop();
                assert(crate::text::texts(result@) =~= done.drop_last());
            }
        } else {
            result.push(more[i].clone());
            assert(crate::text::texts(result@) =~= done.push(next));
        }
        i += 1;
    }
    assert(all.take(i as int) =~= all);
    result
}

/// Appends joined components.
fn append_joined(text: &mut String, parts: &Vec<String>, start: usize, separator: char)
    requires
        start <= parts@.len(),
    ensures
        final(text)@ == old(text)@ + joined(
            crate::text::texts(parts@).skip(start as int),
            separator,
        ),
{
    let ghost all = crate::text::texts(parts@);
    let ghost front = text@;
    let ghost rest = all.skip(start as int);
    let mut i: usize = start;
    assert(rest.take(0) =~= Seq::<Seq<char>>::empty());
    assert(text@ =~= front + joined(rest.take(0), separator));
    while i < parts.len()
        invariant
            start <= i <= parts.len(),
            all == crate::text::texts(parts@),
            rest == all.skip(start as int),
            text@ == front + joined(rest.take(i - start), separator),
        decreases parts.len() - i,
    {
        let ghost upto = rest.take(i - start + 1);
        assert(upto.drop_last() =~= rest.take(i - start));
        assert(upto.last() == parts@[i as int]@);
        if i > start {
            text.push(separator);
        }
        text.append(parts[i].as_str());
        proof {
            if i > start {
                assert(text@ =~= front + (joined(rest.take(i - start), separator).push(separator)
                    + upto.last()));
            } else {
                assert(text@ =~= front + upto[0]);
            }
        }
        i += 1;
    }
    assert(rest.take(i - start) =~= rest);
}

} // verus!
