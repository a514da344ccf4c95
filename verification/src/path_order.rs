//! The order of paths.

use crate::path::{separator_char, HostPath, PathModel, PathStyle};
use crate::text::{chars_of, split_text};
use crate::text_order::is_text_le;
use crate::text_span::count_bytes;
use vstd::prelude::*;

verus! {

/// Where the kind of a prefix stands: verbatim ones, devices, shares, then drives.
pub open spec fn prefix_rank(component: Seq<char>) -> int {
    if crate::path_prefix::starts_verbatim(component) {
        if crate::path_prefix::names_server(component) {
            1
        } else if crate::path_prefix::names_drive(component) {
            2
        } else {
            0
        }
    } else if component.len() >= 4 && component[0] == '\\' && component[1] == '\\'
        && component[2] == '.' && component[3] == '\\' {
        3
    } else if component[0] == '\\' {
        4
    } else {
        5
    }
}

/// Where the kind of a component stands: prefixes, the root, then `.`, then `..`, then names.
pub open spec fn component_rank(style: PathStyle, component: Seq<char>) -> int {
    if component == seq![crate::path::separator(style)] {
        6
    } else if component == seq!['.'] {
        7
    } else if component == seq!['.', '.'] {
        8
    } else if component.contains(crate::path::separator(style)) {
        prefix_rank(component)
    } else {
        9
    }
}

/// Whether a list of texts stands before another, or is the same: the first texts decide that
/// differ.
pub open spec fn texts_le(left: Seq<Seq<char>>, right: Seq<Seq<char>>) -> bool
    decreases left.len(),
{
    if left.len() == 0 {
        true
    } else if right.len() == 0 {
        false
    } else if left[0] == right[0] {
        texts_le(left.skip(1), right.skip(1))
    } else {
        crate::text_order::text_le(left[0], right[0])
    }
}

/// Whether a component stands before another, or is the same. Those of one kind go by their texts:
/// names by the whole of it, shares by the server and then by the share.
pub open spec fn component_le(style: PathStyle, left: Seq<char>, right: Seq<char>) -> bool {
    let sep = crate::path::separator(style);
    component_rank(style, left) < component_rank(style, right) || (component_rank(style, left)
        == component_rank(style, right) && texts_le(
        crate::text::pieces(left, sep),
        crate::text::pieces(right, sep),
    ))
}

/// Whether a list of components stands before another, or is the same.
pub open spec fn components_le(
    style: PathStyle,
    left: Seq<Seq<char>>,
    right: Seq<Seq<char>>,
) -> bool
    decreases left.len(),
{
    if left.len() == 0 {
        true
    } else if right.len() == 0 {
        false
    } else if left[0] == right[0] {
        components_le(style, left.skip(1), right.skip(1))
    } else {
        component_le(style, left[0], right[0])
    }
}

/// Whether a path stands before another, or is the same. Paths of different styles are kept apart.
pub open spec fn path_le(left: PathModel, right: PathModel) -> bool {
    if left.style == right.style {
        components_le(left.style, crate::path::components(left), crate::path::components(right))
    } else {
        left.style == PathStyle::Posix
    }
}

proof fn lemma_component_order(style: PathStyle, left: Seq<char>, right: Seq<char>)
    ensures
        component_le(style, left, right) || component_le(style, right, left),
        component_le(style, left, right) && component_le(style, right, left) ==> left == right,
{
    let sep = crate::path::separator(style);
    lemma_texts_order(crate::text::pieces(left, sep), crate::text::pieces(right, sep));
    if crate::text::pieces(left, sep) == crate::text::pieces(right, sep) {
        lemma_pieces_make_up(left, sep);
        lemma_pieces_make_up(right, sep);
    }
}

/// The pieces of a text, joined again, are the text.
proof fn lemma_pieces_make_up(text: Seq<char>, separator: char)
    ensures
        crate::path::joined(crate::text::pieces(text, separator), separator) == text,
    decreases text.len(),
{
    let all = crate::text::pieces(text, separator);
    if text.len() > 0 {
        let front = text.drop_last();
        let before = crate::text::pieces(front, separator);
        lemma_pieces_make_up(front, separator);
        crate::text::lemma_pieces_shape(front, separator);
        if text.last() == separator {
            assert(all.drop_last() =~= before);
            assert(crate::path::joined(all, separator) =~= text);
        } else {
            assert(all.drop_last() =~= before.drop_last());
            assert(all.last() =~= before.last().push(text.last()));
            assert(text =~= front.push(text.last()));
            if before.len() > 1 {
                let start = crate::path::joined(before.drop_last(), separator).push(separator);
                assert(crate::path::joined(before, separator) == start + before.last());
                assert(crate::path::joined(all, separator) == start + all.last());
            }
            assert(crate::path::joined(all, separator) =~= text);
        }
    } else {
        assert(crate::path::joined(all, separator) =~= text);
    }
}

proof fn lemma_texts_order(left: Seq<Seq<char>>, right: Seq<Seq<char>>)
    ensures
        texts_le(left, left),
        texts_le(left, right) || texts_le(right, left),
        texts_le(left, right) && texts_le(right, left) ==> left == right,
    decreases left.len(),
{
    if left.len() == 0 {
        if right.len() == 0 {
            assert(left =~= right);
        }
    } else {
        lemma_texts_order(left.skip(1), left.skip(1));
        if right.len() > 0 {
            crate::text_order::law_text_order_is_total(left[0], right[0]);
            lemma_texts_order(left.skip(1), right.skip(1));
            if left[0] == right[0] && left.skip(1) == right.skip(1) {
                assert(left =~= seq![left[0]] + left.skip(1));
                assert(right =~= seq![right[0]] + right.skip(1));
            }
        }
    }
}

proof fn lemma_texts_transitive(a: Seq<Seq<char>>, b: Seq<Seq<char>>, c: Seq<Seq<char>>)
    requires
        texts_le(a, b),
        texts_le(b, c),
    ensures
        texts_le(a, c),
    decreases a.len(),
{
    if a.len() > 0 {
        if a[0] == b[0] && b[0] == c[0] {
            lemma_texts_transitive(a.skip(1), b.skip(1), c.skip(1));
        } else if a[0] != b[0] && b[0] != c[0] {
            crate::text_order::law_text_order_is_transitive(a[0], b[0], c[0]);
            if a[0] == c[0] {
                crate::text_order::law_text_order_is_total(a[0], b[0]);
            }
        }
    }
}

proof fn lemma_components_order(style: PathStyle, left: Seq<Seq<char>>, right: Seq<Seq<char>>)
    ensures
        components_le(style, left, left),
        components_le(style, left, right) || components_le(style, right, left),
        components_le(style, left, right) && components_le(style, right, left) ==> left == right,
    decreases left.len(),
{
    if left.len() == 0 {
        if right.len() == 0 {
            assert(left =~= right);
        }
    } else {
        lemma_components_order(style, left.skip(1), left.skip(1));
        if right.len() > 0 {
            lemma_component_order(style, left[0], right[0]);
            lemma_components_order(style, left.skip(1), right.skip(1));
            if left[0] == right[0] && left.skip(1) == right.skip(1) {
                assert(left =~= seq![left[0]] + left.skip(1));
                assert(right =~= seq![right[0]] + right.skip(1));
            }
        }
    }
}

proof fn lemma_components_transitive(
    style: PathStyle,
    a: Seq<Seq<char>>,
    b: Seq<Seq<char>>,
    c: Seq<Seq<char>>,
)
    requires
        components_le(style, a, b),
        components_le(style, b, c),
    ensures
        components_le(style, a, c),
    decreases a.len(),
{
    if a.len() > 0 {
        if a[0] == b[0] && b[0] == c[0] {
            lemma_components_transitive(style, a.skip(1), b.skip(1), c.skip(1));
        } else if a[0] != b[0] && b[0] != c[0] {
            let sep = crate::path::separator(style);
            let x = crate::text::pieces(a[0], sep);
            let y = crate::text::pieces(b[0], sep);
            let z = crate::text::pieces(c[0], sep);
            if texts_le(x, y) && texts_le(y, z) {
                lemma_texts_transitive(x, y, z);
            }
            if a[0] == c[0] {
                lemma_component_order(style, a[0], b[0]);
            }
        }
    }
}

/// The order of paths is total: of two paths one stands before the other, and both do only where
/// they are the same path.
pub proof fn law_path_order_is_total(left: PathModel, right: PathModel)
    ensures
        path_le(left, right) || path_le(right, left),
        (path_le(left, right) && path_le(right, left)) == crate::path::same_path(left, right),
{
    let style = left.style;
    lemma_components_order(style, crate::path::components(left), crate::path::components(right));
    lemma_components_order(style, crate::path::components(left), crate::path::components(left));
}

/// The order of paths carries over.
pub proof fn law_path_order_is_transitive(a: PathModel, b: PathModel, c: PathModel)
    requires
        path_le(a, b),
        path_le(b, c),
    ensures
        path_le(a, c),
{
    if a.style == b.style && b.style == c.style {
        lemma_components_transitive(
            a.style,
            crate::path::components(a),
            crate::path::components(b),
            crate::path::components(c),
        );
    }
}

fn rank_of_prefix(component: &Vec<char>) -> (rank: u8)
    requires
        component@.len() > 0,
    ensures
        rank == prefix_rank(component@),
{
    let count: usize = component.len();
    if count >= 4 && component[0] == '\\' && component[1] == '\\' && component[2] == '?'
        && component[3] == '\\' {
        if count >= 8 && component[4] == 'U' && component[5] == 'N' && component[6] == 'C' && (
        component[7] == '\\' || component[7] == '/') {
            return 1;
        }
        if count >= 6 && (('a' <= component[4] && component[4] <= 'z') || ('A' <= component[4]
            && component[4] <= 'Z')) && component[5] == ':' && (count == 6 || component[6]
            == '\\') {
            return 2;
        }
        return 0;
    }
    if count >= 4 && component[0] == '\\' && component[1] == '\\' && component[2] == '.'
        && component[3] == '\\' {
        3
    } else if component[0] == '\\' {
        4
    } else {
        5
    }
}

fn rank_of(style: PathStyle, component: &String) -> (rank: u8)
    ensures
        rank == component_rank(style, component@),
{
    let chars = chars_of(component.as_str());
    let count: usize = chars.len();
    let separator = separator_char(style);
    if count == 1 && chars[0] == separator {
        assert(component@ =~= seq![separator]);
        return 6;
    }
    if count == 1 && chars[0] == '.' {
        assert(component@ =~= seq!['.']);
        return 7;
    }
    if count == 2 && chars[0] == '.' && chars[1] == '.' {
        assert(component@ =~= seq!['.', '.']);
        return 8;
    }
    let mut i: usize = 0;
    while i < chars.len()
        invariant
            i <= chars@.len(),
            chars@ == component@,
            separator == crate::path::separator(style),
            component@ != seq![separator],
            component@ != seq!['.'],
            component@ != seq!['.', '.'],
            forall|k: int| 0 <= k < i ==> #[trigger] component@[k] != separator,
        decreases chars@.len() - i,
    {
        if chars[i] == separator {
            assert(component@.contains(component@[i as int]));
            return rank_of_prefix(&chars);
        }
        i += 1;
    }
    9
}

fn are_texts_le(left: &Vec<String>, right: &Vec<String>) -> (result: bool)
    ensures
        result == texts_le(crate::text::texts(left@), crate::text::texts(right@)),
{
    let ghost x = crate::text::texts(left@);
    let ghost y = crate::text::texts(right@);
    let mut i: usize = 0;
    assert(x.skip(0) =~= x);
    assert(y.skip(0) =~= y);
    while i < left.len() && i < right.len()
        invariant
            i <= left@.len(),
            i <= right@.len(),
            x == crate::text::texts(left@),
            y == crate::text::texts(right@),
            texts_le(x, y) == texts_le(x.skip(i as int), y.skip(i as int)),
        decreases left@.len() - i,
    {
        proof {
            assert(x.skip(i as int)[0] == left@[i as int]@);
            assert(y.skip(i as int)[0] == right@[i as int]@);
            assert(x.skip(i as int).skip(1) =~= x.skip(i + 1));
            assert(y.skip(i as int).skip(1) =~= y.skip(i + 1));
        }
        if !crate::text::same_text(left[i].as_str(), right[i].as_str()) {
            return is_text_le(left[i].as_str(), right[i].as_str());
        }
        i += 1;
    }
    i == left.len()
}

/// Whether a path stands before another, or is the same.
pub fn is_path_le(left: &HostPath, right: &HostPath) -> (result: bool)
    ensures
        result == path_le(left@, right@),
{
    if left.style != right.style {
        return match left.style {
            PathStyle::Posix => true,
            PathStyle::Windows => false,
        };
    }
    let style = left.style;
    let a = left.component_texts();
    let b = right.component_texts();
    let ghost x = crate::text::texts(a@);
    let ghost y = crate::text::texts(b@);
    let mut i: usize = 0;
    assert(x.skip(0) =~= x);
    assert(y.skip(0) =~= y);
    while i < a.len() && i < b.len()
        invariant
            i <= a@.len(),
            i <= b@.len(),
            x == crate::text::texts(a@),
            y == crate::text::texts(b@),
            x == crate::path::components(left@),
            y == crate::path::components(right@),
            left.style == style,
            right.style == style,
            components_le(style, x, y) == components_le(
                style,
                x.skip(i as int),
                y.skip(i as int),
            ),
        decreases a@.len() - i,
    {
        proof {
            assert(x.skip(i as int)[0] == a@[i as int]@);
            assert(y.skip(i as int)[0] == b@[i as int]@);
            assert(x.skip(i as int).skip(1) =~= x.skip(i + 1));
            assert(y.skip(i as int).skip(1) =~= y.skip(i + 1));
        }
        if !crate::text::same_text(a[i].as_str(), b[i].as_str()) {
            let first = rank_of(style, &a[i]);
            let second = rank_of(style, &b[i]);
            return first < second || (first == second && are_texts_le(
                &split_text(a[i].as_str(), separator_char(style)),
                &split_text(b[i].as_str(), separator_char(style)),
            ));
        }
        i += 1;
    }
    i == a.len()
}

/// Whether each path stands before the ones behind it and is none of them.
pub open spec fn strictly_ordered(paths: Seq<PathModel>) -> bool {
    forall|i: int, j: int|
        0 <= i < j < paths.len() ==> path_le(#[trigger] paths[i], #[trigger] paths[j])
            && !crate::path::same_path(paths[i], paths[j])
}

/// Whether one of the paths is the same as a given one.
pub open spec fn holds_path(paths: Seq<PathModel>, path: PathModel) -> bool {
    exists|i: int| 0 <= i < paths.len() && crate::path::same_path(#[trigger] paths[i], path)
}

/// Puts a path in its place among ordered ones, unless it is there already.
fn insert_path(paths: &mut Vec<HostPath>, path: HostPath)
    requires
        strictly_ordered(crate::path::path_models(old(paths)@)),
    ensures
        strictly_ordered(crate::path::path_models(final(paths)@)),
        holds_path(crate::path::path_models(final(paths)@), path@),
        forall|other: PathModel|
            holds_path(crate::path::path_models(old(paths)@), other) ==> #[trigger] holds_path(
                crate::path::path_models(final(paths)@),
                other,
            ),
        forall|i: int|
            0 <= i < final(paths)@.len() ==> crate::path::path_models(old(paths)@).contains(
                #[trigger] final(paths)@[i]@,
            ) || final(paths)@[i]@ == path@,
{
    let ghost before = paths@;
    let ghost was = crate::path::path_models(before);
    let mut at: usize = 0;
    while at < paths.len() && is_path_le(&paths[at], &path) && !paths[at].is_same(&path)
        invariant
            at <= paths@.len(),
            paths@ == before,
            was == crate::path::path_models(before),
            strictly_ordered(was),
            forall|i: int|
                0 <= i < at ==> path_le(#[trigger] was[i], path@) && !crate::path::same_path(
                    was[i],
                    path@,
                ),
        decreases paths@.len() - at,
    {
        at += 1;
    }
    if at < paths.len() && paths[at].is_same(&path) {
        proof {
            assert(crate::path::same_path(was[at as int], path@));
            assert forall|i: int| 0 <= i < paths@.len() implies was.contains(
                #[trigger] paths@[i]@,
            ) by {
                assert(was[i] == paths@[i]@);
            }
        }
        return;
    }
    let ghost placed = path@;
    proof {
        assert forall|i: int| at <= i < was.len() implies path_le(placed, #[trigger] was[i])
            && !crate::path::same_path(placed, was[i]) by {
            law_path_order_is_total(placed, was[at as int]);
            if i > at {
                law_path_order_is_transitive(placed, was[at as int], was[i]);
                if crate::path::same_path(placed, was[i]) {
                    law_path_order_is_total(placed, was[i]);
                    law_path_order_is_transitive(was[i], placed, was[at as int]);
                    law_path_order_is_total(was[at as int], was[i]);
                }
            }
        }
    }
    paths.insert(at, path);
    let ghost now = crate::path::path_models(paths@);
    proof {
        assert(now =~= was.take(at as int).push(placed) + was.skip(at as int));
        assert(now[at as int] == placed);
        assert forall|i: int, j: int| 0 <= i < j < now.len() implies path_le(
            #[trigger] now[i],
            #[trigger] now[j],
        ) && !crate::path::same_path(now[i], now[j]) by {
            let from = if i < at {
                i
            } else {
                i - 1
            };
            let to = if j < at {
                j
            } else {
                j - 1
            };
            if i != at {
                assert(now[i] == was[from]);
            }
            if j != at {
                assert(now[j] == was[to]);
            }
        }
        assert forall|other: PathModel| holds_path(was, other) implies #[trigger] holds_path(
            now,
            other,
        ) by {
            let i = choose|i: int|
                0 <= i < was.len() && crate::path::same_path(#[trigger] was[i], other);
            if i < at {
                assert(now[i] == was[i]);
            } else {
                assert(now[i + 1] == was[i]);
            }
        }
        assert forall|i: int| 0 <= i < paths@.len() implies was.contains(#[trigger] paths@[i]@)
            || paths@[i]@ == placed by {
            assert(now[i] == paths@[i]@);
            if i < at {
                assert(now[i] == was[i]);
            } else if i > at {
                assert(now[i] == was[i - 1]);
            }
        }
    }
}

/// The different ones among some paths, in order. Of several texts of one path, one is kept.
pub fn distinct_paths(paths: &Vec<HostPath>) -> (distinct: Vec<HostPath>)
    ensures
        strictly_ordered(crate::path::path_models(distinct@)),
        forall|i: int|
            0 <= i < paths@.len() ==> holds_path(
                crate::path::path_models(distinct@),
                #[trigger] paths@[i]@,
            ),
        forall|i: int|
            0 <= i < distinct@.len() ==> crate::path::path_models(paths@).contains(
                #[trigger] distinct@[i]@,
            ),
{
    let ghost all = crate::path::path_models(paths@);
    let mut distinct: Vec<HostPath> = Vec::new();
    let mut i: usize = 0;
    while i < paths.len()
        invariant
            i <= paths@.len(),
            all == crate::path::path_models(paths@),
            strictly_ordered(crate::path::path_models(distinct@)),
            forall|j: int|
                0 <= j < i ==> holds_path(
                    crate::path::path_models(distinct@),
                    #[trigger] paths@[j]@,
                ),
            forall|j: int|
                0 <= j < distinct@.len() ==> all.contains(#[trigger] distinct@[j]@),
        decreases paths@.len() - i,
    {
        let ghost before = distinct@;
        insert_path(&mut distinct, paths[i].clone());
        proof {
            assert(all[i as int] == paths@[i as int]@);
            assert forall|j: int| 0 <= j < distinct@.len() implies all.contains(
                #[trigger] distinct@[j]@,
            ) by {
                if crate::path::path_models(before).contains(distinct@[j]@) {
                    let k = choose|k: int|
                        0 <= k < before.len() && crate::path::path_models(before)[k]
                            == distinct@[j]@;
                    assert(before[k]@ == distinct@[j]@);
                }
            }
        }
        i += 1;
    }
    distinct
}

/// The place of a path among others, if it is one of them.
pub open spec fn path_place(paths: Seq<PathModel>, path: PathModel) -> Option<int>
    decreases paths.len(),
{
    if paths.len() == 0 {
        None
    } else {
        match path_place(paths.drop_last(), path) {
            Some(place) => Some(place),
            None => if crate::path::same_path(paths.last(), path) {
                Some(paths.len() - 1)
            } else {
                None
            },
        }
    }
}

/// How much of a path has to be shown to tell it from the others: what was found for it, or
/// nothing more than its name where nothing was found.
pub fn detail_for(path: &HostPath, paths: &Vec<HostPath>, details: &Vec<usize>) -> (detail: usize)
    ensures
        detail == match path_place(crate::path::path_models(paths@), path@) {
            Some(place) if place < details@.len() => details@[place],
            _ => 0,
        },
{
    let ghost all = crate::path::path_models(paths@);
    let mut found: Option<usize> = None;
    let mut i: usize = 0;
    assert(all.take(0) =~= Seq::<PathModel>::empty());
    while i < paths.len()
        invariant
            i <= paths@.len(),
            all == crate::path::path_models(paths@),
            match found {
                Some(place) => path_place(all.take(i as int), path@) == Some(place as int),
                None => path_place(all.take(i as int), path@) is None,
            },
        decreases paths@.len() - i,
    {
        proof {
            assert(all.take(i + 1).drop_last() =~= all.take(i as int));
            assert(all.take(i + 1).last() == paths@[i as int]@);
        }
        if found.is_none() && paths[i].is_same(path) {
            found = Some(i);
        }
        i += 1;
    }
    assert(all.take(i as int) =~= all);
    match found {
        Some(place) => if place < details.len() {
            details[place]
        } else {
            0
        },
        None => 0,
    }
}

/// Which of some directories a path is in: of those that hold it, the one with the longest path,
/// and of equally long ones the last.
pub open spec fn innermost(directories: Seq<PathModel>, path: PathModel) -> Option<int>
    decreases directories.len(),
{
    if directories.len() == 0 {
        None
    } else {
        let best = innermost(directories.drop_last(), path);
        if !crate::path::within(path, directories.last()) {
            best
        } else {
            match best {
                Some(place) if crate::text_span::byte_length(directories[place].text)
                    > crate::text_span::byte_length(directories.last().text) => Some(place),
                _ => Some(directories.len() - 1),
            }
        }
    }
}

/// The directory that a path is in holds it, and no other one that does has a longer path.
pub proof fn law_innermost_is_longest(directories: Seq<PathModel>, path: PathModel)
    ensures
        match innermost(directories, path) {
            Some(place) => {
                &&& 0 <= place < directories.len()
                &&& crate::path::within(path, directories[place])
                &&& forall|i: int|
                    0 <= i < directories.len() && crate::path::within(
                        path,
                        #[trigger] directories[i],
                    ) ==> crate::text_span::byte_length(directories[i].text)
                        <= crate::text_span::byte_length(directories[place].text)
            },
            None => forall|i: int|
                0 <= i < directories.len() ==> !crate::path::within(
                    path,
                    #[trigger] directories[i],
                ),
        },
    decreases directories.len(),
{
    if directories.len() > 0 {
        let front = directories.drop_last();
        law_innermost_is_longest(front, path);
        assert(forall|i: int| 0 <= i < front.len() ==> front[i] == directories[i]);
        match innermost(directories, path) {
            Some(place) => {
                assert forall|i: int|
                    0 <= i < directories.len() && crate::path::within(
                        path,
                        #[trigger] directories[i],
                    ) implies crate::text_span::byte_length(directories[i].text)
                    <= crate::text_span::byte_length(directories[place].text) by {
                    if i < front.len() {
                        assert(front[i] == directories[i]);
                        assert(innermost(front, path) is Some);
                    }
                }
            },
            None => {
                assert forall|i: int| 0 <= i < directories.len() implies !crate::path::within(
                    path,
                    #[trigger] directories[i],
                ) by {
                    if i < front.len() {
                        assert(front[i] == directories[i]);
                    }
                }
            },
        }
    }
}

/// Finds the directory that a path is in.
pub fn find_innermost(path: &HostPath, directories: &Vec<HostPath>) -> (place: Option<usize>)
    ensures
        match place {
            Some(place) => innermost(crate::path::path_models(directories@), path@) == Some(
                place as int,
            ) && place < directories@.len(),
            None => innermost(crate::path::path_models(directories@), path@) is None,
        },
{
    let ghost all = crate::path::path_models(directories@);
    let mut best: Option<usize> = None;
    let mut i: usize = 0;
    assert(all.take(0) =~= Seq::<PathModel>::empty());
    while i < directories.len()
        invariant
            i <= directories@.len(),
            all == crate::path::path_models(directories@),
            match best {
                Some(place) => innermost(all.take(i as int), path@) == Some(place as int) && place
                    < i,
                None => innermost(all.take(i as int), path@) is None,
            },
        decreases directories@.len() - i,
    {
        let directory = &directories[i];
        proof {
            assert(all.take(i + 1).drop_last() =~= all.take(i as int));
            assert(all.take(i + 1).last() == directory@);
        }
        if path.starts_with(directory) {
            let longer = match best {
                Some(place) => {
                    assert(all.take(i + 1)[place as int] == directories@[place as int]@);
                    count_bytes(directories[place].as_str()) > count_bytes(directory.as_str())
                },
                None => false,
            };
            if !longer {
                best = Some(i);
            }
        }
        i += 1;
    }
    assert(all.take(i as int) =~= all);
    best
}

} // verus!
