//! The prefixes of Windows paths: drives, shares, devices and verbatim prefixes.

use crate::text::{chars_of, text_between};
use vstd::prelude::*;

verus! {

/// A text with every slash turned into a backslash.
pub open spec fn with_backslashes(text: Seq<char>) -> Seq<char> {
    Seq::new(
        text.len(),
        |i: int|
            if text[i] == '/' {
                '\\'
            } else {
                text[i]
            },
    )
}

/// Where the part of a text that starts at a place ends: at the next backslash or with the text.
pub open spec fn segment_end(text: Seq<char>, start: int) -> int
    decreases text.len() - start,
{
    if start >= text.len() || text[start] == '\\' {
        start
    } else {
        segment_end(text, start + 1)
    }
}

/// What stands in front of the names of a Windows path.
#[verifier::ext_equal]
pub struct PrefixModel {
    /// How many characters of the path it takes.
    pub length: int,
    /// Its plainest text: drives are told apart by letter, not by case.
    pub name: Seq<char>,
    /// Whether what follows is taken as it is written.
    pub verbatim: bool,
    /// Whether it is a drive, which has a current directory of its own.
    pub disk: bool,
    /// Whether the share behind a server is missing.
    pub open: bool,
}

/// Whether a character can name a drive.
pub open spec fn is_drive_letter(c: char) -> bool {
    ('a' <= c && c <= 'z') || ('A' <= c && c <= 'Z')
}

/// A drive letter in upper case.
pub open spec fn upper_letter(c: char) -> char {
    if 'a' <= c && c <= 'z' {
        (c as u8 - 32) as char
    } else {
        c
    }
}

/// Whether a drive stands at a place in a text.
pub open spec fn drive_at(text: Seq<char>, place: int) -> bool {
    place + 2 <= text.len() && is_drive_letter(text[place]) && text[place + 1] == ':'
}

/// Whether a character separates names.
pub open spec fn separates(c: char) -> bool {
    c == '\\' || c == '/'
}

/// Whether a text starts with `\\?\`, written with backslashes.
pub open spec fn starts_verbatim(text: Seq<char>) -> bool {
    4 <= text.len() && text[0] == '\\' && text[1] == '\\' && text[2] == '?' && text[3] == '\\'
}

/// Whether `UNC\` follows `\\?\`.
pub open spec fn names_server(text: Seq<char>) -> bool {
    8 <= text.len() && text[4] == 'U' && text[5] == 'N' && text[6] == 'C' && separates(text[7])
}

/// Whether nothing but a drive follows `\\?\` up to the next backslash.
pub open spec fn names_drive(text: Seq<char>) -> bool {
    drive_at(text, 4) && (text.len() == 6 || text[6] == '\\')
}

/// The prefix of a text that starts with `\\?\`: a share, a drive, or whatever comes next.
pub open spec fn verbatim_prefix(text: Seq<char>) -> PrefixModel {
    if names_server(text) {
        let server = segment_end(text, 8);
        let share = segment_end(text, server + 1);
        let length = if server + 1 < share {
            share
        } else {
            server
        };
        PrefixModel {
            length,
            name: text.take(7).push('\\') + text.subrange(8, length),
            verbatim: true,
            disk: false,
            open: length == server,
        }
    } else if names_drive(text) {
        PrefixModel {
            length: 6,
            name: text.take(4).push(upper_letter(text[4])).push(':'),
            verbatim: true,
            disk: false,
            open: false,
        }
    } else {
        let length = segment_end(text, 4);
        PrefixModel {
            length,
            name: text.take(length),
            verbatim: true,
            disk: false,
            open: false,
        }
    }
}

/// The prefix of a Windows path, if it has one: `\\?\...`, `\\.\device`, `\\server\share` or `C:`.
pub open spec fn windows_prefix(text: Seq<char>) -> Option<PrefixModel> {
    let plain = with_backslashes(text);
    if starts_verbatim(text) {
        Some(verbatim_prefix(text))
    } else if 2 <= plain.len() && plain[0] == '\\' && plain[1] == '\\' {
        if 4 <= plain.len() && plain[2] == '.' && plain[3] == '\\' {
            let length = segment_end(plain, 4);
            Some(
                PrefixModel {
                    length,
                    name: plain.take(length),
                    verbatim: false,
                    disk: false,
                    open: false,
                },
            )
        } else {
            let server = segment_end(plain, 2);
            let share = segment_end(plain, server + 1);
            if 2 < server && server + 1 < share {
                Some(
                    PrefixModel {
                        length: share,
                        name: plain.take(share),
                        verbatim: false,
                        disk: false,
                        open: false,
                    },
                )
            } else {
                None
            }
        }
    } else if drive_at(text, 0) {
        Some(
            PrefixModel {
                length: 2,
                name: seq![upper_letter(text[0]), ':'],
                verbatim: false,
                disk: true,
                open: false,
            },
        )
    } else {
        None
    }
}

/// A part of a text holds no backslash, and one follows it unless the text ends.
pub proof fn lemma_segment_end(text: Seq<char>, start: int)
    requires
        0 <= start,
    ensures
        start <= segment_end(text, start),
        start <= text.len() ==> segment_end(text, start) <= text.len(),
        start >= text.len() ==> segment_end(text, start) == start,
        forall|i: int| start <= i < segment_end(text, start) ==> #[trigger] text[i] != '\\',
        segment_end(text, start) < text.len() ==> text[segment_end(text, start)] == '\\',
    decreases text.len() - start,
{
    if start < text.len() && text[start] != '\\' {
        lemma_segment_end(text, start + 1);
    }
}

/// A stretch without a backslash, up to one or to the end, is a part of the text.
pub proof fn lemma_segment_is(text: Seq<char>, start: int, end: int)
    requires
        0 <= start <= end <= text.len(),
        forall|i: int| start <= i < end ==> #[trigger] text[i] != '\\',
        end == text.len() || text[end] == '\\',
    ensures
        segment_end(text, start) == end,
    decreases end - start,
{
    if start < end {
        lemma_segment_is(text, start + 1, end);
    }
}

/// A prefix lies within its path, and names follow it only behind a separator, unless it is a
/// drive.
pub proof fn lemma_prefix_shape(text: Seq<char>)
    ensures
        windows_prefix(text) matches Some(prefix) ==> {
            &&& 2 <= prefix.length <= text.len()
            &&& !prefix.disk && prefix.length < text.len() ==> separates(text[prefix.length])
            &&& prefix.verbatim && prefix.length < text.len() ==> text[prefix.length] == '\\'
            &&& prefix.open ==> prefix.verbatim
            &&& prefix.verbatim ==> !prefix.disk
            &&& prefix.name.len() > 0
        },
{
    let plain = with_backslashes(text);
    if starts_verbatim(text) {
        lemma_segment_end(text, 4);
        if names_server(text) {
            lemma_segment_end(text, 8);
            lemma_segment_end(text, segment_end(text, 8) + 1);
        }
    } else if 2 <= plain.len() && plain[0] == '\\' && plain[1] == '\\' {
        lemma_segment_end(plain, 4);
        lemma_segment_end(plain, 2);
        lemma_segment_end(plain, segment_end(plain, 2) + 1);
    }
}

/// What may follow a prefix without becoming part of it.
pub open spec fn may_follow(prefix: PrefixModel, rest: Seq<char>) -> bool {
    ||| prefix.disk
    ||| rest.len() == 0
    ||| rest[0] == '\\' && (prefix.open ==> rest.len() == 1 || rest[1] == '\\')
}

/// Other names behind a prefix leave the prefix as it is.
pub proof fn lemma_prefix_stays(text: Seq<char>, rest: Seq<char>)
    requires
        windows_prefix(text) matches Some(prefix) && prefix.length < text.len() && may_follow(
            prefix,
            rest,
        ),
    ensures
        windows_prefix(text.take(windows_prefix(text)->0.length) + rest) == windows_prefix(text),
{
    lemma_prefix_shape(text);
    let prefix = windows_prefix(text)->0;
    let length = prefix.length;
    let made = text.take(length) + rest;
    let plain = with_backslashes(text);
    let other = with_backslashes(made);
    assert forall|i: int| 0 <= i < length implies made[i] == text[i] && other[i] == plain[i] by {}
    if starts_verbatim(text) {
        lemma_segment_end(text, 4);
        lemma_segment_end(text, 8);
        if names_server(text) {
            let server = segment_end(text, 8);
            lemma_segment_end(text, server + 1);
            if prefix.open {
                lemma_segment_is(made, 8, server);
                if made.len() > server + 1 {
                    assert(made[server + 1] == rest[1]);
                    lemma_segment_is(made, server + 1, server + 1);
                }
            } else {
                lemma_segment_is(made, 8, server);
                lemma_segment_is(made, server + 1, length);
            }
            assert(made.take(7) =~= text.take(7));
            assert(made.subrange(8, length) =~= text.subrange(8, length));
        } else if names_drive(text) {
            assert(made.take(4) =~= text.take(4));
            assert(!names_server(made));
        } else {
            lemma_segment_is(made, 4, length);
            assert(made.take(length) =~= text.take(length));
            assert(!names_server(made)) by {
                if names_server(made) && length <= 7 {
                    assert(made[length] == rest[0] || rest.len() == 0);
                }
            }
            assert(!names_drive(made)) by {
                if names_drive(made) && length <= 6 {
                    assert(rest.len() == 0 || made[length] == rest[0]);
                }
            }
        }
    } else if 2 <= plain.len() && plain[0] == '\\' && plain[1] == '\\' {
        if 4 <= plain.len() && plain[2] == '.' && plain[3] == '\\' {
            lemma_segment_end(plain, 4);
            lemma_segment_is(other, 4, length);
            assert(other.take(length) =~= plain.take(length));
        } else {
            let server = segment_end(plain, 2);
            lemma_segment_end(plain, 2);
            lemma_segment_end(plain, server + 1);
            lemma_segment_is(other, 2, server);
            lemma_segment_is(other, server + 1, length);
            assert(other.take(length) =~= plain.take(length));
        }
    }
}

/// A prefix in executable form.
#[derive(Debug)]
pub struct PathPrefix {
    pub length: usize,
    pub name: String,
    pub verbatim: bool,
    pub disk: bool,
    pub open: bool,
}

impl View for PathPrefix {
    type V = PrefixModel;

    open spec fn view(&self) -> PrefixModel {
        PrefixModel {
            length: self.length as int,
            name: self.name@,
            verbatim: self.verbatim,
            disk: self.disk,
            open: self.open,
        }
    }
}

/// Turns every slash of a text into a backslash.
pub fn turn_slashes(text: &str) -> (turned: String)
    ensures
        turned@ == with_backslashes(text@),
{
    let chars = chars_of(text);
    let mut turned = String::new();
    let mut i: usize = 0;
    assert(turned@ =~= with_backslashes(text@).take(0));
    while i < chars.len()
        invariant
            i <= chars@.len(),
            chars@ == text@,
            turned@ == with_backslashes(text@).take(i as int),
        decreases chars@.len() - i,
    {
        let c = if chars[i] == '/' {
            '\\'
        } else {
            chars[i]
        };
        turned.push(c);
        i += 1;
        assert(turned@ =~= with_backslashes(text@).take(i as int));
    }
    assert(with_backslashes(text@).take(i as int) =~= with_backslashes(text@));
    turned
}

fn find_segment_end(chars: &Vec<char>, start: usize) -> (end: usize)
    requires
        start <= chars@.len(),
    ensures
        end == segment_end(chars@, start as int),
        start <= end <= chars@.len(),
{
    let mut i: usize = start;
    while i < chars.len() && chars[i] != '\\'
        invariant
            start <= i <= chars@.len(),
            segment_end(chars@, start as int) == segment_end(chars@, i as int),
        decreases chars@.len() - i,
    {
        i += 1;
    }
    i
}

fn drive_stands_at(chars: &Vec<char>, place: usize) -> (result: bool)
    requires
        place <= 4,
    ensures
        result == drive_at(chars@, place as int),
{
    if chars.len() < place + 2 {
        return false;
    }
    let c = chars[place];
    (('a' <= c && c <= 'z') || ('A' <= c && c <= 'Z')) && chars[place + 1] == ':'
}

fn raise_letter(c: char) -> (raised: char)
    ensures
        raised == upper_letter(c),
{
    if 'a' <= c && c <= 'z' {
        (c as u8 - 32) as char
    } else {
        c
    }
}

fn find_verbatim_prefix(chars: &Vec<char>) -> (prefix: PathPrefix)
    requires
        starts_verbatim(chars@),
    ensures
        prefix@ == verbatim_prefix(chars@),
{
    let count: usize = chars.len();
    if count >= 8 && chars[4] == 'U' && chars[5] == 'N' && chars[6] == 'C' && (chars[7] == '\\'
        || chars[7] == '/') {
        let server: usize = find_segment_end(chars, 8);
        let share: usize = if server < count {
            find_segment_end(chars, server + 1)
        } else {
            server
        };
        let open = server == count || share == server + 1;
        let length: usize = if open {
            server
        } else {
            share
        };
        let mut name = text_between(chars, 0, 7);
        name.push('\\');
        let rest = text_between(chars, 8, length);
        name.append(rest.as_str());
        assert(chars@.subrange(0, 7) =~= chars@.take(7));
        return PathPrefix { length, name, verbatim: true, disk: false, open };
    }
    if drive_stands_at(chars, 4) && (count == 6 || chars[6] == '\\') {
        let mut name = text_between(chars, 0, 4);
        assert(chars@.subrange(0, 4) =~= chars@.take(4));
        name.push(raise_letter(chars[4]));
        name.push(':');
        return PathPrefix { length: 6, name, verbatim: true, disk: false, open: false };
    }
    let length: usize = find_segment_end(chars, 4);
    let name = text_between(chars, 0, length);
    assert(chars@.subrange(0, length as int) =~= chars@.take(length as int));
    PathPrefix { length, name, verbatim: true, disk: false, open: false }
}

/// Gives the prefix of a Windows path, if it has one.
pub fn find_windows_prefix(text: &str) -> (prefix: Option<PathPrefix>)
    ensures
        match prefix {
            Some(prefix) => windows_prefix(text@) == Some(prefix@),
            None => windows_prefix(text@) is None,
        },
{
    let chars = chars_of(text);
    let count: usize = chars.len();
    if count >= 4 && chars[0] == '\\' && chars[1] == '\\' && chars[2] == '?' && chars[3] == '\\' {
        return Some(find_verbatim_prefix(&chars));
    }
    let turned = turn_slashes(text);
    let plain = chars_of(turned.as_str());
    if count >= 2 && plain[0] == '\\' && plain[1] == '\\' {
        if count >= 4 && plain[2] == '.' && plain[3] == '\\' {
            let length: usize = find_segment_end(&plain, 4);
            let name = text_between(&plain, 0, length);
            assert(plain@.subrange(0, length as int) =~= plain@.take(length as int));
            return Some(PathPrefix { length, name, verbatim: false, disk: false, open: false });
        }
        let server: usize = find_segment_end(&plain, 2);
        if server == 2 || server == count {
            return None;
        }
        let share: usize = find_segment_end(&plain, server + 1);
        if share == server + 1 {
            return None;
        }
        let name = text_between(&plain, 0, share);
        assert(plain@.subrange(0, share as int) =~= plain@.take(share as int));
        return Some(PathPrefix { length: share, name, verbatim: false, disk: false, open: false });
    }
    if drive_stands_at(&chars, 0) {
        let mut name = String::new();
        name.push(raise_letter(chars[0]));
        name.push(':');
        assert(name@ =~= seq![upper_letter(text@[0]), ':']);
        return Some(PathPrefix { length: 2, name, verbatim: false, disk: true, open: false });
    }
    None
}

} // verus!
