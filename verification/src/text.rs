//! Text helpers: numerals, prefixes, and the pieces of a text between separators.

use vstd::prelude::*;

verus! {

/// `String::push` appends exactly the given character.
pub assume_specification[ String::push ](text: &mut String, c: char)
    ensures
        final(text)@ == old(text)@.push(c),
;

/// The decimal digit for a value below ten.
pub open spec fn digit(value: nat) -> char {
    (48 + value) as char
}

/// The decimal numeral of a natural number, without leading zeros.
pub open spec fn decimal(value: nat) -> Seq<char>
    decreases value,
{
    if value < 10 {
        seq![digit(value)]
    } else {
        decimal(value / 10).push(digit(value % 10))
    }
}

/// Writes a number in decimal.
pub fn decimal_text(value: u64) -> (text: String)
    ensures
        text@ == decimal(value as nat),
    decreases value,
{
    let mut text = if value < 10 {
        String::new()
    } else {
        decimal_text(value / 10)
    };
    let last: u8 = (value % 10) as u8;
    text.push((48u8 + last) as char);
    text
}

/// The characters of a text, one by one.
pub fn chars_of(text: &str) -> (chars: Vec<char>)
    ensures
        chars@ == text@,
{
    let mut chars: Vec<char> = Vec::new();
    for c in it: text.chars()
        invariant
            chars@ == text@.take(it.index()),
            it.seq() == text@,
    {
        chars.push(c);
    }
    chars
}

/// The texts held by a sequence of strings.
pub open spec fn texts(strings: Seq<String>) -> Seq<Seq<char>> {
    Seq::new(strings.len(), |i: int| strings[i]@)
}

/// The pieces of a text between occurrences of a separator: one more than there are separators.
pub open spec fn pieces(text: Seq<char>, separator: char) -> Seq<Seq<char>>
    decreases text.len(),
{
    if text.len() == 0 {
        seq![Seq::<char>::empty()]
    } else {
        let before = pieces(text.drop_last(), separator);
        if text.last() == separator {
            before.push(Seq::<char>::empty())
        } else {
            before.drop_last().push(before.last().push(text.last()))
        }
    }
}

/// There is always at least one piece, and no piece contains the separator.
pub proof fn lemma_pieces_shape(text: Seq<char>, separator: char)
    ensures
        pieces(text, separator).len() >= 1,
        forall|i: int|
            0 <= i < pieces(text, separator).len() ==> !(#[trigger] pieces(text, separator)[i]).contains(
                separator,
            ),
    decreases text.len(),
{
    if text.len() > 0 {
        lemma_pieces_shape(text.drop_last(), separator);
        let before = pieces(text.drop_last(), separator);
        assert forall|i: int| 0 <= i < pieces(text, separator).len() implies !(
        #[trigger] pieces(text, separator)[i]).contains(separator) by {
            if i == before.len() - 1 && text.last() != separator {
                assert(!before[i].contains(separator));
                assert forall|j: int| 0 <= j < pieces(text, separator)[i].len() implies pieces(
                    text,
                    separator,
                )[i][j] != separator by {
                    if j < before[i].len() {
                        assert(before[i].contains(before[i][j]));
                    }
                }
            } else if i < before.len() {
                assert(!before[i].contains(separator));
            }
        }
    }
}

/// A text without the separator is its own single piece.
pub proof fn lemma_pieces_whole(text: Seq<char>, separator: char)
    requires
        !text.contains(separator),
    ensures
        pieces(text, separator) == seq![text],
    decreases text.len(),
{
    if text.len() > 0 {
        assert(text.contains(text.last()));
        assert forall|j: int| 0 <= j < text.drop_last().len() implies text.drop_last()[j]
            != separator by {
            assert(text.contains(text[j]));
        }
        lemma_pieces_whole(text.drop_last(), separator);
        assert(text.drop_last().push(text.last()) == text);
        assert(pieces(text, separator) =~= seq![text]);
    } else {
        assert(text =~= Seq::<char>::empty());
    }
}

/// Joining two texts with a separator joins their pieces.
pub proof fn lemma_pieces_append(left: Seq<char>, right: Seq<char>, separator: char)
    ensures
        pieces(left.push(separator) + right, separator) == pieces(left, separator) + pieces(
            right,
            separator,
        ),
    decreases right.len(),
{
    let whole = left.push(separator) + right;
    if right.len() == 0 {
        assert(whole =~= left.push(separator));
        assert(whole.drop_last() =~= left);
        assert(pieces(whole, separator) =~= pieces(left, separator) + pieces(right, separator));
    } else {
        lemma_pieces_append(left, right.drop_last(), separator);
        lemma_pieces_shape(right.drop_last(), separator);
        assert(whole.drop_last() =~= left.push(separator) + right.drop_last());
        assert(pieces(whole, separator) =~= pieces(left, separator) + pieces(right, separator));
    }
}

/// Splits a text at every separator.
pub fn split_text(text: &str, separator: char) -> (parts: Vec<String>)
    ensures
        texts(parts@) == pieces(text@, separator),
{
    let chars = chars_of(text);
    let mut parts: Vec<String> = Vec::new();
    let mut piece = String::new();
    let mut i: usize = 0;
    assert(chars@.take(0) =~= Seq::<char>::empty());
    assert(texts(parts@).push(piece@) =~= pieces(chars@.take(0), separator));
    while i < chars.len()
        invariant
            i <= chars.len(),
            texts(parts@).push(piece@) == pieces(chars@.take(i as int), separator),
        decreases chars.len() - i,
    {
        let ghost before = texts(parts@);
        let ghost earlier = piece@;
        proof {
            assert(chars@.take(i + 1).drop_last() =~= chars@.take(i as int));
        }
        if chars[i] == separator {
            parts.push(piece);
            piece = String::new();
            assert(texts(parts@) =~= before.push(earlier));
        } else {
            piece.push(chars[i]);
            assert(before.push(earlier).drop_last() =~= before);
        }
        i += 1;
    }
    assert(chars@.take(i as int) =~= text@);
    let ghost before = texts(parts@);
    let ghost last = piece@;
    parts.push(piece);
    assert(texts(parts@) =~= before.push(last));
    parts
}

/// Whether a text starts with another.
pub open spec fn has_prefix(text: Seq<char>, prefix: Seq<char>) -> bool {
    prefix.len() <= text.len() && text.take(prefix.len() as int) == prefix
}

/// What follows a prefix.
pub open spec fn after_prefix(text: Seq<char>, prefix: Seq<char>) -> Option<Seq<char>> {
    if has_prefix(text, prefix) {
        Some(text.skip(prefix.len() as int))
    } else {
        None
    }
}

/// Whether a pattern stands at a place in a text.
pub open spec fn occurs_at(text: Seq<char>, pattern: Seq<char>, index: int) -> bool {
    0 <= index && index + pattern.len() <= text.len() && text.subrange(
        index,
        index + pattern.len(),
    ) == pattern
}

/// Where a pattern first stands at or after a place in a text.
pub open spec fn first_from(text: Seq<char>, pattern: Seq<char>, start: int) -> Option<int>
    decreases text.len() + 1 - start,
{
    if start < 0 || start > text.len() {
        None
    } else if occurs_at(text, pattern, start) {
        Some(start)
    } else {
        first_from(text, pattern, start + 1)
    }
}

/// Where a pattern last stands at or before a place in a text.
pub open spec fn last_upto(text: Seq<char>, pattern: Seq<char>, end: int) -> Option<int>
    decreases end + 1,
{
    if end < 0 {
        None
    } else if occurs_at(text, pattern, end) {
        Some(end)
    } else {
        last_upto(text, pattern, end - 1)
    }
}

/// Whether a text contains a pattern.
pub open spec fn contains_text(text: Seq<char>, pattern: Seq<char>) -> bool {
    exists|index: int| occurs_at(text, pattern, index)
}

/// The parts of a text before and after the first place of a pattern.
pub open spec fn parted_once(text: Seq<char>, pattern: Seq<char>) -> Option<
    (Seq<char>, Seq<char>),
> {
    match first_from(text, pattern, 0) {
        Some(index) => Some((text.take(index), text.skip(index + pattern.len()))),
        None => None,
    }
}

/// The parts of a text before and after the last place of a pattern.
pub open spec fn parted_last(text: Seq<char>, pattern: Seq<char>) -> Option<
    (Seq<char>, Seq<char>),
> {
    match last_upto(text, pattern, text.len() as int) {
        Some(index) => Some((text.take(index), text.skip(index + pattern.len()))),
        None => None,
    }
}

/// A text without the given character at its end.
pub open spec fn trimmed_end(text: Seq<char>, c: char) -> Seq<char>
    decreases text.len(),
{
    if text.len() > 0 && text.last() == c {
        trimmed_end(text.drop_last(), c)
    } else {
        text
    }
}

/// The text held by an optional string.
pub open spec fn optional_text(text: Option<String>) -> Option<Seq<char>> {
    match text {
        Some(text) => Some(text@),
        None => None,
    }
}

/// The first place of a pattern is the least.
pub proof fn lemma_first_from(text: Seq<char>, pattern: Seq<char>, start: int)
    requires
        0 <= start <= text.len() + 1,
    ensures
        match first_from(text, pattern, start) {
            Some(index) => start <= index && occurs_at(text, pattern, index) && forall|j: int|
                start <= j < index ==> !occurs_at(text, pattern, j),
            None => forall|j: int| start <= j ==> !occurs_at(text, pattern, j),
        },
    decreases text.len() + 1 - start,
{
    if start <= text.len() && !occurs_at(text, pattern, start) {
        lemma_first_from(text, pattern, start + 1);
        match first_from(text, pattern, start) {
            Some(index) => {
                assert forall|j: int| start <= j < index implies !occurs_at(text, pattern, j) by {
                    if j > start {
                        assert(start + 1 <= j < index);
                    }
                }
            },
            None => {
                assert forall|j: int| start <= j implies !occurs_at(text, pattern, j) by {
                    if j > start {
                        assert(start + 1 <= j);
                    }
                }
            },
        }
    }
}

/// Whether a pattern stands at a place in a list of characters.
fn stands_at(text: &Vec<char>, pattern: &Vec<char>, index: usize) -> (result: bool)
    requires
        index <= text@.len(),
    ensures
        result == occurs_at(text@, pattern@, index as int),
{
    let count: usize = text.len();
    if pattern.len() > count - index {
        return false;
    }
    let ghost part = text@.subrange(index as int, index + pattern@.len());
    let mut i: usize = 0;
    while i < pattern.len()
        invariant
            i <= pattern@.len(),
            index + pattern@.len() <= text@.len() == count,
            part == text@.subrange(index as int, index + pattern@.len()),
            forall|k: int| 0 <= k < i ==> part[k] == pattern@[k],
        decreases pattern@.len() - i,
    {
        assert(part[i as int] == text@[index + i]);
        if text[index + i] != pattern[i] {
            return false;
        }
        i += 1;
    }
    assert(part =~= pattern@);
    true
}

/// The text of some of a list of characters.
pub(crate) fn text_between(chars: &Vec<char>, from: usize, to: usize) -> (text: String)
    requires
        from <= to <= chars@.len(),
    ensures
        text@ == chars@.subrange(from as int, to as int),
{
    let mut text = String::new();
    let mut i: usize = from;
    while i < to
        invariant
            from <= i <= to <= chars@.len(),
            text@ == chars@.subrange(from as int, i as int),
        decreases to - i,
    {
        text.push(chars[i]);
        assert(chars@.subrange(from as int, i + 1) =~= chars@.subrange(from as int, i as int).push(
            chars@[i as int],
        ));
        i += 1;
    }
    text
}

/// Whether a text starts with another.
pub fn starts_with(text: &str, prefix: &str) -> (result: bool)
    ensures
        result == has_prefix(text@, prefix@),
{
    let chars = chars_of(text);
    let front = chars_of(prefix);
    let result = stands_at(&chars, &front, 0);
    assert(prefix@.len() <= text@.len() ==> text@.subrange(0, prefix@.len() as int) =~= text@.take(
        prefix@.len() as int,
    ));
    result
}

/// What follows a prefix.
pub fn strip_prefix(text: &str, prefix: &str) -> (rest: Option<String>)
    ensures
        optional_text(rest) == after_prefix(text@, prefix@),
{
    if starts_with(text, prefix) {
        let chars = chars_of(text);
        let front = chars_of(prefix);
        let rest = text_between(&chars, front.len(), chars.len());
        assert(rest@ =~= text@.skip(prefix@.len() as int));
        Some(rest)
    } else {
        None
    }
}

/// Whether a text contains another.
pub fn contains(text: &str, pattern: &str) -> (result: bool)
    ensures
        result == contains_text(text@, pattern@),
{
    let found = find_first(text, pattern);
    proof {
        lemma_first_from(text@, pattern@, 0);
    }
    found.is_some()
}

fn find_first(text: &str, pattern: &str) -> (index: Option<usize>)
    ensures
        match index {
            Some(index) => first_from(text@, pattern@, 0) == Some(index as int) && index
                + pattern@.len() <= text@.len(),
            None => first_from(text@, pattern@, 0) is None,
        },
{
    let chars = chars_of(text);
    let wanted = chars_of(pattern);
    let mut i: usize = 0;
    loop
        invariant
            i <= chars@.len(),
            chars@ == text@,
            wanted@ == pattern@,
            first_from(text@, pattern@, 0) == first_from(text@, pattern@, i as int),
        decreases chars@.len() - i,
    {
        if stands_at(&chars, &wanted, i) {
            return Some(i);
        }
        if i == chars.len() {
            assert(first_from(text@, pattern@, i + 1) is None);
            return None;
        }
        i += 1;
    }
}

fn find_last(text: &str, pattern: &str) -> (index: Option<usize>)
    ensures
        match index {
            Some(index) => last_upto(text@, pattern@, text@.len() as int) == Some(index as int)
                && index + pattern@.len() <= text@.len(),
            None => last_upto(text@, pattern@, text@.len() as int) is None,
        },
{
    let chars = chars_of(text);
    let wanted = chars_of(pattern);
    let mut i: usize = chars.len();
    loop
        invariant
            i <= chars@.len(),
            chars@ == text@,
            wanted@ == pattern@,
            last_upto(text@, pattern@, text@.len() as int) == last_upto(text@, pattern@, i as int),
        decreases i,
    {
        if stands_at(&chars, &wanted, i) {
            return Some(i);
        }
        if i == 0 {
            assert(last_upto(text@, pattern@, -1) is None);
            return None;
        }
        i -= 1;
    }
}

/// The texts held by an optional pair of strings.
pub open spec fn optional_pair(pair: Option<(String, String)>) -> Option<(Seq<char>, Seq<char>)> {
    match pair {
        Some((left, right)) => Some((left@, right@)),
        None => None,
    }
}

/// The parts of a text before and after the first place of a pattern.
pub fn split_once(text: &str, pattern: &str) -> (parts: Option<(String, String)>)
    ensures
        optional_pair(parts) == parted_once(text@, pattern@),
{
    match find_first(text, pattern) {
        None => None,
        Some(index) => {
            let chars = chars_of(text);
            let count: usize = chars.len();
            let width: usize = chars_of(pattern).len();
            let left = text_between(&chars, 0, index);
            let right = text_between(&chars, index + width, count);
            assert(left@ =~= text@.take(index as int));
            assert(right@ =~= text@.skip(index + pattern@.len()));
            Some((left, right))
        },
    }
}

/// The parts of a text before and after the last place of a pattern.
pub fn rsplit_once(text: &str, pattern: &str) -> (parts: Option<(String, String)>)
    ensures
        optional_pair(parts) == parted_last(text@, pattern@),
{
    match find_last(text, pattern) {
        None => None,
        Some(index) => {
            let chars = chars_of(text);
            let count: usize = chars.len();
            let width: usize = chars_of(pattern).len();
            let left = text_between(&chars, 0, index);
            let right = text_between(&chars, index + width, count);
            assert(left@ =~= text@.take(index as int));
            assert(right@ =~= text@.skip(index + pattern@.len()));
            Some((left, right))
        },
    }
}

/// A text without the given character at its end.
pub fn trim_end_matches(text: &str, c: char) -> (rest: String)
    ensures
        rest@ == trimmed_end(text@, c),
{
    let chars = chars_of(text);
    let mut end: usize = chars.len();
    assert(chars@.take(end as int) =~= chars@);
    while end > 0 && chars[end - 1] == c
        invariant
            end <= chars@.len(),
            chars@ == text@,
            trimmed_end(text@, c) == trimmed_end(chars@.take(end as int), c),
        ensures
            trimmed_end(text@, c) == chars@.take(end as int),
            end <= chars@.len(),
            chars@ == text@,
        decreases end,
    {
        assert(chars@.take(end as int).drop_last() =~= chars@.take(end - 1));
        end -= 1;
    }
    let rest = text_between(&chars, 0, end);
    assert(rest@ =~= chars@.take(end as int));
    rest
}

/// Whether two texts are the same.
pub fn same_text(left: &str, right: &str) -> (result: bool)
    ensures
        result == (left@ == right@),
{
    left.to_string() == right.to_string()
}

/// Whether two optional texts are the same.
pub fn same_optional_text(left: &Option<String>, right: &Option<String>) -> (result: bool)
    ensures
        result == (optional_text(*left) == optional_text(*right)),
{
    match (left, right) {
        (None, None) => true,
        (Some(left), Some(right)) => *left == *right,
        _ => false,
    }
}

/// The value of a decimal digit.
pub open spec fn digit_value(c: char) -> Option<nat> {
    if '0' <= c <= '9' {
        Some((c as int - 48) as nat)
    } else {
        None
    }
}

/// The value of a run of decimal digits.
pub open spec fn digits_value(text: Seq<char>) -> Option<nat>
    decreases text.len(),
{
    if text.len() == 0 {
        Some(0)
    } else {
        match (digits_value(text.drop_last()), digit_value(text.last())) {
            (Some(high), Some(low)) => Some(10 * high + low),
            _ => None,
        }
    }
}

/// The number that a text is a numeral of: at least one digit, after a plus sign at most, and no
/// larger than a machine word can hold.
pub open spec fn parsed_number(text: Seq<char>) -> Option<nat> {
    let digits = if text.len() > 0 && text[0] == '+' {
        text.skip(1)
    } else {
        text
    };
    if digits.len() == 0 {
        None
    } else {
        match digits_value(digits) {
            Some(value) if value <= usize::MAX => Some(value),
            _ => None,
        }
    }
}

proof fn lemma_digits_grow(text: Seq<char>, length: int)
    requires
        0 <= length <= text.len(),
    ensures
        digits_value(text.take(length)) is None ==> digits_value(text) is None,
        digits_value(text.take(length)) matches Some(part) ==> (digits_value(text) matches Some(
            whole,
        ) ==> part <= whole),
    decreases text.len() - length,
{
    if length == text.len() {
        assert(text.take(length) =~= text);
    } else {
        assert(text.take(length + 1).drop_last() =~= text.take(length));
        lemma_digits_grow(text, length + 1);
    }
}

/// What `str::parse` says of a text that is not a `usize` of so many bits.
pub uninterp spec fn number_failure(text: Seq<char>, bits: nat) -> Seq<char>;

/// `str::parse` on a text that is not a `usize`: its error, in its own words. These depend on how
/// many bits a `usize` has.
#[verifier::external_body]
pub(crate) fn describe_number_failure(text: &str) -> (message: String)
    requires
        parsed_number(text@) is None,
    ensures
        message@ == number_failure(text@, usize::BITS as nat),
{
    match text.parse::<usize>() {
        Ok(_) => String::new(),
        Err(error) => error.to_string(),
    }
}

/// Reads a decimal numeral.
pub fn parse_number(text: &str) -> (number: Option<usize>)
    ensures
        match number {
            Some(number) => parsed_number(text@) == Some(number as nat),
            None => parsed_number(text@) is None,
        },
{
    let chars = chars_of(text);
    let start: usize = if chars.len() > 0 && chars[0] == '+' {
        1
    } else {
        0
    };
    let ghost digits = text@.skip(start as int);
    assert(text@.skip(0) =~= text@);
    if chars.len() == start {
        return None;
    }
    let mut value: usize = 0;
    let mut i: usize = start;
    assert(digits.take(0) =~= Seq::<char>::empty());
    while i < chars.len()
        invariant
            start <= i <= chars@.len(),
            start < chars@.len(),
            chars@ == text@,
            start == if text@.len() > 0 && text@[0] == '+' {
                1int
            } else {
                0
            },
            digits == text@.skip(start as int),
            parsed_number(text@) == (match digits_value(digits) {
                Some(whole) if whole <= usize::MAX => Some(whole),
                _ => None,
            }),
            digits_value(digits.take(i - start)) == Some(value as nat),
        decreases chars@.len() - i,
    {
        let c = chars[i];
        proof {
            assert(digits.take(i - start + 1).drop_last() =~= digits.take(i - start));
            assert(digits.take(i - start + 1).last() == c);
            lemma_digits_grow(digits, i - start + 1);
        }
        if c < '0' || c > '9' {
            return None;
        }
        let low: usize = (c as u32 - 48) as usize;
        match value.checked_mul(10) {
            None => {
                return None;
            },
            Some(high) => match high.checked_add(low) {
                None => {
                    return None;
                },
                Some(sum) => {
                    value = sum;
                },
            },
        }
        i += 1;
    }
    assert(digits.take(i - start) =~= digits);
    Some(value)
}

/// A copy of a list of strings.
pub fn clone_texts(strings: &Vec<String>) -> (copy: Vec<String>)
    ensures
        copy@ == strings@,
{
    let mut copy: Vec<String> = Vec::new();
    let mut i: usize = 0;
    while i < strings.len()
        invariant
            i <= strings@.len(),
            copy@ == strings@.take(i as int),
        decreases strings@.len() - i,
    {
        copy.push(strings[i].clone());
        i += 1;
    }
    assert(strings@.take(i as int) =~= strings@);
    copy
}

/// A copy of an optional string.
pub fn clone_optional(text: &Option<String>) -> (copy: Option<String>)
    ensures
        copy == *text,
{
    match text {
        Some(text) => Some(text.clone()),
        None => None,
    }
}

/// Whether two lists of strings hold the same texts.
pub fn same_texts(left: &Vec<String>, right: &Vec<String>) -> (result: bool)
    ensures
        result == (texts(left@) == texts(right@)),
{
    let ghost a = texts(left@);
    let ghost b = texts(right@);
    if left.len() != right.len() {
        assert(a.len() != b.len());
        return false;
    }
    let mut i: usize = 0;
    while i < left.len()
        invariant
            i <= left.len() == right.len(),
            a == texts(left@),
            b == texts(right@),
            forall|j: int| 0 <= j < i ==> a[j] == b[j],
        decreases left.len() - i,
    {
        if left[i] != right[i] {
            assert(a[i as int] != b[i as int]);
            return false;
        }
        assert(a[i as int] == b[i as int]);
        i += 1;
    }
    assert(a =~= b);
    true
}

} // verus!
