//! What holds of the text helpers.

use vstd::prelude::*;

verus! {

/// A text read behind a prefix is what follows it, and the prefix and that make up the text.
pub proof fn law_prefix_and_rest_make_up_the_text(prefix: Seq<char>, rest: Seq<char>)
    ensures
        crate::text::after_prefix(prefix + rest, prefix) == Some(rest),
        crate::text::after_prefix(rest, prefix) matches Some(left) ==> rest == prefix + left,
{
    assert((prefix + rest).take(prefix.len() as int) =~= prefix);
    assert((prefix + rest).skip(prefix.len() as int) =~= rest);
    if crate::text::has_prefix(rest, prefix) {
        assert(rest =~= rest.take(prefix.len() as int) + rest.skip(prefix.len() as int));
    }
}

/// A text does not start with a prefix where it differs from it in some place.
pub proof fn lemma_no_prefix(text: Seq<char>, prefix: Seq<char>, i: int)
    requires
        0 <= i < prefix.len(),
        i < text.len() ==> text[i] != prefix[i],
    ensures
        !crate::text::has_prefix(text, prefix),
        crate::text::after_prefix(text, prefix) is None,
{
    if crate::text::has_prefix(text, prefix) {
        assert(text.take(prefix.len() as int)[i] == prefix[i]);
    }
}

/// A text parted at a pattern is the parts with the pattern between them, and the pattern does not
/// come earlier. A text without the pattern is not parted.
pub proof fn law_parting_at_the_first(text: Seq<char>, pattern: Seq<char>)
    ensures
        crate::text::parted_once(text, pattern) matches Some((left, right)) ==> text == left + pattern
            + right && forall|j: int|
            0 <= j < left.len() ==> !#[trigger] crate::text::occurs_at(text, pattern, j),
        crate::text::parted_once(text, pattern) is None ==> forall|left: Seq<char>, right: Seq<char>|
            text != #[trigger] (left + pattern + right),
{
    crate::text::lemma_first_from(text, pattern, 0);
    match crate::text::first_from(text, pattern, 0) {
        Some(index) => {
            let left = text.take(index);
            let right = text.skip(index + pattern.len());
            assert(text.subrange(index, index + pattern.len()) =~= pattern);
            assert(text =~= left + pattern + right);
        },
        None => {
            assert forall|left: Seq<char>, right: Seq<char>| text != #[trigger] (left + pattern
                + right) by {
                if text == left + pattern + right {
                    assert(text.subrange(left.len() as int, left.len() + pattern.len() as int) =~= pattern);
                    assert(crate::text::occurs_at(text, pattern, left.len() as int));
                }
            }
        },
    }
}

/// A text with a pattern in it is parted at it, where the pattern does not come earlier.
pub proof fn law_parting_finds_the_first(left: Seq<char>, pattern: Seq<char>, right: Seq<char>)
    requires
        forall|j: int|
            0 <= j < left.len() ==> !crate::text::occurs_at(left + pattern + right, pattern, j),
    ensures
        crate::text::parted_once(left + pattern + right, pattern) == Some((left, right)),
{
    let text = left + pattern + right;
    crate::text::lemma_first_from(text, pattern, 0);
    assert(text.subrange(left.len() as int, left.len() + pattern.len() as int) =~= pattern);
    assert(crate::text::occurs_at(text, pattern, left.len() as int));
    assert(text.take(left.len() as int) =~= left);
    assert(text.skip(left.len() + pattern.len() as int) =~= right);
}

/// A text parted at a single character is parted where it first comes.
pub proof fn law_parting_at_a_character(left: Seq<char>, c: char, right: Seq<char>)
    requires
        !left.contains(c),
    ensures
        crate::text::parted_once(left + seq![c] + right, seq![c]) == Some((left, right)),
{
    let text = left + seq![c] + right;
    assert forall|j: int| 0 <= j < left.len() implies !crate::text::occurs_at(
        text,
        seq![c],
        j,
    ) by {
        if crate::text::occurs_at(text, seq![c], j) {
            assert(text.subrange(j, j + 1)[0] == c);
            assert(left[j] == c);
        }
    }
    law_parting_finds_the_first(left, seq![c], right);
}

pub proof fn lemma_last_upto(text: Seq<char>, pattern: Seq<char>, end: int)
    requires
        -1 <= end,
    ensures
        match crate::text::last_upto(text, pattern, end) {
            Some(index) => index <= end && crate::text::occurs_at(text, pattern, index) && forall|
                j: int,
            |
                index < j <= end ==> !crate::text::occurs_at(text, pattern, j),
            None => forall|j: int| 0 <= j <= end ==> !crate::text::occurs_at(text, pattern, j),
        },
    decreases end + 1,
{
    if end >= 0 && !crate::text::occurs_at(text, pattern, end) {
        lemma_last_upto(text, pattern, end - 1);
    }
}

/// A text parted at the last pattern is the parts with the pattern between them, and the pattern
/// does not come later. A text without the pattern is not parted.
pub proof fn law_parting_at_the_last(text: Seq<char>, pattern: Seq<char>)
    ensures
        crate::text::parted_last(text, pattern) matches Some((left, right)) ==> text == left + pattern
            + right && forall|j: int|
            left.len() < j ==> !#[trigger] crate::text::occurs_at(text, pattern, j),
        crate::text::parted_last(text, pattern) is None ==> forall|left: Seq<char>, right: Seq<char>|
            text != #[trigger] (left + pattern + right),
{
    lemma_last_upto(text, pattern, text.len() as int);
    match crate::text::last_upto(text, pattern, text.len() as int) {
        Some(index) => {
            let left = text.take(index);
            let right = text.skip(index + pattern.len());
            assert(text.subrange(index, index + pattern.len()) =~= pattern);
            assert(text =~= left + pattern + right);
        },
        None => {
            assert forall|left: Seq<char>, right: Seq<char>| text != #[trigger] (left + pattern
                + right) by {
                if text == left + pattern + right {
                    assert(text.subrange(left.len() as int, left.len() + pattern.len() as int) =~= pattern);
                    assert(crate::text::occurs_at(text, pattern, left.len() as int));
                }
            }
        },
    }
}

/// A text with a pattern in it is parted at it, where the pattern does not come later.
pub proof fn law_parting_finds_the_last(left: Seq<char>, pattern: Seq<char>, right: Seq<char>)
    requires
        forall|j: int|
            left.len() < j ==> !#[trigger] crate::text::occurs_at(left + pattern + right, pattern, j),
    ensures
        crate::text::parted_last(left + pattern + right, pattern) == Some((left, right)),
{
    let text = left + pattern + right;
    lemma_last_upto(text, pattern, text.len() as int);
    assert(text.subrange(left.len() as int, left.len() + pattern.len() as int) =~= pattern);
    assert(crate::text::occurs_at(text, pattern, left.len() as int));
    assert(text.take(left.len() as int) =~= left);
    assert(text.skip(left.len() + pattern.len() as int) =~= right);
}

/// Trimming takes off the character at the end as often as it stands there, and nothing else.
pub proof fn law_trimming_takes_off_the_end(text: Seq<char>, c: char)
    ensures
        ({
            let rest = crate::text::trimmed_end(text, c);
            &&& rest.is_prefix_of(text)
            &&& rest.len() > 0 ==> rest.last() != c
            &&& forall|i: int| rest.len() <= i < text.len() ==> text[i] == c
        }),
    decreases text.len(),
{
    if text.len() > 0 && text.last() == c {
        law_trimming_takes_off_the_end(text.drop_last(), c);
        let rest = crate::text::trimmed_end(text, c);
        assert forall|i: int| rest.len() <= i < text.len() implies text[i] == c by {
            if i < text.len() - 1 {
                assert(text.drop_last()[i] == c);
            }
        }
        assert(rest =~= text.subrange(0, rest.len() as int));
    }
}

proof fn lemma_numeral(value: nat)
    ensures
        crate::text::digits_value(crate::text::decimal(value)) == Some(value),
        crate::text::decimal(value).len() > 0,
        crate::text::decimal(value)[0] != '+',
    decreases value,
{
    let text = crate::text::decimal(value);
    let last = if value < 10 {
        value
    } else {
        value % 10
    };
    assert(crate::text::digit(last) as int == 48 + last);
    if value < 10 {
        assert(text.drop_last() =~= Seq::<char>::empty());
        assert(crate::text::digits_value(text.drop_last()) == Some(0nat));
        assert(text.last() == crate::text::digit(last));
    } else {
        lemma_numeral(value / 10);
        assert(text.drop_last() =~= crate::text::decimal(value / 10));
        assert(text.last() == crate::text::digit(last));
    }
}

/// A number that was written as a numeral is read back.
pub proof fn law_numerals_read_back(value: usize)
    ensures
        crate::text::parsed_number(crate::text::decimal(value as nat)) == Some(value as nat),
{
    lemma_numeral(value as nat);
}

/// A text with anything but digits behind its sign is no number.
pub proof fn law_other_characters_are_no_digits(text: Seq<char>, i: int)
    requires
        0 <= i < text.len(),
        !('0' <= text[i] <= '9'),
        text[i] != '+' || i > 0,
    ensures
        crate::text::parsed_number(text) is None,
{
    let digits = if text[0] == '+' {
        text.skip(1)
    } else {
        text
    };
    let at = if text[0] == '+' {
        i - 1
    } else {
        i
    };
    assert(digits[at] == text[i]);
    lemma_no_digits(digits, at);
}

proof fn lemma_no_digits(text: Seq<char>, i: int)
    requires
        0 <= i < text.len(),
        !('0' <= text[i] <= '9'),
    ensures
        crate::text::digits_value(text) is None,
    decreases text.len(),
{
    if i < text.len() - 1 {
        lemma_no_digits(text.drop_last(), i);
    }
}

/// The value of a name in form data is that of the first pair with the name.
pub proof fn law_first_pair_counts(pairs: Seq<(Seq<char>, Seq<char>)>, name: Seq<char>)
    ensures
        match crate::encoding::first_value(pairs, name) {
            Some(value) => exists|i: int|
                0 <= i < pairs.len() && #[trigger] pairs[i] == (name, value) && forall|j: int|
                    0 <= j < i ==> (#[trigger] pairs[j]).0 != name,
            None => forall|i: int| 0 <= i < pairs.len() ==> (#[trigger] pairs[i]).0 != name,
        },
    decreases pairs.len(),
{
    if pairs.len() > 0 {
        let rest = pairs.skip(1);
        if pairs[0].0 == name {
            assert(pairs[0] == (name, pairs[0].1));
        } else {
            law_first_pair_counts(rest, name);
            match crate::encoding::first_value(rest, name) {
                Some(value) => {
                    let i = choose|i: int|
                        0 <= i < rest.len() && #[trigger] rest[i] == (name, value) && forall|j: int|
                            0 <= j < i ==> (#[trigger] rest[j]).0 != name;
                    assert(pairs[i + 1] == (name, value));
                    assert forall|j: int| 0 <= j < i + 1 implies (#[trigger] pairs[j]).0 != name by {
                        if j > 0 {
                            assert(rest[j - 1] == pairs[j]);
                        }
                    }
                },
                None => {
                    assert forall|i: int| 0 <= i < pairs.len() implies (#[trigger] pairs[i]).0
                        != name by {
                        if i > 0 {
                            assert(rest[i - 1] == pairs[i]);
                        }
                    }
                },
            }
        }
    }
}

} // verus!
