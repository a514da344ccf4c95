//! The order of texts, lower case, and sorting.

use crate::text::chars_of;
use vstd::prelude::*;

verus! {

/// Whether a text stands before another, or is the same: by the first character in which they
/// differ, and a prefix before what it is a prefix of.
pub open spec fn text_le(left: Seq<char>, right: Seq<char>) -> bool
    decreases left.len(),
{
    if left.len() == 0 {
        true
    } else if right.len() == 0 {
        false
    } else if left[0] == right[0] {
        text_le(left.skip(1), right.skip(1))
    } else {
        left[0] < right[0]
    }
}

/// The order of texts is total: of two texts one stands before the other, and both do only where
/// they are the same.
pub proof fn law_text_order_is_total(left: Seq<char>, right: Seq<char>)
    ensures
        text_le(left, left),
        text_le(left, right) || text_le(right, left),
        text_le(left, right) && text_le(right, left) ==> left == right,
    decreases left.len(),
{
    if left.len() == 0 {
        if right.len() == 0 {
            assert(left =~= right);
        }
    } else {
        law_text_order_is_total(left.skip(1), left.skip(1));
        if right.len() > 0 {
            law_text_order_is_total(left.skip(1), right.skip(1));
            if left[0] == right[0] && left.skip(1) == right.skip(1) {
                assert(left =~= seq![left[0]] + left.skip(1));
                assert(right =~= seq![right[0]] + right.skip(1));
            }
        }
    }
}

/// The order of texts carries over.
pub proof fn law_text_order_is_transitive(a: Seq<char>, b: Seq<char>, c: Seq<char>)
    requires
        text_le(a, b),
        text_le(b, c),
    ensures
        text_le(a, c),
    decreases a.len(),
{
    if a.len() > 0 && b.len() > 0 && c.len() > 0 && a[0] == b[0] && b[0] == c[0] {
        law_text_order_is_transitive(a.skip(1), b.skip(1), c.skip(1));
    }
}

/// Whether a text stands before another, or is the same.
pub fn is_text_le(left: &str, right: &str) -> (result: bool)
    ensures
        result == text_le(left@, right@),
{
    let a = chars_of(left);
    let b = chars_of(right);
    let mut i: usize = 0;
    assert(a@.skip(0) =~= a@);
    assert(b@.skip(0) =~= b@);
    while i < a.len() && i < b.len()
        invariant
            i <= a@.len(),
            i <= b@.len(),
            a@ == left@,
            b@ == right@,
            text_le(left@, right@) == text_le(a@.skip(i as int), b@.skip(i as int)),
        decreases a@.len() - i,
    {
        proof {
            assert(a@.skip(i as int)[0] == a@[i as int]);
            assert(b@.skip(i as int)[0] == b@[i as int]);
            assert(a@.skip(i as int).skip(1) =~= a@.skip(i + 1));
            assert(b@.skip(i as int).skip(1) =~= b@.skip(i + 1));
        }
        if a[i] != b[i] {
            return a[i] < b[i];
        }
        i += 1;
    }
    i == a.len()
}

/// What `str::to_lowercase` makes of a text.
pub uninterp spec fn lowercase(text: Seq<char>) -> Seq<char>;

/// `str::to_lowercase`.
#[verifier::external_body]
pub(crate) fn to_lowercase(text: &str) -> (lower: String)
    ensures
        lower@ == lowercase(text@),
{
    text.to_lowercase()
}

/// Sorted places with another one put behind all whose keys do not follow its key.
pub open spec fn with_place(keys: Seq<Seq<char>>, places: Seq<int>, place: int) -> Seq<int>
    decreases places.len(),
{
    if places.len() == 0 || text_le(keys[places.last()], keys[place]) {
        places.push(place)
    } else {
        with_place(keys, places.drop_last(), place).push(places.last())
    }
}

/// The places of the first keys, in the order of the keys; places of the same key stay in order.
pub open spec fn sorted_upto(keys: Seq<Seq<char>>, count: nat) -> Seq<int>
    decreases count,
{
    if count == 0 {
        Seq::<int>::empty()
    } else {
        with_place(keys, sorted_upto(keys, (count - 1) as nat), count - 1)
    }
}

/// The places of all keys, in the order of the keys.
pub open spec fn sorted_places(keys: Seq<Seq<char>>) -> Seq<int> {
    sorted_upto(keys, keys.len())
}

/// Whether places are in the order of their keys, and places of the same key in their own order.
pub open spec fn places_in_order(keys: Seq<Seq<char>>, places: Seq<int>) -> bool {
    forall|i: int, j: int|
        0 <= i < j < places.len() ==> text_le(keys[#[trigger] places[i]], keys[#[trigger] places[j]])
            && (keys[places[i]] == keys[places[j]] ==> places[i] < places[j])
}

proof fn lemma_with_place(keys: Seq<Seq<char>>, places: Seq<int>, place: int)
    requires
        places_in_order(keys, places),
        forall|i: int| 0 <= i < places.len() ==> #[trigger] places[i] < place,
    ensures
        places_in_order(keys, with_place(keys, places, place)),
        with_place(keys, places, place).len() == places.len() + 1,
        forall|x: int| #[trigger]
            with_place(keys, places, place).contains(x) <==> places.contains(x) || x == place,
    decreases places.len(),
{
    let result = with_place(keys, places, place);
    if places.len() == 0 || text_le(keys[places.last()], keys[place]) {
        assert forall|i: int, j: int| 0 <= i < j < result.len() implies text_le(
            keys[#[trigger] result[i]],
            keys[#[trigger] result[j]],
        ) && (keys[result[i]] == keys[result[j]] ==> result[i] < result[j]) by {
            if j == places.len() {
                assert(result[i] == places[i]);
                if i < places.len() - 1 {
                    assert(places[places.len() - 1] == places.last());
                    law_text_order_is_transitive(keys[places[i]], keys[places.last()], keys[place]);
                }
            } else {
                assert(result[i] == places[i] && result[j] == places[j]);
            }
        }
        assert forall|x: int| #[trigger] result.contains(x) <==> places.contains(x) || x == place by {
            if places.contains(x) {
                let i = choose|i: int| 0 <= i < places.len() && places[i] == x;
                assert(result[i] == x);
            }
            if x == place {
                assert(result[places.len() as int] == x);
            }
        }
    } else {
        let front = places.drop_last();
        let last = places.last();
        lemma_with_place(keys, front, place);
        law_text_order_is_total(keys[last], keys[place]);
        let inner = with_place(keys, front, place);
        assert forall|i: int, j: int| 0 <= i < j < result.len() implies text_le(
            keys[#[trigger] result[i]],
            keys[#[trigger] result[j]],
        ) && (keys[result[i]] == keys[result[j]] ==> result[i] < result[j]) by {
            assert(result[i] == inner[i]);
            if j == inner.len() {
                assert(inner.contains(inner[i]));
                if inner[i] != place {
                    let k = choose|k: int| 0 <= k < front.len() && front[k] == inner[i];
                    assert(places[k] == front[k]);
                    assert(places[places.len() - 1] == last);
                }
            } else {
                assert(result[j] == inner[j]);
            }
        }
        assert forall|x: int| #[trigger] result.contains(x) <==> places.contains(x) || x == place by {
            if result.contains(x) {
                let i = choose|i: int| 0 <= i < result.len() && result[i] == x;
                if i < inner.len() {
                    assert(inner.contains(inner[i]));
                    if front.contains(x) {
                        let k = choose|k: int| 0 <= k < front.len() && front[k] == x;
                        assert(places[k] == x);
                    }
                } else {
                    assert(places[places.len() - 1] == x);
                }
            }
            if places.contains(x) {
                let i = choose|i: int| 0 <= i < places.len() && places[i] == x;
                if i < front.len() {
                    assert(front[i] == x);
                    assert(inner.contains(x));
                    let k = choose|k: int| 0 <= k < inner.len() && inner[k] == x;
                    assert(result[k] == x);
                } else {
                    assert(result[inner.len() as int] == x);
                }
            }
            if x == place {
                assert(inner.contains(x));
                let k = choose|k: int| 0 <= k < inner.len() && inner[k] == x;
                assert(result[k] == x);
            }
        }
    }
}

proof fn lemma_sorted_upto(keys: Seq<Seq<char>>, count: nat)
    requires
        count <= keys.len(),
    ensures
        sorted_upto(keys, count).len() == count,
        places_in_order(keys, sorted_upto(keys, count)),
        forall|x: int| #[trigger] sorted_upto(keys, count).contains(x) <==> 0 <= x < count,
    decreases count,
{
    if count > 0 {
        let before = sorted_upto(keys, (count - 1) as nat);
        lemma_sorted_upto(keys, (count - 1) as nat);
        assert forall|i: int| 0 <= i < before.len() implies #[trigger] before[i] < count - 1 by {
            assert(before.contains(before[i]));
        }
        lemma_with_place(keys, before, count - 1);
    }
}

/// Sorting puts every place once, in the order of the keys, and leaves places of the same key in
/// their own order.
pub proof fn law_sorting_is_stable(keys: Seq<Seq<char>>)
    ensures
        sorted_places(keys).len() == keys.len(),
        sorted_places(keys).no_duplicates(),
        forall|x: int| #[trigger] sorted_places(keys).contains(x) <==> 0 <= x < keys.len(),
        places_in_order(keys, sorted_places(keys)),
{
    lemma_sorted_upto(keys, keys.len());
    let places = sorted_places(keys);
    assert forall|i: int, j: int| 0 <= i < places.len() && 0 <= j < places.len() && i != j implies places[i]
        != places[j] by {
        if i < j {
            assert(places[i] == places[j] ==> keys[places[i]] == keys[places[j]]);
        } else {
            assert(places[j] == places[i] ==> keys[places[j]] == keys[places[i]]);
        }
    }
}

/// Items put at the places of a rearrangement are the same items.
pub proof fn lemma_rearranged<A>(items: Seq<A>, places: Seq<int>)
    requires
        places.len() == items.len(),
        places.no_duplicates(),
        forall|x: int| #[trigger] places.contains(x) <==> 0 <= x < items.len(),
    ensures
        Seq::new(places.len(), |i: int| items[places[i]]).to_multiset() == items.to_multiset(),
    decreases items.len(),
{
    let result = Seq::new(places.len(), |i: int| items[places[i]]);
    if items.len() == 0 {
        assert(result =~= items);
    } else {
        let last = items.len() - 1;
        assert(places.contains(last));
        let at = choose|at: int| 0 <= at < places.len() && places[at] == last;
        let fewer = places.remove(at);
        let front = items.drop_last();
        assert forall|x: int| #[trigger] fewer.contains(x) <==> 0 <= x < front.len() by {
            if fewer.contains(x) {
                let k = choose|k: int| 0 <= k < fewer.len() && fewer[k] == x;
                let from = if k < at {
                    k
                } else {
                    k + 1
                };
                assert(places[from] == x);
                assert(places.contains(x));
                assert(from != at);
                assert(x != last);
            }
            if 0 <= x < front.len() {
                assert(places.contains(x));
                let k = choose|k: int| 0 <= k < places.len() && places[k] == x;
                if k < at {
                    assert(fewer[k] == x);
                } else {
                    assert(fewer[k - 1] == x);
                }
            }
        }
        assert(fewer.no_duplicates());
        lemma_rearranged(front, fewer);
        let inner = Seq::new(fewer.len(), |i: int| front[fewer[i]]);
        assert forall|i: int| 0 <= i < inner.len() implies inner[i] == result.remove(at)[i] by {
            assert(fewer.contains(fewer[i]));
        }
        assert(inner =~= result.remove(at));
        assert(result[at] == items[last]);
        assert(result =~= result.remove(at).insert(at, result[at]));
        vstd::seq_lib::to_multiset_insert(result.remove(at), at, result[at]);
        assert(items =~= front.push(items[last]));
        vstd::seq_lib::to_multiset_build(front, items[last]);
    }
}

/// The places that numbers stand for.
pub open spec fn as_places(numbers: Seq<usize>) -> Seq<int> {
    Seq::new(numbers.len(), |i: int| numbers[i] as int)
}

/// Puts the place of a key among sorted places.
fn insert_place(keys: &Vec<String>, places: &mut Vec<usize>, place: usize)
    requires
        place < keys@.len(),
        forall|i: int| 0 <= i < old(places)@.len() ==> #[trigger] old(places)@[i] < keys@.len(),
    ensures
        as_places(final(places)@) == with_place(
            crate::text::texts(keys@),
            as_places(old(places)@),
            place as int,
        ),
        forall|i: int| 0 <= i < final(places)@.len() ==> #[trigger] final(places)@[i] < keys@.len(),
{
    let ghost all = crate::text::texts(keys@);
    let ghost before = places@;
    let ghost was = as_places(before);
    let mut at: usize = places.len();
    assert(was.take(at as int) =~= was);
    assert(with_place(all, was, place as int) =~= with_place(
        all,
        was.take(at as int),
        place as int,
    ) + was.skip(at as int));
    while at > 0 && !is_text_le(keys[places[at - 1]].as_str(), keys[place].as_str())
        invariant
            at <= places@.len(),
            place < keys@.len(),
            places@ == before,
            was == as_places(before),
            all == crate::text::texts(keys@),
            forall|i: int| 0 <= i < before.len() ==> #[trigger] before[i] < keys@.len(),
            with_place(all, was, place as int) == with_place(
                all,
                was.take(at as int),
                place as int,
            ) + was.skip(at as int),
        ensures
            at <= places@.len(),
            places@ == before,
            with_place(all, was, place as int) == was.take(at as int).push(place as int)
                + was.skip(at as int),
        decreases at,
    {
        proof {
            let front = was.take(at as int);
            assert(front.last() == was[at - 1]);
            assert(front.drop_last() =~= was.take(at - 1));
            assert(with_place(all, front.drop_last(), place as int).push(front.last()) + was.skip(
                at as int,
            ) =~= with_place(all, front.drop_last(), place as int) + was.skip(at - 1));
        }
        at -= 1;
    }
    places.insert(at, place);
    proof {
        assert(as_places(places@) =~= was.take(at as int).push(place as int) + was.skip(at as int));
        assert forall|i: int| 0 <= i < places@.len() implies #[trigger] places@[i] < keys@.len() by {
            if i < at {
                assert(places@[i] == before[i]);
            } else if i > at {
                assert(places@[i] == before[i - 1]);
            }
        }
    }
}

/// Sorts the places of keys by the keys.
pub fn sort_places(keys: &Vec<String>) -> (places: Vec<usize>)
    ensures
        as_places(places@) == sorted_places(crate::text::texts(keys@)),
        forall|i: int| 0 <= i < places@.len() ==> #[trigger] places@[i] < keys@.len(),
{
    let mut places: Vec<usize> = Vec::new();
    let mut i: usize = 0;
    assert(as_places(places@) =~= Seq::<int>::empty());
    while i < keys.len()
        invariant
            i <= keys@.len(),
            as_places(places@) == sorted_upto(crate::text::texts(keys@), i as nat),
            forall|j: int| 0 <= j < places@.len() ==> #[trigger] places@[j] < keys@.len(),
        decreases keys@.len() - i,
    {
        insert_place(keys, &mut places, i);
        i += 1;
    }
    places
}

} // verus!
