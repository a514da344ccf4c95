//! What makes a layout well formed, told from its parts.

use crate::error::Violation;
use crate::ids::{PaneId, SessionItemId};
use crate::layout as tree;
use crate::layout::{ItemModel, LayoutAxis, LayoutEntry, LayoutModel, PaneModel};
use vstd::prelude::*;

verus! {

/// Whether a pane stands somewhere in a layout.
pub open spec fn holds_pane(layout: LayoutModel, pane: PaneModel) -> bool
    decreases layout,
{
    match layout {
        LayoutModel::Pane(own) => own == pane,
        LayoutModel::Axis { children, .. } => one_holds_pane(children, pane),
    }
}

/// Whether a pane stands somewhere in one of a list of layouts.
pub open spec fn one_holds_pane(layouts: Seq<LayoutModel>, pane: PaneModel) -> bool
    decreases layouts,
{
    layouts.len() > 0 && (one_holds_pane(layouts.drop_last(), pane) || holds_pane(
        layouts.last(),
        pane,
    ))
}

proof fn lemma_one_holds(layouts: Seq<LayoutModel>, pane: PaneModel)
    ensures
        one_holds_pane(layouts, pane) <==> exists|c: int|
            0 <= c < layouts.len() && #[trigger] holds_pane(layouts[c], pane),
    decreases layouts.len(),
{
    if layouts.len() > 0 {
        let earlier = layouts.drop_last();
        lemma_one_holds(earlier, pane);
        if one_holds_pane(earlier, pane) {
            let c = choose|c: int| 0 <= c < earlier.len() && #[trigger] holds_pane(earlier[c], pane);
            assert(holds_pane(layouts[c], pane));
        }
        if holds_pane(layouts.last(), pane) {
            assert(holds_pane(layouts[layouts.len() - 1], pane));
        }
        if exists|c: int| 0 <= c < layouts.len() && #[trigger] holds_pane(layouts[c], pane) {
            let c = choose|c: int| 0 <= c < layouts.len() && #[trigger] holds_pane(layouts[c], pane);
            if c < earlier.len() {
                assert(holds_pane(earlier[c], pane));
            }
        }
    }
}

/// Whether two panes can stand in one layout: they have different identities, share no item, and
/// are not both focused.
pub open spec fn go_together(left: PaneModel, right: PaneModel) -> bool {
    &&& left.id != right.id
    &&& !(left.focused && right.focused)
    &&& forall|i: int, j: int|
        0 <= i < left.items.len() && 0 <= j < right.items.len() ==> (#[trigger] left.items[i]).id != (
        #[trigger] right.items[j]).id
}

spec fn sound(entries: Seq<LayoutEntry>) -> bool {
    &&& forall|i: int|
        0 <= i < entries.len() ==> tree::proper_axis(#[trigger] entries[i]) && tree::proper_pane(
            entries[i],
        )
    &&& forall|i: int, j: int|
        0 <= i < j < entries.len() ==> tree::apart(#[trigger] entries[i], #[trigger] entries[j])
    &&& tree::focused_count(entries) <= 1
}

spec fn has_entry(entries: Seq<LayoutEntry>, pane: PaneModel) -> bool {
    exists|i: int| 0 <= i < entries.len() && #[trigger] entries[i] == LayoutEntry::Pane(pane)
}

spec fn compatible(left: Seq<LayoutEntry>, right: Seq<LayoutEntry>) -> bool {
    forall|a: PaneModel, b: PaneModel| #[trigger]
        has_entry(left, a) && #[trigger] has_entry(right, b) ==> go_together(a, b)
}

proof fn lemma_focused_parts(left: Seq<LayoutEntry>, right: Seq<LayoutEntry>)
    ensures
        tree::focused_count(left + right) == tree::focused_count(left) + tree::focused_count(right),
    decreases right.len(),
{
    if right.len() == 0 {
        assert(left + right =~= left);
    } else {
        assert((left + right).drop_last() =~= left + right.drop_last());
        lemma_focused_parts(left, right.drop_last());
    }
}

proof fn lemma_focused(entries: Seq<LayoutEntry>)
    ensures
        tree::focused_count(entries) > 0 <==> exists|pane: PaneModel| #[trigger]
            has_entry(entries, pane) && pane.focused,
    decreases entries.len(),
{
    if entries.len() > 0 {
        let earlier = entries.drop_last();
        lemma_focused(earlier);
        if tree::focused_count(earlier) > 0 {
            let pane = choose|pane: PaneModel| #[trigger] has_entry(earlier, pane) && pane.focused;
            let i = choose|i: int|
                0 <= i < earlier.len() && #[trigger] earlier[i] == LayoutEntry::Pane(pane);
            assert(entries[i] == LayoutEntry::Pane(pane));
            assert(has_entry(entries, pane));
        }
        match entries.last() {
            LayoutEntry::Pane(pane) => {
                assert(entries[entries.len() - 1] == LayoutEntry::Pane(pane));
                assert(has_entry(entries, pane));
            },
            _ => {},
        }
        if exists|pane: PaneModel| #[trigger] has_entry(entries, pane) && pane.focused {
            let pane = choose|pane: PaneModel| #[trigger] has_entry(entries, pane) && pane.focused;
            let i = choose|i: int|
                0 <= i < entries.len() && #[trigger] entries[i] == LayoutEntry::Pane(pane);
            if i < earlier.len() {
                assert(earlier[i] == LayoutEntry::Pane(pane));
                assert(has_entry(earlier, pane));
            }
        }
    }
}

proof fn lemma_apart(left: PaneModel, right: PaneModel)
    ensures
        tree::apart(LayoutEntry::Pane(left), LayoutEntry::Pane(right)) <==> left.id != right.id
            && forall|i: int, j: int|
            0 <= i < left.items.len() && 0 <= j < right.items.len() ==> (#[trigger] left.items[i]).id
                != (#[trigger] right.items[j]).id,
{
    if left.id != right.id {
        if forall|i: int, j: int|
            0 <= i < left.items.len() && 0 <= j < right.items.len() ==> (#[trigger] left.items[i]).id
                != (#[trigger] right.items[j]).id {
            assert forall|id: SessionItemId| tree::lists_item(
                left.items,
                id,
            ) implies !tree::lists_item(right.items, id) by {
                let i = choose|i: int|
                    0 <= i < left.items.len() && (#[trigger] left.items[i]).id == id;
            }
        } else {
            let (i, j) = choose|i: int, j: int|
                0 <= i < left.items.len() && 0 <= j < right.items.len() && (
                #[trigger] left.items[i]).id == (#[trigger] right.items[j]).id;
            assert(tree::lists_item(left.items, left.items[i].id));
            assert(tree::lists_item(right.items, left.items[i].id));
        }
    }
}

proof fn lemma_sound_parts(left: Seq<LayoutEntry>, right: Seq<LayoutEntry>)
    ensures
        sound(left + right) <==> sound(left) && sound(right) && compatible(left, right),
{
    let all = left + right;
    lemma_focused_parts(left, right);
    lemma_focused(left);
    lemma_focused(right);
    assert forall|i: int| 0 <= i < left.len() implies #[trigger] all[i] == left[i] by {}
    assert forall|i: int| 0 <= i < right.len() implies #[trigger] right[i] == all[left.len() + i] by {}
    if sound(all) {
        assert forall|i: int| 0 <= i < left.len() implies tree::proper_axis(#[trigger] left[i])
            && tree::proper_pane(left[i]) by {
            assert(all[i] == left[i]);
        }
        assert forall|i: int| 0 <= i < right.len() implies tree::proper_axis(#[trigger] right[i])
            && tree::proper_pane(right[i]) by {
            assert(all[left.len() + i] == right[i]);
        }
        assert forall|i: int, j: int| 0 <= i < j < left.len() implies tree::apart(
            #[trigger] left[i],
            #[trigger] left[j],
        ) by {
            assert(all[i] == left[i] && all[j] == left[j]);
        }
        assert forall|i: int, j: int| 0 <= i < j < right.len() implies tree::apart(
            #[trigger] right[i],
            #[trigger] right[j],
        ) by {
            assert(tree::apart(all[left.len() + i], all[left.len() + j]));
        }
        assert forall|a: PaneModel, b: PaneModel| #[trigger]
            has_entry(left, a) && #[trigger] has_entry(right, b) implies go_together(a, b) by {
            let i = choose|i: int| 0 <= i < left.len() && #[trigger] left[i] == LayoutEntry::Pane(a);
            let j = choose|j: int|
                0 <= j < right.len() && #[trigger] right[j] == LayoutEntry::Pane(b);
            assert(tree::apart(all[i], all[left.len() + j]));
            lemma_apart(a, b);
        }
    }
    if sound(left) && sound(right) && compatible(left, right) {
        assert forall|i: int| 0 <= i < all.len() implies tree::proper_axis(#[trigger] all[i])
            && tree::proper_pane(all[i]) by {
            if i >= left.len() {
                assert(right[i - left.len()] == all[i]);
            }
        }
        assert forall|i: int, j: int| 0 <= i < j < all.len() implies tree::apart(
            #[trigger] all[i],
            #[trigger] all[j],
        ) by {
            if j < left.len() {
                assert(tree::apart(left[i], left[j]));
            } else if i >= left.len() {
                assert(tree::apart(right[i - left.len()], right[j - left.len()]));
            } else {
                assert(all[i] == left[i] && all[j] == right[j - left.len()]);
                match (all[i], all[j]) {
                    (LayoutEntry::Pane(a), LayoutEntry::Pane(b)) => {
                        assert(has_entry(left, a));
                        assert(has_entry(right, b));
                        lemma_apart(a, b);
                    },
                    _ => {},
                }
            }
        }
        if tree::focused_count(left) > 0 && tree::focused_count(right) > 0 {
            let a = choose|pane: PaneModel| #[trigger] has_entry(left, pane) && pane.focused;
            let b = choose|pane: PaneModel| #[trigger] has_entry(right, pane) && pane.focused;
            assert(go_together(a, b));
        }
    }
}

proof fn lemma_entries_all(layouts: Seq<LayoutModel>, pane: PaneModel)
    ensures
        has_entry(tree::preorder_all(layouts), pane) <==> exists|c: int|
            0 <= c < layouts.len() && has_entry(tree::preorder(#[trigger] layouts[c]), pane),
    decreases layouts.len(),
{
    if layouts.len() > 0 {
        let earlier = layouts.drop_last();
        let before = tree::preorder_all(earlier);
        let last = tree::preorder(layouts.last());
        let all = tree::preorder_all(layouts);
        lemma_entries_all(earlier, pane);
        assert(layouts[layouts.len() - 1] == layouts.last());
        if has_entry(all, pane) {
            let i = choose|i: int| 0 <= i < all.len() && #[trigger] all[i] == LayoutEntry::Pane(pane);
            if i < before.len() {
                assert(before[i] == LayoutEntry::Pane(pane));
                let c = choose|c: int|
                    0 <= c < earlier.len() && has_entry(tree::preorder(#[trigger] earlier[c]), pane);
                assert(layouts[c] == earlier[c]);
            } else {
                assert(last[i - before.len()] == LayoutEntry::Pane(pane));
            }
        }
        if exists|c: int|
            0 <= c < layouts.len() && has_entry(tree::preorder(#[trigger] layouts[c]), pane) {
            let c = choose|c: int|
                0 <= c < layouts.len() && has_entry(tree::preorder(#[trigger] layouts[c]), pane);
            if c < earlier.len() {
                assert(earlier[c] == layouts[c]);
                let i = choose|i: int|
                    0 <= i < before.len() && #[trigger] before[i] == LayoutEntry::Pane(pane);
                assert(all[i] == LayoutEntry::Pane(pane));
            } else {
                let i = choose|i: int|
                    0 <= i < last.len() && #[trigger] last[i] == LayoutEntry::Pane(pane);
                assert(all[before.len() + i] == LayoutEntry::Pane(pane));
            }
        }
    }
}

proof fn lemma_entries(layout: LayoutModel, pane: PaneModel)
    ensures
        has_entry(tree::preorder(layout), pane) <==> holds_pane(layout, pane),
    decreases layout,
{
    let entries = tree::preorder(layout);
    match layout {
        LayoutModel::Pane(own) => {
            assert(entries =~= seq![LayoutEntry::Pane(own)]);
            assert(entries[0] == LayoutEntry::Pane(own));
            if has_entry(entries, pane) {
                let i = choose|i: int|
                    0 <= i < entries.len() && #[trigger] entries[i] == LayoutEntry::Pane(pane);
                assert(entries[i] == LayoutEntry::Pane(own));
                assert(own == pane);
                assert(holds_pane(layout, pane));
            }
            if own == pane {
                assert(has_entry(entries, pane));
            }
        },
        LayoutModel::Axis { flexes, children, .. } => {
            let below = tree::preorder_all(children);
            lemma_entries_all(children, pane);
            lemma_one_holds(children, pane);
            assert forall|c: int| 0 <= c < children.len() implies (has_entry(
                tree::preorder(#[trigger] children[c]),
                pane,
            ) <==> holds_pane(children[c], pane)) by {
                lemma_entries(children[c], pane);
            }
            if has_entry(entries, pane) {
                let i = choose|i: int|
                    0 <= i < entries.len() && #[trigger] entries[i] == LayoutEntry::Pane(pane);
                assert(i > 0);
                assert(below[i - 1] == LayoutEntry::Pane(pane));
                let c = choose|c: int|
                    0 <= c < children.len() && has_entry(
                        tree::preorder(#[trigger] children[c]),
                        pane,
                    );
                assert(holds_pane(children[c], pane));
                assert(holds_pane(layout, pane));
            }
            if holds_pane(layout, pane) {
                let c = choose|c: int|
                    0 <= c < children.len() && #[trigger] holds_pane(children[c], pane);
                assert(has_entry(tree::preorder(children[c]), pane));
                assert(has_entry(below, pane));
                let i = choose|i: int|
                    0 <= i < below.len() && #[trigger] below[i] == LayoutEntry::Pane(pane);
                assert(entries[i + 1] == LayoutEntry::Pane(pane));
                assert(has_entry(entries, pane));
            }
        },
    }
}

proof fn lemma_sound_all(layouts: Seq<LayoutModel>)
    ensures
        sound(tree::preorder_all(layouts)) <==> (forall|c: int|
            0 <= c < layouts.len() ==> sound(tree::preorder(#[trigger] layouts[c]))) && forall|
            c: int,
            d: int,
        |
            0 <= c < d < layouts.len() ==> compatible(
                tree::preorder(#[trigger] layouts[c]),
                tree::preorder(#[trigger] layouts[d]),
            ),
    decreases layouts.len(),
{
    if layouts.len() > 0 {
        let earlier = layouts.drop_last();
        let before = tree::preorder_all(earlier);
        let last = tree::preorder(layouts.last());
        lemma_sound_all(earlier);
        lemma_sound_parts(before, last);
        assert(layouts[layouts.len() - 1] == layouts.last());
        assert(forall|c: int| 0 <= c < earlier.len() ==> (#[trigger] layouts[c]) == earlier[c]);
        assert(forall|c: int| 0 <= c < earlier.len() ==> layouts[c] == (#[trigger] earlier[c]));
        if compatible(before, last) {
            assert forall|c: int| 0 <= c < earlier.len() implies compatible(
                tree::preorder(#[trigger] layouts[c]),
                last,
            ) by {
                assert forall|a: PaneModel, b: PaneModel| #[trigger]
                    has_entry(tree::preorder(layouts[c]), a) && #[trigger] has_entry(
                        last,
                        b,
                    ) implies go_together(a, b) by {
                    lemma_entries_all(earlier, a);
                    assert(has_entry(tree::preorder(earlier[c]), a));
                    assert(has_entry(before, a));
                }
            }
        }
        if forall|c: int, d: int|
            0 <= c < d < layouts.len() ==> compatible(
                tree::preorder(#[trigger] layouts[c]),
                tree::preorder(#[trigger] layouts[d]),
            ) {
            assert forall|a: PaneModel, b: PaneModel| #[trigger]
                has_entry(before, a) && #[trigger] has_entry(last, b) implies go_together(a, b) by {
                lemma_entries_all(earlier, a);
                let c = choose|c: int|
                    0 <= c < earlier.len() && has_entry(tree::preorder(#[trigger] earlier[c]), a);
                assert(compatible(
                    tree::preorder(layouts[c]),
                    tree::preorder(layouts[layouts.len() - 1]),
                ));
            }
        }
    } else {
        assert(tree::preorder_all(layouts) =~= Seq::<LayoutEntry>::empty());
    }
}

/// A pane is accepted on its own exactly where its items have absolute paths and differ in identity,
/// and its active item, if it has one, is among them.
pub proof fn law_panes_are_checked(pane: PaneModel)
    ensures
        tree::layout_violation(LayoutModel::Pane(pane)) is None <==> {
            &&& forall|i: int|
                0 <= i < pane.items.len() ==> crate::path::absolute((#[trigger] pane.items[i]).path)
            &&& forall|i: int, j: int|
                0 <= i < j < pane.items.len() ==> (#[trigger] pane.items[i]).id != (
                #[trigger] pane.items[j]).id
            &&& pane.active_item_id matches Some(active) ==> exists|i: int|
                0 <= i < pane.items.len() && (#[trigger] pane.items[i]).id == active
        },
{
    let layout = LayoutModel::Pane(pane);
    let entries = tree::preorder(layout);
    tree::law_layout_violation_iff_not_valid(layout);
    assert(entries =~= seq![LayoutEntry::Pane(pane)]);
    assert(entries.drop_last() =~= Seq::<LayoutEntry>::empty());
    assert(tree::focused_count(entries.drop_last()) == 0);
    assert(tree::focused_count(entries) <= 1);
    assert(entries[0] == LayoutEntry::Pane(pane));
}

/// An axis is accepted exactly where it has at least two children, each with a finite share above
/// zero, each accepted on its own, and no two of them hold panes that cannot stand together.
pub proof fn law_axes_are_checked(axis: LayoutAxis, flexes: Seq<u32>, children: Seq<LayoutModel>)
    ensures
        tree::layout_violation(LayoutModel::Axis { axis, flexes, children }) is None <==> {
            &&& children.len() >= 2
            &&& flexes.len() == children.len()
            &&& forall|c: int| 0 <= c < flexes.len() ==> 0 < #[trigger] flexes[c] < 0x7f80_0000
            &&& forall|c: int|
                0 <= c < children.len() ==> tree::layout_violation(#[trigger] children[c]) is None
            &&& forall|c: int, d: int, a: PaneModel, b: PaneModel|
                0 <= c < d < children.len() && #[trigger] holds_pane(children[c], a)
                    && #[trigger] holds_pane(children[d], b) ==> go_together(a, b)
        },
{
    let layout = LayoutModel::Axis { axis, flexes, children };
    let first = seq![LayoutEntry::Axis { flexes, child_count: children.len() }];
    let below = tree::preorder_all(children);
    tree::law_layout_violation_iff_not_valid(layout);
    assert(tree::layout_valid(layout) <==> sound(first + below));
    lemma_sound_parts(first, below);
    lemma_sound_all(children);
    assert(first.drop_last() =~= Seq::<LayoutEntry>::empty());
    assert(tree::focused_count(first.drop_last()) == 0);
    assert(tree::focused_count(first) == 0);
    assert(first[0] == LayoutEntry::Axis { flexes, child_count: children.len() });
    assert(sound(first) <==> tree::proper_axis(first[0]));
    assert(compatible(first, below)) by {
        assert forall|a: PaneModel, b: PaneModel| #[trigger]
            has_entry(first, a) && #[trigger] has_entry(below, b) implies go_together(a, b) by {
            let i = choose|i: int|
                0 <= i < first.len() && #[trigger] first[i] == LayoutEntry::Pane(a);
        }
    }
    assert forall|c: int| 0 <= c < children.len() implies (sound(
        tree::preorder(#[trigger] children[c]),
    ) <==> tree::layout_violation(children[c]) is None) by {
        tree::law_layout_violation_iff_not_valid(children[c]);
    }
    assert forall|c: int, pane: PaneModel| 0 <= c < children.len() implies (has_entry(
        tree::preorder(children[c]),
        pane,
    ) <==> #[trigger] holds_pane(children[c], pane)) by {
        lemma_entries(children[c], pane);
    }
    if forall|c: int, d: int|
        0 <= c < d < children.len() ==> compatible(
            tree::preorder(#[trigger] children[c]),
            tree::preorder(#[trigger] children[d]),
        ) {
        assert forall|c: int, d: int, a: PaneModel, b: PaneModel|
            0 <= c < d < children.len() && #[trigger] holds_pane(children[c], a)
                && #[trigger] holds_pane(children[d], b) implies go_together(a, b) by {
            assert(compatible(tree::preorder(children[c]), tree::preorder(children[d])));
            assert(has_entry(tree::preorder(children[c]), a));
            assert(has_entry(tree::preorder(children[d]), b));
        }
    }
    if forall|c: int, d: int, a: PaneModel, b: PaneModel|
        0 <= c < d < children.len() && #[trigger] holds_pane(children[c], a)
            && #[trigger] holds_pane(children[d], b) ==> go_together(a, b) {
        assert forall|c: int, d: int| 0 <= c < d < children.len() implies compatible(
            tree::preorder(#[trigger] children[c]),
            tree::preorder(#[trigger] children[d]),
        ) by {
            assert forall|a: PaneModel, b: PaneModel| #[trigger]
                has_entry(tree::preorder(children[c]), a) && #[trigger] has_entry(
                    tree::preorder(children[d]),
                    b,
                ) implies go_together(a, b) by {
                assert(holds_pane(children[c], a));
                assert(holds_pane(children[d], b));
            }
        }
    }
}

/// A blank pane has its identity and the focus, and shows nothing.
pub proof fn law_blank_panes_are_empty(id: PaneId)
    ensures
        tree::empty_pane(id).id == id,
        tree::empty_pane(id).items == Seq::<ItemModel>::empty(),
        tree::empty_pane(id).active_item_id is None,
        tree::empty_pane(id).focused,
{
}

proof fn lemma_first_entry_decides(entries: Seq<LayoutEntry>)
    requires
        entries.len() > 0,
        tree::entry_violation(Seq::empty(), entries[0]) is Some,
    ensures
        tree::first_violation(entries) == tree::entry_violation(Seq::empty(), entries[0]),
    decreases entries.len(),
{
    if entries.len() == 1 {
        assert(entries.drop_last() =~= Seq::<LayoutEntry>::empty());
        assert(tree::first_violation(entries.drop_last()) is None);
    } else {
        lemma_first_entry_decides(entries.drop_last());
    }
}

/// What is wrong with an axis is told before what is wrong with its children: too few of them, a
/// number of shares that is not theirs, or a share that is not a finite number above zero.
pub proof fn law_problems_of_axes_are_told_first(
    axis: LayoutAxis,
    flexes: Seq<u32>,
    children: Seq<LayoutModel>,
)
    ensures
        ({
            let told = tree::layout_violation(LayoutModel::Axis { axis, flexes, children });
            let bad_share = exists|c: int|
                0 <= c < flexes.len() && !(0 < #[trigger] flexes[c] < 0x7f80_0000);
            &&& children.len() < 2 ==> told == Some(Violation::ShortAxis)
            &&& children.len() >= 2 && flexes.len() != children.len() ==> told == Some(
                Violation::FlexCountMismatch,
            )
            &&& children.len() >= 2 && flexes.len() == children.len() && bad_share ==> told == Some(
                Violation::FlexOutOfRange,
            )
        }),
{
    let layout = LayoutModel::Axis { axis, flexes, children };
    let entries = tree::preorder(layout);
    assert(entries[0] == LayoutEntry::Axis { flexes, child_count: children.len() });
    let bad_share = exists|c: int|
        0 <= c < flexes.len() && !(0 < #[trigger] flexes[c] < 0x7f80_0000);
    if bad_share {
        let c = choose|c: int| 0 <= c < flexes.len() && !(0 < #[trigger] flexes[c] < 0x7f80_0000);
        assert(!tree::positive_finite(flexes[c]));
    }
    if children.len() < 2 || flexes.len() != children.len() || bad_share {
        lemma_first_entry_decides(entries);
    }
}

/// What is told of a pane on its own is wrong with it: an item whose path is relative, one that it
/// lists twice, or an active item that it does not list.
pub proof fn law_told_problems_of_panes_are_theirs(pane: PaneModel, told: Violation)
    requires
        tree::layout_violation(LayoutModel::Pane(pane)) == Some(told),
    ensures
        match told {
            Violation::RelativeItemPath => exists|i: int|
                0 <= i < pane.items.len() && !crate::path::absolute((#[trigger] pane.items[i]).path),
            Violation::DuplicateItem(id) => exists|i: int, j: int|
                0 <= i < j < pane.items.len() && (#[trigger] pane.items[i]).id == id && (
                #[trigger] pane.items[j]).id == id,
            Violation::AbsentActiveItem(id) => id == pane.id && (
            pane.active_item_id matches Some(active) && forall|i: int|
                0 <= i < pane.items.len() ==> (#[trigger] pane.items[i]).id != active),
            _ => false,
        },
{
    let entries = tree::preorder(LayoutModel::Pane(pane));
    assert(entries =~= seq![LayoutEntry::Pane(pane)]);
    assert(entries.drop_last() =~= Seq::<LayoutEntry>::empty());
    assert(tree::focused_count(entries.drop_last()) == 0);
    assert(tree::first_violation(entries.drop_last()) is None);
    lemma_told_items(pane.items, pane.items.len() as int);
    assert(pane.items.take(pane.items.len() as int) =~= pane.items);
}

proof fn lemma_told_items(items: Seq<ItemModel>, count: int)
    requires
        0 <= count <= items.len(),
    ensures
        tree::items_violation(Seq::empty(), items.take(count)) matches Some(told) ==> match told {
            Violation::RelativeItemPath => exists|i: int|
                0 <= i < count && !crate::path::absolute((#[trigger] items[i]).path),
            Violation::DuplicateItem(id) => exists|i: int, j: int|
                0 <= i < j < count && (#[trigger] items[i]).id == id && (#[trigger] items[j]).id
                    == id,
            _ => false,
        },
    decreases count,
{
    if count > 0 {
        lemma_told_items(items, count - 1);
        let last = items[count - 1];
        let earlier = items.take(count - 1);
        assert(items.take(count).drop_last() =~= earlier);
        assert(items.take(count).last() == last);
        assert(!tree::has_item(Seq::<LayoutEntry>::empty(), last.id));
        if tree::lists_item(earlier, last.id) {
            let i = choose|i: int| 0 <= i < earlier.len() && (#[trigger] earlier[i]).id == last.id;
            assert(items[i].id == last.id);
            assert(items[count - 1].id == last.id);
        }
    }
}

} // verus!
