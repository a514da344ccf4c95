//! Pane layouts: a tree of axes whose leaves are panes with file editors.

use crate::error::{message_with, SessionError, Violation};
use crate::ids::{PaneId, SessionItemId};
use crate::path::{HostPath, PathModel};
use std::collections::HashSet;
use vstd::prelude::*;

verus! {

broadcast use vstd::std_specs::hash::group_hash_axioms;

/// The direction in which an axis lays out its children.
#[derive(Clone, Copy, Debug, PartialEq, Eq, Structural)]
pub enum LayoutAxis {
    Horizontal,
    Vertical,
}

/// A file shown in a pane.
#[derive(Debug, PartialEq)]
pub struct FileEditorItem {
    pub id: SessionItemId,
    pub absolute_path: HostPath,
    pub pinned: bool,
    pub preview: bool,
}

/// A pane and the items it shows.
#[derive(Debug, PartialEq)]
pub struct PaneSnapshot {
    pub id: PaneId,
    pub items: Vec<FileEditorItem>,
    pub active_item_id: Option<SessionItemId>,
    pub focused: bool,
}

/// A pane, or an axis with children and their shares of its length. Each share is the bit pattern
/// of a single-precision number.
#[derive(Debug, PartialEq)]
pub enum LayoutNode {
    Axis { axis: LayoutAxis, flexes: Vec<u32>, children: Vec<LayoutNode> },
    Pane(PaneSnapshot),
}

#[verifier::ext_equal]
pub struct ItemModel {
    pub id: SessionItemId,
    pub path: PathModel,
    pub pinned: bool,
    pub preview: bool,
}

#[verifier::ext_equal]
pub struct PaneModel {
    pub id: PaneId,
    pub items: Seq<ItemModel>,
    pub active_item_id: Option<SessionItemId>,
    pub focused: bool,
}

#[verifier::ext_equal]
pub enum LayoutModel {
    Axis { axis: LayoutAxis, flexes: Seq<u32>, children: Seq<LayoutModel> },
    Pane(PaneModel),
}

impl View for FileEditorItem {
    type V = ItemModel;

    open spec fn view(&self) -> ItemModel {
        ItemModel {
            id: self.id,
            path: self.absolute_path@,
            pinned: self.pinned,
            preview: self.preview,
        }
    }
}

impl View for PaneSnapshot {
    type V = PaneModel;

    open spec fn view(&self) -> PaneModel {
        PaneModel {
            id: self.id,
            items: Seq::new(self.items@.len(), |i: int| self.items@[i]@),
            active_item_id: self.active_item_id,
            focused: self.focused,
        }
    }
}

/// The layout that a node stands for.
pub open spec fn layout_model(node: LayoutNode) -> LayoutModel
    decreases node,
{
    match node {
        LayoutNode::Axis { axis, flexes, children } => LayoutModel::Axis {
            axis,
            flexes: flexes@,
            children: Seq::new(
                children@.len(),
                |i: int|
                    if 0 <= i < children@.len() {
                        layout_model(children@[i])
                    } else {
                        arbitrary()
                    },
            ),
        },
        LayoutNode::Pane(pane) => LayoutModel::Pane(pane@),
    }
}

impl View for LayoutNode {
    type V = LayoutModel;

    open spec fn view(&self) -> LayoutModel {
        layout_model(*self)
    }
}

/// The layouts that a sequence of nodes stands for.
pub open spec fn layout_models(nodes: Seq<LayoutNode>) -> Seq<LayoutModel> {
    Seq::new(nodes.len(), |i: int| layout_model(nodes[i]))
}

/// A node of a layout on its own: an axis without its children, or a pane.
pub enum LayoutEntry {
    Axis { flexes: Seq<u32>, child_count: nat },
    Pane(PaneModel),
}

/// The nodes of a layout, each before its children and those from first to last.
pub open spec fn preorder(layout: LayoutModel) -> Seq<LayoutEntry>
    decreases layout,
{
    match layout {
        LayoutModel::Axis { axis, flexes, children } => seq![
            LayoutEntry::Axis { flexes, child_count: children.len() },
        ] + preorder_all(children),
        LayoutModel::Pane(pane) => seq![LayoutEntry::Pane(pane)],
    }
}

/// The nodes of several layouts, one layout after another.
pub open spec fn preorder_all(layouts: Seq<LayoutModel>) -> Seq<LayoutEntry>
    decreases layouts,
{
    if layouts.len() == 0 {
        Seq::<LayoutEntry>::empty()
    } else {
        preorder_all(layouts.drop_last()) + preorder(layouts.last())
    }
}

/// Whether a bit pattern is that of a finite number above zero.
pub open spec fn positive_finite(bits: u32) -> bool {
    0 < bits < 0x7f80_0000
}

/// Whether some node is a pane with the given identity.
pub open spec fn has_pane(entries: Seq<LayoutEntry>, id: PaneId) -> bool {
    exists|i: int|
        0 <= i < entries.len() && (#[trigger] entries[i] matches LayoutEntry::Pane(pane) && pane.id
            == id)
}

/// Whether some item in a list has the given identity.
pub open spec fn lists_item(items: Seq<ItemModel>, id: SessionItemId) -> bool {
    exists|i: int| 0 <= i < items.len() && (#[trigger] items[i]).id == id
}

/// Whether some pane shows an item with the given identity.
pub open spec fn has_item(entries: Seq<LayoutEntry>, id: SessionItemId) -> bool {
    exists|i: int|
        0 <= i < entries.len() && (#[trigger] entries[i] matches LayoutEntry::Pane(pane)
            && lists_item(pane.items, id))
}

/// How many of the nodes are focused panes.
pub open spec fn focused_count(entries: Seq<LayoutEntry>) -> nat
    decreases entries.len(),
{
    if entries.len() == 0 {
        0
    } else {
        focused_count(entries.drop_last()) + match entries.last() {
            LayoutEntry::Pane(pane) if pane.focused => 1nat,
            _ => 0nat,
        }
    }
}

/// What is wrong with an item, given the nodes before its pane and the items before it.
pub open spec fn item_violation(
    before: Seq<LayoutEntry>,
    earlier: Seq<ItemModel>,
    item: ItemModel,
) -> Option<Violation> {
    if !crate::path::absolute(item.path) {
        Some(Violation::RelativeItemPath)
    } else if lists_item(earlier, item.id) || has_item(before, item.id) {
        Some(Violation::DuplicateItem(item.id))
    } else {
        None
    }
}

/// What is wrong with the first bad item of a pane.
pub open spec fn items_violation(before: Seq<LayoutEntry>, items: Seq<ItemModel>) -> Option<
    Violation,
>
    decreases items.len(),
{
    if items.len() == 0 {
        None
    } else {
        match items_violation(before, items.drop_last()) {
            Some(violation) => Some(violation),
            None => item_violation(before, items.drop_last(), items.last()),
        }
    }
}

/// What is wrong with a node, given the nodes before it.
pub open spec fn entry_violation(before: Seq<LayoutEntry>, entry: LayoutEntry) -> Option<
    Violation,
> {
    match entry {
        LayoutEntry::Axis { flexes, child_count } => if child_count < 2 {
            Some(Violation::ShortAxis)
        } else if flexes.len() != child_count {
            Some(Violation::FlexCountMismatch)
        } else if exists|i: int| 0 <= i < flexes.len() && !positive_finite(#[trigger] flexes[i]) {
            Some(Violation::FlexOutOfRange)
        } else {
            None
        },
        LayoutEntry::Pane(pane) => if has_pane(before, pane.id) {
            Some(Violation::DuplicatePane(pane.id))
        } else {
            match items_violation(before, pane.items) {
                Some(violation) => Some(violation),
                None => match pane.active_item_id {
                    Some(active) if !lists_item(pane.items, active) => Some(
                        Violation::AbsentActiveItem(pane.id),
                    ),
                    _ => None,
                },
            }
        },
    }
}

/// What is wrong with the first bad node.
pub open spec fn first_violation(entries: Seq<LayoutEntry>) -> Option<Violation>
    decreases entries.len(),
{
    if entries.len() == 0 {
        None
    } else {
        match first_violation(entries.drop_last()) {
            Some(violation) => Some(violation),
            None => entry_violation(entries.drop_last(), entries.last()),
        }
    }
}

/// What is wrong with a layout: its first bad node, or more than one focused pane.
pub open spec fn layout_violation(layout: LayoutModel) -> Option<Violation> {
    match first_violation(preorder(layout)) {
        Some(violation) => Some(violation),
        None => if focused_count(preorder(layout)) > 1 {
            Some(Violation::MultipleFocusedPanes)
        } else {
            None
        },
    }
}

/// Whether an axis has at least two children, each with a finite share above zero.
pub open spec fn proper_axis(entry: LayoutEntry) -> bool {
    entry matches LayoutEntry::Axis { flexes, child_count } ==> child_count >= 2 && flexes.len()
        == child_count && forall|i: int|
        0 <= i < flexes.len() ==> positive_finite(#[trigger] flexes[i])
}

/// Whether a pane's items have absolute paths and distinct identities, and its active item is one
/// of them.
pub open spec fn proper_pane(entry: LayoutEntry) -> bool {
    entry matches LayoutEntry::Pane(pane) ==> {
        &&& forall|i: int|
            0 <= i < pane.items.len() ==> crate::path::absolute((#[trigger] pane.items[i]).path)
        &&& forall|i: int, j: int|
            0 <= i < j < pane.items.len() ==> (#[trigger] pane.items[i]).id != (
            #[trigger] pane.items[j]).id
        &&& pane.active_item_id matches Some(active) ==> lists_item(pane.items, active)
    }
}

/// Whether two nodes are no panes with the same identity, nor panes that share an item.
pub open spec fn apart(left: LayoutEntry, right: LayoutEntry) -> bool {
    left matches LayoutEntry::Pane(a) ==> right matches LayoutEntry::Pane(b) ==> a.id != b.id
        && forall|id: SessionItemId| lists_item(a.items, id) ==> !lists_item(b.items, id)
}

/// A well-formed layout: proper axes, proper panes, panes and items that occur once each, and at
/// most one focused pane.
pub open spec fn layout_valid(layout: LayoutModel) -> bool {
    let entries = preorder(layout);
    &&& forall|i: int|
        0 <= i < entries.len() ==> proper_axis(#[trigger] entries[i]) && proper_pane(entries[i])
    &&& forall|i: int, j: int|
        0 <= i < j < entries.len() ==> apart(#[trigger] entries[i], #[trigger] entries[j])
    &&& focused_count(entries) <= 1
}

proof fn lemma_items_violation_none(before: Seq<LayoutEntry>, items: Seq<ItemModel>)
    ensures
        items_violation(before, items) is None <==> {
            &&& forall|i: int|
                0 <= i < items.len() ==> crate::path::absolute((#[trigger] items[i]).path)
                    && !has_item(before, items[i].id)
            &&& forall|i: int, j: int|
                0 <= i < j < items.len() ==> (#[trigger] items[i]).id != (#[trigger] items[j]).id
        },
    decreases items.len(),
{
    if items.len() > 0 {
        let front = items.drop_last();
        let last = items.last();
        lemma_items_violation_none(before, front);
        assert(forall|i: int| 0 <= i < front.len() ==> front[i] == items[i]);
        if items_violation(before, items) is None {
            assert forall|i: int, j: int| 0 <= i < j < items.len() implies (#[trigger] items[i]).id
                != (#[trigger] items[j]).id by {
                if j == front.len() {
                    assert(front[i] == items[i]);
                    assert(!lists_item(front, last.id));
                } else {
                    assert(front[i] == items[i] && front[j] == items[j]);
                }
            }
            assert forall|i: int| 0 <= i < items.len() implies crate::path::absolute(
                (#[trigger] items[i]).path,
            ) && !has_item(before, items[i].id) by {
                if i < front.len() {
                    assert(front[i] == items[i]);
                }
            }
        } else if (forall|i: int|
            0 <= i < items.len() ==> crate::path::absolute((#[trigger] items[i]).path) && !has_item(
                before,
                items[i].id,
            )) && (forall|i: int, j: int|
            0 <= i < j < items.len() ==> (#[trigger] items[i]).id != (#[trigger] items[j]).id) {
            assert forall|i: int| 0 <= i < front.len() implies crate::path::absolute(
                (#[trigger] front[i]).path,
            ) && !has_item(before, front[i].id) by {
                assert(front[i] == items[i]);
            }
            assert forall|i: int, j: int| 0 <= i < j < front.len() implies (#[trigger] front[i]).id
                != (#[trigger] front[j]).id by {
                assert(front[i] == items[i] && front[j] == items[j]);
            }
            assert(items[items.len() - 1] == last);
            assert(!lists_item(front, last.id)) by {
                if lists_item(front, last.id) {
                    let i = choose|i: int| 0 <= i < front.len() && (#[trigger] front[i]).id
                        == last.id;
                    assert(front[i] == items[i]);
                }
            }
            assert(false);
        }
    }
}

proof fn lemma_entry_violation_none(before: Seq<LayoutEntry>, entry: LayoutEntry)
    ensures
        entry_violation(before, entry) is None <==> {
            &&& proper_axis(entry)
            &&& proper_pane(entry)
            &&& forall|i: int| 0 <= i < before.len() ==> apart(#[trigger] before[i], entry)
        },
{
    match entry {
        LayoutEntry::Axis { flexes, child_count } => {
            assert(forall|i: int| 0 <= i < before.len() ==> apart(#[trigger] before[i], entry));
        },
        LayoutEntry::Pane(pane) => {
            lemma_items_violation_none(before, pane.items);
            if entry_violation(before, entry) is None {
                assert forall|i: int| 0 <= i < before.len() implies apart(
                    #[trigger] before[i],
                    entry,
                ) by {
                    if let LayoutEntry::Pane(other) = before[i] {
                        assert(!has_pane(before, pane.id));
                        assert forall|id: SessionItemId| lists_item(
                            other.items,
                            id,
                        ) implies !lists_item(pane.items, id) by {
                            if lists_item(pane.items, id) {
                                let k = choose|k: int|
                                    0 <= k < pane.items.len() && (#[trigger] pane.items[k]).id
                                        == id;
                                assert(!has_item(before, pane.items[k].id));
                            }
                        }
                    }
                }
            } else if proper_axis(entry) && proper_pane(entry) && (forall|i: int|
                0 <= i < before.len() ==> apart(#[trigger] before[i], entry)) {
                assert(!has_pane(before, pane.id)) by {
                    if has_pane(before, pane.id) {
                        let i = choose|i: int|
                            0 <= i < before.len() && (#[trigger] before[i] matches LayoutEntry::Pane(
                                other,
                            ) && other.id == pane.id);
                        assert(apart(before[i], entry));
                    }
                }
                assert forall|k: int| 0 <= k < pane.items.len() implies crate::path::absolute(
                    (#[trigger] pane.items[k]).path,
                ) && !has_item(before, pane.items[k].id) by {
                    let id = pane.items[k].id;
                    assert(lists_item(pane.items, id));
                    if has_item(before, id) {
                        let i = choose|i: int|
                            0 <= i < before.len() && (#[trigger] before[i] matches LayoutEntry::Pane(
                                other,
                            ) && lists_item(other.items, id));
                        assert(apart(before[i], entry));
                    }
                }
                assert(false);
            }
        },
    }
}

proof fn lemma_first_violation_none(entries: Seq<LayoutEntry>)
    ensures
        first_violation(entries) is None <==> {
            &&& forall|i: int|
                0 <= i < entries.len() ==> proper_axis(#[trigger] entries[i]) && proper_pane(
                    entries[i],
                )
            &&& forall|i: int, j: int|
                0 <= i < j < entries.len() ==> apart(#[trigger] entries[i], #[trigger] entries[j])
        },
    decreases entries.len(),
{
    if entries.len() > 0 {
        let front = entries.drop_last();
        let last = entries.last();
        lemma_first_violation_none(front);
        lemma_entry_violation_none(front, last);
        assert(forall|i: int| 0 <= i < front.len() ==> front[i] == entries[i]);
        assert(entries[entries.len() - 1] == last);
        if first_violation(entries) is None {
            assert forall|i: int, j: int| 0 <= i < j < entries.len() implies apart(
                #[trigger] entries[i],
                #[trigger] entries[j],
            ) by {
                assert(front[i] == entries[i]);
                if j < front.len() {
                    assert(front[j] == entries[j]);
                }
            }
            assert forall|i: int| 0 <= i < entries.len() implies proper_axis(#[trigger] entries[i])
                && proper_pane(entries[i]) by {
                if i < front.len() {
                    assert(front[i] == entries[i]);
                }
            }
        } else if (forall|i: int|
            0 <= i < entries.len() ==> proper_axis(#[trigger] entries[i]) && proper_pane(
                entries[i],
            )) && (forall|i: int, j: int|
            0 <= i < j < entries.len() ==> apart(#[trigger] entries[i], #[trigger] entries[j])) {
            assert forall|i: int| 0 <= i < front.len() implies proper_axis(#[trigger] front[i])
                && proper_pane(front[i]) by {
                assert(front[i] == entries[i]);
            }
            assert forall|i: int, j: int| 0 <= i < j < front.len() implies apart(
                #[trigger] front[i],
                #[trigger] front[j],
            ) by {
                assert(front[i] == entries[i] && front[j] == entries[j]);
            }
            assert forall|i: int| 0 <= i < front.len() implies apart(#[trigger] front[i], last) by {
                assert(front[i] == entries[i]);
            }
            assert(false);
        }
    }
}

/// A layout is refused exactly when it is not well formed.
pub proof fn law_layout_violation_iff_not_valid(layout: LayoutModel)
    ensures
        layout_valid(layout) <==> layout_violation(layout) is None,
{
    lemma_first_violation_none(preorder(layout));
}

/// A violation found among the first nodes is the one found among all of them.
proof fn lemma_first_violation_prefix(front: Seq<LayoutEntry>, rest: Seq<LayoutEntry>)
    requires
        first_violation(front) is Some,
    ensures
        first_violation(front + rest) == first_violation(front),
    decreases rest.len(),
{
    if rest.len() == 0 {
        assert(front + rest =~= front);
    } else {
        lemma_first_violation_prefix(front, rest.drop_last());
        assert((front + rest).drop_last() =~= front + rest.drop_last());
    }
}

proof fn lemma_items_violation_prefix(
    before: Seq<LayoutEntry>,
    items: Seq<ItemModel>,
    count: int,
)
    requires
        0 <= count <= items.len(),
        items_violation(before, items.take(count)) is Some,
    ensures
        items_violation(before, items) == items_violation(before, items.take(count)),
    decreases items.len() - count,
{
    if count == items.len() {
        assert(items.take(count) =~= items);
    } else {
        assert(items.take(count + 1).drop_last() =~= items.take(count));
        lemma_items_violation_prefix(before, items, count + 1);
    }
}

/// Whether the collected identities and the focus count are those of the nodes visited so far.
spec fn collected(
    entries: Seq<LayoutEntry>,
    pane_ids: Set<u128>,
    item_ids: Set<u128>,
    focused: usize,
) -> bool {
    &&& forall|value: u128| #[trigger]
        pane_ids.contains(value) <==> has_pane(entries, PaneId { value })
    &&& forall|value: u128| #[trigger]
        item_ids.contains(value) <==> has_item(entries, SessionItemId { value })
    &&& focused == if focused_count(entries) <= usize::MAX {
        focused_count(entries) as int
    } else {
        usize::MAX as int
    }
}

proof fn lemma_has_pane_push(entries: Seq<LayoutEntry>, entry: LayoutEntry, id: PaneId)
    ensures
        has_pane(entries.push(entry), id) <==> has_pane(entries, id) || (
        entry matches LayoutEntry::Pane(pane) && pane.id == id),
{
    let longer = entries.push(entry);
    if has_pane(entries, id) {
        let i = choose|i: int|
            0 <= i < entries.len() && (#[trigger] entries[i] matches LayoutEntry::Pane(pane)
                && pane.id == id);
        assert(longer[i] == entries[i]);
    }
    if entry matches LayoutEntry::Pane(pane) && pane.id == id {
        assert(longer[entries.len() as int] == entry);
    }
    if has_pane(longer, id) {
        let i = choose|i: int|
            0 <= i < longer.len() && (#[trigger] longer[i] matches LayoutEntry::Pane(pane)
                && pane.id == id);
        if i < entries.len() {
            assert(longer[i] == entries[i]);
        }
    }
}

proof fn lemma_has_item_push(entries: Seq<LayoutEntry>, entry: LayoutEntry, id: SessionItemId)
    ensures
        has_item(entries.push(entry), id) <==> has_item(entries, id) || (
        entry matches LayoutEntry::Pane(pane) && lists_item(pane.items, id)),
{
    let longer = entries.push(entry);
    if has_item(entries, id) {
        let i = choose|i: int|
            0 <= i < entries.len() && (#[trigger] entries[i] matches LayoutEntry::Pane(pane)
                && lists_item(pane.items, id));
        assert(longer[i] == entries[i]);
    }
    if entry matches LayoutEntry::Pane(pane) && lists_item(pane.items, id) {
        assert(longer[entries.len() as int] == entry);
    }
    if has_item(longer, id) {
        let i = choose|i: int|
            0 <= i < longer.len() && (#[trigger] longer[i] matches LayoutEntry::Pane(pane)
                && lists_item(pane.items, id));
        if i < entries.len() {
            assert(longer[i] == entries[i]);
        }
    }
}

proof fn lemma_lists_item_push(items: Seq<ItemModel>, item: ItemModel, id: SessionItemId)
    ensures
        lists_item(items.push(item), id) <==> lists_item(items, id) || item.id == id,
{
    let longer = items.push(item);
    if lists_item(items, id) {
        let i = choose|i: int| 0 <= i < items.len() && (#[trigger] items[i]).id == id;
        assert(longer[i] == items[i]);
    }
    if item.id == id {
        assert(longer[items.len() as int] == item);
    }
    if lists_item(longer, id) {
        let i = choose|i: int| 0 <= i < longer.len() && (#[trigger] longer[i]).id == id;
        if i < items.len() {
            assert(longer[i] == items[i]);
        }
    }
}

fn visit_pane(
    pane: &PaneSnapshot,
    pane_ids: &mut HashSet<u128>,
    item_ids: &mut HashSet<u128>,
    focused: &mut usize,
    Ghost(before): Ghost<Seq<LayoutEntry>>,
) -> (result: Result<(), String>)
    requires
        collected(before, old(pane_ids)@, old(item_ids)@, *old(focused)),
    ensures
        match result {
            Ok(()) => entry_violation(before, LayoutEntry::Pane(pane@)) is None && collected(
                before.push(LayoutEntry::Pane(pane@)),
                final(pane_ids)@,
                final(item_ids)@,
                *final(focused),
            ),
            Err(message) => entry_violation(before, LayoutEntry::Pane(pane@)) matches Some(violation)
                && message@ == crate::error::violation_message(violation),
        },
{
    let ghost entry = LayoutEntry::Pane(pane@);
    let ghost start_panes = pane_ids@;
    let ghost start_items = item_ids@;
    assert(PaneId { value: pane.id.value } == pane.id);
    if !pane_ids.insert(pane.id.value) {
        return Err(message_with("duplicate pane id ", pane.id.to_text().as_str()));
    }
    if pane.focused {
        *focused = focused.saturating_add(1);
    }
    let mut own_ids: HashSet<u128> = HashSet::new();
    let mut i: usize = 0;
    let ghost items = pane@.items;
    assert(items.take(0) =~= Seq::<ItemModel>::empty());
    while i < pane.items.len()
        invariant
            i <= pane.items@.len(),
            items == pane@.items,
            items.len() == pane.items@.len(),
            entry == LayoutEntry::Pane(pane@),
            !has_pane(before, pane@.id),
            items_violation(before, items.take(i as int)) is None,
            forall|value: u128| #[trigger]
                own_ids@.contains(value) <==> lists_item(
                    items.take(i as int),
                    SessionItemId { value },
                ),
            forall|value: u128| #[trigger]
                start_items.contains(value) <==> has_item(before, SessionItemId { value }),
            forall|value: u128| #[trigger]
                item_ids@.contains(value) <==> start_items.contains(value) || lists_item(
                    items.take(i as int),
                    SessionItemId { value },
                ),
        decreases pane.items@.len() - i,
    {
        let item = &pane.items[i];
        let ghost shown = items.take(i as int);
        proof {
            assert(items[i as int] == item@);
            assert(items.take(i + 1) =~= shown.push(item@));
            assert(items.take(i + 1).drop_last() =~= shown);
            assert(items.take(i + 1).last() == item@);
            assert(SessionItemId { value: item.id.value } == item.id);
        }
        if !item.absolute_path.is_absolute() {
            proof {
                lemma_items_violation_prefix(before, items, i + 1);
            }
            return Err("file editor paths must be absolute".to_string());
        }
        if !own_ids.insert(item.id.value) || !item_ids.insert(item.id.value) {
            proof {
                assert(item_violation(before, shown, item@) == Some(
                    Violation::DuplicateItem(item.id),
                ));
                lemma_items_violation_prefix(before, items, i + 1);
            }
            return Err(message_with("duplicate session item id ", item.id.to_text().as_str()));
        }
        proof {
            assert forall|value: u128| #[trigger] own_ids@.contains(value) <==> lists_item(
                items.take(i + 1),
                SessionItemId { value },
            ) by {
                lemma_lists_item_push(shown, item@, SessionItemId { value });
            }
            assert forall|value: u128| #[trigger]
                item_ids@.contains(value) <==> start_items.contains(value) || lists_item(
                items.take(i + 1),
                SessionItemId { value },
            ) by {
                lemma_lists_item_push(shown, item@, SessionItemId { value });
            }
        }
        i += 1;
    }
    assert(items.take(i as int) =~= items);
    if let Some(active) = pane.active_item_id {
        assert(SessionItemId { value: active.value } == active);
        if !own_ids.contains(&active.value) {
            let mut message = message_with("pane ", pane.id.to_text().as_str());
            message.append(" has an absent active item");
            return Err(message);
        }
    }
    proof {
        let longer = before.push(entry);
        assert(longer.drop_last() =~= before);
        assert forall|value: u128| #[trigger] pane_ids@.contains(value) <==> has_pane(
            longer,
            PaneId { value },
        ) by {
            lemma_has_pane_push(before, entry, PaneId { value });
            assert(start_panes.contains(value) <==> has_pane(before, PaneId { value }));
        }
        assert forall|value: u128| #[trigger] item_ids@.contains(value) <==> has_item(
            longer,
            SessionItemId { value },
        ) by {
            lemma_has_item_push(before, entry, SessionItemId { value });
        }
    }
    Ok(())
}

fn visit(
    node: &LayoutNode,
    pane_ids: &mut HashSet<u128>,
    item_ids: &mut HashSet<u128>,
    focused: &mut usize,
    Ghost(before): Ghost<Seq<LayoutEntry>>,
) -> (result: Result<(), String>)
    requires
        first_violation(before) is None,
        collected(before, old(pane_ids)@, old(item_ids)@, *old(focused)),
    ensures
        match result {
            Ok(()) => first_violation(before + preorder(node@)) is None && collected(
                before + preorder(node@),
                final(pane_ids)@,
                final(item_ids)@,
                *final(focused),
            ),
            Err(message) => first_violation(before + preorder(node@)) matches Some(violation)
                && message@ == crate::error::violation_message(violation),
        },
    decreases node,
{
    match node {
        LayoutNode::Axis { axis: _, flexes, children } => {
            let ghost models = layout_models(children@);
            let ghost entry = LayoutEntry::Axis { flexes: flexes@, child_count: children@.len() };
            let ghost reached = before.push(entry);
            proof {
                assert(node@->children =~= models);
                assert(reached.drop_last() =~= before);
                assert(before + preorder(node@) =~= reached + preorder_all(models));
                if entry_violation(before, entry) is Some {
                    lemma_first_violation_prefix(reached, preorder_all(models));
                }
            }
            if children.len() < 2 {
                return Err("a layout axis must contain at least two children".to_string());
            }
            if flexes.len() != children.len() {
                return Err("layout flex count must match child count".to_string());
            }
            let mut f: usize = 0;
            while f < flexes.len()
                invariant
                    f <= flexes@.len(),
                    flexes@.len() == children@.len() >= 2,
                    forall|k: int| 0 <= k < f ==> positive_finite(#[trigger] flexes@[k]),
                    entry == (LayoutEntry::Axis { flexes: flexes@, child_count: children@.len() }),
                    first_violation(before) is None,
                    reached == before.push(entry),
                    reached.drop_last() == before,
                    before + preorder(node@) == reached + preorder_all(models),
                    entry_violation(before, entry) is Some ==> first_violation(
                        reached + preorder_all(models),
                    ) == first_violation(reached),
                decreases flexes@.len() - f,
            {
                let bits: u32 = flexes[f];
                if bits == 0 || bits >= 0x7f80_0000 {
                    assert(!positive_finite(flexes@[f as int]));
                    return Err("layout flex values must be finite and positive".to_string());
                }
                f += 1;
            }
            assert(entry_violation(before, entry) is None);
            assert(first_violation(reached) is None);
            proof {
                assert forall|value: u128| #[trigger] pane_ids@.contains(value) <==> has_pane(
                    reached,
                    PaneId { value },
                ) by {
                    lemma_has_pane_push(before, entry, PaneId { value });
                }
                assert forall|value: u128| #[trigger] item_ids@.contains(value) <==> has_item(
                    reached,
                    SessionItemId { value },
                ) by {
                    lemma_has_item_push(before, entry, SessionItemId { value });
                }
                assert(models.take(0) =~= Seq::<LayoutModel>::empty());
                assert(reached + preorder_all(models.take(0)) =~= reached);
            }
            let mut i: usize = 0;
            while i < children.len()
                invariant
                    i <= children@.len(),
                    node matches LayoutNode::Axis { axis: _, flexes: _, children: held }
                        && children == held,
                    models == layout_models(children@),
                    before + preorder(node@) == reached + preorder_all(models),
                    first_violation(reached + preorder_all(models.take(i as int))) is None,
                    collected(
                        reached + preorder_all(models.take(i as int)),
                        pane_ids@,
                        item_ids@,
                        *focused,
                    ),
                decreases children@.len() - i,
            {
                let ghost so_far = reached + preorder_all(models.take(i as int));
                proof {
                    assert(models.take(i + 1).drop_last() =~= models.take(i as int));
                    assert(models.take(i + 1).last() == children@[i as int]@);
                    assert(so_far + preorder(children@[i as int]@) =~= reached + preorder_all(
                        models.take(i + 1),
                    ));
                }
                match visit(&children[i], pane_ids, item_ids, focused, Ghost(so_far)) {
                    Ok(()) => {},
                    Err(message) => {
                        proof {
                            lemma_preorder_all_split(models, i + 1);
                            let rest = preorder_all(models.skip(i + 1));
                            lemma_first_violation_prefix(
                                reached + preorder_all(models.take(i + 1)),
                                rest,
                            );
                            assert((reached + preorder_all(models.take(i + 1))) + rest
                                =~= reached + preorder_all(models));
                        }
                        return Err(message);
                    },
                }
                i += 1;
            }
            assert(models.take(i as int) =~= models);
            Ok(())
        },
        LayoutNode::Pane(pane) => {
            let ghost entry = LayoutEntry::Pane(pane@);
            proof {
                assert(before + preorder(node@) =~= before.push(entry));
                assert(before.push(entry).drop_last() =~= before);
            }
            visit_pane(pane, pane_ids, item_ids, focused, Ghost(before))
        },
    }
}

proof fn lemma_preorder_all_split(layouts: Seq<LayoutModel>, count: int)
    requires
        0 <= count <= layouts.len(),
    ensures
        preorder_all(layouts) == preorder_all(layouts.take(count)) + preorder_all(
            layouts.skip(count),
        ),
    decreases layouts.len(),
{
    let tail = layouts.skip(count);
    if count == layouts.len() {
        assert(layouts.take(count) =~= layouts);
        assert(tail =~= Seq::<LayoutModel>::empty());
    } else {
        let shorter = layouts.drop_last();
        assert(tail.drop_last() =~= shorter.skip(count));
        assert(tail.last() == layouts.last());
        assert(shorter.take(count) =~= layouts.take(count));
        lemma_preorder_all_split(shorter, count);
    }
    assert(preorder_all(layouts) =~= preorder_all(layouts.take(count)) + preorder_all(tail));
}

/// Checks that a layout is well formed.
pub fn validate_layout(layout: &LayoutNode) -> (result: Result<(), SessionError>)
    ensures
        result is Ok <==> layout_valid(layout@),
        result matches Err(error) ==> (layout_violation(layout@) matches Some(violation) && error@
            == crate::error::invalid(violation)),
{
    let mut pane_ids: HashSet<u128> = HashSet::new();
    let mut item_ids: HashSet<u128> = HashSet::new();
    let mut focused: usize = 0;
    let ghost none = Seq::<LayoutEntry>::empty();
    proof {
        law_layout_violation_iff_not_valid(layout@);
        assert(none + preorder(layout@) =~= preorder(layout@));
    }
    match visit(layout, &mut pane_ids, &mut item_ids, &mut focused, Ghost(none)) {
        Ok(()) => {},
        Err(message) => {
            return Err(SessionError::Invalid(message));
        },
    }
    if focused > 1 {
        return Err(
            SessionError::Invalid(
                "a workspace layout cannot contain multiple focused panes".to_string(),
            ),
        );
    }
    Ok(())
}

impl Clone for FileEditorItem {
    fn clone(&self) -> (copy: Self)
        ensures
            copy@ == self@,
    {
        FileEditorItem {
            id: self.id,
            absolute_path: self.absolute_path.clone(),
            pinned: self.pinned,
            preview: self.preview,
        }
    }
}

impl Clone for PaneSnapshot {
    fn clone(&self) -> (copy: Self)
        ensures
            copy@ == self@,
    {
        let mut items: Vec<FileEditorItem> = Vec::new();
        let mut i: usize = 0;
        while i < self.items.len()
            invariant
                i <= self.items@.len(),
                items@.len() == i,
                forall|k: int| 0 <= k < i ==> (#[trigger] items@[k])@ == self.items@[k]@,
            decreases self.items@.len() - i,
        {
            items.push(self.items[i].clone());
            i += 1;
        }
        let copy = PaneSnapshot {
            id: self.id,
            items,
            active_item_id: self.active_item_id,
            focused: self.focused,
        };
        assert(copy@.items =~= self@.items);
        copy
    }
}

impl Clone for LayoutNode {
    fn clone(&self) -> (copy: Self)
        ensures
            copy@ == self@,
        decreases self,
    {
        match self {
            LayoutNode::Axis { axis, flexes, children } => {
                let mut shares: Vec<u32> = Vec::new();
                let mut f: usize = 0;
                while f < flexes.len()
                    invariant
                        f <= flexes@.len(),
                        shares@ == flexes@.take(f as int),
                    decreases flexes@.len() - f,
                {
                    shares.push(flexes[f]);
                    f += 1;
                }
                let mut nodes: Vec<LayoutNode> = Vec::new();
                let mut i: usize = 0;
                while i < children.len()
                    invariant
                        i <= children@.len(),
                        self matches LayoutNode::Axis { axis: _, flexes: _, children: held }
                            && children == held,
                        nodes@.len() == i,
                        forall|k: int| 0 <= k < i ==> (#[trigger] nodes@[k])@ == children@[k]@,
                    decreases children@.len() - i,
                {
                    nodes.push(children[i].clone());
                    i += 1;
                }
                let copy = LayoutNode::Axis { axis: *axis, flexes: shares, children: nodes };
                assert(copy@->flexes =~= self@->flexes);
                assert(copy@->children =~= self@->children) by {
                    assert forall|k: int| 0 <= k < children@.len() implies copy@->children[k]
                        == self@->children[k] by {
                        assert(nodes@[k]@ == children@[k]@);
                    }
                }
                copy
            },
            LayoutNode::Pane(pane) => LayoutNode::Pane(pane.clone()),
        }
    }
}

/// An empty focused pane with the given identity.
pub open spec fn empty_pane(id: PaneId) -> PaneModel {
    PaneModel { id, items: Seq::<ItemModel>::empty(), active_item_id: None, focused: true }
}

impl PaneSnapshot {
    /// An empty focused pane with the given identity.
    pub fn empty_with(id: PaneId) -> (pane: Self)
        ensures
            pane@ == empty_pane(id),
    {
        let pane = PaneSnapshot { id, items: Vec::new(), active_item_id: None, focused: true };
        assert(pane@.items =~= Seq::<ItemModel>::empty());
        pane
    }

    /// An empty focused pane with a fresh identity.
    pub fn empty() -> (pane: Self)
        ensures
            pane@ == empty_pane(pane.id),
            crate::ids::random_marks(pane.id.value),
    {
        Self::empty_with(PaneId::new())
    }
}

impl LayoutNode {
    /// A layout of one empty focused pane with the given identity.
    pub fn empty_with(id: PaneId) -> (layout: Self)
        ensures
            layout@ == LayoutModel::Pane(empty_pane(id)),
    {
        LayoutNode::Pane(PaneSnapshot::empty_with(id))
    }

    /// A layout of one empty focused pane with a fresh identity.
    pub fn empty() -> (layout: Self)
        ensures
            layout matches LayoutNode::Pane(pane) && pane@ == empty_pane(pane.id)
                && crate::ids::random_marks(pane.id.value),
    {
        LayoutNode::Pane(PaneSnapshot::empty())
    }
}

/// A single empty pane is a well-formed layout.
pub proof fn law_empty_layout_is_valid(id: PaneId)
    ensures
        layout_valid(LayoutModel::Pane(empty_pane(id))),
{
    let entries = preorder(LayoutModel::Pane(empty_pane(id)));
    assert(entries =~= seq![LayoutEntry::Pane(empty_pane(id))]);
    assert(focused_count(entries.drop_last()) == 0);
}

} // verus!
