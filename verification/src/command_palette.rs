//! What the command palette shows: hidden and shown actions, and interceptors of its queries.

use crate::text::chars_of;
use crate::text_map::TextMap;
use std::collections::HashSet;
use vstd::prelude::*;

verus! {

broadcast use vstd::std_specs::hash::group_hash_axioms;

/// Which actions the command palette leaves out. Action types are numbers.
#[derive(Debug)]
pub struct CommandPaletteFilter {
    pub hidden_namespaces: TextMap<()>,
    pub hidden_action_types: HashSet<u64>,
    /// Actions that are shown even if they are in a hidden namespace.
    pub shown_action_types: HashSet<u64>,
}

/// The part of an action's name in front of the first `::`.
pub open spec fn namespace_of(name: Seq<char>) -> Seq<char>
    decreases name.len(),
{
    if name.len() == 0 || (name.len() >= 2 && name[0] == ':' && name[1] == ':') {
        Seq::<char>::empty()
    } else {
        seq![name[0]] + namespace_of(name.skip(1))
    }
}

fn namespace(name: &str) -> (text: String)
    ensures
        text@ == namespace_of(name@),
{
    let chars = chars_of(name);
    let mut text = String::new();
    let mut i: usize = 0;
    assert(name@.skip(0) =~= name@);
    assert(text@ + namespace_of(name@.skip(0)) =~= namespace_of(name@));
    while i < chars.len() && !(i + 1 < chars.len() && chars[i] == ':' && chars[i + 1] == ':')
        invariant
            i <= chars@.len(),
            chars@ == name@,
            text@ + namespace_of(name@.skip(i as int)) == namespace_of(name@),
        ensures
            text@ == namespace_of(name@),
        decreases chars@.len() - i,
    {
        let ghost before = text@;
        let ghost rest = name@.skip(i as int);
        text.push(chars[i]);
        proof {
            assert(rest[0] == name@[i as int]);
            assert(rest.len() >= 2 ==> rest[1] == name@[i + 1]);
            assert(rest.skip(1) =~= name@.skip(i + 1));
            assert(before.push(rest[0]) + namespace_of(rest.skip(1)) =~= before + (seq![rest[0]]
                + namespace_of(rest.skip(1))));
        }
        i += 1;
        proof {
            if i == chars@.len() {
                assert(name@.skip(i as int).len() == 0);
                assert(text@ + namespace_of(name@.skip(i as int)) =~= text@);
            } else if i + 1 < chars@.len() && chars@[i as int] == ':' && chars@[i + 1] == ':' {
                assert(name@.skip(i as int)[0] == ':');
                assert(name@.skip(i as int)[1] == ':');
                assert(text@ + namespace_of(name@.skip(i as int)) =~= text@);
            }
        }
    }
    text
}

impl CommandPaletteFilter {
    /// No action type is both hidden and shown.
    pub open spec fn well_formed(&self) -> bool {
        forall|action_type: u64|
            !(#[trigger] self.hidden_action_types@.contains(action_type)
                && self.shown_action_types@.contains(action_type))
    }

    /// Whether an action is left out.
    pub open spec fn hides(&self, name: Seq<char>, action_type: u64) -> bool {
        !self.shown_action_types@.contains(action_type) && (
        self.hidden_namespaces.spec_map().contains_key(namespace_of(name))
            || self.hidden_action_types@.contains(action_type))
    }

    /// A filter that hides nothing.
    pub fn new() -> (filter: Self)
        ensures
            filter.well_formed(),
            filter.hidden_namespaces.spec_map() == Map::<Seq<char>, ()>::empty(),
            filter.hidden_action_types@ == Set::<u64>::empty(),
            filter.shown_action_types@ == Set::<u64>::empty(),
    {
        CommandPaletteFilter {
            hidden_namespaces: TextMap::new(),
            hidden_action_types: HashSet::new(),
            shown_action_types: HashSet::new(),
        }
    }

    /// Whether an action is left out. One that is explicitly shown never is.
    pub fn is_hidden(&self, name: &str, action_type: u64) -> (result: bool)
        ensures
            result == self.hides(name@, action_type),
    {
        let namespace = namespace(name);
        if self.shown_action_types.contains(&action_type) {
            return false;
        }
        self.hidden_namespaces.contains_key(namespace.as_str())
            || self.hidden_action_types.contains(&action_type)
    }

    /// Hides all actions in a namespace.
    pub fn hide_namespace(&mut self, namespace: &str)
        ensures
            final(self).hidden_namespaces.spec_map()
                == old(self).hidden_namespaces.spec_map().insert(namespace@, ()),
            final(self).hidden_action_types@ == old(self).hidden_action_types@,
            final(self).shown_action_types@ == old(self).shown_action_types@,
    {
        self.hidden_namespaces.insert(namespace.to_string(), ());
    }

    /// Shows all actions in a namespace.
    pub fn show_namespace(&mut self, namespace: &str)
        ensures
            final(self).hidden_namespaces.spec_map()
                == old(self).hidden_namespaces.spec_map().remove(namespace@),
            final(self).hidden_action_types@ == old(self).hidden_action_types@,
            final(self).shown_action_types@ == old(self).shown_action_types@,
    {
        self.hidden_namespaces.remove(namespace);
    }

    /// Hides all actions with the given types.
    pub fn hide_action_types(&mut self, action_types: &Vec<u64>)
        ensures
            final(self).hidden_namespaces == old(self).hidden_namespaces,
            final(self).hidden_action_types@ == old(self).hidden_action_types@.union(
                action_types@.to_set(),
            ),
            final(self).shown_action_types@ == old(self).shown_action_types@.difference(
                action_types@.to_set(),
            ),
            old(self).well_formed() ==> final(self).well_formed(),
    {
        let ghost hidden = self.hidden_action_types@;
        let ghost shown = self.shown_action_types@;
        let mut i: usize = 0;
        assert(action_types@.take(0).to_set() =~= Set::<u64>::empty());
        assert(hidden.union(Set::<u64>::empty()) =~= hidden);
        assert(shown.difference(Set::<u64>::empty()) =~= shown);
        while i < action_types.len()
            invariant
                i <= action_types@.len(),
                self.hidden_namespaces == old(self).hidden_namespaces,
                self.hidden_action_types@ == hidden.union(action_types@.take(i as int).to_set()),
                self.shown_action_types@ == shown.difference(action_types@.take(i as int).to_set()),
            decreases action_types@.len() - i,
        {
            proof {
                lemma_take_set(action_types@, i as int);
            }
            self.hidden_action_types.insert(action_types[i]);
            self.shown_action_types.remove(&action_types[i]);
            proof {
                let seen = action_types@.take(i + 1).to_set();
                assert(self.hidden_action_types@ =~= hidden.union(seen));
                assert(self.shown_action_types@ =~= shown.difference(seen));
            }
            i += 1;
        }
        assert(action_types@.take(i as int) =~= action_types@);
    }

    /// Shows all actions with the given types.
    pub fn show_action_types(&mut self, action_types: &Vec<u64>)
        ensures
            final(self).hidden_namespaces == old(self).hidden_namespaces,
            final(self).shown_action_types@ == old(self).shown_action_types@.union(
                action_types@.to_set(),
            ),
            final(self).hidden_action_types@ == old(self).hidden_action_types@.difference(
                action_types@.to_set(),
            ),
            old(self).well_formed() ==> final(self).well_formed(),
    {
        let ghost hidden = self.hidden_action_types@;
        let ghost shown = self.shown_action_types@;
        let mut i: usize = 0;
        assert(action_types@.take(0).to_set() =~= Set::<u64>::empty());
        assert(shown.union(Set::<u64>::empty()) =~= shown);
        assert(hidden.difference(Set::<u64>::empty()) =~= hidden);
        while i < action_types.len()
            invariant
                i <= action_types@.len(),
                self.hidden_namespaces == old(self).hidden_namespaces,
                self.shown_action_types@ == shown.union(action_types@.take(i as int).to_set()),
                self.hidden_action_types@ == hidden.difference(
                    action_types@.take(i as int).to_set(),
                ),
            decreases action_types@.len() - i,
        {
            proof {
                lemma_take_set(action_types@, i as int);
            }
            self.shown_action_types.insert(action_types[i]);
            self.hidden_action_types.remove(&action_types[i]);
            proof {
                let seen = action_types@.take(i + 1).to_set();
                assert(self.shown_action_types@ =~= shown.union(seen));
                assert(self.hidden_action_types@ =~= hidden.difference(seen));
            }
            i += 1;
        }
        assert(action_types@.take(i as int) =~= action_types@);
    }
}

impl Default for CommandPaletteFilter {
    fn default() -> (filter: Self)
        ensures
            filter.well_formed(),
            forall|name: Seq<char>, action_type: u64| !(#[trigger] filter.hides(name, action_type)),
    {
        Self::new()
    }
}

proof fn lemma_take_set(items: Seq<u64>, count: int)
    requires
        0 <= count < items.len(),
    ensures
        items.take(count + 1).to_set() == items.take(count).to_set().insert(items[count]),
{
    let longer = items.take(count + 1);
    let shorter = items.take(count);
    assert forall|value: u64| longer.to_set().contains(value) == shorter.to_set().insert(
        items[count],
    ).contains(value) by {
        if longer.contains(value) {
            let k = choose|k: int| 0 <= k < longer.len() && longer[k] == value;
            if k < count {
                assert(shorter[k] == value);
            }
        }
        if shorter.contains(value) {
            let k = choose|k: int| 0 <= k < shorter.len() && shorter[k] == value;
            assert(longer[k] == value);
        }
        if value == items[count] {
            assert(longer[count] == value);
        }
    }
    assert(longer.to_set() =~= shorter.to_set().insert(items[count]));
}

/// An action that is explicitly shown is never hidden, whatever its namespace.
pub proof fn law_shown_actions_are_visible(
    filter: CommandPaletteFilter,
    name: Seq<char>,
    action_type: u64,
)
    requires
        filter.shown_action_types@.contains(action_type),
    ensures
        !filter.hides(name, action_type),
{
}

/// A result of intercepting a query: an action, by its number, and how it is shown.
#[derive(Debug, PartialEq)]
pub struct CommandInterceptItem {
    pub action: u64,
    pub string: String,
    pub positions: Vec<usize>,
}

/// What an interceptor gives: items before and after the ordinary ones, and whether those are
/// left out.
#[derive(Debug, PartialEq)]
pub struct CommandInterceptResult {
    pub results: Vec<CommandInterceptItem>,
    pub append_results: Vec<CommandInterceptItem>,
    pub exclusive: bool,
}

/// Who an interceptor belongs to.
#[derive(Clone, Copy, Debug, PartialEq, Eq, Structural)]
pub enum InterceptorOwner {
    Default,
    Type(u64),
}

/// An interceptor, by its number among the application's own objects.
#[derive(Clone, Copy, Debug, PartialEq, Eq, Structural)]
pub struct Interceptor {
    pub owner: InterceptorOwner,
    pub handler: u64,
}

/// The interceptors of the command palette, at most one of each owner. There is no list where
/// there are none.
#[derive(Debug)]
pub struct GlobalCommandPaletteInterceptor {
    pub interceptors: Option<Vec<Interceptor>>,
}

/// A list without the interceptor of an owner.
pub open spec fn without_owner(list: Seq<Interceptor>, owner: InterceptorOwner) -> Seq<Interceptor>
    decreases list.len(),
{
    if list.len() == 0 {
        Seq::<Interceptor>::empty()
    } else if list.last().owner == owner {
        without_owner(list.drop_last(), owner)
    } else {
        without_owner(list.drop_last(), owner).push(list.last())
    }
}

fn drop_owner(list: &Vec<Interceptor>, owner: InterceptorOwner) -> (rest: Vec<Interceptor>)
    ensures
        rest@ == without_owner(list@, owner),
{
    let mut rest: Vec<Interceptor> = Vec::new();
    let mut i: usize = 0;
    assert(list@.take(0) =~= Seq::<Interceptor>::empty());
    while i < list.len()
        invariant
            i <= list@.len(),
            rest@ == without_owner(list@.take(i as int), owner),
        decreases list@.len() - i,
    {
        assert(list@.take(i + 1).drop_last() =~= list@.take(i as int));
        assert(list@.take(i + 1).last() == list@[i as int]);
        if list[i].owner != owner {
            rest.push(list[i]);
        }
        i += 1;
    }
    assert(list@.take(i as int) =~= list@);
    rest
}

impl GlobalCommandPaletteInterceptor {
    /// The interceptors, in the order in which they were set.
    pub open spec fn listed(&self) -> Seq<Interceptor> {
        match self.interceptors {
            Some(list) => list@,
            None => Seq::<Interceptor>::empty(),
        }
    }

    /// No interceptors.
    pub fn new() -> (global: Self)
        ensures
            global.interceptors is None,
    {
        GlobalCommandPaletteInterceptor { interceptors: None }
    }

    /// Sets the default interceptor, in place of the one before.
    pub fn set(&mut self, handler: u64)
        ensures
            final(self).interceptors is Some,
            final(self).listed() == without_owner(
                old(self).listed(),
                InterceptorOwner::Default,
            ).push(Interceptor { owner: InterceptorOwner::Default, handler }),
    {
        self.set_for_type(InterceptorOwner::Default, handler);
    }

    /// Clears the default interceptor.
    pub fn clear(&mut self)
        ensures
            final(self).listed() == without_owner(old(self).listed(), InterceptorOwner::Default),
            final(self).interceptors is Some <==> final(self).listed().len() > 0,
    {
        self.clear_for_type(InterceptorOwner::Default);
    }

    /// Sets the interceptor of an owner, in place of the owner's one before and without changing
    /// those of others.
    pub fn set_for_type(&mut self, owner: InterceptorOwner, handler: u64)
        ensures
            final(self).interceptors is Some,
            final(self).listed() == without_owner(old(self).listed(), owner).push(
                Interceptor { owner, handler },
            ),
    {
        let mut rest = match &self.interceptors {
            Some(list) => drop_owner(list, owner),
            None => Vec::new(),
        };
        rest.push(Interceptor { owner, handler });
        self.interceptors = Some(rest);
    }

    /// Clears the interceptor of an owner. The list goes with its last interceptor.
    pub fn clear_for_type(&mut self, owner: InterceptorOwner)
        ensures
            final(self).listed() == without_owner(old(self).listed(), owner),
            final(self).interceptors is Some <==> final(self).listed().len() > 0,
    {
        let rest = match &self.interceptors {
            Some(list) => drop_owner(list, owner),
            None => Vec::new(),
        };
        if rest.len() == 0 {
            assert(without_owner(old(self).listed(), owner) =~= Seq::<Interceptor>::empty());
            self.interceptors = None;
        } else {
            self.interceptors = Some(rest);
        }
    }

    /// The handlers that a query goes to, in order, or nothing where no interceptor was set.
    pub fn intercept(&self) -> (handlers: Option<Vec<u64>>)
        ensures
            match handlers {
                Some(handlers) => self.interceptors is Some && handlers@ == self.listed().map_values(
                    |interceptor: Interceptor| interceptor.handler,
                ),
                None => self.interceptors is None,
            },
    {
        match &self.interceptors {
            None => None,
            Some(list) => {
                let mut handlers: Vec<u64> = Vec::new();
                let mut i: usize = 0;
                while i < list.len()
                    invariant
                        i <= list@.len(),
                        handlers@.len() == i,
                        forall|k: int| 0 <= k < i ==> handlers@[k] == (#[trigger] list@[k]).handler,
                    decreases list@.len() - i,
                {
                    handlers.push(list[i].handler);
                    i += 1;
                }
                assert(handlers@ =~= self.listed().map_values(
                    |interceptor: Interceptor| interceptor.handler,
                ));
                Some(handlers)
            },
        }
    }
}

/// After an owner's interceptor is taken out of a list, the list holds none of that owner and the
/// others as before.
pub proof fn law_owner_is_gone(list: Seq<Interceptor>, owner: InterceptorOwner)
    ensures
        forall|i: int|
            0 <= i < without_owner(list, owner).len() ==> (#[trigger] without_owner(
                list,
                owner,
            )[i]).owner != owner,
        forall|i: int|
            0 <= i < list.len() && (#[trigger] list[i]).owner != owner ==> without_owner(
                list,
                owner,
            ).contains(list[i]),
    decreases list.len(),
{
    if list.len() > 0 {
        let front = list.drop_last();
        law_owner_is_gone(front, owner);
        let rest = without_owner(list, owner);
        let earlier = without_owner(front, owner);
        assert forall|i: int| 0 <= i < rest.len() implies (#[trigger] rest[i]).owner != owner by {
            if i < earlier.len() {
                assert(rest[i] == earlier[i]);
            }
        }
        assert forall|i: int| 0 <= i < list.len() && (#[trigger] list[i]).owner
            != owner implies rest.contains(list[i]) by {
            if i < front.len() {
                assert(front[i] == list[i]);
                let j = choose|j: int| 0 <= j < earlier.len() && earlier[j] == front[i];
                assert(rest[j] == list[i]);
            } else {
                assert(rest[rest.len() - 1] == list[i]);
            }
        }
    }
}

/// The items before the ordinary ones, of all interceptors in order.
pub open spec fn all_results(parts: Seq<CommandInterceptResult>) -> Seq<CommandInterceptItem>
    decreases parts.len(),
{
    if parts.len() == 0 {
        Seq::<CommandInterceptItem>::empty()
    } else {
        all_results(parts.drop_last()) + parts.last().results@
    }
}

/// The items after the ordinary ones, of all interceptors in order.
pub open spec fn all_append_results(parts: Seq<CommandInterceptResult>) -> Seq<
    CommandInterceptItem,
>
    decreases parts.len(),
{
    if parts.len() == 0 {
        Seq::<CommandInterceptItem>::empty()
    } else {
        all_append_results(parts.drop_last()) + parts.last().append_results@
    }
}

/// Puts together what the interceptors gave. The ordinary items are left out where one of them
/// says so.
pub fn merge_intercepted(parts: Vec<CommandInterceptResult>) -> (merged: CommandInterceptResult)
    ensures
        merged.results@ == all_results(parts@),
        merged.append_results@ == all_append_results(parts@),
        merged.exclusive == exists|i: int| 0 <= i < parts@.len() && (#[trigger] parts@[i]).exclusive,
{
    let mut results: Vec<CommandInterceptItem> = Vec::new();
    let mut append_results: Vec<CommandInterceptItem> = Vec::new();
    let mut exclusive = false;
    let mut queue = parts;
    let ghost mut done: int = 0;
    assert(parts@.take(0) =~= Seq::<CommandInterceptResult>::empty());
    assert(parts@.skip(0) =~= parts@);
    while queue.len() > 0
        invariant
            0 <= done <= parts@.len(),
            queue@ == parts@.skip(done),
            results@ == all_results(parts@.take(done)),
            append_results@ == all_append_results(parts@.take(done)),
            exclusive == exists|i: int| 0 <= i < done && (#[trigger] parts@[i]).exclusive,
        decreases queue@.len(),
    {
        let part = queue.remove(0);
        proof {
            assert(part == parts@[done]);
            assert(queue@ =~= parts@.skip(done + 1));
            assert(parts@.take(done + 1).drop_last() =~= parts@.take(done));
            assert(parts@.take(done + 1).last() == part);
        }
        let CommandInterceptResult {
            results: mut more,
            append_results: mut more_append,
            exclusive: alone,
        } = part;
        results.append(&mut more);
        append_results.append(&mut more_append);
        exclusive = exclusive || alone;
        proof {
            done = done + 1;
        }
    }
    assert(parts@.take(done) =~= parts@);
    CommandInterceptResult { results, append_results, exclusive }
}

} // verus!
