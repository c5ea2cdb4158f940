//! The handlers that are registered, by event type and for every event.
use vstd::prelude::*;

use crate::engine;
use crate::engine::EngineError;

verus! {

/// Whether two handlers are the same: one object, or two that compare equal.  A comparison
/// that failed finds them different.
pub fn is_same_handler(same_object: bool, equal: Option<bool>) -> (same: bool)
    ensures
        same == (same_object || equal == Some(true)),
{
    if same_object {
        return true;
    }
    match equal {
        Some(equal) => equal,
        None => false,
    }
}

/// Whether handler `i` was found to be the one in question.  Nothing was found about a handler
/// past the end of `same`.
pub open spec fn is_told(same: Seq<bool>, i: int) -> bool {
    0 <= i < same.len() && same[i]
}

/// Whether one of the first `len` handlers was found to be the one in question.
pub open spec fn is_any_told(same: Seq<bool>, len: nat) -> bool {
    exists|i: int| 0 <= i < len && #[trigger] is_told(same, i)
}

/// What is left of `items` from `i` on without those that were found to be the one in question.
pub open spec fn kept_from<H>(items: Seq<H>, same: Seq<bool>, i: int) -> Seq<H>
    decreases items.len() - i,
{
    if i >= items.len() {
        seq![]
    } else if is_told(same, i) {
        kept_from(items, same, i + 1)
    } else {
        seq![items[i]] + kept_from(items, same, i + 1)
    }
}

/// `items` with `handler` at its end, unless it is there already.
pub open spec fn with_handler<H>(items: Seq<H>, handler: H, same: Seq<bool>) -> Seq<H> {
    if is_any_told(same, items.len()) {
        items
    } else {
        items.push(handler)
    }
}

/// `items` without those that were found to be the one in question.
pub open spec fn without_handler<H>(items: Seq<H>, same: Seq<bool>) -> Seq<H> {
    kept_from(items, same, 0)
}

/// Whether one of the first `len` handlers was found to be the one in question.
fn any_told(same: &Vec<bool>, len: usize) -> (told: bool)
    ensures
        told == is_any_told(same@, len as nat),
{
    let mut i: usize = 0;
    while i < len && i < same.len()
        invariant
            i <= len,
            i <= same@.len(),
            forall|k: int| 0 <= k < i ==> !is_told(same@, k),
        decreases len - i,
    {
        if same[i] {
            assert(is_told(same@, i as int));
            return true;
        }
        i += 1;
    }
    false
}

/// Takes out the handlers that were found to be the one in question.
fn retain_others<H>(items: &mut Vec<H>, same: &Vec<bool>)
    ensures
        final(items)@ == without_handler(old(items)@, same@),
{
    let ghost all = items@;
    let mut i: usize = items.len();
    assert(all.take(i as int) + kept_from(all, same@, i as int) =~= all);
    while i > 0
        invariant
            i <= all.len(),
            items@ == all.take(i as int) + kept_from(all, same@, i as int),
        decreases i,
    {
        i -= 1;
        let ghost rest = kept_from(all, same@, i + 1);
        if i < same.len() && same[i] {
            items.remove(i);
            assert(items@ =~= all.take(i as int) + rest);
        } else {
            assert(items@ =~= all.take(i as int) + (seq![all[i as int]] + rest));
        }
    }
    assert(items@ =~= kept_from(all, same@, 0));
}

/// The handlers for every event, in the order in which they came.
#[derive(Debug)]
pub struct HandlerList<H> {
    handlers: Vec<H>,
}

impl<H> View for HandlerList<H> {
    type V = Seq<H>;

    closed spec fn view(&self) -> Seq<H> {
        self.handlers@
    }
}

impl<H> HandlerList<H> {
    /// No handler.
    pub fn new() -> (list: HandlerList<H>)
        ensures
            list@ == Seq::<H>::empty(),
    {
        HandlerList { handlers: Vec::new() }
    }

    /// The handlers.
    pub fn handlers(&self) -> (handlers: &Vec<H>)
        ensures
            handlers@ == self@,
    {
        &self.handlers
    }

    /// Registers a handler, which has to be callable.  `same` says of each handler in the list
    /// whether it is this one; a handler that is there already is not registered again.
    pub fn register(&mut self, handler: H, callable: bool, same: &Vec<bool>) -> (result: Result<(), EngineError>)
        ensures
            callable ==> result is Ok && final(self)@ == with_handler(old(self)@, handler, same@),
            !callable ==> {
                &&& result matches Err(EngineError::NotCallable { name }) && name@ == "general_handler"@
                &&& final(self)@ == old(self)@
            },
    {
        match engine::ensure_callable(callable, "general_handler") {
            Err(error) => Err(error),
            Ok(_) => {
                if !any_told(same, self.handlers.len()) {
                    self.handlers.push(handler);
                }
                Ok(())
            },
        }
    }

    /// Takes out the handlers of which `same` says so.
    pub fn unregister(&mut self, same: &Vec<bool>)
        ensures
            final(self)@ == without_handler(old(self)@, same@),
    {
        retain_others(&mut self.handlers, same);
    }
}

#[derive(Debug)]
struct HandlerEntry<H> {
    type_: String,
    handlers: Vec<H>,
}

/// The handlers for each event type, in the order in which they came.
#[derive(Debug)]
pub struct HandlerMap<H> {
    entries: Vec<HandlerEntry<H>>,
}

/// Whether entry `i` is that of a type.
spec fn is_entry<H>(entries: Seq<HandlerEntry<H>>, type_: Seq<char>, i: int) -> bool {
    0 <= i < entries.len() && entries[i].type_@ == type_
}

/// The handlers by type.
spec fn as_map<H>(entries: Seq<HandlerEntry<H>>) -> Map<Seq<char>, Seq<H>> {
    Map::new(
        |type_: Seq<char>| exists|i: int| is_entry(entries, type_, i),
        |type_: Seq<char>| entries[choose|i: int| is_entry(entries, type_, i)].handlers@,
    )
}

/// No two entries are of one type.
spec fn one_each<H>(entries: Seq<HandlerEntry<H>>) -> bool {
    forall|i: int, j: int|
        0 <= i < j < entries.len() ==> #[trigger] entries[i].type_@ != #[trigger] entries[j].type_@
}

/// No entry is empty.
spec fn none_empty<H>(entries: Seq<HandlerEntry<H>>) -> bool {
    forall|i: int| 0 <= i < entries.len() ==> (#[trigger] entries[i]).handlers@.len() > 0
}

proof fn lemma_entry<H>(entries: Seq<HandlerEntry<H>>, i: int)
    requires
        one_each(entries),
        0 <= i < entries.len(),
    ensures
        as_map(entries).dom().contains(entries[i].type_@),
        as_map(entries)[entries[i].type_@] == entries[i].handlers@,
{
    let type_ = entries[i].type_@;
    assert(is_entry(entries, type_, i));
    let j = choose|j: int| is_entry(entries, type_, j);
    assert(is_entry(entries, type_, j));
    assert(i == j) by {
        if i < j {
            assert(entries[i].type_@ != entries[j].type_@);
        } else if j < i {
            assert(entries[j].type_@ != entries[i].type_@);
        }
    }
}

/// Two lists of entries that hold the same handlers for each type are one map.
proof fn lemma_same_map<H>(entries: Seq<HandlerEntry<H>>, map: Map<Seq<char>, Seq<H>>)
    requires
        one_each(entries),
        forall|i: int|
            0 <= i < entries.len() ==> map.dom().contains(#[trigger] entries[i].type_@)
                && map[entries[i].type_@] == entries[i].handlers@,
        forall|type_: Seq<char>| #[trigger] map.dom().contains(type_) ==> exists|i: int| is_entry(entries, type_, i),
    ensures
        as_map(entries) == map,
{
    let own = as_map(entries);
    assert forall|type_: Seq<char>| #[trigger] own.dom().contains(type_) == map.dom().contains(type_) by {
        if own.dom().contains(type_) {
            let i = choose|i: int| is_entry(entries, type_, i);
            assert(entries[i].type_@ == type_);
        }
    }
    assert forall|type_: Seq<char>| own.dom().contains(type_) implies #[trigger] own[type_] == map[type_] by {
        let i = choose|i: int| is_entry(entries, type_, i);
        lemma_entry(entries, i);
        assert(entries[i].type_@ == type_);
    }
    assert(own =~= map);
}

impl<H> View for HandlerMap<H> {
    type V = Map<Seq<char>, Seq<H>>;

    closed spec fn view(&self) -> Map<Seq<char>, Seq<H>> {
        as_map(self.entries@)
    }
}

impl<H> HandlerMap<H> {
    /// Each type stands once, and only while it has handlers.
    pub closed spec fn wf(self) -> bool {
        one_each(self.entries@) && none_empty(self.entries@)
    }

    /// The handlers for a type: none, where it has no entry.
    pub open spec fn of(self, type_: Seq<char>) -> Seq<H> {
        handlers_of(self@, type_)
    }

    /// No handler.
    pub fn new() -> (map: HandlerMap<H>)
        ensures
            map.wf(),
            map@ == Map::<Seq<char>, Seq<H>>::empty(),
    {
        let map = HandlerMap { entries: Vec::new() };
        proof {
            lemma_same_map(map.entries@, Map::<Seq<char>, Seq<H>>::empty());
        }
        map
    }

    fn find(&self, type_: &String) -> (found: Option<usize>)
        requires
            self.wf(),
        ensures
            match found {
                Some(i) => is_entry(self.entries@, type_@, i as int) && self@.dom().contains(type_@) && self@[type_@]
                    == self.entries@[i as int].handlers@,
                None => !self@.dom().contains(type_@),
            },
    {
        let mut i: usize = 0;
        while i < self.entries.len()
            invariant
                self.wf(),
                i <= self.entries@.len(),
                forall|k: int| 0 <= k < i ==> !is_entry(self.entries@, type_@, k),
            decreases self.entries@.len() - i,
        {
            if self.entries[i].type_ == *type_ {
                proof {
                    lemma_entry(self.entries@, i as int);
                }
                return Some(i);
            }
            i += 1;
        }
        None
    }

    /// The handlers for a type.
    pub fn handlers(&self, type_: &String) -> (handlers: Option<&Vec<H>>)
        requires
            self.wf(),
        ensures
            handlers is Some <==> self@.dom().contains(type_@),
            handlers matches Some(list) ==> list@ == self@[type_@],
    {
        match self.find(type_) {
            Some(i) => Some(&self.entries[i].handlers),
            None => None,
        }
    }

    /// Registers a handler for a type.  The handler has to be callable.  `same` says of each
    /// handler that the type has whether it is this one; a handler that is there already is not
    /// registered again.
    pub fn register(&mut self, type_: String, handler: H, callable: bool, same: &Vec<bool>) -> (result: Result<
        (),
        EngineError,
    >)
        requires
            old(self).wf(),
        ensures
            final(self).wf(),
            callable ==> result is Ok && final(self)@ == registered(old(self)@, type_@, handler, same@),
            !callable ==> {
                &&& result matches Err(EngineError::NotCallable { name }) && name@ == "handler"@
                &&& final(self)@ == old(self)@
            },
    {
        match engine::ensure_callable(callable, "handler") {
            Err(error) => Err(error),
            Ok(_) => {
                self.enter(type_, handler, same);
                Ok(())
            },
        }
    }

    /// Enters a handler for a type, unless it is there already.
    fn enter(&mut self, type_: String, handler: H, same: &Vec<bool>)
        requires
            old(self).wf(),
        ensures
            final(self).wf(),
            final(self)@ == registered(old(self)@, type_@, handler, same@),
    {
        let ghost before = self.entries@;
        let ghost target = registered(self@, type_@, handler, same@);
        match self.find(&type_) {
            Some(i) => {
                let list = &mut self.entries[i].handlers;
                if !any_told(same, list.len()) {
                    list.push(handler);
                }
                proof {
                    assert forall|k: int| 0 <= k < before.len() && k != i implies #[trigger] self.entries@[k]
                        == before[k] by {}
                    assert(self.entries@[i as int].type_@ == type_@);
                    assert forall|k: int| 0 <= k < self.entries@.len() implies target.dom().contains(
                        #[trigger] self.entries@[k].type_@,
                    ) && target[self.entries@[k].type_@] == self.entries@[k].handlers@ by {
                        lemma_entry(before, k);
                        if k < i {
                            assert(before[k].type_@ != before[i as int].type_@);
                        } else if k > i {
                            assert(before[i as int].type_@ != before[k].type_@);
                        }
                    }
                    assert forall|t: Seq<char>| #[trigger] target.dom().contains(t) implies exists|k: int|
                        is_entry(self.entries@, t, k) by {
                        let k = choose|k: int| is_entry(before, t, k);
                        assert(is_entry(self.entries@, t, k));
                    }
                    lemma_same_map(self.entries@, target);
                }
            },
            None => {
                let mut handlers: Vec<H> = Vec::new();
                handlers.push(handler);
                let ghost name = type_@;
                self.entries.push(HandlerEntry { type_, handlers });
                proof {
                    let after = self.entries@;
                    let n = before.len() as int;
                    assert(!is_any_told(same@, 0));
                    assert(after[n].type_@ == name);
                    assert(after[n].handlers@ =~= seq![handler]);
                    assert(Seq::<H>::empty().push(handler) =~= seq![handler]);
                    assert forall|k: int| 0 <= k < n implies #[trigger] after[k] == before[k] && after[k].type_@
                        != name by {
                        if before[k].type_@ == name {
                            assert(is_entry(before, name, k));
                        }
                    }
                    assert forall|k: int| 0 <= k < after.len() implies target.dom().contains(
                        #[trigger] after[k].type_@,
                    ) && target[after[k].type_@] == after[k].handlers@ by {
                        if k < n {
                            lemma_entry(before, k);
                        }
                    }
                    assert forall|t: Seq<char>| #[trigger] target.dom().contains(t) implies exists|k: int|
                        is_entry(after, t, k) by {
                        if t == name {
                            assert(is_entry(after, t, n));
                        } else {
                            let k = choose|k: int| is_entry(before, t, k);
                            assert(is_entry(after, t, k));
                        }
                    }
                    lemma_same_map(after, target);
                }
            },
        }
    }

    /// Takes out the handlers for a type of which `same` says so.
    pub fn unregister(&mut self, type_: &String, same: &Vec<bool>)
        requires
            old(self).wf(),
        ensures
            final(self).wf(),
            final(self)@ == unregistered(old(self)@, type_@, same@),
    {
        let ghost before = self.entries@;
        let ghost target = unregistered(self@, type_@, same@);
        if let Some(i) = self.find(type_) {
            retain_others(&mut self.entries[i].handlers, same);
            let ghost kept = without_handler(before[i as int].handlers@, same@);
            let ghost halfway = self.entries@;
            assert forall|k: int| 0 <= k < before.len() && k != i implies #[trigger] halfway[k] == before[k]
                && before[k].type_@ != type_@ by {
                if k < i {
                    assert(before[k].type_@ != before[i as int].type_@);
                } else {
                    assert(before[i as int].type_@ != before[k].type_@);
                }
            }
            if self.entries[i].handlers.is_empty() {
                self.entries.remove(i);
            }
            proof {
                let after = self.entries@;
                assert(kept == halfway[i as int].handlers@);
                if kept.len() == 0 {
                    assert forall|k: int| 0 <= k < after.len() implies #[trigger] after[k] == (if k < i {
                        before[k]
                    } else {
                        before[k + 1]
                    }) by {}
                    assert forall|t: Seq<char>| #[trigger] target.dom().contains(t) implies exists|k: int|
                        is_entry(after, t, k) by {
                        let k = choose|k: int| is_entry(before, t, k);
                        let l = if k < i {
                            k
                        } else {
                            k - 1
                        };
                        assert(k != i);
                        assert(is_entry(after, t, l));
                    }
                    assert forall|k: int| 0 <= k < after.len() implies target.dom().contains(
                        #[trigger] after[k].type_@,
                    ) && target[after[k].type_@] == after[k].handlers@ by {
                        lemma_entry(
                            before,
                            if k < i {
                                k
                            } else {
                                k + 1
                            },
                        );
                    }
                } else {
                    assert(after[i as int].type_@ == type_@);
                    assert forall|t: Seq<char>| #[trigger] target.dom().contains(t) implies exists|k: int|
                        is_entry(after, t, k) by {
                        let k = choose|k: int| is_entry(before, t, k);
                        assert(is_entry(after, t, k));
                    }
                    assert forall|k: int| 0 <= k < after.len() implies target.dom().contains(
                        #[trigger] after[k].type_@,
                    ) && target[after[k].type_@] == after[k].handlers@ by {
                        lemma_entry(before, k);
                    }
                }
                lemma_same_map(after, target);
            }
        }
    }
}

/// The handlers for a type: none, where it has no entry.
pub open spec fn handlers_of<H>(map: Map<Seq<char>, Seq<H>>, type_: Seq<char>) -> Seq<H> {
    if map.dom().contains(type_) {
        map[type_]
    } else {
        seq![]
    }
}

/// `map` with a handler for a type.
pub open spec fn registered<H>(
    map: Map<Seq<char>, Seq<H>>,
    type_: Seq<char>,
    handler: H,
    same: Seq<bool>,
) -> Map<Seq<char>, Seq<H>> {
    map.insert(type_, with_handler(handlers_of(map, type_), handler, same))
}

/// `map` without the handlers for a type of which `same` says so.  A type that is left with no
/// handler goes.
pub open spec fn unregistered<H>(
    map: Map<Seq<char>, Seq<H>>,
    type_: Seq<char>,
    same: Seq<bool>,
) -> Map<Seq<char>, Seq<H>> {
    let kept = without_handler(handlers_of(map, type_), same);
    if kept.len() == 0 {
        map.remove(type_)
    } else {
        map.insert(type_, kept)
    }
}

/// Law: a type stands in the map only while it has handlers.
pub proof fn listed_types_have_handlers<H>(map: HandlerMap<H>, type_: Seq<char>)
    requires
        map.wf(),
        map@.dom().contains(type_),
    ensures
        map@[type_].len() > 0,
        map.of(type_) == map@[type_],
{
    let i = choose|i: int| is_entry(map.entries@, type_, i);
    lemma_entry(map.entries@, i);
}

/// Law: a handler that is registered again for a type is registered once.
pub proof fn registering_again_changes_nothing<H>(
    map: Map<Seq<char>, Seq<H>>,
    type_: Seq<char>,
    handler: H,
    same: Seq<bool>,
)
    requires
        is_any_told(same, handlers_of(map, type_).len()),
    ensures
        registered(map, type_, handler, same) == map,
{
    assert(registered(map, type_, handler, same) =~= map);
}

/// Law: a handler that is registered comes last among those of its type, and the handlers of
/// other types stay as they are.
pub proof fn registering_adds_at_the_end<H>(
    map: Map<Seq<char>, Seq<H>>,
    type_: Seq<char>,
    handler: H,
    same: Seq<bool>,
    other: Seq<char>,
)
    requires
        !is_any_told(same, handlers_of(map, type_).len()),
        other != type_,
    ensures
        handlers_of(registered(map, type_, handler, same), type_) == handlers_of(map, type_).push(handler),
        handlers_of(registered(map, type_, handler, same), other) == handlers_of(map, other),
        handlers_of(unregistered(map, type_, same), other) == handlers_of(map, other),
{
}

proof fn lemma_kept_none<H>(items: Seq<H>, same: Seq<bool>, i: int)
    requires
        0 <= i <= items.len(),
        forall|k: int| i <= k < items.len() ==> !#[trigger] is_told(same, k),
    ensures
        kept_from(items, same, i) == items.skip(i),
    decreases items.len() - i,
{
    if i < items.len() {
        lemma_kept_none(items, same, i + 1);
        assert(seq![items[i]] + items.skip(i + 1) =~= items.skip(i));
    } else {
        assert(items.skip(i) =~= seq![]);
    }
}

proof fn lemma_kept_but_last<H>(items: Seq<H>, handler: H, same: Seq<bool>, i: int)
    requires
        0 <= i <= items.len(),
        forall|k: int| #[trigger] is_told(same, k) <==> k == items.len(),
    ensures
        kept_from(items.push(handler), same, i) == items.skip(i),
    decreases items.len() - i,
{
    let all = items.push(handler);
    assert(is_told(same, i) <==> i == items.len());
    if i < items.len() {
        lemma_kept_but_last(items, handler, same, i + 1);
        assert(seq![all[i]] + items.skip(i + 1) =~= items.skip(i));
    } else {
        assert(kept_from(all, same, i + 1) =~= seq![]);
        assert(items.skip(i) =~= seq![]);
    }
}

proof fn lemma_kept_has<H>(items: Seq<H>, same: Seq<bool>, i: int, handler: H)
    requires
        0 <= i <= items.len(),
    ensures
        kept_from(items, same, i).contains(handler) <==> exists|k: int|
            i <= k < items.len() && !is_told(same, k) && #[trigger] items[k] == handler,
    decreases items.len() - i,
{
    if i < items.len() {
        lemma_kept_has(items, same, i + 1, handler);
        let rest = kept_from(items, same, i + 1);
        let kept = kept_from(items, same, i);
        if is_told(same, i) {
            assert(kept == rest);
        } else {
            assert(kept == seq![items[i]] + rest);
            assert(kept[0] == items[i]);
            if kept.contains(handler) && items[i] != handler {
                let k = choose|k: int| 0 <= k < kept.len() && kept[k] == handler;
                assert(rest[k - 1] == handler);
            }
            if rest.contains(handler) {
                let k = choose|k: int| 0 <= k < rest.len() && rest[k] == handler;
                assert(kept[k + 1] == handler);
            }
        }
    }
}

/// Law: unregistering takes out exactly the handlers that were found to be the one in
/// question: the list that is left holds the others, and nothing that was not there.
pub proof fn unregistering_keeps_the_others<H>(items: Seq<H>, same: Seq<bool>, handler: H)
    ensures
        without_handler(items, same).contains(handler) <==> exists|k: int|
            0 <= k < items.len() && !is_told(same, k) && #[trigger] items[k] == handler,
{
    lemma_kept_has(items, same, 0, handler);
}

/// Law: unregistering what is not registered changes nothing.
pub proof fn unregistering_a_stranger_changes_nothing<H>(
    map: Map<Seq<char>, Seq<H>>,
    type_: Seq<char>,
    same: Seq<bool>,
)
    requires
        map.dom().contains(type_) ==> map[type_].len() > 0,
        !is_any_told(same, handlers_of(map, type_).len()),
    ensures
        unregistered(map, type_, same) == map,
{
    let items = handlers_of(map, type_);
    lemma_kept_none(items, same, 0);
    assert(items.skip(0) =~= items);
    assert(unregistered(map, type_, same) =~= map);
}

/// Law: unregistering a handler that was just registered restores the map.
pub proof fn unregistering_undoes_registering<H>(
    map: Map<Seq<char>, Seq<H>>,
    type_: Seq<char>,
    handler: H,
    found: Seq<bool>,
    same: Seq<bool>,
)
    requires
        map.dom().contains(type_) ==> map[type_].len() > 0,
        !is_any_told(found, handlers_of(map, type_).len()),
        forall|k: int| #[trigger] is_told(same, k) <==> k == handlers_of(map, type_).len(),
    ensures
        unregistered(registered(map, type_, handler, found), type_, same) == map,
{
    let items = handlers_of(map, type_);
    lemma_kept_but_last(items, handler, same, 0);
    assert(items.skip(0) =~= items);
    assert(unregistered(registered(map, type_, handler, found), type_, same) =~= map);
}

proof fn lemma_kept_order<H>(items: Seq<H>, same: Seq<bool>, i: int) -> (from: Seq<int>)
    requires
        0 <= i <= items.len(),
    ensures
        from.len() == kept_from(items, same, i).len(),
        forall|a: int, b: int| 0 <= a < b < from.len() ==> #[trigger] from[a] < #[trigger] from[b],
        forall|a: int|
            0 <= a < from.len() ==> {
                &&& i <= #[trigger] from[a] < items.len()
                &&& !(from[a] < same.len() && same[from[a]])
                &&& kept_from(items, same, i)[a] == items[from[a]]
            },
        forall|k: int| i <= k < items.len() && !(k < same.len() && same[k]) ==> #[trigger] from.contains(k),
    decreases items.len() - i,
{
    if i >= items.len() {
        seq![]
    } else {
        let rest = lemma_kept_order(items, same, i + 1);
        if is_told(same, i) {
            rest
        } else {
            let from = seq![i] + rest;
            assert(from[0] == i);
            assert forall|a: int, b: int| 0 <= a < b < from.len() implies #[trigger] from[a] < #[trigger] from[b] by {
                assert(from[b] == rest[b - 1]);
                if a > 0 {
                    assert(from[a] == rest[a - 1]);
                }
            }
            assert forall|a: int| 0 <= a < from.len() implies i <= #[trigger] from[a] < items.len() && !(from[a]
                < same.len() && same[from[a]]) && kept_from(items, same, i)[a] == items[from[a]] by {
                if a > 0 {
                    assert(from[a] == rest[a - 1]);
                    assert(kept_from(items, same, i)[a] == kept_from(items, same, i + 1)[a - 1]);
                }
            }
            assert forall|k: int| i <= k < items.len() && !(k < same.len() && same[k]) implies #[trigger] from.contains(
                k,
            ) by {
                if k > i {
                    assert(rest.contains(k));
                    let a = choose|a: int| 0 <= a < rest.len() && rest[a] == k;
                    assert(from[a + 1] == k);
                }
            }
            from
        }
    }
}

/// Law: what unregistering leaves stands in the order in which it stood.  The handlers that are
/// left are those at the positions `from`, which go up and are all the positions of which it
/// was not found that the handler there is the one in question.
pub proof fn unregistering_keeps_the_order<H>(items: Seq<H>, same: Seq<bool>) -> (from: Seq<int>)
    ensures
        from.len() == without_handler(items, same).len(),
        forall|a: int, b: int| 0 <= a < b < from.len() ==> #[trigger] from[a] < #[trigger] from[b],
        forall|a: int|
            0 <= a < from.len() ==> {
                &&& 0 <= #[trigger] from[a] < items.len()
                &&& !(from[a] < same.len() && same[from[a]])
                &&& without_handler(items, same)[a] == items[from[a]]
            },
        forall|k: int| 0 <= k < items.len() && !(k < same.len() && same[k]) ==> #[trigger] from.contains(k),
{
    lemma_kept_order(items, same, 0)
}

/// Law: a handler is added exactly where none of those in the list was found to be it, and then
/// at the end.
pub proof fn handlers_are_added_once<H>(items: Seq<H>, handler: H, same: Seq<bool>)
    ensures
        (exists|i: int| 0 <= i < items.len() && i < same.len() && #[trigger] same[i]) ==> with_handler(
            items,
            handler,
            same,
        ) == items,
        (forall|i: int| 0 <= i < items.len() && i < same.len() ==> !#[trigger] same[i]) ==> with_handler(
            items,
            handler,
            same,
        ) == items.push(handler),
{
    if exists|i: int| 0 <= i < items.len() && i < same.len() && #[trigger] same[i] {
        let i = choose|i: int| 0 <= i < items.len() && i < same.len() && #[trigger] same[i];
        assert(is_told(same, i));
    }
}

/// Law: registering and unregistering for a type leave every other type as it was.  The type
/// itself has the list with the handler, or the list without it, and stands in the map exactly
/// while that list is not empty.
pub proof fn types_do_not_mix<H>(
    map: Map<Seq<char>, Seq<H>>,
    type_: Seq<char>,
    handler: H,
    same: Seq<bool>,
    other: Seq<char>,
)
    requires
        other != type_,
    ensures
        ({
            let added = registered(map, type_, handler, same);
            let items = if map.dom().contains(type_) {
                map[type_]
            } else {
                seq![]
            };
            &&& added.dom().contains(type_) && added[type_] == with_handler(items, handler, same)
            &&& added.dom().contains(other) <==> map.dom().contains(other)
            &&& map.dom().contains(other) ==> added[other] == map[other]
        }),
        ({
            let less = unregistered(map, type_, same);
            let items = if map.dom().contains(type_) {
                map[type_]
            } else {
                seq![]
            };
            let kept = without_handler(items, same);
            &&& less.dom().contains(type_) <==> kept.len() > 0
            &&& kept.len() > 0 ==> less[type_] == kept
            &&& less.dom().contains(other) <==> map.dom().contains(other)
            &&& map.dom().contains(other) ==> less[other] == map[other]
        }),
{
}

} // verus!
