use crate::common::monitorstatus::{MonitorStatus, MonitorStatusView, Status, StatusView};
use vstd::prelude::*;

verus! {

/// The mapping that a list of entries stands for: each name with the status of its entry.
pub open spec fn entries_map(entries: Seq<MonitorStatusView>) -> Map<Seq<char>, StatusView>
    decreases entries.len(),
{
    if entries.len() == 0 {
        Map::empty()
    } else {
        entries_map(entries.drop_last()).insert(entries.last().name, entries.last().status)
    }
}

/// No two entries carry the same name.
pub open spec fn distinct_names(entries: Seq<MonitorStatusView>) -> bool {
    forall|i: int, j: int|
        0 <= i < j < entries.len() ==> (#[trigger] entries[i]).name != (#[trigger] entries[j]).name
}

/// Some entry carries `name`.
pub open spec fn has_name(entries: Seq<MonitorStatusView>, name: Seq<char>) -> bool {
    exists|i: int| 0 <= i < entries.len() && (#[trigger] entries[i]).name == name
}

/// What `register` does to the mapping: a name that is absent enters as `Unknown`.
pub open spec fn registered(
    statuses: Map<Seq<char>, StatusView>,
    name: Seq<char>,
) -> Map<Seq<char>, StatusView> {
    if statuses.contains_key(name) {
        statuses
    } else {
        statuses.insert(name, StatusView::Unknown)
    }
}

/// What `set` does to the mapping: the entry of a name that is present is overwritten.
pub open spec fn updated(
    statuses: Map<Seq<char>, StatusView>,
    name: Seq<char>,
    status: StatusView,
) -> Map<Seq<char>, StatusView> {
    if statuses.contains_key(name) {
        statuses.insert(name, status)
    } else {
        statuses
    }
}

/// What a run of `set` calls does to the mapping, the calls taken in the order in which
/// they got hold of the registry.
pub open spec fn updated_all(
    statuses: Map<Seq<char>, StatusView>,
    updates: Seq<MonitorStatusView>,
) -> Map<Seq<char>, StatusView>
    decreases updates.len(),
{
    if updates.len() == 0 {
        statuses
    } else {
        updated(updated_all(statuses, updates.drop_last()), updates.last().name, updates.last().status)
    }
}

/// The status that the last update for `name` in a run of updates carries, if there is one.
pub open spec fn last_update(updates: Seq<MonitorStatusView>, name: Seq<char>) -> Option<
    StatusView,
>
    decreases updates.len(),
{
    if updates.len() == 0 {
        None
    } else if updates.last().name == name {
        Some(updates.last().status)
    } else {
        last_update(updates.drop_last(), name)
    }
}

/// No update is lost and none reaches another monitor's entry: after any run of `set`
/// calls, in whatever order the monitors got hold of the registry, it holds exactly the
/// names it held before, and each name has the status of its own last update, or its old
/// status if no update was for it.
pub proof fn lemma_updates_are_not_lost(
    statuses: Map<Seq<char>, StatusView>,
    updates: Seq<MonitorStatusView>,
)
    ensures
        updated_all(statuses, updates).dom() == statuses.dom(),
        forall|name: Seq<char>|
            statuses.contains_key(name) ==> #[trigger] updated_all(statuses, updates)[name]
                == match last_update(updates, name) {
                Some(status) => status,
                None => statuses[name],
            },
    decreases updates.len(),
{
    if updates.len() > 0 {
        lemma_updates_are_not_lost(statuses, updates.drop_last());
        let before = updated_all(statuses, updates.drop_last());
        assert(updated(before, updates.last().name, updates.last().status).dom() =~= before.dom());
    }
}

/// The names of a list of entries are the keys of its mapping, and there are finitely many.
pub proof fn lemma_entries_map_domain(entries: Seq<MonitorStatusView>)
    ensures
        entries_map(entries).dom().finite(),
        forall|name: Seq<char>| #[trigger]
            entries_map(entries).contains_key(name) <==> has_name(entries, name),
    decreases entries.len(),
{
    if entries.len() > 0 {
        let front = entries.drop_last();
        let last = entries.last();
        lemma_entries_map_domain(front);
        assert forall|name: Seq<char>| #[trigger]
            entries_map(entries).contains_key(name) <==> has_name(entries, name) by {
            if has_name(entries, name) {
                let i = choose|i: int| 0 <= i < entries.len() && (#[trigger] entries[i]).name == name;
                if i < front.len() {
                    assert(front[i].name == name);
                    assert(has_name(front, name));
                }
            }
            if entries_map(entries).contains_key(name) {
                if name == last.name {
                    assert(entries[entries.len() - 1].name == name);
                } else {
                    assert(has_name(front, name));
                    let i = choose|i: int| 0 <= i < front.len() && (#[trigger] front[i]).name == name;
                    assert(entries[i].name == name);
                }
            }
        }
    }
}

/// Where names are distinct, the mapping gives each entry's name that entry's status.
pub proof fn lemma_entries_map_value(entries: Seq<MonitorStatusView>, i: int)
    requires
        distinct_names(entries),
        0 <= i < entries.len(),
    ensures
        entries_map(entries).contains_key(entries[i].name),
        entries_map(entries)[entries[i].name] == entries[i].status,
    decreases entries.len(),
{
    let front = entries.drop_last();
    if i < entries.len() - 1 {
        assert(distinct_names(front)) by {
            assert forall|a: int, b: int| 0 <= a < b < front.len() implies (#[trigger] front[a]).name
                != (#[trigger] front[b]).name by {
                assert(entries[a].name != entries[b].name);
            }
        }
        lemma_entries_map_value(front, i);
        assert(front[i] == entries[i]);
        assert(entries[i].name != entries[entries.len() - 1].name);
    }
}

/// Where names are distinct, there are as many keys as entries.
pub proof fn lemma_entries_map_len(entries: Seq<MonitorStatusView>)
    requires
        distinct_names(entries),
    ensures
        entries_map(entries).dom().finite(),
        entries_map(entries).dom().len() == entries.len(),
    decreases entries.len(),
{
    lemma_entries_map_domain(entries);
    if entries.len() > 0 {
        let front = entries.drop_last();
        let last = entries.last();
        assert(distinct_names(front)) by {
            assert forall|a: int, b: int| 0 <= a < b < front.len() implies (#[trigger] front[a]).name
                != (#[trigger] front[b]).name by {
                assert(entries[a].name != entries[b].name);
            }
        }
        lemma_entries_map_len(front);
        lemma_entries_map_domain(front);
        assert(!entries_map(front).contains_key(last.name)) by {
            if has_name(front, last.name) {
                let i = choose|i: int| 0 <= i < front.len() && (#[trigger] front[i]).name == last.name;
                assert(entries[i].name != entries[entries.len() - 1].name);
            }
        }
        assert(entries_map(entries).dom() =~= entries_map(front).dom().insert(last.name));
    }
}

/// Where names are distinct, replacing the status of entry `i` overwrites its name's value.
pub proof fn lemma_entries_map_update(entries: Seq<MonitorStatusView>, i: int, status: StatusView)
    requires
        distinct_names(entries),
        0 <= i < entries.len(),
    ensures
        entries_map(entries.update(i, MonitorStatusView { name: entries[i].name, status }))
            == entries_map(entries).insert(entries[i].name, status),
    decreases entries.len(),
{
    let entry = MonitorStatusView { name: entries[i].name, status };
    let changed = entries.update(i, entry);
    let front = entries.drop_last();
    if i == entries.len() - 1 {
        assert(changed.drop_last() =~= front);
        assert(entries_map(changed) =~= entries_map(entries).insert(entries[i].name, status));
    } else {
        assert(distinct_names(front)) by {
            assert forall|a: int, b: int| 0 <= a < b < front.len() implies (#[trigger] front[a]).name
                != (#[trigger] front[b]).name by {
                assert(entries[a].name != entries[b].name);
            }
        }
        lemma_entries_map_update(front, i, status);
        assert(front[i] == entries[i]);
        assert(changed.drop_last() =~= front.update(i, entry));
        assert(changed.last() == entries.last());
        assert(entries[i].name != entries[entries.len() - 1].name);
        assert(entries_map(changed) =~= entries_map(entries).insert(entries[i].name, status));
    }
}

/// The current status of every monitor, by name: the one source of truth for health state.
///
/// A name enters once, as `Unknown`, and is never removed. The registry itself is plain
/// data; whoever shares it among tasks guards it and holds the guard only for one call.
#[derive(Debug)]
pub struct Registry {
    entries: Vec<MonitorStatus>,
}

impl View for Registry {
    type V = Map<Seq<char>, StatusView>;

    /// The mapping from each registered name to its status.
    closed spec fn view(&self) -> Map<Seq<char>, StatusView> {
        entries_map(self.entries())
    }
}

impl Registry {
    /// The entries in the order in which their names were registered.
    pub closed spec fn entries(&self) -> Seq<MonitorStatusView> {
        Seq::new(self.entries@.len(), |i: int| self.entries@[i]@)
    }

    #[verifier::type_invariant]
    spec fn names_are_distinct(&self) -> bool {
        distinct_names(self.entries())
    }

    /// The mapping of a registry is the mapping that its entries stand for.
    pub proof fn lemma_view_of_entries(&self)
        ensures
            self@ == entries_map(self.entries()),
    {
    }

    /// A registry without entries.
    pub fn new() -> (registry: Registry)
        ensures
            registry@ == Map::<Seq<char>, StatusView>::empty(),
            registry.entries() == Seq::<MonitorStatusView>::empty(),
    {
        let registry = Registry { entries: Vec::new() };
        assert(registry.entries() =~= Seq::<MonitorStatusView>::empty());
        registry
    }

    fn position(&self, name: &String) -> (found: Option<usize>)
        ensures
            match found {
                Some(i) => i < self.entries().len() && self.entries()[i as int].name == name@,
                None => !has_name(self.entries(), name@),
            },
    {
        let mut i: usize = 0;
        while i < self.entries.len()
            invariant
                i <= self.entries.len(),
                self.entries().len() == self.entries.len(),
                forall|j: int| 0 <= j < i ==> (#[trigger] self.entries()[j]).name != name@,
            decreases self.entries.len() - i,
        {
            if self.entries[i].name == *name {
                return Some(i);
            }
            i += 1;
        }
        None
    }

    /// The number of registered names.
    pub fn len(&self) -> (count: usize)
        ensures
            count == self@.dom().len(),
            count == self.entries().len(),
    {
        proof {
            use_type_invariant(self);
            lemma_entries_map_len(self.entries());
        }
        self.entries.len()
    }

    /// Whether `name` is registered.
    pub fn contains(&self, name: &str) -> (present: bool)
        ensures
            present == self@.contains_key(name@),
    {
        let owned = name.to_owned();
        proof {
            lemma_entries_map_domain(self.entries());
        }
        self.position(&owned).is_some()
    }

    /// Registers `name`: if it is absent it enters as `Unknown`, else nothing changes.
    pub fn register(&mut self, name: &str)
        ensures
            final(self)@ == registered(old(self)@, name@),
            final(self).entries() == if has_name(old(self).entries(), name@) {
                old(self).entries()
            } else {
                old(self).entries().push(
                    MonitorStatusView { name: name@, status: StatusView::Unknown },
                )
            },
    {
        let owned = name.to_owned();
        proof {
            use_type_invariant(&*self);
            lemma_entries_map_domain(self.entries());
        }
        if self.position(&owned).is_none() {
            let ghost before = self.entries();
            let entry = MonitorStatus::new(owned, Status::Unknown);
            let mut entries: Vec<MonitorStatus> = Vec::new();
            core::mem::swap(&mut self.entries, &mut entries);
            entries.push(entry);
            proof {
                let after = Seq::new(entries@.len(), |i: int| entries@[i]@);
                assert(after =~= before.push(entry@));
                assert(after.drop_last() =~= before);
                assert forall|i: int, j: int| 0 <= i < j < after.len() implies (#[trigger] after[i]).name
                    != (#[trigger] after[j]).name by {
                    if j == before.len() {
                        assert(before[i].name != name@);
                    } else {
                        assert(before[i].name != before[j].name);
                    }
                }
            }
            core::mem::swap(&mut self.entries, &mut entries);
        }
    }

    /// Overwrites the status of `name` if it is registered, and says whether it was.
    /// For a name that is not registered nothing changes.
    pub fn set(&mut self, name: &str, status: Status) -> (written: bool)
        ensures
            written == old(self)@.contains_key(name@),
            final(self)@ == updated(old(self)@, name@, status@),
            final(self)@.dom() == old(self)@.dom(),
    {
        let owned = name.to_owned();
        proof {
            use_type_invariant(&*self);
            lemma_entries_map_domain(self.entries());
        }
        match self.position(&owned) {
            Some(i) => {
                let ghost before = self.entries();
                let entry = MonitorStatus::new(owned, status);
                let mut entries: Vec<MonitorStatus> = Vec::new();
                core::mem::swap(&mut self.entries, &mut entries);
                entries.set(i, entry);
                proof {
                    let after = Seq::new(entries@.len(), |i: int| entries@[i]@);
                    assert(after =~= before.update(i as int, entry@));
                    lemma_entries_map_update(before, i as int, status@);
                    assert forall|a: int, b: int| 0 <= a < b < after.len() implies (
                    #[trigger] after[a]).name != (#[trigger] after[b]).name by {
                        assert(before[a].name != before[b].name);
                    }
                    assert(entries_map(after).dom() =~= entries_map(before).dom());
                }
                core::mem::swap(&mut self.entries, &mut entries);
                true
            },
            None => false,
        }
    }

    /// The entry of `name`, if it is registered.
    pub fn get(&self, name: &str) -> (entry: Option<MonitorStatus>)
        ensures
            match entry {
                Some(e) => self@.contains_key(name@) && e@ == (MonitorStatusView {
                    name: name@,
                    status: self@[name@],
                }),
                None => !self@.contains_key(name@),
            },
    {
        let owned = name.to_owned();
        proof {
            use_type_invariant(self);
            lemma_entries_map_domain(self.entries());
        }
        match self.position(&owned) {
            Some(i) => {
                proof {
                    lemma_entries_map_value(self.entries(), i as int);
                }
                Some(self.entries[i].clone())
            },
            None => None,
        }
    }

    /// A copy of every entry as it stands now, in the order of registration.
    pub fn snapshot(&self) -> (copy: Vec<MonitorStatus>)
        ensures
            copy@.len() == self.entries().len(),
            forall|i: int| 0 <= i < copy@.len() ==> (#[trigger] copy@[i])@ == self.entries()[i],
            entries_map(Seq::new(copy@.len(), |i: int| copy@[i]@)) == self@,
            copy@.len() == self@.dom().len(),
    {
        let mut copy: Vec<MonitorStatus> = Vec::new();
        let mut i: usize = 0;
        while i < self.entries.len()
            invariant
                i <= self.entries.len(),
                copy@.len() == i,
                self.entries().len() == self.entries.len(),
                forall|j: int| 0 <= j < i ==> (#[trigger] copy@[j])@ == self.entries()[j],
            decreases self.entries.len() - i,
        {
            copy.push(self.entries[i].clone());
            i += 1;
        }
        proof {
            use_type_invariant(self);
            lemma_entries_map_len(self.entries());
            assert(Seq::new(copy@.len(), |i: int| copy@[i]@) =~= self.entries());
        }
        copy
    }
}

} // verus!
