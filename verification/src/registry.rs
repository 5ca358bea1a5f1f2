//! The registry of connected devices, by their slugs.

use crate::slug::{slug, slugify};
use crate::text::same_text;
use vstd::prelude::*;
use vstd::string::*;

verus! {

/// The devices that are connected, each under its slug, with what reaches it.
pub struct Registry<T> {
    entries: Vec<(String, T)>,
}

/// What a list of entries maps to what.
spec fn mapped<T>(entries: Seq<(String, T)>) -> Map<Seq<char>, T>
    decreases entries.len(),
{
    if entries.len() == 0 {
        Map::empty()
    } else {
        mapped(entries.drop_last()).insert(entries.last().0@, entries.last().1)
    }
}

/// No slug stands twice.
spec fn distinct<T>(entries: Seq<(String, T)>) -> bool {
    forall|i: int, j: int|
        0 <= i < j < entries.len() ==> #[trigger] entries[i].0@ != #[trigger] entries[j].0@
}

/// What is mapped is what stands in the list.
proof fn lemma_mapped<T>(entries: Seq<(String, T)>)
    requires
        distinct(entries),
    ensures
        forall|k: Seq<char>| #[trigger] mapped(entries).contains_key(k) ==> exists|i: int|
            0 <= i < entries.len() && #[trigger] entries[i].0@ == k,
        forall|i: int| 0 <= i < entries.len() ==> {
            &&& mapped(entries).contains_key(#[trigger] entries[i].0@)
            &&& mapped(entries)[entries[i].0@] == entries[i].1
        },
    decreases entries.len(),
{
    if entries.len() > 0 {
        let before = entries.drop_last();
        lemma_mapped(before);
        assert forall|k: Seq<char>| #[trigger] mapped(entries).contains_key(k) implies exists|i: int|
            0 <= i < entries.len() && #[trigger] entries[i].0@ == k by {
            if k == entries.last().0@ {
                assert(entries[entries.len() - 1].0@ == k);
            } else {
                assert(mapped(before).contains_key(k));
                let i = choose|i: int| 0 <= i < before.len() && #[trigger] before[i].0@ == k;
                assert(entries[i].0@ == k);
            }
        }
        assert forall|i: int| 0 <= i < entries.len() implies {
            &&& mapped(entries).contains_key(#[trigger] entries[i].0@)
            &&& mapped(entries)[entries[i].0@] == entries[i].1
        } by {
            if i < before.len() {
                assert(before[i] == entries[i]);
                assert(entries[i].0@ != entries[entries.len() - 1].0@);
            }
        }
    }
}

/// Without one entry, its slug is no longer mapped, and all others are as before.
proof fn lemma_without<T>(entries: Seq<(String, T)>, n: int)
    requires
        distinct(entries),
        0 <= n < entries.len(),
    ensures
        distinct(entries.remove(n)),
        mapped(entries.remove(n)) == mapped(entries).remove(entries[n].0@),
{
    let rest = entries.remove(n);
    lemma_mapped(entries);
    assert forall|i: int, j: int| 0 <= i < j < rest.len() implies #[trigger] rest[i].0@ != #[trigger] rest[j].0@ by {
        let a = if i < n { i } else { i + 1 };
        let b = if j < n { j } else { j + 1 };
        assert(entries[a].0@ != entries[b].0@);
    }
    lemma_mapped(rest);
    let want = mapped(entries).remove(entries[n].0@);
    assert forall|k: Seq<char>| #[trigger] mapped(rest).contains_key(k) == want.contains_key(k) by {
        if mapped(rest).contains_key(k) {
            let i = choose|i: int| 0 <= i < rest.len() && #[trigger] rest[i].0@ == k;
            let a = if i < n { i } else { i + 1 };
            assert(entries[a].0@ == k);
            assert(entries[a].0@ != entries[n].0@);
        }
        if want.contains_key(k) {
            let a = choose|i: int| 0 <= i < entries.len() && #[trigger] entries[i].0@ == k;
            let i = if a < n { a } else { a - 1 };
            assert(rest[i].0@ == k);
        }
    }
    assert forall|k: Seq<char>| #[trigger] mapped(rest).contains_key(k) implies mapped(rest)[k] == want[k] by {
        let i = choose|i: int| 0 <= i < rest.len() && #[trigger] rest[i].0@ == k;
        let a = if i < n { i } else { i + 1 };
        assert(entries[a] == rest[i]);
        assert(entries[a].0@ != entries[n].0@);
    }
    assert(mapped(rest) =~= want);
}

impl<T> View for Registry<T> {
    type V = Map<Seq<char>, T>;

    closed spec fn view(&self) -> Map<Seq<char>, T> {
        mapped(self.entries@)
    }
}

/// Finds the entry of a slug.
fn position<T>(entries: &Vec<(String, T)>, key: &str) -> (r: Option<usize>)
    requires
        distinct(entries@),
    ensures
        match r {
            Some(i) => {
                &&& i < entries@.len()
                &&& entries@[i as int].0@ == key@
                &&& mapped(entries@).contains_key(key@)
                &&& mapped(entries@)[key@] == entries@[i as int].1
            },
            None => !mapped(entries@).contains_key(key@),
        },
{
    proof {
        lemma_mapped(entries@);
    }
    let mut i: usize = 0;
    while i < entries.len()
        invariant
            i <= entries.len(),
            distinct(entries@),
            forall|j: int| 0 <= j < i ==> #[trigger] entries@[j].0@ != key@,
        decreases entries.len() - i,
    {
        if same_text(entries[i].0.as_str(), key) {
            proof {
                lemma_mapped(entries@);
            }
            return Some(i);
        }
        i += 1;
    }
    None
}

impl<T> Registry<T> {
    #[verifier::type_invariant]
    spec fn consistent(self) -> bool {
        distinct(self.entries@)
    }

    /// Makes a registry without devices.
    pub fn new() -> (r: Self)
        ensures
            r@ == Map::<Seq<char>, T>::empty(),
    {
        Registry { entries: Vec::new() }
    }

    /// Tells whether the device is connected.
    pub fn contains(&self, key: &str) -> (r: bool)
        ensures
            r == self@.contains_key(key@),
    {
        proof {
            use_type_invariant(self);
        }
        position(&self.entries, key).is_some()
    }

    /// Finds what reaches the device.
    pub fn get(&self, key: &str) -> (r: Option<&T>)
        ensures
            r is Some <==> self@.contains_key(key@),
            r is Some ==> *r->0 == self@[key@],
    {
        proof {
            use_type_invariant(self);
        }
        match position(&self.entries, key) {
            Some(i) => Some(&self.entries[i].1),
            None => None,
        }
    }

    /// Takes a device in, in place of an earlier one with the same slug.
    pub fn insert(&mut self, key: String, value: T)
        ensures
            final(self)@ == old(self)@.insert(key@, value),
    {
        proof {
            use_type_invariant(&*self);
        }
        let mut entries: Vec<(String, T)> = Vec::new();
        std::mem::swap(&mut entries, &mut self.entries);
        if let Some(i) = position(&entries, key.as_str()) {
            proof {
                lemma_without(entries@, i as int);
            }
            entries.remove(i);
        }
        proof {
            lemma_mapped(entries@);
            assert(entries@.push((key, value)).drop_last() =~= entries@);
            assert(forall|i: int| 0 <= i < entries@.len() ==> #[trigger] entries@[i].0@ != key@);
            assert(mapped(entries@.push((key, value))) =~= old(self)@.insert(key@, value));
        }
        entries.push((key, value));
        self.entries = entries;
    }

    /// Lets a device go.
    pub fn remove(&mut self, key: &str)
        ensures
            final(self)@ == old(self)@.remove(key@),
    {
        proof {
            use_type_invariant(&*self);
        }
        let mut entries: Vec<(String, T)> = Vec::new();
        std::mem::swap(&mut entries, &mut self.entries);
        match position(&entries, key) {
            Some(i) => {
                proof {
                    lemma_without(entries@, i as int);
                }
                entries.remove(i);
            },
            None => {
                assert(mapped(entries@) =~= mapped(entries@).remove(key@));
            },
        }
        self.entries = entries;
    }

    /// The slug under which a discovered device is to be connected, unless it is already.
    pub fn unclaimed(&self, id: &str) -> (r: Option<String>)
        ensures
            r is Some <==> !self@.contains_key(slug(id@)),
            r is Some ==> r->0@ == slug(id@),
    {
        let key = slugify(id);
        if self.contains(key.as_str()) {
            None
        } else {
            Some(key)
        }
    }
}

/// One thing that happens while devices are discovered, connected and lost.
pub enum Turn<T> {
    /// A discovered device is considered: it is connected to if its slug is unclaimed.
    Considered { id: Seq<char> },
    /// The connection came about: the device is inserted, and its task starts.
    Connected { value: T },
    /// The connection failed.
    Refused,
    /// A task has ended: its device is removed.
    Ended { task: int },
}

/// The registry, the slug of the device that is being connected to, and the slugs of the tasks
/// that run.
pub struct Supervision<T> {
    pub registry: Map<Seq<char>, T>,
    pub connecting: Option<Seq<char>>,
    pub running: Seq<Seq<char>>,
}

/// What comes of one turn.
pub open spec fn turned<T>(v: Supervision<T>, turn: Turn<T>) -> Supervision<T> {
    match turn {
        Turn::Considered { id } => Supervision {
            connecting: if v.registry.contains_key(slug(id)) {
                None
            } else {
                Some(slug(id))
            },
            ..v
        },
        Turn::Connected { value } => match v.connecting {
            Some(key) => Supervision {
                registry: v.registry.insert(key, value),
                connecting: None,
                running: v.running.push(key),
            },
            None => v,
        },
        Turn::Refused => Supervision { connecting: None, ..v },
        Turn::Ended { task } => if 0 <= task < v.running.len() {
            Supervision {
                registry: v.registry.remove(v.running[task]),
                running: v.running.remove(task),
                ..v
            }
        } else {
            v
        },
    }
}

/// What comes of a number of turns, from an empty registry on.
pub open spec fn supervised<T>(turns: Seq<Turn<T>>) -> Supervision<T>
    decreases turns.len(),
{
    if turns.len() == 0 {
        Supervision { registry: Map::empty(), connecting: None, running: Seq::empty() }
    } else {
        turned(supervised(turns.drop_last()), turns.last())
    }
}

/// Whatever happens, and whatever ends while a connection is being made, no two tasks run under
/// the same slug, the registry holds exactly the slugs of the tasks that run, and no task runs
/// under the slug that is being connected to.
pub proof fn law_one_task_runs_per_slug<T>(turns: Seq<Turn<T>>)
    ensures
        ({
            let v = supervised(turns);
            &&& v.running.no_duplicates()
            &&& forall|k: Seq<char>| #[trigger] v.registry.contains_key(k) <==> v.running.contains(k)
            &&& v.connecting is Some ==> !v.running.contains(v.connecting->0)
        }),
    decreases turns.len(),
{
    if turns.len() > 0 {
        let before = turns.drop_last();
        let v = supervised(before);
        law_one_task_runs_per_slug(before);
        match turns.last() {
            Turn::Considered { id } => {},
            Turn::Connected { value } => {
                if let Some(key) = v.connecting {
                    lemma_one_more_runs(v.running, key);
                }
            },
            Turn::Refused => {},
            Turn::Ended { task } => {
                if 0 <= task < v.running.len() {
                    lemma_one_less_runs(v.running, task);
                }
            },
        }
    }
}

/// A considered device is connected to if and only if no task runs under its slug.
pub proof fn law_devices_are_connected_unless_they_run<T>(turns: Seq<Turn<T>>, id: Seq<char>)
    ensures
        turned(supervised(turns), Turn::Considered { id }).connecting == if supervised(turns).running.contains(slug(id)) {
            None
        } else {
            Some(slug(id))
        },
{
    law_one_task_runs_per_slug(turns);
    assert(supervised(turns).registry.contains_key(slug(id)) <==> supervised(turns).running.contains(slug(id)));
}

/// The tasks that run, and one more.
proof fn lemma_one_more_runs(running: Seq<Seq<char>>, key: Seq<char>)
    requires
        running.no_duplicates(),
        !running.contains(key),
    ensures
        running.push(key).no_duplicates(),
        forall|k: Seq<char>| #[trigger] running.push(key).contains(k) <==> running.contains(k) || k == key,
{
    let more = running.push(key);
    assert forall|k: Seq<char>| #[trigger] more.contains(k) <==> running.contains(k) || k == key by {
        if running.contains(k) {
            let i = choose|i: int| 0 <= i < running.len() && running[i] == k;
            assert(more[i] == k);
        }
        assert(more[running.len() as int] == key);
    }
}

/// The tasks that run, without the one that has ended.
proof fn lemma_one_less_runs(running: Seq<Seq<char>>, task: int)
    requires
        running.no_duplicates(),
        0 <= task < running.len(),
    ensures
        running.remove(task).no_duplicates(),
        forall|k: Seq<char>| #[trigger] running.remove(task).contains(k) <==> running.contains(k) && k != running[task],
{
    let rest = running.remove(task);
    assert forall|k: Seq<char>| #[trigger] rest.contains(k) <==> running.contains(k) && k != running[task] by {
        if rest.contains(k) {
            let i = choose|i: int| 0 <= i < rest.len() && rest[i] == k;
            let a = if i < task { i } else { i + 1 };
            assert(running[a] == k);
        }
        if running.contains(k) && k != running[task] {
            let a = choose|a: int| 0 <= a < running.len() && running[a] == k;
            let i = if a < task { a } else { a - 1 };
            assert(rest[i] == k);
        }
    }
}

} // verus!
