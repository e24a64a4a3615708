//! The loaded plugins, each under its own name.
use vstd::prelude::*;

use crate::text::same_text;

verus! {

broadcast use vstd::string::group_string_axioms;

/// A loaded plugin under its name; only enabled plugins receive hooks.
pub struct PluginEntry<P> {
    pub name: String,
    pub enabled: bool,
    pub plugin: P,
}

/// The loaded plugins. No two of them share a name.
pub struct PluginRegistry<P> {
    entries: Vec<PluginEntry<P>>,
}

/// Whether no two entries share a name.
pub open spec fn distinct_names<P>(entries: Seq<PluginEntry<P>>) -> bool {
    forall|i: int, j: int|
        0 <= i < entries.len() && 0 <= j < entries.len() && i != j ==> #[trigger] entries[i].name@
            != #[trigger] entries[j].name@
}

/// The position of the entry named `name` at or after `from`.
pub open spec fn position_from<P>(entries: Seq<PluginEntry<P>>, name: Seq<char>, from: int) -> Option<int>
    decreases entries.len() - from,
{
    if from < 0 || from >= entries.len() {
        None
    } else if entries[from].name@ == name {
        Some(from)
    } else {
        position_from(entries, name, from + 1)
    }
}

/// The position of the entry named `name`.
pub open spec fn position<P>(entries: Seq<PluginEntry<P>>, name: Seq<char>) -> Option<int> {
    position_from(entries, name, 0)
}

/// The entries after `entry` was put in: it replaces the entry of the same name,
/// or joins at the end.
pub open spec fn inserted<P>(entries: Seq<PluginEntry<P>>, entry: PluginEntry<P>) -> Seq<PluginEntry<P>> {
    match position(entries, entry.name@) {
        Some(i) => entries.update(i, entry),
        None => entries.push(entry),
    }
}

/// The entry named `name`, if any.
pub open spec fn lookup<P>(entries: Seq<PluginEntry<P>>, name: Seq<char>) -> Option<PluginEntry<P>> {
    match position(entries, name) {
        Some(i) => Some(entries[i]),
        None => None,
    }
}

/// The positions of the entries that receive a hook: the enabled ones, and, where
/// a name is given, only the one of that name.
pub open spec fn hook_targets<P>(entries: Seq<PluginEntry<P>>, only: Option<Seq<char>>, count: int) -> Seq<int>
    decreases count,
{
    if count <= 0 {
        Seq::empty()
    } else {
        let e = entries[count - 1];
        hook_targets(entries, only, count - 1) + if e.enabled && match only {
            Some(n) => n == e.name@,
            None => true,
        } {
            seq![count - 1]
        } else {
            Seq::empty()
        }
    }
}

pub proof fn lemma_position_from<P>(entries: Seq<PluginEntry<P>>, name: Seq<char>, from: int)
    ensures
        position_from(entries, name, from) matches Some(i) ==> from <= i < entries.len()
            && entries[i].name@ == name && forall|k: int|
            from <= k < i ==> entries[k].name@ != name,
        position_from(entries, name, from) is None ==> forall|k: int|
            0 <= from <= k < entries.len() ==> entries[k].name@ != name,
    decreases entries.len() - from,
{
    if from < 0 || from >= entries.len() {
    } else if entries[from].name@ == name {
    } else {
        lemma_position_from(entries, name, from + 1);
    }
}

proof fn lemma_position_is<P>(entries: Seq<PluginEntry<P>>, name: Seq<char>, from: int, i: int)
    requires
        0 <= from <= i < entries.len(),
        entries[i].name@ == name,
        forall|k: int| from <= k < i ==> entries[k].name@ != name,
    ensures
        position_from(entries, name, from) == Some(i),
    decreases i - from,
{
    if from < i {
        lemma_position_is(entries, name, from + 1, i);
    }
}

/// With distinct names, an entry is found at its own position.
pub proof fn lemma_position_of_entry<P>(entries: Seq<PluginEntry<P>>, i: int)
    requires
        distinct_names(entries),
        0 <= i < entries.len(),
    ensures
        position(entries, entries[i].name@) == Some(i),
{
    assert forall|k: int| 0 <= k < i implies entries[k].name@ != entries[i].name@ by {
        assert(entries[k].name@ != entries[i].name@);
    }
    lemma_position_is(entries, entries[i].name@, 0, i);
}

impl<P> PluginRegistry<P> {
    #[verifier::type_invariant]
    spec fn names_are_distinct(&self) -> bool {
        distinct_names(self.entries@)
    }

    /// The entries, in the order they joined.
    pub closed spec fn contents(&self) -> Seq<PluginEntry<P>> {
        self.entries@
    }

    pub fn new() -> (r: Self)
        ensures
            r.contents() == Seq::<PluginEntry<P>>::empty(),
    {
        PluginRegistry { entries: Vec::new() }
    }

    /// Position of the entry named `name`.
    fn find(&self, name: &str) -> (r: Option<usize>)
        ensures
            match r {
                Some(i) => position(self.contents(), name@) == Some(i as int),
                None => position(self.contents(), name@) is None,
            },
    {
        let mut i: usize = 0;
        while i < self.entries.len()
            invariant
                i <= self.entries.len(),
                position(self.entries@, name@) == position_from(self.entries@, name@, i as int),
            decreases self.entries.len() - i,
        {
            if same_text(self.entries[i].name.as_str(), name) {
                return Some(i);
            }
            i = i + 1;
        }
        None
    }

    /// Puts `entry` in under its name; the entry it replaces, if any, is returned.
    pub fn insert(&mut self, entry: PluginEntry<P>) -> (r: Option<PluginEntry<P>>)
        ensures
            final(self).contents() == inserted(old(self).contents(), entry),
            r == lookup(old(self).contents(), entry.name@),
    {
        proof {
            use_type_invariant(&*self);
        }
        let ghost before = self.entries@;
        let ghost entry_view = entry;
        let found = self.find(entry.name.as_str());
        proof {
            lemma_position_from(before, entry.name@, 0);
        }
        let mut entries: Vec<PluginEntry<P>> = Vec::new();
        std::mem::swap(&mut entries, &mut self.entries);
        let r = match found {
            Some(i) => {
                let mut replaced = entry;
                std::mem::swap(&mut replaced, &mut entries[i]);
                Some(replaced)
            },
            None => {
                entries.push(entry);
                None
            },
        };
        proof {
            assert(entries@ =~= inserted(before, entry_view));
            assert forall|a: int, b: int|
                0 <= a < entries@.len() && 0 <= b < entries@.len() && a != b implies #[trigger] entries@[a].name@
                != #[trigger] entries@[b].name@ by {
                if let Some(i) = found {
                    if a != i && b != i {
                        assert(before[a].name@ != before[b].name@);
                    }
                } else {
                    if a < before.len() && b < before.len() {
                        assert(before[a].name@ != before[b].name@);
                    }
                }
            }
        }
        self.entries = entries;
        r
    }

    /// The entry named `name`.
    pub fn get(&self, name: &str) -> (r: Option<&PluginEntry<P>>)
        ensures
            match r {
                Some(e) => lookup(self.contents(), name@) == Some(*e),
                None => lookup(self.contents(), name@) is None,
            },
    {
        proof {
            lemma_position_from(self.entries@, name@, 0);
        }
        match self.find(name) {
            Some(i) => Some(&self.entries[i]),
            None => None,
        }
    }

    /// Enables or disables the plugin named `name`; returns whether there is one.
    pub fn set_enabled(&mut self, name: &str, enabled: bool) -> (r: bool)
        ensures
            r == (position(old(self).contents(), name@) is Some),
            match position(old(self).contents(), name@) {
                Some(i) => final(self).contents() == old(self).contents().update(
                    i,
                    PluginEntry { enabled, ..old(self).contents()[i] },
                ),
                None => final(self).contents() == old(self).contents(),
            },
    {
        proof {
            use_type_invariant(&*self);
        }
        let found = self.find(name);
        proof {
            lemma_position_from(self.entries@, name@, 0);
        }
        match found {
            Some(i) => {
                let ghost before = self.entries@;
                let mut entries: Vec<PluginEntry<P>> = Vec::new();
                std::mem::swap(&mut entries, &mut self.entries);
                entries[i].enabled = enabled;
                proof {
                    assert forall|a: int, b: int|
                        0 <= a < entries@.len() && 0 <= b < entries@.len() && a != b implies #[trigger] entries@[a].name@
                        != #[trigger] entries@[b].name@ by {
                        assert(before[a].name@ != before[b].name@);
                    }
                }
                self.entries = entries;
                assert(self.entries@ =~= before.update(
                    i as int,
                    PluginEntry { enabled, ..before[i as int] },
                ));
                true
            },
            None => false,
        }
    }

    /// The entries, in the order they joined.
    pub fn entries(&self) -> (r: &Vec<PluginEntry<P>>)
        ensures
            r@ == self.contents(),
            distinct_names(r@),
    {
        proof {
            use_type_invariant(self);
        }
        &self.entries
    }

    pub fn len(&self) -> (r: usize)
        ensures
            r == self.contents().len(),
    {
        self.entries.len()
    }

    pub fn is_empty(&self) -> (r: bool)
        ensures
            r == (self.contents().len() == 0),
    {
        self.entries.len() == 0
    }

    /// The plugins that a hook goes to, in order: the enabled ones, and where
    /// `only` names a plugin, just that one.
    pub fn hook_targets(&self, only: Option<&str>) -> (r: Vec<usize>)
        ensures
            r@.map_values(|i: usize| i as int) == hook_targets(
                self.contents(),
                match only {
                    Some(n) => Some(n@),
                    None => None,
                },
                self.contents().len() as int,
            ),
    {
        let ghost filter = match only {
            Some(n) => Some(n@),
            None => None::<Seq<char>>,
        };
        let mut r: Vec<usize> = Vec::new();
        let mut i: usize = 0;
        while i < self.entries.len()
            invariant
                i <= self.entries.len(),
                filter == match only {
                    Some(n) => Some(n@),
                    None => None::<Seq<char>>,
                },
                r@.map_values(|i: usize| i as int) == hook_targets(self.entries@, filter, i as int),
            decreases self.entries.len() - i,
        {
            let entry = &self.entries[i];
            let wanted = match only {
                Some(n) => same_text(n, entry.name.as_str()),
                None => true,
            };
            let ghost before = r@;
            if entry.enabled && wanted {
                r.push(i);
            }
            assert(r@.map_values(|i: usize| i as int) =~= hook_targets(
                self.entries@,
                filter,
                i + 1,
            ));
            i = i + 1;
        }
        r
    }
}

/// A hook goes only to enabled plugins, and, where a name is given, only to the
/// plugin of that name; every such plugin receives it, once, in registry order.
pub proof fn law_hook_targets<P>(entries: Seq<PluginEntry<P>>, only: Option<Seq<char>>, count: int)
    requires
        0 <= count <= entries.len(),
    ensures
        forall|k: int|
            0 <= k < hook_targets(entries, only, count).len() ==> {
                let i = #[trigger] hook_targets(entries, only, count)[k];
                &&& 0 <= i < count
                &&& entries[i].enabled
                &&& only matches Some(n) ==> n == entries[i].name@
            },
        forall|j: int, k: int|
            0 <= j < k < hook_targets(entries, only, count).len() ==> #[trigger] hook_targets(
                entries,
                only,
                count,
            )[j] < #[trigger] hook_targets(entries, only, count)[k],
        forall|i: int|
            0 <= i < count && entries[i].enabled && (only matches Some(n) ==> n == entries[i].name@)
                ==> #[trigger] hook_targets(entries, only, count).contains(i),
    decreases count,
{
    if count > 0 {
        law_hook_targets(entries, only, count - 1);
        let before = hook_targets(entries, only, count - 1);
        let after = hook_targets(entries, only, count);
        assert forall|i: int|
            0 <= i < count && entries[i].enabled && (only matches Some(n) ==> n == entries[i].name@)
                implies #[trigger] after.contains(i) by {
            if i < count - 1 {
                assert(before.contains(i));
                let k = choose|k: int| 0 <= k < before.len() && before[k] == i;
                assert(after[k] == i);
            } else {
                assert(after[after.len() - 1] == i);
            }
        }
        assert forall|k: int| 0 <= k < after.len() implies {
            let i = #[trigger] after[k];
            &&& 0 <= i < count
            &&& entries[i].enabled
            &&& only matches Some(n) ==> n == entries[i].name@
        } by {
            if k < before.len() {
                assert(after[k] == before[k]);
            }
        }
        assert forall|j: int, k: int| 0 <= j < k < after.len() implies #[trigger] after[j] < #[trigger] after[k] by {
            if k < before.len() {
                assert(after[j] == before[j]);
                assert(after[k] == before[k]);
            } else if j < before.len() {
                assert(after[j] == before[j]);
            }
        }
    }
}

/// After a plugin is put in, it is found under its name, every other name finds
/// what it found before, and no two plugins share a name.
pub proof fn law_insert_then_lookup<P>(entries: Seq<PluginEntry<P>>, entry: PluginEntry<P>, other: Seq<char>)
    requires
        distinct_names(entries),
        other != entry.name@,
    ensures
        lookup(inserted(entries, entry), entry.name@) == Some(entry),
        lookup(inserted(entries, entry), other) == lookup(entries, other),
        distinct_names(inserted(entries, entry)),
{
    lemma_position_from(entries, entry.name@, 0);
    lemma_position_from(entries, other, 0);
    let after = inserted(entries, entry);
    assert(distinct_names(after)) by {
        assert forall|a: int, b: int|
            0 <= a < after.len() && 0 <= b < after.len() && a != b implies #[trigger] after[a].name@
            != #[trigger] after[b].name@ by {
            if let Some(i) = position(entries, entry.name@) {
                if a != i && b != i {
                    assert(entries[a].name@ != entries[b].name@);
                }
            } else {
                if a < entries.len() && b < entries.len() {
                    assert(entries[a].name@ != entries[b].name@);
                }
            }
        }
    }
    match position(entries, entry.name@) {
        Some(i) => {
            lemma_position_of_entry(after, i);
        },
        None => {
            lemma_position_of_entry(after, entries.len() as int);
        },
    }
    match position(entries, other) {
        Some(j) => {
            lemma_position_of_entry(entries, j);
            lemma_position_of_entry(after, j);
        },
        None => {
            lemma_position_from(after, other, 0);
            if let Some(k) = position(after, other) {
                if k < entries.len() {
                    if let Some(i) = position(entries, entry.name@) {
                        if k != i {
                            assert(entries[k].name@ == other);
                        }
                    } else {
                        assert(entries[k].name@ == other);
                    }
                }
            }
        },
    }
}

} // verus!
