//! The window cache: a persistent mapping from a window class string to the
//! window's last known position and size.
//!
//! The cache is populated when a window closes or moves and consulted when a
//! window of the same class is built again. A missing entry is not an
//! error; the builder then falls back to a default centered placement.

use vstd::prelude::*;

use crate::units::ScreenPosition;
use crate::units::ScreenSize;

verus! {

/// The geometry remembered for one window class.
#[derive(Clone, Copy, PartialEq, Eq, Structural, Debug)]
pub struct WindowState {
    pub position: ScreenPosition,
    pub size: ScreenSize,
}

/// One cache entry: a window class and its remembered geometry.
pub struct CacheEntry {
    pub class: String,
    pub state: WindowState,
}

/// The remembered geometry for a class, read from a sequence of entries:
/// the first entry whose class matches, if any.
pub open spec fn spec_lookup(entries: Seq<CacheEntry>, class: Seq<char>) -> Option<WindowState>
    decreases entries.len(),
{
    if entries.len() == 0 {
        Option::None
    } else if entries[0].class@ == class {
        Option::Some(entries[0].state)
    } else {
        spec_lookup(entries.drop_first(), class)
    }
}

/// Replacing the state of the first entry that carries `class` changes the
/// lookup for `class` alone.
proof fn lemma_lookup_update(entries: Seq<CacheEntry>, i: int, entry: CacheEntry, other: Seq<char>)
    requires
        0 <= i < entries.len(),
        entries[i].class@ == entry.class@,
        forall|j: int| 0 <= j < i ==> entries[j].class@ != entry.class@,
    ensures
        spec_lookup(entries.update(i, entry), entry.class@) == Option::Some(entry.state),
        other != entry.class@ ==> spec_lookup(entries.update(i, entry), other) == spec_lookup(entries, other),
    decreases i,
{
    let updated = entries.update(i, entry);
    if i == 0 {
        assert(updated.drop_first() =~= entries.drop_first());
    } else {
        assert(updated[0] == entries[0]);
        assert(updated.drop_first() =~= entries.drop_first().update(i - 1, entry));
        lemma_lookup_update(entries.drop_first(), i - 1, entry, other);
    }
}

/// Appending an entry whose class occurs nowhere earlier changes the lookup
/// for that class alone.
proof fn lemma_lookup_push(entries: Seq<CacheEntry>, entry: CacheEntry, other: Seq<char>)
    requires
        forall|j: int| 0 <= j < entries.len() ==> entries[j].class@ != entry.class@,
    ensures
        spec_lookup(entries.push(entry), entry.class@) == Option::Some(entry.state),
        other != entry.class@ ==> spec_lookup(entries.push(entry), other) == spec_lookup(entries, other),
    decreases entries.len(),
{
    if entries.len() == 0 {
        assert(entries.push(entry)[0] == entry);
        assert(entries.push(entry).drop_first() =~= entries);
    } else {
        assert(entries.push(entry)[0] == entries[0]);
        assert(entries.push(entry).drop_first() =~= entries.drop_first().push(entry));
        lemma_lookup_push(entries.drop_first(), entry, other);
    }
}

/// A mapping from window class to last known position and size.
pub struct WindowCache {
    entries: Vec<CacheEntry>,
}

impl WindowCache {
    /// The remembered geometry for a class.
    pub closed spec fn spec_get(self, class: Seq<char>) -> Option<WindowState> {
        spec_lookup(self.entries@, class)
    }

    /// An empty cache: no class has remembered geometry.
    pub fn new() -> (r: WindowCache)
        ensures
            forall|class: Seq<char>| r.spec_get(class) is None,
    {
        WindowCache { entries: Vec::new() }
    }

    /// Looks up the remembered geometry for a class. Absence is not an
    /// error; the result is `None` exactly when the class was never stored.
    pub fn get_window_state(&self, window_class: &String) -> (r: Option<WindowState>)
        ensures
            r == self.spec_get(window_class@),
    {
        let mut index: usize = 0;
        proof {
            assert(self.entries@.skip(0) =~= self.entries@);
        }
        while index < self.entries.len()
            invariant
                index <= self.entries.len(),
                spec_lookup(self.entries@.skip(index as int), window_class@)
                    == spec_lookup(self.entries@, window_class@),
            decreases self.entries.len() - index,
        {
            let entry = &self.entries[index];
            proof {
                assert(self.entries@.skip(index as int)[0] == self.entries@[index as int]);
                assert(self.entries@.skip(index as int).drop_first()
                    =~= self.entries@.skip(index as int + 1));
            }
            if entry.class == *window_class {
                return Option::Some(entry.state);
            }
            index += 1;
        }
        proof {
            assert(self.entries@.skip(index as int) =~= Seq::<CacheEntry>::empty());
        }
        Option::None
    }

    /// Stores the geometry for a class, overwriting any earlier entry.
    /// After the call the class maps to exactly the given position and
    /// size; every other class is unaffected.
    pub fn update_window_state(
        &mut self,
        window_class: &String,
        position: ScreenPosition,
        size: ScreenSize,
    )
        ensures
            final(self).spec_get(window_class@) == Option::Some(WindowState { position, size }),
            forall|other: Seq<char>| other != window_class@
                ==> final(self).spec_get(other) == old(self).spec_get(other),
    {
        let state = WindowState { position, size };
        let mut index: usize = 0;
        let mut found = false;
        while !found && index < self.entries.len()
            invariant
                index <= self.entries.len(),
                forall|j: int| 0 <= j < index ==> self.entries@[j].class@ != window_class@,
                self.entries@ == old(self).entries@,
                found ==> index < self.entries.len() && self.entries@[index as int].class@ == window_class@,
            decreases self.entries.len() - index, if found { 0int } else { 1int },
        {
            if self.entries[index].class == *window_class {
                found = true;
            } else {
                index += 1;
            }
        }
        let entry = CacheEntry { class: window_class.clone(), state };
        if found {
            proof {
                assert forall|other: Seq<char>| other != window_class@
                    implies spec_lookup(self.entries@.update(index as int, entry), other)
                        == spec_lookup(self.entries@, other) by {
                    lemma_lookup_update(self.entries@, index as int, entry, other);
                }
                lemma_lookup_update(self.entries@, index as int, entry, arbitrary());
            }
            self.entries[index] = entry;
        } else {
            proof {
                assert forall|other: Seq<char>| other != window_class@
                    implies spec_lookup(self.entries@.push(entry), other)
                        == spec_lookup(self.entries@, other) by {
                    lemma_lookup_push(self.entries@, entry, other);
                }
                lemma_lookup_push(self.entries@, entry, arbitrary());
            }
            self.entries.push(entry);
        }
    }
}

} // verus!
