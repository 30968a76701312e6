//! The device roster: display name to device handle.
//!
//! Rebuilt wholesale on each enumeration; a name collision overwrites the
//! earlier entry. The roster is an association list with unique names, and
//! its contracts speak of the map it denotes.

use vstd::prelude::*;
use idevice::usbmuxd::UsbmuxdDevice;

verus! {

/// A mapping from display name to device handle, in insertion order.
pub struct Roster {
    entries: Vec<(String, UsbmuxdDevice)>,
}

/// The map an association list denotes: a later entry overrides an
/// earlier one under the same name.
pub open spec fn roster_map_of(s: Seq<(Seq<char>, UsbmuxdDevice)>) -> Map<Seq<char>, UsbmuxdDevice>
    decreases s.len(),
{
    if s.len() == 0 {
        Map::empty()
    } else {
        roster_map_of(s.drop_last()).insert(s.last().0, s.last().1)
    }
}

/// No two entries share a name.
pub open spec fn names_unique(s: Seq<(Seq<char>, UsbmuxdDevice)>) -> bool {
    forall|i: int, j: int| 0 <= i < j < s.len() ==> s[i].0 != s[j].0
}

/// A name is in the denoted map exactly when some entry carries it.
pub proof fn lemma_map_of_contains(s: Seq<(Seq<char>, UsbmuxdDevice)>, k: Seq<char>)
    ensures
        roster_map_of(s).dom().contains(k) <==> (exists|i: int| 0 <= i < s.len() && s[i].0 == k),
    decreases s.len(),
{
    if s.len() == 0 {
    } else {
        lemma_map_of_contains(s.drop_last(), k);
        if s.last().0 == k {
            assert(s[s.len() - 1].0 == k);
        } else {
            if roster_map_of(s).dom().contains(k) {
                let i = choose|i: int| 0 <= i < s.drop_last().len() && s.drop_last()[i].0 == k;
                assert(s[i].0 == k);
            }
            if exists|i: int| 0 <= i < s.len() && s[i].0 == k {
                let i = choose|i: int| 0 <= i < s.len() && s[i].0 == k;
                assert(s.drop_last()[i].0 == k);
            }
        }
    }
}

/// With unique names, the entry under a name is the one the map returns.
pub proof fn lemma_map_of_index(s: Seq<(Seq<char>, UsbmuxdDevice)>, i: int)
    requires
        names_unique(s),
        0 <= i < s.len(),
    ensures
        roster_map_of(s).dom().contains(s[i].0),
        roster_map_of(s)[s[i].0] == s[i].1,
    decreases s.len(),
{
    if i == s.len() - 1 {
    } else {
        assert(names_unique(s.drop_last()));
        lemma_map_of_index(s.drop_last(), i);
        assert(s.drop_last()[i] == s[i]);
        assert(s[i].0 != s.last().0);
    }
}

/// With unique names, the denoted map has exactly one key per entry.
pub proof fn lemma_map_of_len(s: Seq<(Seq<char>, UsbmuxdDevice)>)
    requires
        names_unique(s),
    ensures
        roster_map_of(s).dom().finite(),
        roster_map_of(s).dom().len() == s.len(),
    decreases s.len(),
{
    if s.len() == 0 {
        assert(roster_map_of(s).dom() =~= Set::<Seq<char>>::empty());
    } else {
        assert(names_unique(s.drop_last()));
        lemma_map_of_len(s.drop_last());
        lemma_map_of_contains(s.drop_last(), s.last().0);
        assert(forall|i: int| 0 <= i < s.drop_last().len() ==> s.drop_last()[i].0 != s.last().0);
        assert(!roster_map_of(s.drop_last()).dom().contains(s.last().0));
    }
}

impl View for Roster {
    type V = Seq<(Seq<char>, UsbmuxdDevice)>;

    closed spec fn view(&self) -> Seq<(Seq<char>, UsbmuxdDevice)> {
        Seq::new(self.entries@.len(), |i: int| (self.entries@[i].0@, self.entries@[i].1))
    }
}

impl Roster {
    /// The mapping this roster denotes.
    pub open spec fn as_map(&self) -> Map<Seq<char>, UsbmuxdDevice> {
        roster_map_of(self@)
    }

    /// Entry names never repeat; every constructor and method keeps this.
    pub open spec fn wf(&self) -> bool {
        names_unique(self@)
    }

    /// An empty roster.
    pub fn new() -> (r: Roster)
        ensures
            r.wf(),
            r@.len() == 0,
            r.as_map() == Map::<Seq<char>, UsbmuxdDevice>::empty(),
    {
        let r = Roster { entries: Vec::new() };
        proof {
            assert(r@ =~= Seq::<(Seq<char>, UsbmuxdDevice)>::empty());
        }
        r
    }

    /// How many devices the roster holds.
    pub fn len(&self) -> (n: usize)
        ensures
            n == self@.len(),
    {
        self.entries.len()
    }

    /// The name of the entry at a position, in insertion order.
    pub fn name_at(&self, i: usize) -> (r: &String)
        requires
            i < self@.len(),
        ensures
            r@ == self@[i as int].0,
    {
        &self.entries[i].0
    }

    /// The device of the entry at a position, in insertion order.
    pub fn device_at(&self, i: usize) -> (r: &UsbmuxdDevice)
        requires
            i < self@.len(),
        ensures
            *r == self@[i as int].1,
    {
        &self.entries[i].1
    }

    /// Inserts a device under a name; a collision overwrites.
    pub fn insert(&mut self, name: String, dev: UsbmuxdDevice)
        requires
            old(self).wf(),
        ensures
            final(self).wf(),
            final(self).as_map() == old(self).as_map().insert(name@, dev),
            final(self)@.len() == if old(self).as_map().dom().contains(name@) {
                old(self)@.len()
            } else {
                old(self)@.len() + 1
            },
    {
        proof {
            lemma_map_of_contains(self@, name@);
        }
        match self.find_index(&name) {
            Some(i) => {
                let ghost s0 = self@;
                self.entries.set(i, (name, dev));
                proof {
                    assert(self@ =~= s0.update(i as int, (s0[i as int].0, dev)));
                    lemma_map_of_update(s0, i as int, dev);
                }
            },
            None => {
                let ghost s0 = self@;
                self.entries.push((name, dev));
                proof {
                    assert(self@ =~= s0.push((name@, dev)));
                    assert(self@.drop_last() =~= s0);
                }
            },
        }
    }

    /// The position of the entry under a name, if any.
    fn find_index(&self, name: &String) -> (r: Option<usize>)
        ensures
            match r {
                Some(i) => i < self@.len() && self@[i as int].0 == name@,
                None => forall|j: int| 0 <= j < self@.len() ==> self@[j].0 != name@,
            },
    {
        let n = self.entries.len();
        let mut i: usize = 0;
        while i < n
            invariant
                i <= n,
                n == self.entries.len(),
                forall|j: int| 0 <= j < i ==> self@[j].0 != name@,
            decreases n - i,
        {
            if self.entries[i].0 == *name {
                return Some(i);
            }
            i += 1;
        }
        None
    }

    /// The device under a name, if the roster holds one.
    pub fn get(&self, name: &String) -> (r: Option<&UsbmuxdDevice>)
        requires
            self.wf(),
        ensures
            match r {
                Some(d) => self.as_map().dom().contains(name@) && *d == self.as_map()[name@],
                None => !self.as_map().dom().contains(name@),
            },
    {
        match self.find_index(name) {
            Some(i) => {
                proof {
                    lemma_map_of_index(self@, i as int);
                }
                Some(&self.entries[i].1)
            },
            None => {
                proof {
                    lemma_map_of_contains(self@, name@);
                }
                None
            },
        }
    }
}

/// Overwriting the entry that carries a name denotes the same map as
/// inserting under that name.
pub proof fn lemma_map_of_update(s: Seq<(Seq<char>, UsbmuxdDevice)>, i: int, dev: UsbmuxdDevice)
    requires
        names_unique(s),
        0 <= i < s.len(),
    ensures
        names_unique(s.update(i, (s[i].0, dev))),
        roster_map_of(s.update(i, (s[i].0, dev))) == roster_map_of(s).insert(s[i].0, dev),
    decreases s.len(),
{
    let t = s.update(i, (s[i].0, dev));
    assert forall|p: int, q: int| 0 <= p < q < t.len() implies t[p].0 != t[q].0 by {
        assert(s[p].0 != s[q].0);
    }
    if i == s.len() - 1 {
        assert(t.drop_last() =~= s.drop_last());
        assert(roster_map_of(s.drop_last()).insert(s.last().0, s.last().1).insert(
            s[i].0,
            dev,
        ) =~= roster_map_of(s.drop_last()).insert(s[i].0, dev));
    } else {
        assert(names_unique(s.drop_last()));
        lemma_map_of_update(s.drop_last(), i, dev);
        assert(t.drop_last() =~= s.drop_last().update(i, (s[i].0, dev)));
        assert(s.drop_last()[i] == s[i]);
        assert(t.last() == s.last());
        assert(s[i].0 != s.last().0);
        assert(roster_map_of(s.drop_last()).insert(s[i].0, dev).insert(
            s.last().0,
            s.last().1,
        ) =~= roster_map_of(s.drop_last()).insert(s.last().0, s.last().1).insert(s[i].0, dev));
    }
}

} // verus!
