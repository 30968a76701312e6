//! The flat property set a handshake session returns.
//!
//! A device describes itself as string-keyed properties. The pipeline only
//! ever reads string-typed properties (the display name and the fixed info
//! fields), so a value is modeled as either its text or a marker for any
//! other type.

use vstd::prelude::*;

verus! {

/// One property value: the text of a string-typed property, or a marker
/// for a property of any other type.
pub enum PropValue {
    Text(String),
    Other,
}

impl View for PropValue {
    type V = Option<Seq<char>>;

    open spec fn view(&self) -> Option<Seq<char>> {
        match self {
            PropValue::Text(s) => Some(s@),
            PropValue::Other => None,
        }
    }
}

/// A flat, string-keyed property set, in the order the device reported it.
pub struct PropertySet {
    pub entries: Vec<(String, PropValue)>,
}

/// The value of the first entry under `key`: `None` when no entry carries
/// the key, `Some(v)` when one does, where `v` is that entry's value model.
pub open spec fn find_value(
    props: Seq<(Seq<char>, Option<Seq<char>>)>,
    key: Seq<char>,
) -> Option<Option<Seq<char>>>
    decreases props.len(),
{
    if props.len() == 0 {
        None
    } else if props[0].0 == key {
        Some(props[0].1)
    } else {
        find_value(props.subrange(1, props.len() as int), key)
    }
}

/// The text under `key`: present exactly when an entry carries the key and
/// is string-typed. An absent key and a key of another type read the same.
pub open spec fn text_of(props: Seq<(Seq<char>, Option<Seq<char>>)>, key: Seq<char>) -> Option<
    Seq<char>,
> {
    match find_value(props, key) {
        Some(v) => v,
        None => None,
    }
}

impl View for PropertySet {
    type V = Seq<(Seq<char>, Option<Seq<char>>)>;

    open spec fn view(&self) -> Seq<(Seq<char>, Option<Seq<char>>)> {
        Seq::new(self.entries@.len(), |i: int| (self.entries@[i].0@, self.entries@[i].1@))
    }
}

impl PropertySet {
    /// An empty property set.
    pub fn new() -> (r: PropertySet)
        ensures
            r@ == Seq::<(Seq<char>, Option<Seq<char>>)>::empty(),
    {
        let r = PropertySet { entries: Vec::new() };
        proof {
            assert(r@ =~= Seq::<(Seq<char>, Option<Seq<char>>)>::empty());
        }
        r
    }

    /// Appends one property.
    pub fn push(&mut self, key: String, value: PropValue)
        ensures
            final(self)@ == old(self)@.push((key@, value@)),
    {
        let ghost k = key@;
        let ghost v = value@;
        self.entries.push((key, value));
        proof {
            assert(self@ =~= old(self)@.push((k, v)));
        }
    }

    /// The text of the string-typed property under `key`, if there is one.
    pub fn get_text(&self, key: &String) -> (r: Option<String>)
        ensures
            match r {
                Some(v) => text_of(self@, key@) == Some(v@),
                None => text_of(self@, key@) is None,
            },
    {
        let n = self.entries.len();
        proof {
            assert(self@.subrange(0, n as int) =~= self@);
        }
        let mut i: usize = 0;
        while i < n
            invariant
                i <= n,
                n == self.entries.len(),
                find_value(self@, key@) == find_value(
                    self@.subrange(i as int, n as int),
                    key@,
                ),
            decreases n - i,
        {
            if self.entries[i].0 == *key {
                proof {
                    assert(self@.subrange(i as int, n as int)[0] == self@[i as int]);
                }
                match &self.entries[i].1 {
                    PropValue::Text(s) => {
                        return Some(s.clone());
                    },
                    PropValue::Other => {
                        return None;
                    },
                }
            }
            proof {
                assert(self@.subrange(i as int, n as int).subrange(
                    1,
                    (n - i) as int,
                ) =~= self@.subrange(i + 1, n as int));
                assert(self@.subrange(i as int, n as int)[0] == self@[i as int]);
            }
            i += 1;
        }
        proof {
            assert(self@.subrange(n as int, n as int).len() == 0);
        }
        None
    }
}

} // verus!
