//! The cache of conversation metadata.

use vstd::prelude::*;

verus! {

/// What the chat service tells about one conversation, as far as the host
/// reads it.
#[derive(Debug, PartialEq, Eq)]
pub struct ChannelRecord {
    pub id: Option<String>,
    pub name: Option<String>,
}

/// What a [`ChannelRecord`] holds, as plain values.
pub struct ChannelRecordView {
    pub id: Option<Seq<char>>,
    pub name: Option<Seq<char>>,
}

impl View for ChannelRecord {
    type V = ChannelRecordView;

    open spec fn view(&self) -> ChannelRecordView {
        ChannelRecordView { id: self.id.deep_view(), name: self.name.deep_view() }
    }
}

impl ChannelRecordView {
    /// The name to show for the conversation: empty where it has none.
    pub open spec fn display_name(self) -> Seq<char> {
        match self.name {
            Some(name) => name,
            None => Seq::empty(),
        }
    }
}

impl ChannelRecord {
    /// The name to show for the conversation: empty where it has none.
    pub fn display_name(&self) -> (name: String)
        ensures
            name@ == self@.display_name(),
    {
        match &self.name {
            Some(name) => name.clone(),
            None => String::new(),
        }
    }
}

/// What a lookup returned, as plain values.
pub open spec fn fetched_view(fetched: Option<ChannelRecord>) -> Option<ChannelRecordView> {
    match fetched {
        Some(record) => Some(record@),
        None => None,
    }
}

/// Conversation records by identifier.
///
/// An entry, once made, stays until the cache itself goes: nothing removes
/// one. Writing a record under an identifier that has one replaces it.
pub struct Conversations {
    entries: Vec<(String, ChannelRecord)>,
}

/// The place of `id` among `entries`, if it has one.
pub open spec fn position(entries: Seq<(String, ChannelRecord)>, id: Seq<char>) -> Option<int> {
    if exists|i: int| 0 <= i < entries.len() && (#[trigger] entries[i]).0@ == id {
        Some(choose|i: int| 0 <= i < entries.len() && (#[trigger] entries[i]).0@ == id)
    } else {
        None
    }
}

/// Whether no identifier occurs twice among `entries`.
pub open spec fn distinct(entries: Seq<(String, ChannelRecord)>) -> bool {
    forall|i: int, j: int|
        0 <= i < j < entries.len() ==> (#[trigger] entries[i]).0@ != (#[trigger] entries[j]).0@
}

impl View for Conversations {
    type V = Map<Seq<char>, ChannelRecordView>;

    closed spec fn view(&self) -> Map<Seq<char>, ChannelRecordView> {
        Map::new(
            |id: Seq<char>| position(self.entries@, id) is Some,
            |id: Seq<char>| self.entries@[position(self.entries@, id).unwrap()].1@,
        )
    }
}

impl Conversations {
    #[verifier::type_invariant]
    spec fn inv(self) -> bool {
        distinct(self.entries@)
    }

    /// A cache holds finitely many records.
    pub proof fn lemma_finite(&self)
        ensures
            self@.dom().finite(),
    {
        let entries = self.entries@;
        let keys = Seq::new(entries.len(), |i: int| entries[i].0@);
        vstd::seq_lib::seq_to_set_is_finite(keys);
        assert forall|id: Seq<char>| self@.dom().contains(id) == keys.to_set().contains(id) by {
            if self@.dom().contains(id) {
                let i = position(entries, id).unwrap();
                assert(keys[i] == id);
            }
            if keys.to_set().contains(id) {
                let i = choose|i: int| 0 <= i < keys.len() && keys[i] == id;
                assert(entries[i].0@ == id);
            }
        }
        assert(self@.dom() =~= keys.to_set());
    }

    /// An empty cache.
    pub fn new() -> (cache: Conversations)
        ensures
            cache@ == Map::<Seq<char>, ChannelRecordView>::empty(),
            cache@.dom().finite(),
    {
        let cache = Conversations { entries: Vec::new() };
        assert(cache@ =~= Map::<Seq<char>, ChannelRecordView>::empty());
        cache
    }

    /// Where the record for `id` is kept, if there is one.
    fn find(&self, id: &String) -> (place: Option<usize>)
        ensures
            match place {
                Some(i) => i < self.entries@.len() && self.entries@[i as int].0@ == id@,
                None => forall|i: int|
                    0 <= i < self.entries@.len() ==> (#[trigger] self.entries@[i]).0@ != id@,
            },
    {
        let mut i: usize = 0;
        while i < self.entries.len()
            invariant
                i <= self.entries@.len(),
                forall|k: int| 0 <= k < i ==> (#[trigger] self.entries@[k]).0@ != id@,
            decreases self.entries@.len() - i,
        {
            if self.entries[i].0 == *id {
                return Some(i);
            }
            i += 1;
        }
        None
    }

    /// The record cached for `id`, if there is one.
    pub fn get(&self, id: &String) -> (found: Option<&ChannelRecord>)
        ensures
            match found {
                Some(record) => self@.dom().contains(id@) && record@ == self@[id@],
                None => !self@.dom().contains(id@),
            },
    {
        proof {
            use_type_invariant(self);
        }
        match self.find(id) {
            Some(i) => {
                proof {
                    let p = position(self.entries@, id@).unwrap();
                    assert(p == i as int);
                }
                Some(&self.entries[i].1)
            },
            None => None,
        }
    }

    /// Caches `record` under `id`, in place of any record cached there.
    pub fn insert(&mut self, id: String, record: ChannelRecord)
        ensures
            final(self)@ == old(self)@.insert(id@, record@),
            final(self)@.dom().finite(),
    {
        proof {
            use_type_invariant(&*self);
        }
        let place = self.find(&id);
        let mut entries: Vec<(String, ChannelRecord)> = Vec::new();
        std::mem::swap(&mut self.entries, &mut entries);
        let ghost before = entries@;
        match place {
            Some(i) => {
                entries.set(i, (id, record));
            },
            None => {
                entries.push((id, record));
            },
        }
        proof {
            let after = entries@;
            assert(distinct(after));
            assert forall|key: Seq<char>| #[trigger] (position(after, key) is Some) == (position(
                before,
                key,
            ) is Some || key == id@) by {
                if position(before, key) is Some {
                    let p = position(before, key).unwrap();
                    assert(after[p].0@ == key);
                }
                if position(after, key) is Some {
                    let p = position(after, key).unwrap();
                    if key != id@ {
                        assert(before[p].0@ == key);
                    }
                }
                if key == id@ {
                    match place {
                        Some(i) => {
                            assert(after[i as int].0@ == key);
                        },
                        None => {
                            assert(after[before.len() as int].0@ == key);
                        },
                    }
                }
            }
            assert forall|key: Seq<char>| position(after, key) is Some implies #[trigger] after[position(
                after,
                key,
            ).unwrap()].1@ == (if key == id@ {
                record@
            } else {
                before[position(before, key).unwrap()].1@
            }) by {
                let p = position(after, key).unwrap();
                if key == id@ {
                    match place {
                        Some(i) => {
                            assert(after[i as int].0@ == key);
                            assert(p == i as int);
                        },
                        None => {
                            assert(after[before.len() as int].0@ == key);
                            assert(p == before.len() as int);
                        },
                    }
                } else {
                    assert(before[p].0@ == key);
                    let q = position(before, key).unwrap();
                    assert(after[q].0@ == key);
                    assert(p == q);
                }
            }
        }
        self.entries = entries;
        assert(self@ =~= old(self)@.insert(id@, record@));
        proof {
            self.lemma_finite();
        }
    }
}

} // verus!
