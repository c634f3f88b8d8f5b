//! Log entries that a node has seen stored, kept by topic and offset.

use crate::text::same_text;
use std::collections::HashMap;
use vstd::prelude::*;
use vstd::string::*;

verus! {

broadcast use vstd::std_specs::hash::group_hash_axioms;

/// The entries known of one topic.
#[derive(Debug)]
pub struct TopicEntries {
    topic: String,
    entries: HashMap<usize, usize>,
}

/// Known log entries. An entry is only ever added, never changed: the log
/// that it mirrors is append-only.
#[derive(Debug)]
pub struct EntryCache {
    topics: Vec<TopicEntries>,
}

/// The position of the first of `topics` that is named `topic`.
pub closed spec fn slot(topics: Seq<TopicEntries>, topic: Seq<char>) -> Option<int>
    decreases topics.len(),
{
    if topics.len() == 0 {
        None
    } else {
        match slot(topics.drop_last(), topic) {
            Some(i) => Some(i),
            None => if topics.last().topic@ == topic {
                Some(topics.len() - 1)
            } else {
                None
            },
        }
    }
}

proof fn lemma_slot(topics: Seq<TopicEntries>, topic: Seq<char>)
    ensures
        match slot(topics, topic) {
            Some(i) => {
                &&& 0 <= i < topics.len()
                &&& topics[i].topic@ == topic
                &&& forall|j: int| 0 <= j < i ==> (#[trigger] topics[j]).topic@ != topic
            },
            None => forall|j: int| 0 <= j < topics.len() ==> (#[trigger] topics[j]).topic@ != topic,
        },
    decreases topics.len(),
{
    if topics.len() > 0 {
        let front = topics.drop_last();
        lemma_slot(front, topic);
        assert(forall|j: int| 0 <= j < front.len() ==> front[j] == topics[j]);
    }
}

proof fn lemma_slot_is_first(topics: Seq<TopicEntries>, topic: Seq<char>, i: int)
    requires
        0 <= i < topics.len(),
        topics[i].topic@ == topic,
        forall|j: int| 0 <= j < i ==> (#[trigger] topics[j]).topic@ != topic,
    ensures
        slot(topics, topic) == Some(i),
{
    lemma_slot(topics, topic);
}

proof fn lemma_slot_is_none(topics: Seq<TopicEntries>, topic: Seq<char>)
    requires
        forall|j: int| 0 <= j < topics.len() ==> (#[trigger] topics[j]).topic@ != topic,
    ensures
        slot(topics, topic) == None::<int>,
{
    lemma_slot(topics, topic);
}

impl View for EntryCache {
    type V = Map<(Seq<char>, usize), usize>;

    /// The known entries, by topic and offset.
    open spec fn view(&self) -> Map<(Seq<char>, usize), usize> {
        Map::new(
            |k: (Seq<char>, usize)| self.entry(k.0, k.1) is Some,
            |k: (Seq<char>, usize)| self.entry(k.0, k.1)->0,
        )
    }
}

impl EntryCache {
    /// The entry known for `topic` at `offset`, if one is known.
    pub closed spec fn entry(&self, topic: Seq<char>, offset: usize) -> Option<usize> {
        match slot(self.topics@, topic) {
            Some(i) => if self.topics[i].entries@.contains_key(offset) {
                Some(self.topics[i].entries@[offset])
            } else {
                None
            },
            None => None,
        }
    }

    /// A cache that knows nothing.
    pub fn new() -> (cache: Self)
        ensures
            cache@ == Map::<(Seq<char>, usize), usize>::empty(),
    {
        let cache = EntryCache { topics: Vec::new() };
        assert(cache@ =~= Map::<(Seq<char>, usize), usize>::empty());
        cache
    }

    fn find(&self, topic: &str) -> (found: Option<usize>)
        ensures
            match found {
                Some(i) => slot(self.topics@, topic@) == Some(i as int) && i < self.topics.len(),
                None => slot(self.topics@, topic@) == None::<int>,
            },
    {
        let mut i: usize = 0;
        while i < self.topics.len()
            invariant
                i <= self.topics.len(),
                forall|j: int| 0 <= j < i ==> (#[trigger] self.topics@[j]).topic@ != topic@,
            decreases self.topics.len() - i,
        {
            if same_text(self.topics[i].topic.as_str(), topic) {
                proof {
                    lemma_slot_is_first(self.topics@, topic@, i as int);
                }
                return Some(i);
            }
            i += 1;
        }
        proof {
            lemma_slot_is_none(self.topics@, topic@);
        }
        None
    }

    /// Looks up the entry of `topic` at `offset`.
    pub fn get(&self, topic: &str, offset: usize) -> (found: Option<usize>)
        ensures
            found == if self@.contains_key((topic@, offset)) {
                Some(self@[(topic@, offset)])
            } else {
                None
            },
    {
        match self.find(topic) {
            Some(i) => match self.topics[i].entries.get(&offset) {
                Some(entry) => Some(*entry),
                None => None,
            },
            None => None,
        }
    }

    /// Records that `topic` holds `entry` at `offset`.
    pub fn insert(&mut self, topic: &str, offset: usize, entry: usize)
        ensures
            final(self)@ == old(self)@.insert((topic@, offset), entry),
    {
        self.put(topic, offset, entry);
        assert(self@ =~= old(self)@.insert((topic@, offset), entry));
    }

    fn put(&mut self, topic: &str, offset: usize, entry: usize)
        ensures
            forall|t: Seq<char>, o: usize|
                #[trigger] final(self).entry(t, o) == if t == topic@ && o == offset {
                    Some(entry)
                } else {
                    old(self).entry(t, o)
                },
    {
        let ghost before = self.topics@;
        match self.find(topic) {
            Some(i) => {
                let known = &mut self.topics[i];
                known.entries.insert(offset, entry);
                proof {
                    let after = self.topics@;
                    assert forall|t: Seq<char>| slot(after, t) == slot(before, t) by {
                        lemma_slot(before, t);
                        match slot(before, t) {
                            Some(k) => {
                                lemma_slot_is_first(after, t, k);
                            },
                            None => {
                                lemma_slot_is_none(after, t);
                            },
                        }
                    }
                    lemma_slot(before, topic@);
                    assert forall|t: Seq<char>, o: usize|
                        #[trigger] self.entry(t, o) == if t == topic@ && o == offset {
                            Some(entry)
                        } else {
                            old(self).entry(t, o)
                        } by {
                        lemma_slot(before, t);
                    }
                }
            },
            None => {
                let mut entries: HashMap<usize, usize> = HashMap::new();
                entries.insert(offset, entry);
                self.topics.push(TopicEntries { topic: String::from_str(topic), entries });
                proof {
                    let after = self.topics@;
                    let last = after.len() - 1;
                    lemma_slot(before, topic@);
                    lemma_slot_is_first(after, topic@, last);
                    assert forall|t: Seq<char>| t != topic@ implies slot(after, t) == slot(
                        before,
                        t,
                    ) by {
                        lemma_slot(before, t);
                        match slot(before, t) {
                            Some(k) => {
                                lemma_slot_is_first(after, t, k);
                            },
                            None => {
                                lemma_slot_is_none(after, t);
                            },
                        }
                    }
                    assert forall|t: Seq<char>, o: usize|
                        #[trigger] self.entry(t, o) == if t == topic@ && o == offset {
                            Some(entry)
                        } else {
                            old(self).entry(t, o)
                        } by {
                        lemma_slot(before, t);
                    }
                }
            },
        }
    }
}

} // verus!
