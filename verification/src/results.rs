//! The result set of a run: documents by identifier.
//!
//! The set is kept as a list of entries in which no identifier occurs twice;
//! to the outside it is a map from identifiers to documents.

use vstd::prelude::*;
use crate::document::{Document, DocumentView};

verus! {

/// One entry as plain text: the identifier and the document.
pub type EntryView = (Seq<char>, DocumentView);

/// The entries of a list as plain text.
pub open spec fn entries_view(entries: Seq<(String, Document)>) -> Seq<EntryView> {
    Seq::new(entries.len(), |i: int| (entries[i].0@, entries[i].1@))
}

/// No identifier occurs twice in the list.
pub open spec fn keys_distinct(s: Seq<EntryView>) -> bool {
    forall|i: int, j: int| 0 <= i < j < s.len() ==> (#[trigger] s[i]).0 != (#[trigger] s[j]).0
}

/// Every document of the list has a name and at most `TOP_K` keywords.
pub open spec fn all_sound(s: Seq<EntryView>) -> bool {
    forall|i: int| 0 <= i < s.len() ==> (#[trigger] s[i]).1.wf()
}

/// Some entry of the list has the identifier `key`.
pub open spec fn has_key(s: Seq<EntryView>, key: Seq<char>) -> bool {
    exists|i: int| 0 <= i < s.len() && (#[trigger] s[i]).0 == key
}

/// The map that a list of entries stands for. Where an identifier occurs
/// twice, the later entry counts.
pub open spec fn map_of(s: Seq<EntryView>) -> Map<Seq<char>, DocumentView>
    decreases s.len(),
{
    if s.len() == 0 {
        Map::empty()
    } else {
        map_of(s.drop_last()).insert(s.last().0, s.last().1)
    }
}

/// What `map_of` holds: the identifiers of the list and no others; and, where
/// no identifier occurs twice, as many entries as the list and for each
/// identifier the document listed with it.
pub proof fn lemma_map_of(s: Seq<EntryView>)
    ensures
        map_of(s).dom().finite(),
        forall|key: Seq<char>| #[trigger] map_of(s).dom().contains(key) <==> has_key(s, key),
        keys_distinct(s) ==> map_of(s).dom().len() == s.len(),
        keys_distinct(s) ==> forall|i: int|
            0 <= i < s.len() ==> map_of(s)[(#[trigger] s[i]).0] == s[i].1,
    decreases s.len(),
{
    if s.len() > 0 {
        let head = s.drop_last();
        lemma_map_of(head);
        assert forall|key: Seq<char>| #[trigger]
            map_of(s).dom().contains(key) <==> has_key(s, key) by {
            if has_key(head, key) {
                let i = choose|i: int| 0 <= i < head.len() && (#[trigger] head[i]).0 == key;
                assert(s[i].0 == key);
            }
            if key == s.last().0 {
                assert(s[s.len() - 1].0 == key);
            }
            if has_key(s, key) {
                let i = choose|i: int| 0 <= i < s.len() && (#[trigger] s[i]).0 == key;
                if i < head.len() {
                    assert(head[i].0 == key);
                }
            }
        }
        if keys_distinct(s) {
            assert(keys_distinct(head)) by {
                assert forall|i: int, j: int| 0 <= i < j < head.len() implies (#[trigger] head[i]).0
                    != (#[trigger] head[j]).0 by {
                    assert(s[i].0 != s[j].0);
                }
            }
            if has_key(head, s.last().0) {
                let i = choose|i: int| 0 <= i < head.len() && (#[trigger] head[i]).0 == s.last().0;
                assert(s[i].0 != s[s.len() - 1].0);
            }
            assert forall|i: int| 0 <= i < s.len() implies map_of(s)[(#[trigger] s[i]).0]
                == s[i].1 by {
                if i < head.len() {
                    assert(head[i] == s[i]);
                    assert(s[i].0 != s[s.len() - 1].0);
                }
            }
        }
    }
}

/// A map that holds exactly the entries of a list without repeated
/// identifiers is the map of that list.
pub proof fn lemma_map_of_unique(s: Seq<EntryView>, m: Map<Seq<char>, DocumentView>)
    requires
        keys_distinct(s),
        forall|key: Seq<char>| #[trigger] m.dom().contains(key) <==> has_key(s, key),
        forall|i: int| 0 <= i < s.len() ==> m[(#[trigger] s[i]).0] == s[i].1,
    ensures
        map_of(s) == m,
{
    lemma_map_of(s);
    assert forall|key: Seq<char>| #[trigger] m.dom().contains(key) implies map_of(s)[key]
        == m[key] by {
        let i = choose|i: int| 0 <= i < s.len() && (#[trigger] s[i]).0 == key;
        assert(map_of(s)[s[i].0] == s[i].1);
    }
    assert(map_of(s) =~= m);
}

/// Two result sets that share no identifier hold, put together, as many
/// documents as the two hold apart.
pub proof fn lemma_disjoint_union_len(
    a: Map<Seq<char>, DocumentView>,
    b: Map<Seq<char>, DocumentView>,
)
    requires
        a.dom().finite(),
        b.dom().finite(),
        a.dom().disjoint(b.dom()),
    ensures
        a.union_prefer_right(b).dom().finite(),
        a.union_prefer_right(b).dom().len() == a.dom().len() + b.dom().len(),
{
    assert(a.union_prefer_right(b).dom() =~= a.dom().union(b.dom()));
    vstd::set_lib::lemma_set_disjoint_lens(a.dom(), b.dom());
    vstd::set_lib::lemma_set_union_finite_iff(a.dom(), b.dom());
}

/// Documents by identifier.
#[derive(Debug, Clone, PartialEq, Eq)]
pub struct ResultSet {
    entries: Vec<(String, Document)>,
}

impl View for ResultSet {
    type V = Map<Seq<char>, DocumentView>;

    closed spec fn view(&self) -> Map<Seq<char>, DocumentView> {
        map_of(entries_view(self.entries@))
    }
}

impl ResultSet {
    /// No identifier is held twice, and every document has a name and at most
    /// `TOP_K` keywords.
    pub closed spec fn wf(&self) -> bool {
        &&& keys_distinct(entries_view(self.entries@))
        &&& all_sound(entries_view(self.entries@))
    }

    /// A well-formed set is finite, and each of its documents has a name and
    /// at most `TOP_K` keywords.
    pub proof fn lemma_wf(&self)
        requires
            self.wf(),
        ensures
            self@.dom().finite(),
            forall|id: Seq<char>| #[trigger] self@.dom().contains(id) ==> self@[id].wf(),
    {
        let s = entries_view(self.entries@);
        lemma_map_of(s);
        assert forall|id: Seq<char>| #[trigger] self@.dom().contains(id) implies self@[id].wf() by {
            let i = choose|i: int| 0 <= i < s.len() && (#[trigger] s[i]).0 == id;
            assert(map_of(s)[s[i].0] == s[i].1);
        }
    }

    /// The empty set.
    pub fn new() -> (out: Self)
        ensures
            out.wf(),
            out@ == Map::<Seq<char>, DocumentView>::empty(),
    {
        let out = ResultSet { entries: Vec::new() };
        assert(entries_view(out.entries@) =~= Seq::<EntryView>::empty());
        out
    }

    /// How many documents are held.
    pub fn len(&self) -> (out: usize)
        requires
            self.wf(),
        ensures
            out == self@.dom().len(),
    {
        proof {
            lemma_map_of(entries_view(self.entries@));
        }
        self.entries.len()
    }

    fn position(&self, id: &String) -> (out: Option<usize>)
        ensures
            match out {
                Some(at) => at < self.entries@.len() && self.entries@[at as int].0@ == id@,
                None => !has_key(entries_view(self.entries@), id@),
            },
    {
        let mut i: usize = 0;
        while i < self.entries.len()
            invariant
                i <= self.entries.len(),
                forall|k: int| 0 <= k < i ==> self.entries@[k].0@ != id@,
            decreases self.entries.len() - i,
        {
            if self.entries[i].0 == *id {
                return Some(i);
            }
            i += 1;
        }
        assert(!has_key(entries_view(self.entries@), id@)) by {
            let s = entries_view(self.entries@);
            if has_key(s, id@) {
                let k = choose|k: int| 0 <= k < s.len() && (#[trigger] s[k]).0 == id@;
                assert(self.entries@[k].0@ != id@);
            }
        }
        None
    }

    /// The document held under `id`, if there is one.
    pub fn get(&self, id: &str) -> (out: Option<&Document>)
        requires
            self.wf(),
        ensures
            match out {
                Some(document) => self@.dom().contains(id@) && self@[id@] == document@,
                None => !self@.dom().contains(id@),
            },
    {
        let key = id.to_owned();
        proof {
            lemma_map_of(entries_view(self.entries@));
        }
        match self.position(&key) {
            Some(at) => {
                let s = Ghost(entries_view(self.entries@));
                assert(s@[at as int].0 == id@);
                assert(map_of(s@)[s@[at as int].0] == s@[at as int].1);
                Some(&self.entries[at].1)
            },
            None => None,
        }
    }

    /// Puts `document` under `id`. A document already held under `id` gives
    /// way to it.
    pub fn insert(&mut self, id: String, document: Document)
        requires
            old(self).wf(),
            document@.wf(),
        ensures
            final(self).wf(),
            final(self)@ == old(self)@.insert(id@, document@),
    {
        let ghost before = entries_view(self.entries@);
        let ghost key = id@;
        let ghost value = document@;
        proof {
            lemma_map_of(before);
        }
        match self.position(&id) {
            Some(at) => {
                self.entries.set(at, (id, document));
                proof {
                    let after = entries_view(self.entries@);
                    assert(after =~= before.update(at as int, (key, value)));
                    assert(keys_distinct(after)) by {
                        assert forall|i: int, j: int| 0 <= i < j < after.len() implies (
                        #[trigger] after[i]).0 != (#[trigger] after[j]).0 by {
                            assert(before[i].0 != before[j].0);
                        }
                    }
                    assert(all_sound(after)) by {
                        assert forall|i: int| 0 <= i < after.len() implies (
                        #[trigger] after[i]).1.wf() by {
                            if i != at {
                                assert(before[i].1.wf());
                            }
                        }
                    }
                    let target = map_of(before).insert(key, value);
                    assert forall|k: Seq<char>| #[trigger]
                        target.dom().contains(k) <==> has_key(after, k) by {
                        if has_key(before, k) {
                            let i = choose|i: int|
                                0 <= i < before.len() && (#[trigger] before[i]).0 == k;
                            assert(after[i].0 == k);
                        }
                        if k == key {
                            assert(after[at as int].0 == k);
                        }
                        if has_key(after, k) {
                            let i = choose|i: int|
                                0 <= i < after.len() && (#[trigger] after[i]).0 == k;
                            assert(before[i].0 == k);
                        }
                    }
                    assert forall|i: int| 0 <= i < after.len() implies target[(
                    #[trigger] after[i]).0] == after[i].1 by {
                        if i != at {
                            assert(before[i].0 != before[at as int].0);
                            assert(map_of(before)[before[i].0] == before[i].1);
                        }
                    }
                    lemma_map_of_unique(after, target);
                }
            },
            None => {
                self.entries.push((id, document));
                proof {
                    let after = entries_view(self.entries@);
                    assert(after =~= before.push((key, value)));
                    assert(after.drop_last() =~= before);
                    assert(keys_distinct(after)) by {
                        assert forall|i: int, j: int| 0 <= i < j < after.len() implies (
                        #[trigger] after[i]).0 != (#[trigger] after[j]).0 by {
                            if j < before.len() {
                                assert(before[i].0 != before[j].0);
                            } else {
                                assert(before[i].0 != key);
                            }
                        }
                    }
                    assert(all_sound(after)) by {
                        assert forall|i: int| 0 <= i < after.len() implies (
                        #[trigger] after[i]).1.wf() by {
                            if i < before.len() {
                                assert(before[i].1.wf());
                            }
                        }
                    }
                }
            },
        }
    }

    /// Takes over every document of `other`. Where both hold a document under
    /// one identifier, that of `other` stays.
    pub fn extend(&mut self, other: ResultSet)
        requires
            old(self).wf(),
            other.wf(),
        ensures
            final(self).wf(),
            final(self)@ == old(self)@.union_prefer_right(other@),
    {
        let ghost start = self@;
        let ghost incoming = entries_view(other.entries@);
        let mut rest = other.entries;
        assert(incoming.skip(rest.len() as int) =~= Seq::<EntryView>::empty());
        assert(self@ =~= start.union_prefer_right(Map::<Seq<char>, DocumentView>::empty()));
        while rest.len() > 0
            invariant
                self.wf(),
                keys_distinct(incoming),
                all_sound(incoming),
                rest.len() <= incoming.len(),
                entries_view(rest@) == incoming.take(rest.len() as int),
                self@ == start.union_prefer_right(map_of(incoming.skip(rest.len() as int))),
            decreases rest.len(),
        {
            let ghost n = rest.len() as int;
            let ghost shown = entries_view(rest@);
            let entry = rest.pop().unwrap();
            let (id, document) = entry;
            proof {
                assert(shown[n - 1] == incoming[n - 1]);
                assert(incoming[n - 1].1.wf());
                assert(entries_view(rest@) =~= incoming.take(n - 1));
                let tail = incoming.skip(n);
                let wider = incoming.skip(n - 1);
                lemma_map_of(tail);
                let target = map_of(tail).insert(id@, document@);
                assert(keys_distinct(wider)) by {
                    assert forall|i: int, j: int| 0 <= i < j < wider.len() implies (
                    #[trigger] wider[i]).0 != (#[trigger] wider[j]).0 by {
                        assert(incoming[n - 1 + i].0 != incoming[n - 1 + j].0);
                    }
                }
                assert forall|k: Seq<char>| #[trigger]
                    target.dom().contains(k) <==> has_key(wider, k) by {
                    if has_key(tail, k) {
                        let i = choose|i: int| 0 <= i < tail.len() && (#[trigger] tail[i]).0 == k;
                        assert(wider[i + 1].0 == k);
                    }
                    if k == id@ {
                        assert(wider[0].0 == k);
                    }
                    if has_key(wider, k) {
                        let i = choose|i: int|
                            0 <= i < wider.len() && (#[trigger] wider[i]).0 == k;
                        if i > 0 {
                            assert(tail[i - 1].0 == k);
                        }
                    }
                }
                assert forall|i: int| 0 <= i < wider.len() implies target[(
                #[trigger] wider[i]).0] == wider[i].1 by {
                    if i > 0 {
                        assert(tail[i - 1] == wider[i]);
                        assert(incoming[n - 1].0 != incoming[n - 1 + i].0);
                        assert(map_of(tail)[tail[i - 1].0] == tail[i - 1].1);
                    }
                }
                lemma_map_of_unique(wider, target);
            }
            self.insert(id, document);
            assert(self@ =~= start.union_prefer_right(
                map_of(incoming.skip(rest.len() as int)),
            ));
        }
        assert(incoming.skip(0) =~= incoming);
    }

    /// The entries, each identifier once, in no particular order.
    pub fn into_entries(self) -> (out: Vec<(String, Document)>)
        requires
            self.wf(),
        ensures
            keys_distinct(entries_view(out@)),
            map_of(entries_view(out@)) == self@,
    {
        self.entries
    }
}

} // verus!
