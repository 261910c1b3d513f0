//! JSON values as they travel through the library, and the map from names
//! to such values that holds the variables of a request and the data of an
//! answer.

use vstd::prelude::*;
use vstd::string::*;

verus! {

/// A JSON value of `serde_json`. The library stores such values and hands
/// them on; it never looks inside one.
#[verifier::external_type_specification]
#[verifier::external_body]
pub struct ExJsonValue(serde_json::Value);

/// A JSON value as far as a scalar type reads or writes it: the value
/// itself where it is a boolean, an integer or a string, and the kind alone
/// where it is anything else. An integer is `Unsigned` unless it is
/// negative.
#[derive(Debug)]
pub enum JsonScalar {
    Null,
    Bool(bool),
    Unsigned(u64),
    Signed(i64),
    Float,
    String(String),
    Array,
    Object,
}

/// The map that a list of entries stands for: each entry sets its key, so
/// a later entry wins over an earlier one with the same key.
pub open spec fn entries_map(entries: Seq<(String, serde_json::Value)>) -> Map<
    Seq<char>,
    serde_json::Value,
>
    decreases entries.len(),
{
    if entries.len() == 0 {
        Map::empty()
    } else {
        entries_map(entries.drop_last()).insert(entries.last().0@, entries.last().1)
    }
}

/// No key occurs twice in `entries`.
pub open spec fn distinct_keys(entries: Seq<(String, serde_json::Value)>) -> bool {
    forall|i: int, j: int| 0 <= i < j < entries.len() ==> entries[i].0@ != entries[j].0@
}

/// The entries with each key as its text.
pub open spec fn entry_texts(entries: Seq<(String, serde_json::Value)>) -> Seq<
    (Seq<char>, serde_json::Value),
> {
    entries.map_values(|e: (String, serde_json::Value)| (e.0@, e.1))
}

/// The names of the entries, in their order.
pub open spec fn entry_names(entries: Seq<(String, serde_json::Value)>) -> Seq<Seq<char>> {
    entries.map_values(|e: (String, serde_json::Value)| e.0@)
}

/// What `serde_json` makes of printing, indented, the JSON object with the
/// given members: the text, or the message with which it refuses.
pub uninterp spec fn pretty_object_text(members: Seq<(Seq<char>, serde_json::Value)>) -> Result<
    Seq<char>,
    Seq<char>,
>;

/// `serde_json::to_string_pretty` on the object with the members `entries`.
/// What comes back is what `pretty_object_text` names for these members:
/// the text that `serde_json` prints, or the message of its refusal.
/// Whether it ever refuses an object of JSON values is not claimed here.
#[verifier::external_body]
fn print_object(entries: &Vec<(String, serde_json::Value)>) -> (r: Result<String, String>)
    requires
        distinct_keys(entries@),
    ensures
        match r {
            Ok(text) => pretty_object_text(entry_texts(entries@)) == Ok::<Seq<char>, Seq<char>>(
                text@,
            ),
            Err(reason) => pretty_object_text(entry_texts(entries@)) == Err::<
                Seq<char>,
                Seq<char>,
            >(reason@),
        },
{
    let object: serde_json::Map<String, serde_json::Value> = entries.iter().cloned().collect();
    serde_json::to_string_pretty(&object).map_err(|e| e.to_string())
}

proof fn lemma_entries_map_domain(entries: Seq<(String, serde_json::Value)>, key: Seq<char>)
    ensures
        entries_map(entries).contains_key(key) <==> exists|i: int|
            0 <= i < entries.len() && #[trigger] entries[i].0@ == key,
    decreases entries.len(),
{
    if entries.len() > 0 {
        let front = entries.drop_last();
        lemma_entries_map_domain(front, key);
        if entries.last().0@ == key {
            assert(entries[entries.len() - 1].0@ == key);
        } else if entries_map(entries).contains_key(key) {
            let i = choose|i: int| 0 <= i < front.len() && #[trigger] front[i].0@ == key;
            assert(entries[i].0@ == key);
        } else {
            assert forall|i: int| 0 <= i < entries.len() implies #[trigger] entries[i].0@ != key by {
                if i < front.len() {
                    assert(front[i].0@ == entries[i].0@);
                }
            }
        }
    }
}

proof fn lemma_entries_map_value(entries: Seq<(String, serde_json::Value)>, i: int)
    requires
        distinct_keys(entries),
        0 <= i < entries.len(),
    ensures
        entries_map(entries).contains_key(entries[i].0@),
        entries_map(entries)[entries[i].0@] == entries[i].1,
    decreases entries.len(),
{
    let front = entries.drop_last();
    if i < entries.len() - 1 {
        assert(distinct_keys(front)) by {
            assert forall|a: int, b: int| 0 <= a < b < front.len() implies front[a].0@
                != front[b].0@ by {
                assert(front[a] == entries[a] && front[b] == entries[b]);
            }
        }
        lemma_entries_map_value(front, i);
        assert(front[i] == entries[i]);
        assert(entries[i].0@ != entries[entries.len() - 1].0@);
    }
}

proof fn lemma_entries_map_update(
    entries: Seq<(String, serde_json::Value)>,
    i: int,
    entry: (String, serde_json::Value),
)
    requires
        distinct_keys(entries),
        0 <= i < entries.len(),
        entry.0@ == entries[i].0@,
    ensures
        distinct_keys(entries.update(i, entry)),
        entries_map(entries.update(i, entry)) == entries_map(entries).insert(entry.0@, entry.1),
    decreases entries.len(),
{
    let updated = entries.update(i, entry);
    let front = entries.drop_last();
    assert(distinct_keys(updated)) by {
        assert forall|a: int, b: int| 0 <= a < b < updated.len() implies updated[a].0@
            != updated[b].0@ by {
            assert(updated[a].0@ == entries[a].0@ && updated[b].0@ == entries[b].0@);
        }
    }
    if i == entries.len() - 1 {
        assert(updated.drop_last() =~= front);
        assert(entries_map(updated) =~= entries_map(entries).insert(entry.0@, entry.1));
    } else {
        assert(distinct_keys(front)) by {
            assert forall|a: int, b: int| 0 <= a < b < front.len() implies front[a].0@
                != front[b].0@ by {
                assert(front[a] == entries[a] && front[b] == entries[b]);
            }
        }
        lemma_entries_map_update(front, i, entry);
        assert(updated.drop_last() =~= front.update(i, entry));
        assert(updated.last() == entries.last());
        assert(entries[i].0@ != entries[entries.len() - 1].0@);
        assert(entries_map(updated) =~= entries_map(entries).insert(entry.0@, entry.1));
    }
}

proof fn lemma_entries_map_remove(entries: Seq<(String, serde_json::Value)>, i: int)
    requires
        distinct_keys(entries),
        0 <= i < entries.len(),
    ensures
        distinct_keys(entries.remove(i)),
        entries_map(entries.remove(i)) == entries_map(entries).remove(entries[i].0@),
    decreases entries.len(),
{
    let removed = entries.remove(i);
    let front = entries.drop_last();
    assert(distinct_keys(removed)) by {
        assert forall|a: int, b: int| 0 <= a < b < removed.len() implies removed[a].0@
            != removed[b].0@ by {
            let a0 = if a < i { a } else { a + 1 };
            let b0 = if b < i { b } else { b + 1 };
            assert(removed[a] == entries[a0] && removed[b] == entries[b0]);
        }
    }
    assert(distinct_keys(front)) by {
        assert forall|a: int, b: int| 0 <= a < b < front.len() implies front[a].0@
            != front[b].0@ by {
            assert(front[a] == entries[a] && front[b] == entries[b]);
        }
    }
    if i == entries.len() - 1 {
        assert(removed =~= front);
        lemma_entries_map_domain(front, entries[i].0@);
        assert(!entries_map(front).contains_key(entries[i].0@)) by {
            assert forall|a: int| 0 <= a < front.len() implies #[trigger] front[a].0@
                != entries[i].0@ by {
                assert(front[a] == entries[a]);
            }
        }
        assert(entries_map(removed) =~= entries_map(entries).remove(entries[i].0@));
    } else {
        lemma_entries_map_remove(front, i);
        assert(removed.drop_last() =~= front.remove(i));
        assert(removed.last() == entries.last());
        assert(front[i] == entries[i]);
        assert(entries[i].0@ != entries[entries.len() - 1].0@);
        assert(entries_map(removed) =~= entries_map(entries).remove(entries[i].0@));
    }
}

proof fn lemma_entries_map_len(entries: Seq<(String, serde_json::Value)>)
    requires
        distinct_keys(entries),
    ensures
        entries_map(entries).dom().finite(),
        entries_map(entries).dom().len() == entries.len(),
    decreases entries.len(),
{
    if entries.len() > 0 {
        let front = entries.drop_last();
        assert(distinct_keys(front)) by {
            assert forall|a: int, b: int| 0 <= a < b < front.len() implies front[a].0@
                != front[b].0@ by {
                assert(front[a] == entries[a] && front[b] == entries[b]);
            }
        }
        lemma_entries_map_len(front);
        lemma_entries_map_domain(front, entries.last().0@);
        assert(!entries_map(front).contains_key(entries.last().0@)) by {
            assert forall|a: int| 0 <= a < front.len() implies #[trigger] front[a].0@
                != entries.last().0@ by {
                assert(front[a] == entries[a]);
            }
        }
        assert(entries_map(entries).dom() =~= entries_map(front).dom().insert(entries.last().0@));
    }
}

/// A map from names to JSON values that remembers the order in which its
/// names first came. Its view is the map alone; `names` gives the order.
#[derive(Debug)]
pub struct ValueMap {
    entries: Vec<(String, serde_json::Value)>,
}

impl View for ValueMap {
    type V = Map<Seq<char>, serde_json::Value>;

    closed spec fn view(&self) -> Map<Seq<char>, serde_json::Value> {
        entries_map(self.entries@)
    }
}

impl ValueMap {
    /// No name is held twice. Every map that this module hands out is
    /// well formed, and its methods keep it so.
    pub closed spec fn wf(&self) -> bool {
        distinct_keys(self.entries@)
    }

    /// The names that the map holds, in the order in which they first
    /// came.
    pub closed spec fn names(&self) -> Seq<Seq<char>> {
        entry_names(self.entries@)
    }

    pub fn new() -> (r: ValueMap)
        ensures
            r.wf(),
            r@ == Map::<Seq<char>, serde_json::Value>::empty(),
            r.names() == Seq::<Seq<char>>::empty(),
    {
        let r = ValueMap { entries: Vec::new() };
        assert(r.names() =~= Seq::<Seq<char>>::empty());
        r
    }

    /// How many names the map holds.
    pub fn len(&self) -> (r: usize)
        requires
            self.wf(),
        ensures
            r == self@.dom().len(),
            r == self.names().len(),
            self@.dom().finite(),
    {
        proof {
            lemma_entries_map_len(self.entries@);
        }
        self.entries.len()
    }

    /// Where `key` is held, if it is.
    fn position(&self, key: &str) -> (r: Option<usize>)
        ensures
            match r {
                Some(i) => i < self.entries@.len() && self.entries@[i as int].0@ == key@,
                None => forall|i: int|
                    0 <= i < self.entries@.len() ==> (#[trigger] self.entries@[i]).0@ != key@,
            },
    {
        let mut i: usize = 0;
        while i < self.entries.len()
            invariant
                i <= self.entries@.len(),
                forall|j: int| 0 <= j < i ==> (#[trigger] self.entries@[j]).0@ != key@,
            decreases self.entries@.len() - i,
        {
            if self.entries[i].0.as_str().to_owned() == key.to_owned() {
                return Some(i);
            }
            i = i + 1;
        }
        None
    }

    /// Sets the value of `key`; a value that `key` had before is lost. A
    /// name that the map held keeps its place, and a new one comes last.
    pub fn insert(&mut self, key: String, value: serde_json::Value)
        requires
            old(self).wf(),
        ensures
            final(self).wf(),
            final(self)@ == old(self)@.insert(key@, value),
            old(self).names().contains(key@) <==> old(self)@.contains_key(key@),
            final(self).names() == (if old(self).names().contains(key@) {
                old(self).names()
            } else {
                old(self).names().push(key@)
            }),
    {
        proof {
            lemma_entries_map_domain(self.entries@, key@);
        }
        match self.position(key.as_str()) {
            Some(i) => {
                proof {
                    lemma_entries_map_update(self.entries@, i as int, (key, value));
                    assert(entry_names(self.entries@)[i as int] == key@);
                    assert(entry_names(self.entries@.update(i as int, (key, value)))
                        =~= entry_names(self.entries@));
                }
                self.entries.set(i, (key, value));
            },
            None => {
                proof {
                    assert(self.entries@.push((key, value)).drop_last() =~= self.entries@);
                    assert(entry_names(self.entries@.push((key, value))) =~= entry_names(
                        self.entries@,
                    ).push(key@));
                    assert forall|j: int| 0 <= j < entry_names(self.entries@).len() implies
                        entry_names(self.entries@)[j] != key@ by {
                        assert(entry_names(self.entries@)[j] == self.entries@[j].0@);
                    }
                }
                self.entries.push((key, value));
            },
        }
    }

    /// The value of `key`, if it has one.
    pub fn get(&self, key: &str) -> (r: Option<&serde_json::Value>)
        requires
            self.wf(),
        ensures
            match r {
                Some(value) => self@.contains_key(key@) && self@[key@] == *value,
                None => !self@.contains_key(key@),
            },
    {
        proof {
            lemma_entries_map_domain(self.entries@, key@);
        }
        match self.position(key) {
            Some(i) => {
                proof {
                    lemma_entries_map_value(self.entries@, i as int);
                }
                Some(&self.entries[i].1)
            },
            None => None,
        }
    }

    /// Takes the value of `key` out of the map, if it has one. The names
    /// that stay keep their order.
    pub fn remove(&mut self, key: &str) -> (r: Option<serde_json::Value>)
        requires
            old(self).wf(),
        ensures
            final(self).wf(),
            final(self)@ == old(self)@.remove(key@),
            match r {
                Some(value) => old(self)@.contains_key(key@) && old(self)@[key@] == value
                    && exists|i: int|
                    0 <= i < old(self).names().len() && old(self).names()[i] == key@
                        && final(self).names() == old(self).names().remove(i),
                None => !old(self)@.contains_key(key@) && final(self).names() == old(
                    self,
                ).names(),
            },
    {
        proof {
            lemma_entries_map_domain(self.entries@, key@);
        }
        match self.position(key) {
            Some(i) => {
                proof {
                    lemma_entries_map_value(self.entries@, i as int);
                    lemma_entries_map_remove(self.entries@, i as int);
                }
                proof {
                    assert(entry_names(self.entries@)[i as int] == key@);
                    assert(entry_names(self.entries@.remove(i as int)) =~= entry_names(
                        self.entries@,
                    ).remove(i as int));
                }
                let entry = self.entries.remove(i);
                assert(old(self).names()[i as int] == key@ && self.names() == old(
                    self,
                ).names().remove(i as int));
                Some(entry.1)
            },
            None => {
                assert(self@.remove(key@) =~= self@);
                None
            },
        }
    }

    /// The names and their values, in the order in which the names first
    /// came.
    pub fn into_entries(self) -> (r: Vec<(String, serde_json::Value)>)
        requires
            self.wf(),
        ensures
            distinct_keys(r@),
            entries_map(r@) == self@,
            entry_names(r@) == self.names(),
    {
        self.entries
    }

    /// What printing this map gives: the text that `serde_json` prints,
    /// indented, for it as a JSON object, or the message with which
    /// `serde_json` refuses.
    pub closed spec fn json_text(&self) -> Result<Seq<char>, Seq<char>> {
        pretty_object_text(entry_texts(self.entries@))
    }

    /// Prints the map as indented JSON text. The outcome is the one that
    /// `json_text` names: its text on success, and on refusal its message.
    pub fn to_json_text(&self) -> (r: Result<String, String>)
        requires
            self.wf(),
        ensures
            match r {
                Ok(text) => self.json_text() == Ok::<Seq<char>, Seq<char>>(text@),
                Err(reason) => self.json_text() == Err::<Seq<char>, Seq<char>>(reason@),
            },
    {
        print_object(&self.entries)
    }
}

} // verus!
