use vstd::prelude::*;
use crate::search::{first_match, lemma_first_match, lemma_first_match_is};
use crate::text::{same_text, Text};

verus! {

/// One entry of a world's metadata.
#[derive(Debug)]
pub struct MetadataEntry {
    pub key: String,
    pub value: String,
}

impl View for MetadataEntry {
    type V = (Text, Text);

    open spec fn view(&self) -> (Text, Text) {
        (self.key@, self.value@)
    }
}

/// The entries of `entries`, each as a pair of texts.
pub open spec fn pairs(entries: Seq<MetadataEntry>) -> Seq<(Text, Text)> {
    entries.map_values(|e: MetadataEntry| e@)
}

/// Whether an entry of `entries` has the key `key`.
pub open spec fn has_key(entries: Seq<(Text, Text)>, key: Text) -> bool {
    exists|i: int| 0 <= i < entries.len() && (#[trigger] entries[i]).0 == key
}

/// Whether an entry has the key `key`.
pub open spec fn keyed(key: Text) -> spec_fn((Text, Text)) -> bool {
    |e: (Text, Text)| e.0 == key
}

/// Index of the first entry with the key `key`; the length where there is none.
pub open spec fn first_index(entries: Seq<(Text, Text)>, key: Text) -> int {
    first_match(entries, keyed(key))
}

/// The value under `key`: that of the first entry with that key.
pub open spec fn value_of(entries: Seq<(Text, Text)>, key: Text) -> Option<Text> {
    let i = first_index(entries, key);
    if i < entries.len() {
        Some(entries[i].1)
    } else {
        None
    }
}

/// Whether the flag `key` is set in `entries`: whether the value under it
/// is `true`.
pub open spec fn flag(entries: Seq<(Text, Text)>, key: Text) -> bool {
    value_of(entries, key) == Some("true"@)
}

/// The entries with `value` under `key`: in the place of the first entry with
/// that key, or at the end where there is none. No other entry changes.
pub open spec fn with_value(entries: Seq<(Text, Text)>, key: Text, value: Text) -> Seq<
    (Text, Text),
> {
    let i = first_index(entries, key);
    if i < entries.len() {
        entries.update(i, (key, value))
    } else {
        entries.push((key, value))
    }
}

/// The first index is in range and points at the key exactly where the key
/// occurs; no entry before it has the key.
pub proof fn lemma_first_index(entries: Seq<(Text, Text)>, key: Text)
    ensures
        0 <= first_index(entries, key) <= entries.len(),
        first_index(entries, key) < entries.len() ==> entries[first_index(entries, key)].0 == key,
        forall|j: int| 0 <= j < first_index(entries, key) ==> (#[trigger] entries[j]).0 != key,
        has_key(entries, key) <==> first_index(entries, key) < entries.len(),
{
    lemma_first_match(entries, keyed(key));
    if has_key(entries, key) {
        let i = choose|i: int| 0 <= i < entries.len() && (#[trigger] entries[i]).0 == key;
        assert(keyed(key)(entries[i]));
    }
}

/// An index before which no entry has the key, and at which one has it or
/// the entries end, is the first index.
pub proof fn lemma_first_index_is(entries: Seq<(Text, Text)>, key: Text, i: int)
    requires
        0 <= i <= entries.len(),
        forall|j: int| 0 <= j < i ==> (#[trigger] entries[j]).0 != key,
        i < entries.len() ==> entries[i].0 == key,
    ensures
        first_index(entries, key) == i,
{
    lemma_first_match_is(entries, keyed(key), i);
}

/// A textual key/value record: the options that a command line gave, or the
/// metadata that is kept beside a world.
#[derive(Debug)]
pub struct Settings {
    pub entries: Vec<MetadataEntry>,
}

/// The record that is kept beside a world. One of its entries, `backend`,
/// names the storage backend that holds the world's map.
pub type WorldMetadata = Settings;

impl View for Settings {
    type V = Seq<(Text, Text)>;

    open spec fn view(&self) -> Seq<(Text, Text)> {
        pairs(self.entries@)
    }
}

impl Settings {
    /// The key of the entry that names the backend.
    pub open spec fn backend_key() -> Text {
        "backend"@
    }

    /// The backend that the record names.
    pub open spec fn spec_backend(&self) -> Option<Text> {
        value_of(self@, Self::backend_key())
    }

    /// A record without entries.
    pub fn new() -> (m: Self)
        ensures
            m@ == Seq::<(Text, Text)>::empty(),
    {
        let m = Settings { entries: Vec::new() };
        proof {
            assert(m@ =~= Seq::<(Text, Text)>::empty());
        }
        m
    }

    /// How many entries the record has.
    pub fn len(&self) -> (n: usize)
        ensures
            n == self@.len(),
    {
        self.entries.len()
    }

    /// Where the first entry with the key `key` stands.
    pub fn find(&self, key: &str) -> (at: usize)
        ensures
            at == first_index(self@, key@),
            at <= self@.len(),
    {
        let mut i: usize = 0;
        while i < self.entries.len()
            invariant
                i <= self.entries.len(),
                forall|j: int| 0 <= j < i ==> (#[trigger] self@[j]).0 != key@,
            decreases self.entries.len() - i,
        {
            if same_text(self.entries[i].key.as_str(), key) {
                proof {
                    lemma_first_index_is(self@, key@, i as int);
                }
                return i;
            }
            i += 1;
        }
        proof {
            lemma_first_index_is(self@, key@, i as int);
        }
        i
    }

    /// Whether the record has an entry with the key `key`.
    pub fn contains_key(&self, key: &str) -> (b: bool)
        ensures
            b == has_key(self@, key@),
            b == (value_of(self@, key@) is Some),
    {
        proof {
            lemma_first_index(self@, key@);
        }
        self.find(key) < self.entries.len()
    }

    /// The value under `key`.
    pub fn get(&self, key: &str) -> (value: Option<String>)
        ensures
            match value {
                Some(v) => value_of(self@, key@) == Some(v@),
                None => value_of(self@, key@) is None,
            },
    {
        let i = self.find(key);
        if i < self.entries.len() {
            Some(self.entries[i].value.clone())
        } else {
            None
        }
    }

    /// Puts `value` under `key` and leaves every other entry as it is.
    pub fn set(&mut self, key: &str, value: &str)
        ensures
            final(self)@ == with_value(old(self)@, key@, value@),
    {
        let i = self.find(key);
        let entry = MetadataEntry { key: String::from_str(key), value: String::from_str(value) };
        if i < self.entries.len() {
            self.entries.set(i, entry);
        } else {
            self.entries.push(entry);
        }
        proof {
            assert(self@ =~= with_value(old(self)@, key@, value@));
        }
    }

    /// Whether the flag `key` is set.
    pub fn get_flag(&self, key: &str) -> (set: bool)
        ensures
            set == flag(self@, key@),
    {
        match self.get(key) {
            Some(v) => same_text(v.as_str(), "true"),
            None => false,
        }
    }

    /// The backend that the record names.
    pub fn backend(&self) -> (id: Option<String>)
        ensures
            match id {
                Some(v) => self.spec_backend() == Some(v@),
                None => self.spec_backend() is None,
            },
    {
        self.get("backend")
    }

    /// Names `id` as the backend and leaves every other entry as it is.
    pub fn set_backend(&mut self, id: &str)
        ensures
            final(self)@ == with_value(old(self)@, Self::backend_key(), id@),
    {
        self.set("backend", id);
    }

    /// The key and the value of the entry with index `i`.
    pub fn entry(&self, i: usize) -> (kv: (String, String))
        requires
            i < self@.len(),
        ensures
            kv.0@ == self@[i as int].0,
            kv.1@ == self@[i as int].1,
    {
        (self.entries[i].key.clone(), self.entries[i].value.clone())
    }
}

/// After `value` was put under `key`, that is what is read there, and what
/// is read under any other key is what was read before.
pub proof fn law_with_value(entries: Seq<(Text, Text)>, key: Text, value: Text, other: Text)
    ensures
        value_of(with_value(entries, key, value), key) == Some(value),
        other != key ==> value_of(with_value(entries, key, value), other) == value_of(
            entries,
            other,
        ),
        with_value(entries, key, value).len() >= entries.len(),
        forall|j: int|
            0 <= j < entries.len() && entries[j].0 != key ==> #[trigger] with_value(
                entries,
                key,
                value,
            )[j] == entries[j],
{
    let after = with_value(entries, key, value);
    let i = first_index(entries, key);
    lemma_first_index(entries, key);
    lemma_first_index_is(after, key, i);
    if other != key {
        let k = first_index(entries, other);
        lemma_first_index(entries, other);
        assert forall|j: int| 0 <= j < k implies (#[trigger] after[j]).0 != other by {
            assert(entries[j].0 != other);
        }
        if k < entries.len() {
            assert(after[k] == entries[k]);
            lemma_first_index_is(after, other, k);
        } else {
            assert forall|j: int| 0 <= j < after.len() implies (#[trigger] after[j]).0
                != other by {
                if j < entries.len() {
                    assert(entries[j].0 != other);
                }
            }
            lemma_first_index_is(after, other, after.len() as int);
        }
    }
}

/// The text under `key`; empty where there is none.
pub open spec fn text_of(entries: Seq<(Text, Text)>, key: Text) -> Text {
    match value_of(entries, key) {
        Some(v) => v,
        None => Seq::empty(),
    }
}

/// The text under `key`; empty where there is none.
pub fn get_or_empty(settings: &Settings, key: &str) -> (text: String)
    ensures
        text@ == text_of(settings@, key@),
{
    match settings.get(key) {
        Some(v) => v,
        None => String::new(),
    }
}

} // verus!
