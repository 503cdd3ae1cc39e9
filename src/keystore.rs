//! The agent's table of senders: each user identifier with the secret key
//! that opens the boxes that user sends. Built once, then only read.

use crate::crypto::{FileBacked, SecretKey, SECRET_KEY_BYTES};
use vstd::prelude::*;

verus! {

/// One configured sender: the identifier, and the contents of the key file
/// where it could be read.
pub type KeyEntry = (String, Option<Vec<u8>>);

/// Whether an entry holds a key file of the right size.
pub open spec fn valid_entry(e: KeyEntry) -> bool {
    e.1 matches Some(contents) && contents@.len() == SECRET_KEY_BYTES
}

/// The table that loading `entries` in order gives: every valid entry is
/// added, a later one replacing an earlier one for the same identifier, and
/// the others are skipped.
pub open spec fn loaded(entries: Seq<KeyEntry>) -> Map<Seq<char>, Seq<u8>>
    decreases entries.len(),
{
    if entries.len() == 0 {
        Map::empty()
    } else {
        let before = loaded(entries.drop_last());
        let e = entries.last();
        if valid_entry(e) {
            before.insert(e.0@, e.1->Some_0@)
        } else {
            before
        }
    }
}

/// The table that a list of identifiers and keys stands for, later pairs
/// replacing earlier ones.
pub open spec fn table_of(items: Seq<(String, SecretKey)>) -> Map<Seq<char>, Seq<u8>>
    decreases items.len(),
{
    if items.len() == 0 {
        Map::empty()
    } else {
        table_of(items.drop_last()).insert(items.last().0@, items.last().1@)
    }
}

/// Secret keys of the known senders, by identifier.
pub struct KeyStore {
    items: Vec<(String, SecretKey)>,
}

impl View for KeyStore {
    type V = Map<Seq<char>, Seq<u8>>;

    closed spec fn view(&self) -> Map<Seq<char>, Seq<u8>> {
        table_of(self.items@)
    }
}

proof fn lemma_table_absent(items: Seq<(String, SecretKey)>, id: Seq<char>)
    requires
        forall|j: int| 0 <= j < items.len() ==> (#[trigger] items[j]).0@ != id,
    ensures
        !table_of(items).contains_key(id),
    decreases items.len(),
{
    if items.len() > 0 {
        lemma_table_absent(items.drop_last(), id);
    }
}

proof fn lemma_table_last(items: Seq<(String, SecretKey)>, id: Seq<char>, k: int)
    requires
        0 <= k < items.len(),
        items[k].0@ == id,
        forall|j: int| k < j < items.len() ==> (#[trigger] items[j]).0@ != id,
    ensures
        table_of(items).contains_key(id),
        table_of(items)[id] == items[k].1@,
    decreases items.len(),
{
    if k < items.len() - 1 {
        lemma_table_last(items.drop_last(), id, k);
    }
}

/// An identifier that no entry names is absent from the loaded table.
pub proof fn lemma_never_loaded_absent(entries: Seq<KeyEntry>, id: Seq<char>)
    requires
        forall|i: int| 0 <= i < entries.len() ==> (#[trigger] entries[i]).0@ != id,
    ensures
        !loaded(entries).contains_key(id),
    decreases entries.len(),
{
    if entries.len() > 0 {
        lemma_never_loaded_absent(entries.drop_last(), id);
    }
}

/// After an entry with a valid key file is loaded for an identifier, the
/// table holds exactly that key's bytes for it, unless a later valid entry
/// names the same identifier.
pub proof fn lemma_loaded_key_found(entries: Seq<KeyEntry>, id: Seq<char>, i: int)
    requires
        0 <= i < entries.len(),
        entries[i].0@ == id,
        valid_entry(entries[i]),
        forall|j: int|
            i < j < entries.len() && (#[trigger] entries[j]).0@ == id ==> !valid_entry(entries[j]),
    ensures
        loaded(entries).contains_key(id),
        loaded(entries)[id] == entries[i].1->Some_0@,
    decreases entries.len(),
{
    if i < entries.len() - 1 {
        lemma_loaded_key_found(entries.drop_last(), id, i);
    }
}

/// Builds the table from the configured senders, skipping each entry whose
/// key file could not be read or is not a key.
pub fn load_keys(entries: &Vec<KeyEntry>) -> (r: KeyStore)
    ensures
        r@ == loaded(entries@),
{
    let mut items: Vec<(String, SecretKey)> = Vec::new();
    let mut i: usize = 0;
    while i < entries.len()
        invariant
            0 <= i <= entries@.len(),
            table_of(items@) == loaded(entries@.subrange(0, i as int)),
        decreases entries@.len() - i,
    {
        let ghost prefix = entries@.subrange(0, i + 1);
        assert(prefix.drop_last() =~= entries@.subrange(0, i as int));
        let entry = &entries[i];
        match &entry.1 {
            Some(contents) => match SecretKey::from_file_contents(contents.as_slice()) {
                Ok(key) => {
                    let id = entry.0.clone();
                    let ghost before = items@;
                    items.push((id, key));
                    assert(items@.drop_last() =~= before);
                },
                Err(_) => {},
            },
            None => {},
        }
        i = i + 1;
    }
    assert(entries@.subrange(0, entries@.len() as int) =~= entries@);
    KeyStore { items }
}

impl KeyStore {
    /// The secret key of `user_id`, if it is a known sender.
    pub fn lookup(&self, user_id: &String) -> (r: Option<SecretKey>)
        ensures
            r is Some <==> self@.contains_key(user_id@),
            r matches Some(k) ==> k@ == self@[user_id@],
    {
        let mut i: usize = self.items.len();
        while i > 0
            invariant
                0 <= i <= self.items@.len(),
                forall|j: int| i <= j < self.items@.len() ==> (#[trigger] self.items@[j]).0@ != user_id@,
            decreases i,
        {
            i = i - 1;
            if self.items[i].0 == *user_id {
                proof {
                    lemma_table_last(self.items@, user_id@, i as int);
                }
                return Some(self.items[i].1);
            }
        }
        proof {
            lemma_table_absent(self.items@, user_id@);
        }
        None
    }
}

} // verus!
