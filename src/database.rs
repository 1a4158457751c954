//! The in-memory key/value store.
use vstd::prelude::*;
use crate::table::{
    find_key, has_key, keys_unique, lemma_pairs_to_map_dom, lemma_pairs_to_map_index,
    lemma_remove_at, pairs_to_map, entry_views, upsert,
};

verus! {

broadcast use vstd::string::to_string_from_display_ensures_for_str;

/// The view of a list of string pairs as a list of character sequences.
pub open spec fn pair_views(s: Seq<(String, String)>) -> Seq<(Seq<char>, Seq<char>)> {
    entry_views(s)
}

/// A store that can take and give back string values by key.
pub trait Database {
    /// The store holds its internal invariant.
    spec fn well_formed(&self) -> bool;

    /// What the store maps each key to.
    spec fn contents(&self) -> Map<Seq<char>, Seq<char>>;

    /// Sets `key` to `value`, whether or not it was there before.
    fn insert(&mut self, key: String, value: String)
        requires
            old(self).well_formed(),
        ensures
            final(self).well_formed(),
            final(self).contents() == old(self).contents().insert(key@, value@),
    ;

    /// The value stored under `key`, if any.
    fn retrieve(&self, key: &str) -> (r: Option<&String>)
        requires
            self.well_formed(),
        ensures
            match r {
                Some(v) => self.contents().contains_key(key@) && v@ == self.contents()[key@],
                None => !self.contents().contains_key(key@),
            },
    ;
}

/// Why a store operation that needs an existing key could not run.
#[derive(Debug, Clone, Copy, PartialEq, Eq, Structural)]
pub enum StoreError {
    NotFound,
}

/// A key/value store held in memory, keys kept in order of first insertion.
#[derive(Debug, Clone)]
pub struct MemoryDatabase {
    store: Vec<(String, String)>,
}

impl View for MemoryDatabase {
    type V = Map<Seq<char>, Seq<char>>;

    closed spec fn view(&self) -> Map<Seq<char>, Seq<char>> {
        pairs_to_map(pair_views(self.store@))
    }
}

impl MemoryDatabase {
    /// No key is stored twice.
    pub closed spec fn wf(&self) -> bool {
        keys_unique(pair_views(self.store@))
    }

    /// Creates a new empty database.
    pub fn new() -> (r: Self)
        ensures
            r.wf(),
            r@ == Map::<Seq<char>, Seq<char>>::empty(),
    {
        let r = MemoryDatabase { store: Vec::new() };
        assert(pair_views(r.store@) =~= Seq::empty());
        r
    }

    /// Whether `key` is stored.
    pub fn contains_key(&self, key: &String) -> (r: bool)
        requires
            self.wf(),
        ensures
            r == self@.contains_key(key@),
    {
        let found = find_key(&self.store, key);
        proof {
            let s = pair_views(self.store@);
            lemma_pairs_to_map_dom(s, key@);
            match found {
                Some(i) => {
                    lemma_pairs_to_map_index(s, i as int);
                },
                None => {
                    if has_key(s, key@) {
                        let j = choose|j: int| 0 <= j < s.len() && s[j].0 == key@;
                        assert(self.store@[j].0@ == key@);
                    }
                },
            }
        }
        found.is_some()
    }

    /// Sets `key` to `value`, adding the key at the end if it is new.
    pub(crate) fn put(&mut self, key: String, value: String)
        requires
            old(self).wf(),
        ensures
            final(self).wf(),
            final(self)@ == old(self)@.insert(key@, value@),
    {
        upsert(&mut self.store, key, value);
    }

    /// The value stored under `key`, if any.
    pub(crate) fn get(&self, key: &String) -> (r: Option<&String>)
        requires
            self.wf(),
        ensures
            match r {
                Some(v) => self@.contains_key(key@) && v@ == self@[key@],
                None => !self@.contains_key(key@),
            },
    {
        let ghost s = pair_views(self.store@);
        match find_key(&self.store, key) {
            Some(i) => {
                proof {
                    lemma_pairs_to_map_index(s, i as int);
                }
                Some(&self.store[i].1)
            },
            None => {
                proof {
                    lemma_pairs_to_map_dom(s, key@);
                    if has_key(s, key@) {
                        let j = choose|j: int| 0 <= j < s.len() && s[j].0 == key@;
                        assert(self.store@[j].0@ == key@);
                    }
                }
                None
            },
        }
    }

    /// Removes `key`; fails with `NotFound`, changing nothing, when it is absent.
    pub fn delete(&mut self, key: &String) -> (r: Result<(), StoreError>)
        requires
            old(self).wf(),
        ensures
            final(self).wf(),
            old(self)@.contains_key(key@) ==> r == Ok::<(), StoreError>(())
                && final(self)@ == old(self)@.remove(key@),
            !old(self)@.contains_key(key@) ==> r == Err::<(), StoreError>(StoreError::NotFound)
                && final(self)@ == old(self)@,
    {
        let ghost s = pair_views(self.store@);
        match find_key(&self.store, key) {
            Some(i) => {
                self.store.remove(i);
                proof {
                    assert(pair_views(self.store@) =~= s.remove(i as int));
                    lemma_remove_at(s, i as int);
                    lemma_pairs_to_map_index(s, i as int);
                }
                Ok(())
            },
            None => {
                proof {
                    lemma_pairs_to_map_dom(s, key@);
                    if has_key(s, key@) {
                        let j = choose|j: int| 0 <= j < s.len() && s[j].0 == key@;
                        assert(self.store@[j].0@ == key@);
                    }
                }
                Err(StoreError::NotFound)
            },
        }
    }

    /// Sets an existing `key` to `value`; fails with `NotFound`, changing
    /// nothing, when the key is absent.
    pub fn update(&mut self, key: String, value: String) -> (r: Result<(), StoreError>)
        requires
            old(self).wf(),
        ensures
            final(self).wf(),
            old(self)@.contains_key(key@) ==> r == Ok::<(), StoreError>(())
                && final(self)@ == old(self)@.insert(key@, value@),
            !old(self)@.contains_key(key@) ==> r == Err::<(), StoreError>(StoreError::NotFound)
                && final(self)@ == old(self)@,
    {
        if self.contains_key(&key) {
            self.put(key, value);
            Ok(())
        } else {
            Err(StoreError::NotFound)
        }
    }

    /// The stored pairs, in the store's order; they denote exactly its contents.
    pub fn snapshot(&self) -> (r: Vec<(String, String)>)
        requires
            self.wf(),
        ensures
            keys_unique(pair_views(r@)),
            pairs_to_map(pair_views(r@)) == self@,
    {
        let mut out: Vec<(String, String)> = Vec::new();
        let mut i: usize = 0;
        while i < self.store.len()
            invariant
                i <= self.store@.len(),
                pair_views(out@) =~= pair_views(self.store@).subrange(0, i as int),
            decreases self.store@.len() - i,
        {
            let k = self.store[i].0.clone();
            let v = self.store[i].1.clone();
            let ghost before = out@;
            out.push((k, v));
            proof {
                assert(out@ =~= before.push((k, v)));
                assert(pair_views(out@) =~= pair_views(before).push((k@, v@)));
                assert(pair_views(self.store@).subrange(0, i + 1) =~= pair_views(
                    self.store@,
                ).subrange(0, i as int).push((k@, v@)));
            }
            i = i + 1;
        }
        assert(pair_views(self.store@).subrange(0, i as int) =~= pair_views(self.store@));
        out
    }

    /// A store holding the given pairs; a later pair with a key wins over
    /// an earlier one.
    pub fn load(items: Vec<(String, String)>) -> (r: Self)
        ensures
            r.wf(),
            r@ == pairs_to_map(pair_views(items@)),
    {
        let mut db = MemoryDatabase::new();
        let mut i: usize = 0;
        while i < items.len()
            invariant
                i <= items@.len(),
                db.wf(),
                db@ == pairs_to_map(pair_views(items@).subrange(0, i as int)),
            decreases items@.len() - i,
        {
            let k = items[i].0.clone();
            let v = items[i].1.clone();
            db.put(k, v);
            proof {
                let p = pair_views(items@);
                assert(p.subrange(0, i + 1).drop_last() =~= p.subrange(0, i as int));
            }
            i = i + 1;
        }
        assert(pair_views(items@).subrange(0, i as int) =~= pair_views(items@));
        db
    }
}

impl Database for MemoryDatabase {
    open spec fn well_formed(&self) -> bool {
        self.wf()
    }

    open spec fn contents(&self) -> Map<Seq<char>, Seq<char>> {
        self@
    }

    fn insert(&mut self, key: String, value: String) {
        self.put(key, value);
    }

    fn retrieve(&self, key: &str) -> (r: Option<&String>) {
        let k = key.to_string();
        self.get(&k)
    }
}

} // verus!
