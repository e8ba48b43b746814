//! The in-memory key-value store.
//!
//! A failure-free [`KvAdapter`] backed by a journal of updates: `set` and
//! `delete` append to the journal, and a lookup scans it from the newest
//! entry backwards. The store's model is the map the journal denotes, with
//! the newest update for each key winning.

use vstd::prelude::*;
use vstd::string::*;

use crate::error::Error;
use crate::kv::{scan_item_sound, KvAdapter};
use crate::meta::{AccessorMetadata, MetaView, Scheme};
use crate::ops::CapabilitySet;
use crate::path::{
    basename_of, check_child_of, dir_form_of, get_basename, get_parent, is_child_of,
    is_normalized_root, lemma_normalized_root_idempotent, normalized_root_of, parent_of,
    to_dir_path,
};

verus! {

/// One journal record: a key, and its new value or its removal.
type Record = (String, Option<Vec<u8>>);

/// The map a journal denotes: replay every record, newest last.
pub open spec fn journal_view(s: Seq<Record>) -> Map<Seq<char>, Seq<u8>>
    decreases s.len(),
{
    if s.len() == 0 {
        Map::empty()
    } else {
        let prev = journal_view(s.drop_last());
        match s.last().1 {
            Some(v) => prev.insert(s.last().0@, v@),
            None => prev.remove(s.last().0@),
        }
    }
}

/// Record `i` is the newest record for its key.
pub open spec fn is_newest(s: Seq<Record>, i: int) -> bool {
    forall|j: int| i < j < s.len() ==> (#[trigger] s[j]).0@ != s[i].0@
}

/// When no record at or after position `i` touches key `k`, the journal's
/// map agrees at `k` with the map of the first `i` records.
proof fn lemma_view_stable(s: Seq<Record>, i: int, k: Seq<char>)
    requires
        0 <= i <= s.len(),
        forall|j: int| i <= j < s.len() ==> (#[trigger] s[j]).0@ != k,
    ensures
        journal_view(s).contains_key(k) == journal_view(s.take(i)).contains_key(k),
        journal_view(s).contains_key(k) ==> journal_view(s)[k] == journal_view(s.take(i))[k],
    decreases s.len() - i,
{
    if i == s.len() {
        assert(s.take(i) =~= s);
    } else {
        assert(s[s.len() - 1].0@ != k);
        lemma_view_stable(s.drop_last(), i, k);
        assert(s.drop_last().take(i) =~= s.take(i));
    }
}

/// Every key of the journal's map has a newest record, and that record set
/// the key to its current value.
proof fn lemma_newest_exists(s: Seq<Record>, k: Seq<char>)
    requires
        journal_view(s).contains_key(k),
    ensures
        exists|i: int|
            {
                &&& 0 <= i < s.len()
                &&& (#[trigger] s[i]).0@ == k
                &&& is_newest(s, i)
                &&& s[i].1 matches Some(v) && v@ == journal_view(s)[k]
            },
    decreases s.len(),
{
    let last = s.last();
    if last.0@ == k {
        match last.1 {
            Some(v) => {
                let i = s.len() - 1;
                assert(s[i].0@ == k && is_newest(s, i));
                assert(s[i].1 matches Some(v2) && v2@ == journal_view(s)[k]);
            },
            None => {
                assert(!journal_view(s).contains_key(k));
            },
        }
    } else {
        assert(journal_view(s.drop_last()).contains_key(k));
        lemma_newest_exists(s.drop_last(), k);
        let i = choose|i: int|
            {
                &&& 0 <= i < s.drop_last().len()
                &&& (#[trigger] s.drop_last()[i]).0@ == k
                &&& is_newest(s.drop_last(), i)
                &&& s.drop_last()[i].1 matches Some(v) && v@ == journal_view(s.drop_last())[k]
            };
        assert(s[i] == s.drop_last()[i]);
        assert(is_newest(s, i)) by {
            assert(forall|j: int|
                i < j < s.len() - 1 ==> (#[trigger] s[j]).0@ == s.drop_last()[j].0@);
        }
        assert(s[i].1 matches Some(v) && v@ == journal_view(s)[k]);
    }
}

/// Copy a byte vector.
fn copy_bytes(v: &Vec<u8>) -> (r: Vec<u8>)
    ensures
        r@ == v@,
{
    let mut out: Vec<u8> = Vec::new();
    let mut i: usize = 0;
    let n = v.len();
    while i < n
        invariant
            i <= n,
            n == v@.len(),
            out@ =~= v@.take(i as int),
        decreases n - i,
    {
        out.push(v[i]);
        proof {
            assert(out@ =~= v@.take(i + 1int));
        }
        i = i + 1;
    }
    proof {
        assert(out@ =~= v@);
    }
    out
}

/// The failure-free in-memory store.
pub struct MemAdapter {
    journal: Vec<Record>,
    meta: AccessorMetadata,
}

impl MemAdapter {
    /// An empty store declaring the given capability set.
    pub fn new(caps: CapabilitySet) -> (r: MemAdapter)
        ensures
            r.view() == Map::<Seq<char>, Seq<u8>>::empty(),
            r.infallible(),
            r.kv_meta().scheme == Scheme::Memory,
            r.kv_meta().caps == caps,
            is_normalized_root(r.kv_meta().root),
    {
        let r = MemAdapter {
            journal: Vec::new(),
            meta: AccessorMetadata::new(Scheme::Memory, "/", "", caps),
        };
        proof {
            assert(r.journal@ =~= Seq::<Record>::empty());
            lemma_normalized_root_idempotent(r.meta@.root);
        }
        r
    }
}

impl KvAdapter for MemAdapter {
    closed spec fn view(&self) -> Map<Seq<char>, Seq<u8>> {
        journal_view(self.journal@)
    }

    closed spec fn infallible(&self) -> bool {
        true
    }

    closed spec fn kv_meta(&self) -> MetaView {
        MetaView { root: normalized_root_of(self.meta@.root), ..self.meta@ }
    }

    fn metadata(&self) -> (r: AccessorMetadata) {
        AccessorMetadata::new(
            self.meta.scheme(),
            self.meta.root(),
            self.meta.name(),
            self.meta.capabilities(),
        )
    }

    fn get(&self, key: &str) -> (r: Result<Option<Vec<u8>>, Error>) {
        let owned = key.to_owned();
        let n = self.journal.len();
        let mut i = n;
        while i > 0
            invariant
                owned@ == key@,
                i <= n,
                n == self.journal@.len(),
                forall|j: int| i <= j < n ==> (#[trigger] self.journal@[j]).0@ != key@,
            decreases i,
        {
            i = i - 1;
            let hit = self.journal[i].0 == owned;
            if hit {
                proof {
                    lemma_view_stable(self.journal@, i + 1, key@);
                    assert(self.journal@.take(i + 1).drop_last() =~= self.journal@.take(i as int));
                    assert(self.journal@.take(i + 1).last() == self.journal@[i as int]);
                }
                match &self.journal[i].1 {
                    Some(v) => {
                        return Ok(Some(copy_bytes(v)));
                    },
                    None => {
                        return Ok(None);
                    },
                }
            }
        }
        proof {
            lemma_view_stable(self.journal@, 0, key@);
            assert(self.journal@.take(0int) =~= Seq::<Record>::empty());
        }
        Ok(None)
    }

    fn set(&mut self, key: &str, value: Vec<u8>) -> (r: Result<(), Error>) {
        let ghost old_journal = self.journal@;
        self.journal.push((key.to_owned(), Some(value)));
        proof {
            assert(self.journal@.drop_last() =~= old_journal);
        }
        Ok(())
    }

    fn delete(&mut self, key: &str) -> (r: Result<(), Error>) {
        let ghost old_journal = self.journal@;
        self.journal.push((key.to_owned(), None));
        proof {
            assert(self.journal@.drop_last() =~= old_journal);
        }
        Ok(())
    }

    #[verifier::rlimit(60)]
    #[verifier::spinoff_prover]
    fn scan(&self, ns: &str) -> (r: Result<Vec<(String, u64)>, Error>) {
        let ghost view = journal_view(self.journal@);
        let ns_owned = ns.to_owned();
        let dir = to_dir_path(ns);
        let n = self.journal.len();
        let mut items: Vec<(String, u64)> = Vec::new();
        let mut i: usize = 0;
        while i < n
            invariant
                ns_owned@ == ns@,
                dir@ == dir_form_of(ns@),
                n == self.journal@.len(),
                view == journal_view(self.journal@),
                i <= n,
                forall|t: int|
                    0 <= t < items@.len() ==> scan_item_sound(
                        view,
                        ns@,
                        (#[trigger] items@[t]).0@,
                        items@[t].1,
                    ),
                forall|u: int|
                    {
                        &&& 0 <= u < i
                        &&& is_newest(self.journal@, u)
                        &&& (#[trigger] self.journal@[u]).1 is Some
                        &&& parent_of(self.journal@[u].0@) == ns@
                        &&& is_child_of(dir_form_of(ns@), self.journal@[u].0@)
                    } ==> exists|t: int|
                        0 <= t < items@.len() && (#[trigger] items@[t]).0@ == basename_of(
                            self.journal@[u].0@,
                        ) && items@[t].1 == view[self.journal@[u].0@].len(),
            decreases n - i,
        {
            let record_key_owned = self.journal[i].0.clone();
            let mut newest = true;
            let mut j = i + 1;
            while j < n
                invariant
                    i < n,
                    n == self.journal@.len(),
                    record_key_owned@ == self.journal@[i as int].0@,
                    i < j <= n,
                    newest <==> forall|jj: int|
                        i < jj < j ==> (#[trigger] self.journal@[jj]).0@ != record_key_owned@,
                decreases n - j,
            {
                if self.journal[j].0 == record_key_owned {
                    newest = false;
                }
                j = j + 1;
            }
            proof {
                assert(newest <==> is_newest(self.journal@, i as int));
            }
            if newest {
                let has_value = match &self.journal[i].1 {
                    Some(_) => true,
                    None => false,
                };
                if has_value {
                    let key_str = self.journal[i].0.as_str();
                    let parent = get_parent(key_str);
                    if parent == ns_owned && check_child_of(dir.as_str(), key_str) {
                        let value_len: u64 = match &self.journal[i].1 {
                            Some(v) => v.len() as u64,
                            None => 0,
                        };
                        let name = get_basename(key_str);
                        let ghost old_items = items@;
                        proof {
                            let k = self.journal@[i as int].0@;
                            lemma_view_stable(self.journal@, i + 1, k);
                            assert(self.journal@.take(i + 1).drop_last() =~= self.journal@.take(
                                i as int,
                            ));
                            assert(self.journal@.take(i + 1).last() == self.journal@[i as int]);
                            assert(self.journal@[i as int].1 matches Some(vv) && view.contains_key(
                                k,
                            ) && view[k] == vv@);
                            assert(value_len == view[k].len());
                            assert(scan_item_sound(view, ns@, name@, value_len));
                        }
                        items.push((name, value_len));
                        proof {
                            let k = self.journal@[i as int].0@;
                            assert(forall|t: int|
                                0 <= t < old_items.len() ==> items@[t] == old_items[t]);
                            let last_t = old_items.len() as int;
                            assert(items@[last_t].0@ == basename_of(k) && items@[last_t].1
                                == view[k].len());
                        }
                    }
                }
            }
            i = i + 1;
        }
        proof {
            assert forall|k: Seq<char>|
                view.contains_key(k) && #[trigger] parent_of(k) == ns@ && is_child_of(
                    dir_form_of(ns@),
                    k,
                ) implies exists|t: int|
                0 <= t < items@.len() && (#[trigger] items@[t]).0@ == basename_of(k) && items@[t].1
                    == view[k].len() by {
                lemma_newest_exists(self.journal@, k);
                let u = choose|u: int|
                    {
                        &&& 0 <= u < self.journal@.len()
                        &&& (#[trigger] self.journal@[u]).0@ == k
                        &&& is_newest(self.journal@, u)
                        &&& self.journal@[u].1 matches Some(v) && v@ == journal_view(
                            self.journal@,
                        )[k]
                    };
                let t = choose|t: int|
                    0 <= t < items@.len() && (#[trigger] items@[t]).0@ == basename_of(
                        self.journal@[u].0@,
                    ) && items@[t].1 == view[self.journal@[u].0@].len();
                assert(items@[t].0@ == basename_of(k) && items@[t].1 == view[k].len());
            }
            assert(forall|t: int|
                0 <= t < items@.len() ==> scan_item_sound(
                    self.view(),
                    ns@,
                    (#[trigger] items@[t]).0@,
                    items@[t].1,
                ));
            assert(forall|k: Seq<char>|
                self.view().contains_key(k) && #[trigger] parent_of(k) == ns@ && is_child_of(
                    dir_form_of(ns@),
                    k,
                ) ==> exists|t: int|
                    0 <= t < items@.len() && (#[trigger] items@[t]).0@ == basename_of(k)
                        && items@[t].1 == self.view()[k].len());
        }
        let ghost snap = items@;
        let result: Result<Vec<(String, u64)>, Error> = Ok(items);
        proof {
            assert(result matches Ok(out) && out@ == snap);
            assert(match result {
                Ok(out) => {
                    &&& (forall|t: int|
                        0 <= t < out@.len() ==> scan_item_sound(
                            self.view(),
                            ns@,
                            (#[trigger] out@[t]).0@,
                            out@[t].1,
                        ))
                    &&& (forall|k: Seq<char>|
                        self.view().contains_key(k) && #[trigger] parent_of(k) == ns@
                            && is_child_of(dir_form_of(ns@), k) ==> exists|t: int|
                            0 <= t < out@.len() && (#[trigger] out@[t]).0@ == basename_of(k)
                                && out@[t].1 == self.view()[k].len())
                },
                Err(_) => true,
            });
        }
        result
    }
}

} // verus!
