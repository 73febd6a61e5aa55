//! The cache-aside layer's state: a shared key-value store in front of
//! the task store, never the source of truth.
//!
//! Keys are deterministic functions of entity identity; the outward text
//! forms are produced by `task_key`, `user_tasks_key` and `all_tasks_key`.
//! The store itself is modelled as a map from keys to cached values with
//! a recorded time-to-live.

use vstd::prelude::*;

use crate::ids::spec_uuid_str;
use crate::ids::uuid_to_string;
use crate::task::Task;
use crate::task::TaskView;
use crate::text::push_char;

verus! {

/// A cache key: one task, one owner's tasks, or the whole listing.
#[derive(Clone, Copy, Debug, PartialEq, Eq, Structural)]
pub enum CacheKey {
    Task(u128),
    UserTasks(u128),
    AllTasks,
}

/// The text form of a single-task cache key.
pub fn task_key(id: u128) -> (r: String)
    ensures
        r@ == "task:"@ + spec_uuid_str(id),
{
    let mut out = String::from_str("task:");
    out.append(uuid_to_string(id).as_str());
    out
}

/// The text form of an owner's aggregate cache key.
pub fn user_tasks_key(user_id: u128) -> (r: String)
    ensures
        r@ == "user_tasks:"@ + spec_uuid_str(user_id),
{
    let mut out = String::from_str("user_tasks:");
    out.append(uuid_to_string(user_id).as_str());
    out
}

/// The text form of the whole-listing cache key.
pub fn all_tasks_key() -> (r: String)
    ensures
        r@ == "tasks:all"@,
{
    String::from_str("tasks:all")
}

/// A cached value: one task or a listing snapshot.
#[derive(Debug)]
pub enum CachedValue {
    One(Task),
    Many(Vec<Task>),
}

/// The mathematical value of a cache entry's payload.
pub ghost enum CachedValueView {
    One(TaskView),
    Many(Seq<TaskView>),
}

impl View for CachedValue {
    type V = CachedValueView;

    open spec fn view(&self) -> CachedValueView {
        match self {
            CachedValue::One(t) => CachedValueView::One(t@),
            CachedValue::Many(v) => CachedValueView::Many(crate::query::spec_views(v@)),
        }
    }
}

impl Clone for CachedValue {
    fn clone(&self) -> (res: Self)
        ensures
            res@ == self@,
    {
        match self {
            CachedValue::One(t) => CachedValue::One(t.clone()),
            CachedValue::Many(v) => CachedValue::Many(crate::query::clone_tasks(v)),
        }
    }
}

/// One stored cache entry.
#[derive(Debug)]
pub struct CacheEntry {
    pub key: CacheKey,
    pub value: CachedValue,
    pub ttl_secs: u64,
}

/// The map a sequence of entries represents; a later entry would win,
/// though the store keeps keys unique.
pub open spec fn spec_entry_map(s: Seq<CacheEntry>) -> Map<CacheKey, CachedValueView>
    decreases s.len(),
{
    if s.len() == 0 {
        Map::empty()
    } else {
        spec_entry_map(s.drop_last()).insert(s.last().key, s.last().value@)
    }
}

/// Keys are unique among the stored entries.
pub open spec fn spec_entries_unique(s: Seq<CacheEntry>) -> bool {
    forall|i: int, j: int|
        0 <= i < s.len() && 0 <= j < s.len() && i != j ==> #[trigger] s[i].key != #[trigger] s[j].key
}

proof fn lemma_map_lookup(s: Seq<CacheEntry>, i: int)
    requires
        spec_entries_unique(s),
        0 <= i < s.len(),
    ensures
        spec_entry_map(s).contains_key(s[i].key),
        spec_entry_map(s)[s[i].key] == s[i].value@,
    decreases s.len(),
{
    if i < s.len() - 1 {
        assert(spec_entries_unique(s.drop_last())) by {
            assert forall|x: int, y: int|
                0 <= x < s.drop_last().len() && 0 <= y < s.drop_last().len() && x
                    != y implies #[trigger] s.drop_last()[x].key != #[trigger] s.drop_last()[y].key by {
                assert(s.drop_last()[x] == s[x] && s.drop_last()[y] == s[y]);
            }
        }
        lemma_map_lookup(s.drop_last(), i);
        assert(s.drop_last()[i] == s[i]);
        assert(s.last().key != s[i].key);
    }
}

proof fn lemma_map_no_key(s: Seq<CacheEntry>, k: CacheKey)
    requires
        forall|i: int| 0 <= i < s.len() ==> #[trigger] s[i].key != k,
    ensures
        !spec_entry_map(s).contains_key(k),
    decreases s.len(),
{
    if s.len() > 0 {
        assert forall|i: int| 0 <= i < s.drop_last().len() implies #[trigger] s.drop_last()[i].key
            != k by {
            assert(s.drop_last()[i] == s[i]);
        }
        lemma_map_no_key(s.drop_last(), k);
        assert(s.last().key != k);
    }
}

proof fn lemma_map_update(s: Seq<CacheEntry>, i: int, e: CacheEntry)
    requires
        spec_entries_unique(s),
        0 <= i < s.len(),
        s[i].key == e.key,
    ensures
        spec_entry_map(s.update(i, e)) == spec_entry_map(s).insert(e.key, e.value@),
    decreases s.len(),
{
    let su = s.update(i, e);
    if i == s.len() - 1 {
        assert(su.drop_last() =~= s.drop_last());
        assert(su.last() == e);
        assert(spec_entry_map(su) =~= spec_entry_map(s).insert(e.key, e.value@));
    } else {
        assert(spec_entries_unique(s.drop_last())) by {
            assert forall|x: int, y: int|
                0 <= x < s.drop_last().len() && 0 <= y < s.drop_last().len() && x
                    != y implies #[trigger] s.drop_last()[x].key != #[trigger] s.drop_last()[y].key by {
                assert(s.drop_last()[x] == s[x] && s.drop_last()[y] == s[y]);
            }
        }
        assert(s.drop_last()[i] == s[i]);
        lemma_map_update(s.drop_last(), i, e);
        assert(su.drop_last() =~= s.drop_last().update(i, e));
        assert(su.last() == s.last());
        assert(s.last().key != e.key);
        assert(spec_entry_map(su) =~= spec_entry_map(s).insert(e.key, e.value@));
    }
}

proof fn lemma_map_remove(s: Seq<CacheEntry>, i: int)
    requires
        spec_entries_unique(s),
        0 <= i < s.len(),
    ensures
        spec_entry_map(s.remove(i)) == spec_entry_map(s).remove(s[i].key),
    decreases s.len(),
{
    let k = s[i].key;
    assert(spec_entries_unique(s.drop_last())) by {
        assert forall|x: int, y: int|
            0 <= x < s.drop_last().len() && 0 <= y < s.drop_last().len() && x
                != y implies #[trigger] s.drop_last()[x].key != #[trigger] s.drop_last()[y].key by {
            assert(s.drop_last()[x] == s[x] && s.drop_last()[y] == s[y]);
        }
    }
    if i == s.len() - 1 {
        assert(s.remove(i) =~= s.drop_last());
        assert forall|x: int| 0 <= x < s.drop_last().len() implies #[trigger] s.drop_last()[x].key
            != k by {
            assert(s.drop_last()[x] == s[x]);
        }
        lemma_map_no_key(s.drop_last(), k);
        assert(spec_entry_map(s.remove(i)) =~= spec_entry_map(s).remove(k));
    } else {
        assert(s.drop_last()[i] == s[i]);
        lemma_map_remove(s.drop_last(), i);
        assert(s.remove(i).drop_last() =~= s.drop_last().remove(i));
        assert(s.remove(i).last() == s.last());
        assert(s.last().key != k);
        assert(spec_entry_map(s.remove(i)) =~= spec_entry_map(s).remove(k));
    }
}

/// The cache-aside store's verified model, with a default time-to-live.
/// In a deployment this state lives in the shared key-value service; the
/// process boundary serializes the values it holds.
#[derive(Debug)]
pub struct RedisCache {
    pub entries: Vec<CacheEntry>,
    pub default_ttl_secs: u64,
}

impl View for RedisCache {
    type V = Map<CacheKey, CachedValueView>;

    open spec fn view(&self) -> Map<CacheKey, CachedValueView> {
        spec_entry_map(self.entries@)
    }
}

/// The store's invariant: one entry per key.
pub open spec fn spec_cache_wf(c: &RedisCache) -> bool {
    spec_entries_unique(c.entries@)
}

impl RedisCache {
    /// An empty cache with the given default time-to-live.
    pub fn new(default_ttl_secs: u64) -> (r: Self)
        ensures
            r@ == Map::<CacheKey, CachedValueView>::empty(),
            spec_cache_wf(&r),
            r.default_ttl_secs == default_ttl_secs,
    {
        RedisCache { entries: Vec::new(), default_ttl_secs }
    }

    /// The same cache state under another default time-to-live.
    pub fn with_ttl(self, ttl_secs: u64) -> (r: Self)
        ensures
            r@ == self@,
            spec_cache_wf(&self) ==> spec_cache_wf(&r),
            r.default_ttl_secs == ttl_secs,
    {
        RedisCache { entries: self.entries, default_ttl_secs: ttl_secs }
    }

    /// The index of the entry under this key, if any.
    fn key_index(&self, key: CacheKey) -> (r: Option<usize>)
        ensures
            match r {
                Some(i) => i < self.entries@.len() && self.entries@[i as int].key == key,
                None => forall|j: int|
                    0 <= j < self.entries@.len() ==> #[trigger] self.entries@[j].key != key,
            },
    {
        let mut i: usize = 0;
        while i < self.entries.len()
            invariant
                i <= self.entries@.len(),
                forall|j: int| 0 <= j < i ==> #[trigger] self.entries@[j].key != key,
            decreases self.entries@.len() - i,
        {
            if self.entries[i].key == key {
                return Some(i);
            }
            i = i + 1;
        }
        None
    }

    /// A cached value, or `None` on a miss.  In a deployment a corrupt
    /// entry reads back as a miss too; the model holds only well-formed
    /// values.
    pub fn get(&self, key: CacheKey) -> (r: Option<CachedValue>)
        requires
            spec_cache_wf(self),
        ensures
            match r {
                Some(v) => self@.contains_key(key) && v@ == self@[key],
                None => !self@.contains_key(key),
            },
    {
        match self.key_index(key) {
            Some(i) => {
                proof {
                    lemma_map_lookup(self.entries@, i as int);
                }
                Some(self.entries[i].value.clone())
            },
            None => {
                proof {
                    lemma_map_no_key(self.entries@, key);
                }
                None
            },
        }
    }

    /// Stores a value under a key with an explicit time-to-live,
    /// replacing any entry the key held.
    pub fn set_with_ttl(&mut self, key: CacheKey, value: CachedValue, ttl_secs: u64)
        requires
            spec_cache_wf(old(self)),
        ensures
            spec_cache_wf(final(self)),
            final(self)@ == old(self)@.insert(key, value@),
            final(self).default_ttl_secs == old(self).default_ttl_secs,
    {
        let entry = CacheEntry { key, value, ttl_secs };
        let ghost old_entries = self.entries@;
        match self.key_index(key) {
            Some(i) => {
                proof {
                    lemma_map_update(self.entries@, i as int, entry);
                }
                self.entries[i] = entry;
                proof {
                    assert forall|x: int, y: int|
                        0 <= x < self.entries@.len() && 0 <= y < self.entries@.len() && x
                            != y implies #[trigger] self.entries@[x].key
                        != #[trigger] self.entries@[y].key by {
                        if x != i && y != i {
                            assert(self.entries@[x] == old_entries[x]);
                            assert(self.entries@[y] == old_entries[y]);
                        } else if x == i {
                            assert(self.entries@[y] == old_entries[y]);
                            assert(old_entries[i as int].key == key);
                        } else {
                            assert(self.entries@[x] == old_entries[x]);
                            assert(old_entries[i as int].key == key);
                        }
                    }
                }
            },
            None => {
                self.entries.push(entry);
                proof {
                    assert(self.entries@.drop_last() =~= old_entries);
                    assert forall|x: int, y: int|
                        0 <= x < self.entries@.len() && 0 <= y < self.entries@.len() && x
                            != y implies #[trigger] self.entries@[x].key
                        != #[trigger] self.entries@[y].key by {
                        if x < old_entries.len() && y < old_entries.len() {
                            assert(self.entries@[x] == old_entries[x]);
                            assert(self.entries@[y] == old_entries[y]);
                        } else if y == old_entries.len() {
                            assert(self.entries@[x] == old_entries[x]);
                        } else {
                            assert(self.entries@[y] == old_entries[y]);
                        }
                    }
                }
            },
        }
    }

    /// Stores a value under a key with the default time-to-live.
    pub fn set(&mut self, key: CacheKey, value: CachedValue)
        requires
            spec_cache_wf(old(self)),
        ensures
            spec_cache_wf(final(self)),
            final(self)@ == old(self)@.insert(key, value@),
            final(self).default_ttl_secs == old(self).default_ttl_secs,
    {
        let ttl = self.default_ttl_secs;
        self.set_with_ttl(key, value, ttl);
    }

    /// Deletes the entry under a key; deleting an absent key changes
    /// nothing.
    pub fn del(&mut self, key: CacheKey)
        requires
            spec_cache_wf(old(self)),
        ensures
            spec_cache_wf(final(self)),
            final(self)@ == old(self)@.remove(key),
            final(self).default_ttl_secs == old(self).default_ttl_secs,
    {
        let ghost old_entries = self.entries@;
        match self.key_index(key) {
            Some(i) => {
                proof {
                    lemma_map_remove(self.entries@, i as int);
                }
                self.entries.remove(i);
                proof {
                    assert forall|x: int, y: int|
                        0 <= x < self.entries@.len() && 0 <= y < self.entries@.len() && x
                            != y implies #[trigger] self.entries@[x].key
                        != #[trigger] self.entries@[y].key by {
                        let xo: int = if x < i { x } else { x + 1 };
                        let yo: int = if y < i { y } else { y + 1 };
                        assert(self.entries@[x] == old_entries[xo]);
                        assert(self.entries@[y] == old_entries[yo]);
                    }
                }
            },
            None => {
                proof {
                    lemma_map_no_key(self.entries@, key);
                    assert(self@ =~= old(self)@.remove(key));
                }
            },
        }
    }
}

} // verus!
