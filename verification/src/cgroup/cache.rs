//! The field cache: what was read of a cgroup field, kept for a short time
//! so that one tick does not read the same file twice.
//!
//! Times are milliseconds on a clock that does not go back. An entry is
//! fresh while less than its time to live has passed since it was stored.

use crate::model::{IOStat, MemoryStat, ResourcePressure};
use crate::number::{write_chars, write_str};
use crate::text::{chars_of, string_of};
use vstd::hash_map::StringHashMap;
use vstd::prelude::*;

verus! {

/// The fields of a cgroup, and the two system-wide pressures, that are read
/// through the cache.
#[derive(Debug, Clone, Copy, PartialEq, Eq, Structural)]
pub enum Field {
    MemoryUsage,
    MemoryLimit,
    MemoryStat,
    MemoryPressure,
    IoPressure,
    IoStat,
    Pids,
    Populated,
    Children,
    SystemMemoryPressure,
    SystemIoPressure,
}

impl Field {
    /// The name of the field in cache keys.
    pub open spec fn label(self) -> Seq<char> {
        match self {
            Field::MemoryUsage => "memory_usage"@,
            Field::MemoryLimit => "memory_limit"@,
            Field::MemoryStat => "memory_stat"@,
            Field::MemoryPressure => "memory_pressure"@,
            Field::IoPressure => "io_pressure"@,
            Field::IoStat => "io_stat"@,
            Field::Pids => "pids"@,
            Field::Populated => "populated"@,
            Field::Children => "children"@,
            Field::SystemMemoryPressure => "system_memory_pressure"@,
            Field::SystemIoPressure => "system_io_pressure"@,
        }
    }

    /// Whether the field belongs to the system and not to one cgroup.
    pub open spec fn system_wide(self) -> bool {
        self == Field::SystemMemoryPressure || self == Field::SystemIoPressure
    }

    /// How long a value of the field stays fresh, in milliseconds: one second
    /// for the memory usage and the system-wide pressures, two for the
    /// pressures and process ids of a cgroup, ten for its children, five for
    /// the rest.
    pub open spec fn time_to_live(self) -> u64 {
        match self {
            Field::MemoryUsage => 1000,
            Field::MemoryPressure => 2000,
            Field::IoPressure => 2000,
            Field::Pids => 2000,
            Field::MemoryLimit => 5000,
            Field::MemoryStat => 5000,
            Field::IoStat => 5000,
            Field::Populated => 5000,
            Field::Children => 10000,
            Field::SystemMemoryPressure => 1000,
            Field::SystemIoPressure => 1000,
        }
    }

    /// The cache key of the field for the cgroup at `relative`: the label, a
    /// colon and the relative path; the label alone for a system-wide field.
    pub open spec fn key_text(self, relative: Seq<char>) -> Seq<char> {
        if self.system_wide() {
            self.label()
        } else {
            self.label() + seq![':'] + relative
        }
    }

    /// The name of the field in cache keys.
    pub fn name(&self) -> (r: &'static str)
        ensures
            r@ == self.label(),
    {
        match self {
            Field::MemoryUsage => "memory_usage",
            Field::MemoryLimit => "memory_limit",
            Field::MemoryStat => "memory_stat",
            Field::MemoryPressure => "memory_pressure",
            Field::IoPressure => "io_pressure",
            Field::IoStat => "io_stat",
            Field::Pids => "pids",
            Field::Populated => "populated",
            Field::Children => "children",
            Field::SystemMemoryPressure => "system_memory_pressure",
            Field::SystemIoPressure => "system_io_pressure",
        }
    }

    /// How long a value of the field stays fresh, in milliseconds.
    pub fn ttl_ms(&self) -> (r: u64)
        ensures
            r == self.time_to_live(),
    {
        match self {
            Field::MemoryUsage => 1000,
            Field::MemoryPressure => 2000,
            Field::IoPressure => 2000,
            Field::Pids => 2000,
            Field::MemoryLimit => 5000,
            Field::MemoryStat => 5000,
            Field::IoStat => 5000,
            Field::Populated => 5000,
            Field::Children => 10000,
            Field::SystemMemoryPressure => 1000,
            Field::SystemIoPressure => 1000,
        }
    }

    /// The cache key of the field for the cgroup at `relative`.
    pub fn cache_key(&self, relative: &str) -> (r: String)
        ensures
            r@ == self.key_text(relative@),
    {
        let mut out: Vec<char> = Vec::new();
        write_str(&mut out, self.name());
        match self {
            Field::SystemMemoryPressure => {},
            Field::SystemIoPressure => {},
            _ => {
                out.push(':');
                write_chars(&mut out, &chars_of(relative));
            },
        }
        assert(out@ =~= self.key_text(relative@));
        string_of(&out)
    }
}

/// A value of one field.
#[derive(Debug)]
pub enum CachedData {
    MemoryPressure(ResourcePressure),
    MemoryUsage(u64),
    MemoryLimit(u64),
    IOPressure(ResourcePressure),
    MemoryStat(MemoryStat),
    IOStat(IOStat),
    Pids(Vec<i32>),
    Children(Vec<String>),
    Populated(bool),
}

/// A cached value with the time at which it was stored and its time to
/// live, both in milliseconds.
#[derive(Debug)]
pub struct CacheEntry {
    pub data: CachedData,
    pub timestamp: u64,
    pub ttl: u64,
}

/// The time that has passed since `since`; none where the clock reads less.
pub open spec fn elapsed(since: u64, now: u64) -> int {
    if now >= since {
        now - since
    } else {
        0
    }
}

impl CacheEntry {
    /// Whether the entry is fresh at `now`: less than its time to live has
    /// passed since it was stored.
    pub open spec fn fresh(self, now: u64) -> bool {
        elapsed(self.timestamp, now) < self.ttl
    }

    /// Whether the entry is fresh at `now`.
    pub fn is_fresh(&self, now: u64) -> (r: bool)
        ensures
            r == self.fresh(now),
    {
        let age: u64 = if now >= self.timestamp {
            now - self.timestamp
        } else {
            0
        };
        age < self.ttl
    }
}

/// Cached values by key. The cache is only ever asked for one key or given
/// one, so it is a hash map; what it holds is the map of its keys to their
/// entries.
pub struct FieldCache {
    pub entries: StringHashMap<CacheEntry>,
}

impl FieldCache {
    /// The entry stored under `key`, where there is one.
    pub open spec fn entry(self, key: Seq<char>) -> Option<CacheEntry> {
        if self.entries@.contains_key(key) {
            Some(self.entries@[key])
        } else {
            None
        }
    }

    /// What a read of `key` at `now` is answered with from the cache: the
    /// value of the entry under `key` where there is one and it is fresh.
    pub open spec fn hit(self, key: Seq<char>, now: u64) -> Option<CachedData> {
        match self.entry(key) {
            Some(e) => if e.fresh(now) {
                Some(e.data)
            } else {
                None
            },
            None => None,
        }
    }

    /// The empty cache.
    pub fn new() -> (r: FieldCache)
        ensures
            r.entries@ == Map::<Seq<char>, CacheEntry>::empty(),
            forall|key: Seq<char>, now: u64| r.hit(key, now) is None,
    {
        FieldCache { entries: StringHashMap::new() }
    }

    /// Answers a read of `key` at `now` from the cache. Where this gives a
    /// value, the file need not be read; where it gives none, the caller
    /// reads the file and stores what it read.
    pub fn lookup(&self, key: &str, now: u64) -> (r: Option<&CachedData>)
        ensures
            match r {
                Some(d) => self.hit(key@, now) == Some(*d),
                None => self.hit(key@, now) is None,
            },
    {
        match self.entries.get(key) {
            Some(e) => {
                if e.is_fresh(now) {
                    Some(&e.data)
                } else {
                    None
                }
            },
            None => None,
        }
    }

    /// Stores `data` under `key` as read at `now`, fresh for `ttl`. An older
    /// entry under the key is replaced; other keys are not touched.
    pub fn store(&mut self, key: String, data: CachedData, now: u64, ttl: u64)
        ensures
            final(self).entries@ == old(self).entries@.insert(
                key@,
                CacheEntry { data, timestamp: now, ttl },
            ),
            final(self).entry(key@) == Some(CacheEntry { data, timestamp: now, ttl }),
            forall|k: Seq<char>| k != key@ ==> #[trigger] final(self).entry(k) == old(self).entry(k),
            forall|later: u64|
                elapsed(now, later) < ttl ==> #[trigger] final(self).hit(key@, later) == Some(
                    data,
                ),
    {
        self.entries.insert(key, CacheEntry { data, timestamp: now, ttl });
    }
}

/// A fresh entry answers the read: where a value was stored under a key at
/// `stored_at` with the time to live `ttl`, a read of the key at any time
/// `now` with `now - stored_at < ttl` is answered with that value from the
/// cache.
pub proof fn lemma_hit_while_fresh(
    cache: FieldCache,
    key: Seq<char>,
    data: CachedData,
    stored_at: u64,
    ttl: u64,
    now: u64,
)
    requires
        cache.entry(key) == Some(CacheEntry { data, timestamp: stored_at, ttl }),
        stored_at <= now,
        now - stored_at < ttl,
    ensures
        cache.hit(key, now) == Some(data),
{
}

/// An entry that has reached its time to live no longer answers a read.
pub proof fn lemma_miss_when_stale(
    cache: FieldCache,
    key: Seq<char>,
    data: CachedData,
    stored_at: u64,
    ttl: u64,
    now: u64,
)
    requires
        cache.entry(key) == Some(CacheEntry { data, timestamp: stored_at, ttl }),
        stored_at <= now,
        now - stored_at >= ttl,
    ensures
        cache.hit(key, now) is None,
{
}

} // verus!
