//! Statuses that were fetched from other servers, kept for a while.

use vstd::prelude::*;

use crate::packet::{PacketView, UncompressedPacket};

verus! {

/// The nanoseconds of a second.
pub const NANOS_PER_SECOND: u128 = 1_000_000_000;

/// A status and the moment at which it came, in nanoseconds on a clock that
/// does not run backwards.
#[derive(Debug)]
pub struct CachedStatus {
    pub response: UncompressedPacket,
    pub retrieved_at: u128,
}

/// `CachedStatus` as contracts see it.
pub struct CachedView {
    pub response: PacketView,
    pub retrieved_at: u128,
}

impl View for CachedStatus {
    type V = CachedView;

    open spec fn view(&self) -> CachedView {
        CachedView { response: self.response@, retrieved_at: self.retrieved_at }
    }
}

/// The statuses that are kept, by the name of their server.
pub struct StatusCache {
    entries: Vec<(String, CachedStatus)>,
}

/// The entries as a map.
spec fn contents(entries: Seq<(String, CachedStatus)>) -> Map<Seq<char>, CachedView>
    decreases entries.len(),
{
    if entries.len() == 0 {
        Map::empty()
    } else {
        contents(entries.drop_last()).insert(entries.last().0@, entries.last().1@)
    }
}

/// Whether no two entries have the same name.
spec fn distinct(entries: Seq<(String, CachedStatus)>) -> bool {
    forall|i: int, j: int|
        0 <= i < j < entries.len() ==> (#[trigger] entries[i]).0@ != (#[trigger] entries[j]).0@
}

impl View for StatusCache {
    type V = Map<Seq<char>, CachedView>;

    closed spec fn view(&self) -> Map<Seq<char>, CachedView> {
        contents(self.entries@)
    }
}

proof fn lemma_contents(entries: Seq<(String, CachedStatus)>)
    requires
        distinct(entries),
    ensures
        forall|i: int|
            0 <= i < entries.len() ==> contents(entries).dom().contains(
                (#[trigger] entries[i]).0@,
            ) && contents(entries)[entries[i].0@] == entries[i].1@,
        forall|key: Seq<char>|
            contents(entries).dom().contains(key) ==> exists|i: int|
                0 <= i < entries.len() && (#[trigger] entries[i]).0@ == key,
    decreases entries.len(),
{
    if entries.len() > 0 {
        let before = entries.drop_last();
        assert(distinct(before)) by {
            assert forall|i: int, j: int| 0 <= i < j < before.len() implies (
            #[trigger] before[i]).0@ != (#[trigger] before[j]).0@ by {
                assert(before[i] == entries[i] && before[j] == entries[j]);
            }
        }
        lemma_contents(before);
        assert forall|i: int| 0 <= i < entries.len() implies contents(entries).dom().contains(
            (#[trigger] entries[i]).0@,
        ) && contents(entries)[entries[i].0@] == entries[i].1@ by {
            if i < before.len() {
                assert(before[i] == entries[i]);
                assert(entries[i].0@ != entries[entries.len() - 1].0@);
            }
        }
        assert forall|key: Seq<char>| contents(entries).dom().contains(key) implies exists|i: int|
            0 <= i < entries.len() && (#[trigger] entries[i]).0@ == key by {
            if key == entries.last().0@ {
                assert(entries[entries.len() - 1].0@ == key);
            } else {
                assert(contents(before).dom().contains(key));
                let i = choose|i: int| 0 <= i < before.len() && (#[trigger] before[i]).0@ == key;
                assert(entries[i].0@ == key);
            }
        }
    }
}

/// How long ago `retrieved_at` is at `now`; a moment yet to come is no time ago.
pub open spec fn age(retrieved_at: u128, now: u128) -> nat {
    if now >= retrieved_at {
        (now - retrieved_at) as nat
    } else {
        0
    }
}

/// Whether a status that came at `retrieved_at` is still good at `now`.
pub open spec fn is_fresh(retrieved_at: u128, now: u128, ttl: u64) -> bool {
    age(retrieved_at, now) < ttl * NANOS_PER_SECOND
}

/// The status that is kept under a name and still good.
pub open spec fn lookup(
    cache: Map<Seq<char>, CachedView>,
    key: Seq<char>,
    ttl: u64,
    now: u128,
) -> Option<PacketView> {
    if cache.dom().contains(key) && is_fresh(cache[key].retrieved_at, now, ttl) {
        Some(cache[key].response)
    } else {
        None
    }
}

/// The cache after a status came.
pub open spec fn stored(
    cache: Map<Seq<char>, CachedView>,
    key: Seq<char>,
    response: PacketView,
    now: u128,
) -> Map<Seq<char>, CachedView> {
    cache.insert(key, CachedView { response, retrieved_at: now })
}

fn find(entries: &Vec<(String, CachedStatus)>, key: &String) -> (place: usize)
    requires
        distinct(entries@),
    ensures
        place <= entries@.len(),
        place < entries@.len() ==> entries@[place as int].0@ == key@,
        contents(entries@).dom().contains(key@) <==> place < entries@.len(),
        place < entries@.len() ==> contents(entries@)[key@] == entries@[place as int].1@,
        place == entries@.len() ==> forall|i: int|
            0 <= i < entries@.len() ==> (#[trigger] entries@[i]).0@ != key@,
{
    proof {
        lemma_contents(entries@);
    }
    let mut i: usize = 0;
    while i < entries.len()
        invariant
            i <= entries@.len(),
            forall|j: int| 0 <= j < i ==> (#[trigger] entries@[j]).0@ != key@,
            forall|j: int|
                0 <= j < entries@.len() ==> contents(entries@).dom().contains(
                    (#[trigger] entries@[j]).0@,
                ) && contents(entries@)[entries@[j].0@] == entries@[j].1@,
        decreases entries@.len() - i,
    {
        if entries[i].0 == *key {
            return i;
        }
        i = i + 1;
    }
    i
}

impl StatusCache {
    #[verifier::type_invariant]
    spec fn names_are_distinct(self) -> bool {
        distinct(self.entries@)
    }

    /// A cache that keeps nothing yet.
    pub fn new() -> (cache: Self)
        ensures
            cache@ == Map::<Seq<char>, CachedView>::empty(),
    {
        StatusCache { entries: Vec::new() }
    }

    /// The status kept under `key`, unless `ttl` seconds have passed at `now`
    /// since it came.
    pub fn get(&self, key: &str, ttl: u64, now: u128) -> (response: Option<UncompressedPacket>)
        ensures
            match lookup(self@, key@, ttl, now) {
                Some(packet) => response matches Some(p) && p@ == packet,
                None => response is None,
            },
    {
        proof {
            use_type_invariant(self);
        }
        let i = find(&self.entries, &crate::text::owned(key));
        if i >= self.entries.len() {
            return None;
        }
        let entry = &self.entries[i].1;
        let elapsed: u128 = if now >= entry.retrieved_at {
            now - entry.retrieved_at
        } else {
            0
        };
        if elapsed < ttl as u128 * NANOS_PER_SECOND {
            Some(entry.response.clone())
        } else {
            None
        }
    }

    /// Keeps a status that came at `now`, in place of the one kept under `key`
    /// before.
    pub fn set(&mut self, key: String, response: UncompressedPacket, now: u128)
        ensures
            final(self)@ == stored(old(self)@, key@, response@, now),
    {
        proof {
            use_type_invariant(&*self);
        }
        let mut entries: Vec<(String, CachedStatus)> = Vec::new();
        std::mem::swap(&mut entries, &mut self.entries);
        let ghost before = entries@;
        let ghost name = key@;
        let entry = CachedStatus { response, retrieved_at: now };
        let ghost value = entry@;
        let i = find(&entries, &key);
        if i < entries.len() {
            entries.set(i, (key, entry));
        } else {
            entries.push((key, entry));
        }
        proof {
            assert(distinct(entries@));
            lemma_contents(before);
            lemma_contents(entries@);
            let changed = contents(entries@);
            let expected = contents(before).insert(name, value);
            assert(entries@[i as int].0@ == name);
            assert forall|k: Seq<char>| #[trigger]
                changed.dom().contains(k) <==> expected.dom().contains(k) by {
                if changed.dom().contains(k) && k != name {
                    let j = choose|j: int|
                        0 <= j < entries@.len() && (#[trigger] entries@[j]).0@ == k;
                    assert(entries@[j] == before[j]);
                }
                if contents(before).dom().contains(k) && k != name {
                    let j = choose|j: int| 0 <= j < before.len() && (#[trigger] before[j]).0@ == k;
                    assert(entries@[j] == before[j]);
                }
            }
            assert forall|k: Seq<char>| #[trigger] changed.dom().contains(k) implies changed[k]
                == expected[k] by {
                let j = choose|j: int| 0 <= j < entries@.len() && (#[trigger] entries@[j]).0@ == k;
                if k != name {
                    assert(entries@[j] == before[j]);
                }
            }
            assert(changed =~= expected);
        }
        self.entries = entries;
    }
}

impl Default for StatusCache {
    fn default() -> (cache: Self)
        ensures
            cache@ == Map::<Seq<char>, CachedView>::empty(),
    {
        StatusCache::new()
    }
}

/// A status that was stored is found again until its time is over, whatever
/// was kept before, and not from that moment on.
pub proof fn theorem_stored_until_expired(
    cache: Map<Seq<char>, CachedView>,
    key: Seq<char>,
    response: PacketView,
    stored_at: u128,
    now: u128,
    ttl: u64,
)
    requires
        stored_at <= now,
    ensures
        now - stored_at < ttl * NANOS_PER_SECOND ==> lookup(
            stored(cache, key, response, stored_at),
            key,
            ttl,
            now,
        ) == Some(response),
        now - stored_at >= ttl * NANOS_PER_SECOND ==> lookup(
            stored(cache, key, response, stored_at),
            key,
            ttl,
            now,
        ) is None,
{
}

/// Storing a status changes what is found under no other name.
pub proof fn theorem_other_statuses_kept(
    cache: Map<Seq<char>, CachedView>,
    key: Seq<char>,
    response: PacketView,
    stored_at: u128,
    other: Seq<char>,
    ttl: u64,
    now: u128,
)
    requires
        other != key,
    ensures
        lookup(stored(cache, key, response, stored_at), other, ttl, now) == lookup(
            cache,
            other,
            ttl,
            now,
        ),
{
}

/// An empty cache holds no status, and a status that came at a moment yet to
/// come is found as if it had just come.
pub proof fn theorem_clock_of_the_cache(
    cache: Map<Seq<char>, CachedView>,
    key: Seq<char>,
    response: PacketView,
    stored_at: u128,
    now: u128,
    ttl: u64,
)
    ensures
        lookup(Map::empty(), key, ttl, now) is None,
        stored_at <= now && now - stored_at < ttl * 1_000_000_000 ==> lookup(
            stored(cache, key, response, stored_at),
            key,
            ttl,
            now,
        ) == Some(response),
        stored_at <= now && now - stored_at >= ttl * 1_000_000_000 ==> lookup(
            stored(cache, key, response, stored_at),
            key,
            ttl,
            now,
        ) is None,
        now < stored_at ==> lookup(stored(cache, key, response, stored_at), key, ttl, now) == (
        if ttl > 0 {
            Some(response)
        } else {
            None
        }),
{
}

} // verus!
