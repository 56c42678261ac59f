//! The bounded cache of resolved cluster contexts, kept in a `SizedCache` of
//! the `cached` crate: it holds the most recently used entries up to a limit.

use crate::kubernetes::KubernetesInfo;
use crate::kubernetes::KubernetesInfoView;
use crate::text::decimal;
use crate::text::lemma_decimal_digits;
use crate::text::lemma_decimal_value;
use cached::Cached;
use cached::SizedCache;
use vstd::prelude::*;

verus! {

/// `cached::SizedCache`, a cache that holds the most recently used entries
/// up to a limit. Nothing is known of one but what the functions below say.
#[verifier::external_type_specification]
#[verifier::external_body]
#[verifier::reject_recursive_types(K)]
#[verifier::reject_recursive_types(V)]
pub struct ExSizedCache<K, V>(SizedCache<K, V>);

/// The entries that a cache holds, from the most to the least recently used:
/// what `SizedCache::key_order` and `SizedCache::value_order` walk.
pub uninterp spec fn cache_order(cache: SizedCache<String, Option<KubernetesInfo>>) -> Seq<
    (Seq<char>, Option<KubernetesInfoView>),
>;

/// The number of entries that a cache was made for: what
/// `Cached::cache_capacity` reports.
pub uninterp spec fn cache_limit(cache: SizedCache<String, Option<KubernetesInfo>>) -> nat;

/// The value of a cached result.
pub open spec fn info_view(info: Option<KubernetesInfo>) -> Option<KubernetesInfoView> {
    match info {
        Some(i) => Some(i@),
        None => None,
    }
}

/// The value of the outcome of a cache lookup.
pub open spec fn hit_view(hit: Option<Option<KubernetesInfo>>) -> Option<Option<KubernetesInfoView>> {
    match hit {
        Some(info) => Some(info_view(info)),
        None => None,
    }
}

/// The index of the first entry at or after `from` that is held under `key`.
pub open spec fn slot_from(
    order: Seq<(Seq<char>, Option<KubernetesInfoView>)>,
    key: Seq<char>,
    from: int,
) -> Option<int>
    decreases order.len() - from,
{
    if from < 0 || from >= order.len() {
        None
    } else if order[from].0 == key {
        Some(from)
    } else {
        slot_from(order, key, from + 1)
    }
}

/// The index of the entry that is held under `key`.
pub open spec fn slot(order: Seq<(Seq<char>, Option<KubernetesInfoView>)>, key: Seq<char>) -> Option<int> {
    slot_from(order, key, 0)
}

/// The result that is held under `key`.
pub open spec fn found(
    order: Seq<(Seq<char>, Option<KubernetesInfoView>)>,
    key: Seq<char>,
) -> Option<Option<KubernetesInfoView>> {
    match slot(order, key) {
        Some(i) => Some(order[i].1),
        None => None,
    }
}

/// The entries after a lookup of `key`: an entry that was found becomes the
/// most recently used, and nothing else changes.
pub open spec fn touched(
    order: Seq<(Seq<char>, Option<KubernetesInfoView>)>,
    key: Seq<char>,
) -> Seq<(Seq<char>, Option<KubernetesInfoView>)> {
    match slot(order, key) {
        Some(i) => seq![order[i]] + order.remove(i),
        None => order,
    }
}

/// The entries after `value` is stored under `key`: an entry under that key
/// takes the value and keeps its place, a new key enters as the most
/// recently used; then the least recently used entry leaves if there are
/// more than `limit`.
pub open spec fn stored(
    order: Seq<(Seq<char>, Option<KubernetesInfoView>)>,
    key: Seq<char>,
    value: Option<KubernetesInfoView>,
    limit: nat,
) -> Seq<(Seq<char>, Option<KubernetesInfoView>)> {
    let next = match slot(order, key) {
        Some(i) => order.update(i, (key, value)),
        None => seq![(key, value)] + order,
    };
    if next.len() > limit {
        next.drop_last()
    } else {
        next
    }
}

/// Calls `SizedCache::with_size`, which makes an empty cache for `size`
/// entries and panics on a size of zero.
#[verifier::external_body]
fn with_size(size: usize) -> (cache: SizedCache<String, Option<KubernetesInfo>>)
    requires
        size > 0,
    ensures
        cache_order(cache) == Seq::<(Seq<char>, Option<KubernetesInfoView>)>::empty(),
        cache_limit(cache) == size,
{
    SizedCache::with_size(size)
}

/// Calls `Cached::cache_get` on a `SizedCache` and clones what it found:
/// the value under the key, `None` where the key is not held. An entry that
/// is found moves to the front of the order; nothing else changes.
#[verifier::external_body]
fn cache_get(
    cache: &mut SizedCache<String, Option<KubernetesInfo>>,
    key: &String,
) -> (hit: Option<Option<KubernetesInfo>>)
    ensures
        hit_view(hit) == found(cache_order(*old(cache)), key@),
        cache_order(*final(cache)) == touched(cache_order(*old(cache)), key@),
        cache_limit(*final(cache)) == cache_limit(*old(cache)),
{
    cache.cache_get(key).cloned()
}

/// Calls `Cached::cache_set` on a `SizedCache`. A value under a key that is
/// held replaces the old one in place; a new key is put at the front; the
/// entry at the back is then evicted if the cache holds more than its limit.
/// The previous value under the key is handed back.
#[verifier::external_body]
fn cache_set(
    cache: &mut SizedCache<String, Option<KubernetesInfo>>,
    key: String,
    value: Option<KubernetesInfo>,
) -> (previous: Option<Option<KubernetesInfo>>)
    ensures
        hit_view(previous) == found(cache_order(*old(cache)), key@),
        cache_order(*final(cache)) == stored(
            cache_order(*old(cache)),
            key@,
            info_view(value),
            cache_limit(*old(cache)),
        ),
        cache_limit(*final(cache)) == cache_limit(*old(cache)),
{
    cache.cache_set(key, value)
}

/// No key is held twice.
pub open spec fn distinct_keys(order: Seq<(Seq<char>, Option<KubernetesInfoView>)>) -> bool {
    forall|i: int, j: int| 0 <= i < j < order.len() ==> order[i].0 != order[j].0
}

/// `slot_from` finds the first entry under the key and nothing before it.
pub proof fn lemma_slot_from(
    order: Seq<(Seq<char>, Option<KubernetesInfoView>)>,
    key: Seq<char>,
    from: int,
)
    requires
        0 <= from,
    ensures
        match slot_from(order, key, from) {
            Some(p) => from <= p < order.len() && order[p].0 == key && forall|j: int|
                from <= j < p ==> order[j].0 != key,
            None => forall|j: int| from <= j < order.len() ==> order[j].0 != key,
        },
    decreases order.len() - from,
{
    if from < order.len() && order[from].0 != key {
        lemma_slot_from(order, key, from + 1);
    }
}

/// A lookup keeps the keys distinct and the number of entries.
pub proof fn lemma_touched_keeps(order: Seq<(Seq<char>, Option<KubernetesInfoView>)>, key: Seq<char>)
    requires
        distinct_keys(order),
    ensures
        distinct_keys(touched(order, key)),
        touched(order, key).len() == order.len(),
{
    lemma_slot_from(order, key, 0);
}

/// Storing keeps the keys distinct and the number of entries within the
/// limit.
pub proof fn lemma_stored_keeps(
    order: Seq<(Seq<char>, Option<KubernetesInfoView>)>,
    key: Seq<char>,
    value: Option<KubernetesInfoView>,
    limit: nat,
)
    requires
        distinct_keys(order),
        order.len() <= limit,
    ensures
        distinct_keys(stored(order, key, value, limit)),
        stored(order, key, value, limit).len() <= limit,
{
    lemma_slot_from(order, key, 0);
}

/// What was stored under a key is found under it, as long as the cache has
/// room for one entry.
pub proof fn lemma_found_after_stored(
    order: Seq<(Seq<char>, Option<KubernetesInfoView>)>,
    key: Seq<char>,
    value: Option<KubernetesInfoView>,
    limit: nat,
)
    requires
        limit >= 1,
        order.len() <= limit,
    ensures
        found(stored(order, key, value, limit), key) == Some(value),
{
    let after = stored(order, key, value, limit);
    lemma_slot_from(order, key, 0);
    lemma_slot_from(after, key, 0);
    match slot(order, key) {
        Some(i) => {
            assert(after[i] == (key, value));
        },
        None => {},
    }
}

/// A lookup leaves what is held under every key as it was.
pub proof fn lemma_found_after_touched(
    order: Seq<(Seq<char>, Option<KubernetesInfoView>)>,
    touched_key: Seq<char>,
    key: Seq<char>,
)
    requires
        distinct_keys(order),
    ensures
        found(touched(order, touched_key), key) == found(order, key),
{
    lemma_slot_from(order, touched_key, 0);
    lemma_slot_from(order, key, 0);
    lemma_slot_from(touched(order, touched_key), key, 0);
    lemma_touched_keeps(order, touched_key);
    match slot(order, touched_key) {
        Some(i) => {
            let t = touched(order, touched_key);
            assert forall|a: int| 1 <= a < t.len() implies t[a] == order[if a - 1 < i {
                a - 1
            } else {
                a
            }] by {}
            match slot(order, key) {
                Some(p) => {
                    let a = if p == i {
                        0
                    } else if p < i {
                        p + 1
                    } else {
                        p
                    };
                    assert(t[a] == order[p]);
                },
                None => {},
            }
        },
        None => {},
    }
}

/// The key of a lookup: the list of configuration paths as it was given, a
/// hyphen, and the time stamp in decimal.
pub open spec fn cache_key(kube_cfg: Seq<char>, time: u64) -> Seq<char> {
    kube_cfg + seq!['-'] + decimal(time as nat)
}

/// Two lookups share a key only where they share the list of paths and the
/// time stamp: a result is never given for another list or another time.
pub proof fn lemma_cache_key_injective(
    kube_cfg: Seq<char>,
    time: u64,
    other_cfg: Seq<char>,
    other_time: u64,
)
    requires
        cache_key(kube_cfg, time) == cache_key(other_cfg, other_time),
    ensures
        kube_cfg == other_cfg,
        time == other_time,
{
    let key = cache_key(kube_cfg, time);
    let digits = decimal(time as nat);
    let other_digits = decimal(other_time as nat);
    lemma_decimal_digits(time as nat);
    lemma_decimal_digits(other_time as nat);
    assert(key.len() == other_cfg.len() + 1 + other_digits.len());
    if kube_cfg.len() < other_cfg.len() {
        assert(cache_key(other_cfg, other_time)[other_cfg.len() as int] == '-');
        assert(false);
    }
    if other_cfg.len() < kube_cfg.len() {
        assert(cache_key(other_cfg, other_time)[kube_cfg.len() as int] == other_digits[kube_cfg.len()
            - other_cfg.len() - 1]);
        assert(false);
    }
    assert(kube_cfg =~= other_cfg) by {
        assert forall|i: int| 0 <= i < kube_cfg.len() implies kube_cfg[i] == other_cfg[i] by {
            assert(cache_key(other_cfg, other_time)[i] == other_cfg[i]);
        }
    }
    assert(digits =~= other_digits) by {
        assert forall|i: int| 0 <= i < digits.len() implies digits[i] == other_digits[i] by {
            assert(cache_key(other_cfg, other_time)[other_cfg.len() + 1 + i] == other_digits[i]);
        }
    }
    lemma_decimal_value(time as nat);
    lemma_decimal_value(other_time as nat);
}

/// What a remembered lookup gives: the result held under the key where
/// there is one, the freshly computed result where not.
pub open spec fn memo_value(
    order: Seq<(Seq<char>, Option<KubernetesInfoView>)>,
    key: Seq<char>,
    computed: Option<KubernetesInfoView>,
) -> Option<KubernetesInfoView> {
    match found(order, key) {
        Some(held) => held,
        None => computed,
    }
}

/// The entries after a remembered lookup: a result that was held becomes
/// the most recently used, a freshly computed one is stored.
pub open spec fn memo_order(
    order: Seq<(Seq<char>, Option<KubernetesInfoView>)>,
    key: Seq<char>,
    computed: Option<KubernetesInfoView>,
    limit: nat,
) -> Seq<(Seq<char>, Option<KubernetesInfoView>)> {
    match found(order, key) {
        Some(_) => touched(order, key),
        None => stored(order, key, computed, limit),
    }
}

/// A lookup that is repeated under the same key gives the result of the
/// first one, whatever would be computed the second time.
pub proof fn lemma_memo_repeats(
    order: Seq<(Seq<char>, Option<KubernetesInfoView>)>,
    key: Seq<char>,
    first: Option<KubernetesInfoView>,
    second: Option<KubernetesInfoView>,
    limit: nat,
)
    requires
        distinct_keys(order),
        order.len() <= limit,
        limit >= 1,
    ensures
        memo_value(memo_order(order, key, first, limit), key, second) == memo_value(order, key, first),
{
    lemma_found_after_touched(order, key, key);
    lemma_found_after_stored(order, key, first, limit);
}

/// The entries after a run of remembered lookups, one after the other. Each
/// lookup is a key and the result that would be computed for it.
pub open spec fn memo_run(
    order: Seq<(Seq<char>, Option<KubernetesInfoView>)>,
    lookups: Seq<(Seq<char>, Option<KubernetesInfoView>)>,
    limit: nat,
) -> Seq<(Seq<char>, Option<KubernetesInfoView>)>
    decreases lookups.len(),
{
    if lookups.len() == 0 {
        order
    } else {
        memo_run(memo_order(order, lookups[0].0, lookups[0].1, limit), lookups.drop_first(), limit)
    }
}

/// Where the keys are distinct, the entry under a key is found at its place.
pub proof fn lemma_slot_at(order: Seq<(Seq<char>, Option<KubernetesInfoView>)>, key: Seq<char>, at: int)
    requires
        distinct_keys(order),
        0 <= at < order.len(),
        order[at].0 == key,
    ensures
        slot(order, key) == Some(at),
{
    lemma_slot_from(order, key, 0);
}

/// A remembered lookup under a key leaves that key's entry in front.
pub proof fn lemma_memo_in_front(
    order: Seq<(Seq<char>, Option<KubernetesInfoView>)>,
    key: Seq<char>,
    computed: Option<KubernetesInfoView>,
    limit: nat,
)
    requires
        distinct_keys(order),
        order.len() <= limit,
        limit >= 1,
    ensures
        slot(memo_order(order, key, computed, limit), key) == Some(0int),
        distinct_keys(memo_order(order, key, computed, limit)),
        memo_order(order, key, computed, limit).len() <= limit,
{
    lemma_slot_from(order, key, 0);
    lemma_touched_keeps(order, key);
    lemma_stored_keeps(order, key, computed, limit);
    let after = memo_order(order, key, computed, limit);
    assert(after.len() >= 1);
    assert(after[0].0 == key);
    lemma_slot_at(after, key, 0);
}

/// A remembered lookup under another key moves an entry back by one place at
/// most, and leaves it held as long as it was not in the last place that the
/// limit allows.
pub proof fn lemma_memo_other_key(
    order: Seq<(Seq<char>, Option<KubernetesInfoView>)>,
    key: Seq<char>,
    place: int,
    other: Seq<char>,
    computed: Option<KubernetesInfoView>,
    limit: nat,
)
    requires
        distinct_keys(order),
        order.len() <= limit,
        slot(order, key) == Some(place),
        place + 1 < limit,
        other != key,
    ensures
        distinct_keys(memo_order(order, other, computed, limit)),
        memo_order(order, other, computed, limit).len() <= limit,
        slot(memo_order(order, other, computed, limit), key) is Some,
        slot(memo_order(order, other, computed, limit), key)->0 <= place + 1,
        found(memo_order(order, other, computed, limit), key) == found(order, key),
{
    lemma_slot_from(order, key, 0);
    lemma_slot_from(order, other, 0);
    lemma_touched_keeps(order, other);
    lemma_stored_keeps(order, other, computed, limit);
    let after = memo_order(order, other, computed, limit);
    match slot(order, other) {
        Some(i) => {
            let moved = if place < i {
                place + 1
            } else {
                place
            };
            assert(after[moved] == order[place]);
            lemma_slot_at(after, key, moved);
        },
        None => {
            assert(after[place + 1] == order[place]);
            lemma_slot_at(after, key, place + 1);
        },
    }
}

/// A run of fewer lookups than the limit, none of them under `key`, leaves
/// what is held under `key`, where its entry starts at `place` and the run
/// is short enough for `place`.
pub proof fn lemma_memo_run_keeps(
    order: Seq<(Seq<char>, Option<KubernetesInfoView>)>,
    key: Seq<char>,
    place: int,
    lookups: Seq<(Seq<char>, Option<KubernetesInfoView>)>,
    limit: nat,
)
    requires
        distinct_keys(order),
        order.len() <= limit,
        slot(order, key) == Some(place),
        place + lookups.len() < limit,
        forall|i: int| 0 <= i < lookups.len() ==> lookups[i].0 != key,
    ensures
        found(memo_run(order, lookups, limit), key) == found(order, key),
    decreases lookups.len(),
{
    if lookups.len() > 0 {
        let next = memo_order(order, lookups[0].0, lookups[0].1, limit);
        lemma_memo_other_key(order, key, place, lookups[0].0, lookups[0].1, limit);
        lemma_memo_run_keeps(next, key, slot(next, key)->0, lookups.drop_first(), limit);
    }
}

/// A result stays remembered: after a lookup under a key, a run of fewer
/// other lookups than the limit, none of them under that key, does not push
/// it out, and the next lookup under the key still gives the first result,
/// whatever would be computed then.
pub proof fn lemma_memo_survives(
    order: Seq<(Seq<char>, Option<KubernetesInfoView>)>,
    key: Seq<char>,
    first: Option<KubernetesInfoView>,
    lookups: Seq<(Seq<char>, Option<KubernetesInfoView>)>,
    again: Option<KubernetesInfoView>,
    limit: nat,
)
    requires
        distinct_keys(order),
        order.len() <= limit,
        lookups.len() < limit,
        forall|i: int| 0 <= i < lookups.len() ==> lookups[i].0 != key,
    ensures
        memo_value(memo_run(memo_order(order, key, first, limit), lookups, limit), key, again)
            == memo_value(order, key, first),
{
    let after = memo_order(order, key, first, limit);
    lemma_memo_in_front(order, key, first, limit);
    lemma_memo_repeats(order, key, first, again, limit);
    lemma_memo_run_keeps(after, key, 0, lookups, limit);
}

/// The number of cluster contexts that are remembered.
pub const CACHE_SIZE: usize = 100;

/// The resolved cluster contexts of the most recent lookups, each under the
/// key of its lookup. It holds at most `CACHE_SIZE` entries; when a new one
/// does not fit, the least recently used one leaves.
pub struct KubeInfoCache {
    store: SizedCache<String, Option<KubernetesInfo>>,
}

impl View for KubeInfoCache {
    type V = Seq<(Seq<char>, Option<KubernetesInfoView>)>;

    /// The entries, from the most to the least recently used.
    closed spec fn view(&self) -> Seq<(Seq<char>, Option<KubernetesInfoView>)> {
        cache_order(self.store)
    }
}

impl KubeInfoCache {
    /// The cache is one for `CACHE_SIZE` entries, holds no more than that,
    /// and holds no key twice.
    pub closed spec fn wf(&self) -> bool {
        &&& cache_limit(self.store) == CACHE_SIZE
        &&& self@.len() <= CACHE_SIZE
        &&& distinct_keys(self@)
    }

    /// What `wf` says of the entries.
    pub proof fn lemma_wf(&self)
        requires
            self.wf(),
        ensures
            self@.len() <= CACHE_SIZE,
            distinct_keys(self@),
    {
    }

    /// An empty cache.
    pub fn new() -> (cache: KubeInfoCache)
        ensures
            cache.wf(),
            cache@ == Seq::<(Seq<char>, Option<KubernetesInfoView>)>::empty(),
    {
        KubeInfoCache { store: with_size(CACHE_SIZE) }
    }

    /// Looks `key` up. An entry that is found becomes the most recently used.
    pub fn get(&mut self, key: &String) -> (hit: Option<Option<KubernetesInfo>>)
        requires
            old(self).wf(),
        ensures
            final(self).wf(),
            hit_view(hit) == found(old(self)@, key@),
            final(self)@ == touched(old(self)@, key@),
    {
        proof {
            lemma_touched_keeps(self@, key@);
        }
        cache_get(&mut self.store, key)
    }

    /// Stores `value` under `key`.
    pub fn set(&mut self, key: String, value: Option<KubernetesInfo>)
        requires
            old(self).wf(),
        ensures
            final(self).wf(),
            final(self)@ == stored(old(self)@, key@, info_view(value), CACHE_SIZE as nat),
    {
        proof {
            lemma_stored_keeps(self@, key@, info_view(value), CACHE_SIZE as nat);
        }
        let _ = cache_set(&mut self.store, key, value);
    }
}

} // verus!
