//! Images: what is kept of them, and what their bytes tell.

use vstd::prelude::*;

use crate::keyed::{Key, KeyedMap};
use crate::text::{cat2, cat5, decimal, decimal_u64, same_text, text_of, views};

verus! {

/// The images that are kept at most.
pub const IMAGE_CACHE_LIMIT: usize = 16;

/// The encoded images that are kept at most.
pub const PROTOCOL_CACHE_LIMIT: usize = 32;

/// The images that are worked on at once.
pub const MEDIA_WORKERS: usize = 4;

/// The pixels of an image at most.
pub const MAX_DECODED_PIXELS: u64 = 40_000_000;

// ---------------------------------------------------------------------------
// Keys
// ---------------------------------------------------------------------------

/// An image, by the account and its address.
#[derive(Debug, PartialEq, Eq)]
pub struct MediaKey {
    pub account_id: u128,
    pub mxc_url: String,
}

impl View for MediaKey {
    type V = (u128, Seq<char>);

    open spec fn view(&self) -> (u128, Seq<char>) {
        (self.account_id, self.mxc_url@)
    }
}

impl Key for MediaKey {
    fn same(&self, other: &MediaKey) -> (r: bool) {
        self.account_id == other.account_id && same_text(
            self.mxc_url.as_str(),
            other.mxc_url.as_str(),
        )
    }

    fn duplicate(&self) -> (r: MediaKey) {
        MediaKey { account_id: self.account_id, mxc_url: self.mxc_url.clone() }
    }
}

impl MediaKey {
    pub fn new(account_id: u128, mxc_url: String) -> (out: MediaKey)
        ensures
            out.account_id == account_id,
            out.mxc_url == mxc_url,
    {
        MediaKey { account_id, mxc_url }
    }
}

/// An image at a size, in cells of the terminal.
#[derive(Debug, PartialEq, Eq)]
pub struct ProtocolKey {
    pub media: MediaKey,
    pub width: u16,
    pub height: u16,
}

impl View for ProtocolKey {
    type V = ((u128, Seq<char>), u16, u16);

    open spec fn view(&self) -> ((u128, Seq<char>), u16, u16) {
        (self.media@, self.width, self.height)
    }
}

impl Key for ProtocolKey {
    fn same(&self, other: &ProtocolKey) -> (r: bool) {
        self.width == other.width && self.height == other.height && self.media.same(&other.media)
    }

    fn duplicate(&self) -> (r: ProtocolKey) {
        ProtocolKey { media: self.media.duplicate(), width: self.width, height: self.height }
    }
}

// ---------------------------------------------------------------------------
// The least recently used first
// ---------------------------------------------------------------------------

/// The position of a key in a list, or the length of the list.
pub open spec fn key_position<V>(keys: Seq<V>, key: V) -> int
    decreases keys.len(),
{
    if keys.len() == 0 {
        0
    } else if keys[0] == key {
        0
    } else {
        1 + key_position(keys.drop_first(), key)
    }
}

/// An order of use after a key was used: the key is last.
pub open spec fn touched<V>(order: Seq<V>, key: V) -> Seq<V> {
    let at = key_position(order, key);
    if at < order.len() {
        order.remove(at).push(key)
    } else {
        order.push(key)
    }
}

proof fn lemma_key_position<V>(keys: Seq<V>, key: V, at: int)
    requires
        0 <= at <= keys.len(),
        forall|k: int| 0 <= k < at ==> #[trigger] keys[k] != key,
        at < keys.len() ==> keys[at] == key,
    ensures
        key_position(keys, key) == at,
    decreases keys.len(),
{
    if keys.len() > 0 && at > 0 {
        assert(keys[0] != key);
        let rest = keys.drop_first();
        assert forall|k: int| 0 <= k < at - 1 implies #[trigger] rest[k] != key by {
            assert(rest[k] == keys[k + 1]);
        }
        lemma_key_position(rest, key, at - 1);
    }
}

proof fn lemma_key_bounds<V>(keys: Seq<V>, key: V)
    ensures
        0 <= key_position(keys, key) <= keys.len(),
        key_position(keys, key) < keys.len() ==> keys[key_position(keys, key)] == key,
        keys.contains(key) ==> key_position(keys, key) < keys.len(),
    decreases keys.len(),
{
    if keys.len() > 0 && keys[0] != key {
        let rest = keys.drop_first();
        lemma_key_bounds(rest, key);
        if keys.contains(key) {
            let k = choose|k: int| 0 <= k < keys.len() && keys[k] == key;
            assert(rest[k - 1] == key);
        }
    }
}

/// A key was used: it goes behind all others.
pub fn touch_lru<K: Key>(order: &mut Vec<K>, key: &K)
    ensures
        views(final(order)@) == touched(views(old(order)@), key@),
{
    let ghost all = views(order@);
    let mut at: usize = 0;
    while at < order.len() && !order[at].same(key)
        invariant
            at <= order.len(),
            all == views(order@),
            *order == *old(order),
            forall|k: int| 0 <= k < at ==> #[trigger] all[k] != key@,
        decreases order.len() - at,
    {
        assert(all[at as int] == order@[at as int]@);
        at = at + 1;
    }
    proof {
        if at < order.len() {
            assert(all[at as int] == order@[at as int]@);
        }
        lemma_key_position(all, key@, at as int);
    }
    if at < order.len() {
        let _ = order.remove(at);
        assert(views(order@) =~= all.remove(at as int));
    }
    let ghost before = views(order@);
    order.push(key.duplicate());
    assert(views(order@) =~= before.push(key@));
}

/// Whether a value may be given up, as a test says.
pub open spec fn may_go<K: Key, V, F: Fn(&V) -> bool>(cache: Map<K::V, V>, key: K::V, test: F, r: bool) -> bool {
    call_ensures(test, (&cache[key],), r)
}

/// Whether there is room for one more: there was, or the value used longest ago among
/// those that may be given up was.
pub open spec fn made_room<K: Key, V, F: Fn(&V) -> bool>(
    before: Map<K::V, V>,
    order_before: Seq<K::V>,
    after: Map<K::V, V>,
    order_after: Seq<K::V>,
    limit: int,
    test: F,
    room: bool,
) -> bool {
    if before.dom().len() < limit {
        room && after == before && order_after == order_before
    } else if room {
        exists|at: int|
            #![trigger order_before[at]]
            0 <= at < order_before.len() && before.dom().contains(order_before[at]) && may_go::<
                K,
                V,
                F,
            >(before, order_before[at], test, true) && (forall|k: int|
                0 <= k < at ==> !before.dom().contains(#[trigger] order_before[k]) || may_go::<
                    K,
                    V,
                    F,
                >(before, order_before[k], test, false)) && after == before.remove(
                order_before[at],
            ) && order_after == order_before.remove(at)
    } else {
        &&& after == before
        &&& order_after == order_before
        &&& forall|k: int|
            0 <= k < order_before.len() ==> !before.dom().contains(#[trigger] order_before[k])
                || may_go::<K, V, F>(before, order_before[k], test, false)
    }
}

/// Makes room for one more value. The result says whether there is any.
pub fn evict_lru_where<K: Key, V, F: Fn(&V) -> bool>(
    cache: &mut KeyedMap<K, V>,
    order: &mut Vec<K>,
    limit: usize,
    can_evict: F,
) -> (room: bool)
    requires
        forall|v: &V| call_requires(can_evict, (v,)),
    ensures
        made_room::<K, V, F>(
            old(cache)@,
            views(old(order)@),
            final(cache)@,
            views(final(order)@),
            limit as int,
            can_evict,
            room,
        ),
{
    if cache.count() < limit {
        return true;
    }
    let ghost all = views(order@);
    let mut at: usize = 0;
    while at < order.len()
        invariant
            at <= order.len(),
            all == views(order@),
            *order == *old(order),
            *cache == *old(cache),
            forall|v: &V| call_requires(can_evict, (v,)),
            forall|k: int|
                0 <= k < at ==> !cache@.dom().contains(#[trigger] all[k]) || may_go::<K, V, F>(
                    cache@,
                    all[k],
                    can_evict,
                    false,
                ),
            old(cache)@.dom().len() >= limit,
        decreases order.len() - at,
    {
        assert(all[at as int] == order@[at as int]@);
        let goes = match cache.get(&order[at]) {
            Some(v) => can_evict(v),
            None => false,
        };
        if goes {
            let key = order.remove(at);
            assert(views(order@) =~= all.remove(at as int));
            let _ = cache.remove(&key);
            assert(all[at as int] == key@);
            return true;
        }
        at = at + 1;
    }
    false
}

// ---------------------------------------------------------------------------
// What is kept
// ---------------------------------------------------------------------------

/// How far an image has come.
#[derive(Debug)]
pub enum ImageState<I> {
    Fetching,
    Ready(I),
    Failed(String),
}

/// How far an encoded image has come.
#[derive(Debug)]
pub enum ProtocolState<P> {
    Encoding,
    Ready(P),
    Failed(String),
}

/// What became of a request to encode an image.
#[derive(Debug, Clone, Copy, PartialEq, Eq, Structural)]
pub enum ProtocolRequest {
    Started,
    AlreadyPresent,
    EmptySize,
    ImageNotReady,
    CacheSaturated,
    ChannelUnwired,
}

/// How many requests to encode an image were dropped, by the fault.
#[derive(Debug, Clone, Copy, PartialEq, Eq, Structural)]
pub struct ProtocolDropCounts {
    pub cache_saturated: u64,
    pub channel_unwired: u64,
}

/// The images that are kept, each as it was decoded and as it was encoded.
#[derive(Debug)]
pub struct MediaCache<I, P> {
    pub images: KeyedMap<MediaKey, ImageState<I>>,
    pub image_order: Vec<MediaKey>,
    pub protocols: KeyedMap<ProtocolKey, ProtocolState<P>>,
    pub protocol_order: Vec<ProtocolKey>,
    pub drops: ProtocolDropCounts,
}

/// Whether an order of use holds the keys of a cache, each once, and the cache is not
/// too large.
pub open spec fn orderly<K, V>(cache: Map<K, V>, order: Seq<K>, limit: int) -> bool {
    &&& order.no_duplicates()
    &&& forall|k: K| cache.dom().contains(k) == #[trigger] order.contains(k)
    &&& order.len() <= limit
}

impl<I, P> MediaCache<I, P> {
    pub open spec fn ok(self) -> bool {
        &&& orderly(self.images@, views(self.image_order@), IMAGE_CACHE_LIMIT as int)
        &&& orderly(self.protocols@, views(self.protocol_order@), PROTOCOL_CACHE_LIMIT as int)
    }

    pub fn new() -> (out: MediaCache<I, P>)
        ensures
            out.ok(),
            out.images@ == Map::<(u128, Seq<char>), ImageState<I>>::empty(),
            out.protocols@ == Map::<((u128, Seq<char>), u16, u16), ProtocolState<P>>::empty(),
            out.drops == (ProtocolDropCounts { cache_saturated: 0, channel_unwired: 0 }),
    {
        MediaCache {
            images: KeyedMap::new(),
            image_order: Vec::new(),
            protocols: KeyedMap::new(),
            protocol_order: Vec::new(),
            drops: ProtocolDropCounts { cache_saturated: 0, channel_unwired: 0 },
        }
    }
}

proof fn lemma_orderly_len<K, V>(cache: Map<K, V>, order: Seq<K>, limit: int)
    requires
        orderly(cache, order, limit),
    ensures
        cache.dom().finite(),
        cache.dom().len() == order.len(),
{
    order.unique_seq_to_set();
    assert(cache.dom() =~= order.to_set());
}

proof fn lemma_touched<K, V>(cache: Map<K, V>, order: Seq<K>, limit: int, key: K, value: V)
    requires
        orderly(cache, order, limit),
        order.contains(key) || order.len() < limit,
    ensures
        orderly(cache.insert(key, value), touched(order, key), limit),
{
    lemma_key_bounds(order, key);
    let at = key_position(order, key);
    let after = touched(order, key);
    if at < order.len() {
        let rest = order.remove(at);
        assert(order.contains(key));
        assert forall|k: K| after.contains(k) == order.contains(k) by {
            if order.contains(k) {
                let i = choose|i: int| 0 <= i < order.len() && order[i] == k;
                if i < at {
                    assert(after[i] == k);
                } else if i == at {
                    assert(after[after.len() - 1] == k);
                } else {
                    assert(after[i - 1] == k);
                }
            }
            if after.contains(k) {
                let i = choose|i: int| 0 <= i < after.len() && after[i] == k;
                if i < at {
                    assert(order[i] == k);
                } else if i < rest.len() {
                    assert(order[i + 1] == k);
                }
            }
        }
        assert(after.no_duplicates()) by {
            assert forall|i: int, j: int| 0 <= i < j < after.len() implies after[i] != after[j] by {
                let a = if i < at {
                    i
                } else {
                    i + 1
                };
                if j == after.len() - 1 {
                    assert(after[i] == order[a]);
                    assert(order[a] != order[at]);
                } else {
                    let b = if j < at {
                        j
                    } else {
                        j + 1
                    };
                    assert(order[a] != order[b]);
                }
            }
        }
    } else {
        assert(!order.contains(key));
        assert forall|k: K| after.contains(k) == (order.contains(k) || k == key) by {
            if order.contains(k) {
                let i = choose|i: int| 0 <= i < order.len() && order[i] == k;
                assert(after[i] == k);
            }
            if k == key {
                assert(after[order.len() as int] == k);
            }
            if after.contains(k) && k != key {
                let i = choose|i: int| 0 <= i < after.len() && after[i] == k;
                assert(order[i] == k);
            }
        }
        assert(after.no_duplicates()) by {
            assert forall|i: int, j: int| 0 <= i < j < after.len() implies after[i] != after[j] by {
                if j == order.len() {
                    assert(order.contains(order[i]));
                }
            }
        }
    }
}

proof fn lemma_evicted<K, V>(cache: Map<K, V>, order: Seq<K>, limit: int, at: int)
    requires
        orderly(cache, order, limit),
        0 <= at < order.len(),
    ensures
        orderly(cache.remove(order[at]), order.remove(at), limit),
        order.remove(at).len() < limit,
{
    let after = order.remove(at);
    assert forall|k: K| after.contains(k) == (order.contains(k) && k != order[at]) by {
        if order.contains(k) && k != order[at] {
            let i = choose|i: int| 0 <= i < order.len() && order[i] == k;
            if i < at {
                assert(after[i] == k);
            } else {
                assert(after[i - 1] == k);
            }
        }
        if after.contains(k) {
            let i = choose|i: int| 0 <= i < after.len() && after[i] == k;
            if i < at {
                assert(order[i] == k);
            } else {
                assert(order[i + 1] == k);
            }
        }
    }
    assert forall|i: int, j: int| 0 <= i < j < after.len() implies after[i] != after[j] by {
        let a = if i < at {
            i
        } else {
            i + 1
        };
        let b = if j < at {
            j
        } else {
            j + 1
        };
        assert(order[a] != order[b]);
    }
}

impl<I> ImageState<I> {
    fn settled(&self) -> (r: bool)
        ensures
            r == !(self is Fetching),
    {
        match self {
            ImageState::Fetching => false,
            _ => true,
        }
    }
}

impl<P> ProtocolState<P> {
    fn settled(&self) -> (r: bool)
        ensures
            r == !(self is Encoding),
    {
        match self {
            ProtocolState::Encoding => false,
            _ => true,
        }
    }
}

/// Whether the oldest value that may be given up was, or nothing had to be.
pub open spec fn room_made<K, V>(
    before: Map<K, V>,
    order_before: Seq<K>,
    after: Map<K, V>,
    order_after: Seq<K>,
    limit: int,
    settled: spec_fn(V) -> bool,
) -> bool {
    if before.dom().len() < limit {
        after == before && order_after == order_before
    } else {
        exists|at: int|
            #![trigger order_before[at]]
            0 <= at < order_before.len() && settled(before[order_before[at]]) && (forall|k: int|
                0 <= k < at ==> !settled(before[#[trigger] order_before[k]])) && after
                == before.remove(order_before[at]) && order_after == order_before.remove(at)
    }
}

/// Whether every value of a full cache is still worked on.
pub open spec fn saturated<K, V>(cache: Map<K, V>, limit: int, settled: spec_fn(V) -> bool) -> bool {
    cache.dom().len() >= limit && forall|k: K| #[trigger]
        cache.dom().contains(k) ==> !settled(cache[k])
}

/// Whether a value was added behind all others, after room was made for it.
pub open spec fn value_added<K, V>(
    before: Map<K, V>,
    order_before: Seq<K>,
    after: Map<K, V>,
    order_after: Seq<K>,
    limit: int,
    settled: spec_fn(V) -> bool,
    key: K,
    value: V,
) -> bool {
    exists|m: Map<K, V>, o: Seq<K>| #[trigger]
        room_made(before, order_before, m, o, limit, settled) && after == m.insert(key, value)
            && order_after == touched(o, key)
}

pub open spec fn image_settled<I>() -> spec_fn(ImageState<I>) -> bool {
    |s: ImageState<I>| !(s is Fetching)
}

pub open spec fn protocol_settled<P>() -> spec_fn(ProtocolState<P>) -> bool {
    |s: ProtocolState<P>| !(s is Encoding)
}

impl<I, P> MediaCache<I, P> {
    /// Asks for an image. The result says whether it is to be fetched: it is not kept
    /// yet, and there is room for it.
    pub fn request_image(&mut self, key: &MediaKey, wired: bool) -> (fetch: bool)
        requires
            old(self).ok(),
        ensures
            final(self).ok(),
            *final(self) == (MediaCache {
                images: final(self).images,
                image_order: final(self).image_order,
                ..*old(self)
            }),
            ({
                let (before, after) = (old(self).images@, final(self).images@);
                let (o, p) = (views(old(self).image_order@), views(final(self).image_order@));
                let limit = IMAGE_CACHE_LIMIT as int;
                if before.dom().contains(key@) {
                    !fetch && after == before && p == touched(o, key@)
                } else if !wired || saturated(before, limit, image_settled::<I>()) {
                    !fetch && after == before && p == o
                } else {
                    fetch && value_added(
                        before,
                        o,
                        after,
                        p,
                        limit,
                        image_settled::<I>(),
                        key@,
                        ImageState::Fetching,
                    )
                }
            }),
    {
        let ghost before = self.images@;
        let ghost o = views(self.image_order@);
        let ghost limit = IMAGE_CACHE_LIMIT as int;
        if self.images.contains_key(key) {
            touch_lru(&mut self.image_order, key);
            proof {
                assert(o.contains(key@));
                lemma_touched(before, o, limit, key@, before[key@]);
                assert(before.insert(key@, before[key@]) =~= before);
            }
            return false;
        }
        if !wired {
            return false;
        }
        let test = |s: &ImageState<I>| -> (r: bool)
            ensures
                r == !(s is Fetching),
            { s.settled() };
        let room = evict_lru_where(
            &mut self.images,
            &mut self.image_order,
            IMAGE_CACHE_LIMIT,
            test,
        );
        let ghost m = self.images@;
        let ghost r = views(self.image_order@);
        proof {
            lemma_orderly_len(before, o, limit);
        }
        if !room {
            proof {
                assert(saturated(before, limit, image_settled::<I>())) by {
                    assert forall|k: (u128, Seq<char>)| #[trigger]
                        before.dom().contains(k) implies !image_settled::<I>()(before[k]) by {
                        assert(o.contains(k));
                        let i = choose|i: int| 0 <= i < o.len() && o[i] == k;
                        assert(before.dom().contains(o[i]));
                    }
                }
            }
            return false;
        }
        proof {
            if before.dom().len() >= limit {
                let at = choose|at: int|
                    #![trigger o[at]]
                    0 <= at < o.len() && before.dom().contains(o[at]) && may_go::<
                        MediaKey,
                        ImageState<I>,
                        _,
                    >(before, o[at], test, true) && (forall|k: int|
                        0 <= k < at ==> !before.dom().contains(#[trigger] o[k]) || may_go::<
                            MediaKey,
                            ImageState<I>,
                            _,
                        >(before, o[k], test, false)) && m == before.remove(o[at]) && r
                        == o.remove(at);
                lemma_evicted(before, o, limit, at);
                assert(image_settled::<I>()(before[o[at]]));
                assert forall|k: int| 0 <= k < at implies !image_settled::<I>()(
                    before[#[trigger] o[k]],
                ) by {
                    assert(o.contains(o[k]));
                }
                assert(!saturated(before, limit, image_settled::<I>()));
                assert(room_made(before, o, m, r, limit, image_settled::<I>()));
            } else {
                assert(room_made(before, o, m, r, limit, image_settled::<I>()));
            }
            assert(!r.contains(key@)) by {
                assert(!m.dom().contains(key@));
            }
            lemma_orderly_len(m, r, limit);
            lemma_touched(m, r, limit, key@, ImageState::<I>::Fetching);
        }
        self.images.insert(key.duplicate(), ImageState::Fetching);
        touch_lru(&mut self.image_order, key);
        true
    }
}

impl<I, P> MediaCache<I, P> {
    /// Whether an image is there to be encoded.
    pub open spec fn image_ready(self, key: (u128, Seq<char>)) -> bool {
        self.images@.dom().contains(key) && self.images@[key] is Ready
    }

    fn is_image_ready(&self, key: &MediaKey) -> (r: bool)
        ensures
            r == self.image_ready(key@),
    {
        match self.images.get(key) {
            Some(ImageState::Ready(_)) => true,
            _ => false,
        }
    }

    /// What becomes of a request to encode an image.
    pub open spec fn protocol_answer(
        self,
        key: (u128, Seq<char>),
        width: u16,
        height: u16,
        wired: bool,
    ) -> ProtocolRequest {
        if width == 0 || height == 0 {
            ProtocolRequest::EmptySize
        } else if self.protocols@.dom().contains((key, width, height)) {
            ProtocolRequest::AlreadyPresent
        } else if !self.image_ready(key) {
            ProtocolRequest::ImageNotReady
        } else if !wired {
            ProtocolRequest::ChannelUnwired
        } else if saturated(
            self.protocols@,
            PROTOCOL_CACHE_LIMIT as int,
            protocol_settled::<P>(),
        ) {
            ProtocolRequest::CacheSaturated
        } else {
            ProtocolRequest::Started
        }
    }

    fn start_protocol(&mut self, key: &ProtocolKey) -> (room: bool)
        requires
            old(self).ok(),
            !old(self).protocols@.dom().contains(key@),
        ensures
            final(self).ok(),
            *final(self) == (MediaCache {
                protocols: final(self).protocols,
                protocol_order: final(self).protocol_order,
                ..*old(self)
            }),
            room == !saturated(
                old(self).protocols@,
                PROTOCOL_CACHE_LIMIT as int,
                protocol_settled::<P>(),
            ),
            if room {
                value_added(
                    old(self).protocols@,
                    views(old(self).protocol_order@),
                    final(self).protocols@,
                    views(final(self).protocol_order@),
                    PROTOCOL_CACHE_LIMIT as int,
                    protocol_settled::<P>(),
                    key@,
                    ProtocolState::Encoding,
                )
            } else {
                &&& final(self).protocols@ == old(self).protocols@
                &&& views(final(self).protocol_order@) == views(old(self).protocol_order@)
            },
    {
        let ghost before = self.protocols@;
        let ghost o = views(self.protocol_order@);
        let ghost limit = PROTOCOL_CACHE_LIMIT as int;
        let test = |s: &ProtocolState<P>| -> (r: bool)
            ensures
                r == !(s is Encoding),
            { s.settled() };
        let room = evict_lru_where(
            &mut self.protocols,
            &mut self.protocol_order,
            PROTOCOL_CACHE_LIMIT,
            test,
        );
        let ghost m = self.protocols@;
        let ghost r = views(self.protocol_order@);
        proof {
            lemma_orderly_len(before, o, limit);
        }
        if !room {
            proof {
                assert(saturated(before, limit, protocol_settled::<P>())) by {
                    assert forall|k: ((u128, Seq<char>), u16, u16)| #[trigger]
                        before.dom().contains(k) implies !protocol_settled::<P>()(before[k]) by {
                        assert(o.contains(k));
                        let i = choose|i: int| 0 <= i < o.len() && o[i] == k;
                        assert(before.dom().contains(o[i]));
                    }
                }
            }
            return false;
        }
        proof {
            if before.dom().len() >= limit {
                let at = choose|at: int|
                    #![trigger o[at]]
                    0 <= at < o.len() && before.dom().contains(o[at]) && may_go::<
                        ProtocolKey,
                        ProtocolState<P>,
                        _,
                    >(before, o[at], test, true) && (forall|k: int|
                        0 <= k < at ==> !before.dom().contains(#[trigger] o[k]) || may_go::<
                            ProtocolKey,
                            ProtocolState<P>,
                            _,
                        >(before, o[k], test, false)) && m == before.remove(o[at]) && r
                        == o.remove(at);
                lemma_evicted(before, o, limit, at);
                assert(protocol_settled::<P>()(before[o[at]]));
                assert forall|k: int| 0 <= k < at implies !protocol_settled::<P>()(
                    before[#[trigger] o[k]],
                ) by {
                    assert(o.contains(o[k]));
                }
                assert(!saturated(before, limit, protocol_settled::<P>()));
                assert(room_made(before, o, m, r, limit, protocol_settled::<P>()));
            } else {
                assert(room_made(before, o, m, r, limit, protocol_settled::<P>()));
            }
            assert(!r.contains(key@)) by {
                assert(!m.dom().contains(key@));
            }
            lemma_orderly_len(m, r, limit);
            lemma_touched(m, r, limit, key@, ProtocolState::<P>::Encoding);
        }
        self.protocols.insert(key.duplicate(), ProtocolState::Encoding);
        touch_lru(&mut self.protocol_order, key);
        true
    }

    /// Asks for an image to be encoded at a size. The two faults are counted.
    pub fn request_protocol(&mut self, key: &MediaKey, width: u16, height: u16, wired: bool) -> (out:
        ProtocolRequest)
        requires
            old(self).ok(),
            old(self).drops.cache_saturated < u64::MAX,
            old(self).drops.channel_unwired < u64::MAX,
        ensures
            final(self).ok(),
            *final(self) == (MediaCache {
                protocols: final(self).protocols,
                protocol_order: final(self).protocol_order,
                drops: final(self).drops,
                ..*old(self)
            }),
            out == old(self).protocol_answer(key@, width, height, wired),
            ({
                let k = (key@, width, height);
                let (before, after) = (old(self).protocols@, final(self).protocols@);
                let (o, p) = (views(old(self).protocol_order@), views(final(self).protocol_order@));
                match out {
                    ProtocolRequest::Started => value_added(
                        before,
                        o,
                        after,
                        p,
                        PROTOCOL_CACHE_LIMIT as int,
                        protocol_settled::<P>(),
                        k,
                        ProtocolState::Encoding,
                    ),
                    ProtocolRequest::AlreadyPresent => after == before && p == touched(o, k),
                    _ => after == before && p == o,
                }
            }),
            final(self).drops == (match out {
                ProtocolRequest::CacheSaturated => ProtocolDropCounts {
                    cache_saturated: (old(self).drops.cache_saturated + 1) as u64,
                    ..old(self).drops
                },
                ProtocolRequest::ChannelUnwired => ProtocolDropCounts {
                    channel_unwired: (old(self).drops.channel_unwired + 1) as u64,
                    ..old(self).drops
                },
                _ => old(self).drops,
            }),
    {
        if width == 0 || height == 0 {
            return ProtocolRequest::EmptySize;
        }
        let full = ProtocolKey { media: key.duplicate(), width, height };
        if self.protocols.contains_key(&full) {
            let ghost before = self.protocols@;
            let ghost o = views(self.protocol_order@);
            touch_lru(&mut self.protocol_order, &full);
            proof {
                assert(o.contains(full@));
                lemma_touched(before, o, PROTOCOL_CACHE_LIMIT as int, full@, before[full@]);
                assert(before.insert(full@, before[full@]) =~= before);
            }
            return ProtocolRequest::AlreadyPresent;
        }
        if !self.is_image_ready(key) {
            return ProtocolRequest::ImageNotReady;
        }
        if !wired {
            self.drops.channel_unwired = self.drops.channel_unwired + 1;
            return ProtocolRequest::ChannelUnwired;
        }
        if self.start_protocol(&full) {
            ProtocolRequest::Started
        } else {
            self.drops.cache_saturated = self.drops.cache_saturated + 1;
            ProtocolRequest::CacheSaturated
        }
    }

    /// Takes over an image. One that is no longer waited for is dropped.
    pub fn handle_image_result(&mut self, key: &MediaKey, outcome: Result<I, String>)
        requires
            old(self).ok(),
        ensures
            final(self).ok(),
            if old(self).images@.dom().contains(key@) && old(self).images@[key@] is Fetching {
                &&& *final(self) == (MediaCache {
                    images: final(self).images,
                    image_order: final(self).image_order,
                    ..*old(self)
                })
                &&& final(self).images@ == old(self).images@.insert(
                    key@,
                    match outcome {
                        Ok(image) => ImageState::Ready(image),
                        Err(e) => ImageState::Failed(e),
                    },
                )
                &&& views(final(self).image_order@) == touched(
                    views(old(self).image_order@),
                    key@,
                )
            } else {
                *final(self) == *old(self)
            },
    {
        let waiting = match self.images.get(key) {
            Some(ImageState::Fetching) => true,
            _ => false,
        };
        if !waiting {
            return ;
        }
        let state = match outcome {
            Ok(image) => ImageState::Ready(image),
            Err(e) => ImageState::Failed(e),
        };
        proof {
            let o = views(self.image_order@);
            assert(o.contains(key@));
            lemma_touched(self.images@, o, IMAGE_CACHE_LIMIT as int, key@, state);
        }
        self.images.insert(key.duplicate(), state);
        touch_lru(&mut self.image_order, key);
    }

    /// Takes over an encoded image. One that is no longer waited for is dropped.
    pub fn handle_protocol_result(&mut self, key: &ProtocolKey, outcome: Result<P, String>)
        requires
            old(self).ok(),
        ensures
            final(self).ok(),
            if old(self).protocols@.dom().contains(key@) && old(self).protocols@[key@] is Encoding {
                &&& *final(self) == (MediaCache {
                    protocols: final(self).protocols,
                    protocol_order: final(self).protocol_order,
                    ..*old(self)
                })
                &&& final(self).protocols@ == old(self).protocols@.insert(
                    key@,
                    match outcome {
                        Ok(protocol) => ProtocolState::Ready(protocol),
                        Err(e) => ProtocolState::Failed(e),
                    },
                )
                &&& views(final(self).protocol_order@) == touched(
                    views(old(self).protocol_order@),
                    key@,
                )
            } else {
                *final(self) == *old(self)
            },
    {
        let waiting = match self.protocols.get(key) {
            Some(ProtocolState::Encoding) => true,
            _ => false,
        };
        if !waiting {
            return ;
        }
        let state = match outcome {
            Ok(protocol) => ProtocolState::Ready(protocol),
            Err(e) => ProtocolState::Failed(e),
        };
        proof {
            let o = views(self.protocol_order@);
            assert(o.contains(key@));
            lemma_touched(self.protocols@, o, PROTOCOL_CACHE_LIMIT as int, key@, state);
        }
        self.protocols.insert(key.duplicate(), state);
        touch_lru(&mut self.protocol_order, key);
    }
}

/// The caches never hold more than they may, and what was asked for last goes last.
pub proof fn law_caches_are_bounded<I, P>(cache: MediaCache<I, P>)
    requires
        cache.ok(),
    ensures
        cache.images@.dom().finite() && cache.images@.dom().len() <= IMAGE_CACHE_LIMIT,
        cache.protocols@.dom().finite() && cache.protocols@.dom().len() <= PROTOCOL_CACHE_LIMIT,
{
    lemma_orderly_len(cache.images@, views(cache.image_order@), IMAGE_CACHE_LIMIT as int);
    lemma_orderly_len(cache.protocols@, views(cache.protocol_order@), PROTOCOL_CACHE_LIMIT as int);
}

/// A key that was used is the last of the order.
pub proof fn law_used_key_is_last<V>(order: Seq<V>, key: V)
    ensures
        touched(order, key).len() > 0,
        touched(order, key).last() == key,
        touched(touched(order, key), key).last() == key,
{
    lemma_key_bounds(order, key);
    lemma_key_bounds(touched(order, key), key);
}

// ---------------------------------------------------------------------------
// Sending an image again
// ---------------------------------------------------------------------------

/// An encoded image, with a second form where it is to be sent again.
#[derive(Debug)]
pub struct CachedProtocol<P> {
    pub first: P,
    pub sixel_alternate: Option<P>,
}

impl<P> CachedProtocol<P> {
    /// The form that a generation shows: the two forms by turns.
    pub open spec fn shown(self, generation: u64) -> P {
        if generation % 2 == 0 || self.sixel_alternate is None {
            self.first
        } else {
            self.sixel_alternate->0
        }
    }

    fn generated(&self, generation: u64) -> (out: &P)
        ensures
            *out == self.shown(generation),
    {
        if generation % 2 == 0 {
            &self.first
        } else {
            match &self.sixel_alternate {
                Some(p) => p,
                None => &self.first,
            }
        }
    }

    pub fn inline(&self, generation: u64) -> (out: &P)
        ensures
            *out == self.shown(generation),
    {
        self.generated(generation)
    }

    pub fn preview(&self, generation: u64) -> (out: &P)
        ensures
            *out == self.shown(generation),
    {
        self.generated(generation)
    }
}

/// The two forms of a sixel image. They show the same and differ at the end, so that
/// either is sent where the other was.
pub fn sixel_payloads(data: &str) -> (out: (String, String))
    ensures
        out.0@ == data@ + "\x1b[0m"@,
        out.1@ == data@ + "\x1b[00m"@,
{
    (cat2(data, "\x1b[0m"), cat2(data, "\x1b[00m"))
}

/// The two forms of a sixel image differ.
pub proof fn law_payloads_differ(data: Seq<char>)
    ensures
        data + "\x1b[0m"@ != data + "\x1b[00m"@,
{
    reveal_strlit("\x1b[0m");
    reveal_strlit("\x1b[00m");
    assert((data + "\x1b[0m"@).len() != (data + "\x1b[00m"@).len());
}

// ---------------------------------------------------------------------------
// Payloads that tmux takes
// ---------------------------------------------------------------------------

/// The bytes of a payload that passes through tmux at most. A longer one tmux drops
/// whole.
pub const MAX_TMUX_SIXEL_BYTES: usize = 900_000;

/// How often a payload that was made smaller is made smaller again.
pub const MAX_SIXEL_SHRINK_ATTEMPTS: u32 = 4;

/// At least one.
pub open spec fn at_least_one(n: u16) -> u16 {
    if n == 0 {
        1
    } else {
        n
    }
}

/// The box to try next where a payload is too long: the scaled one, where it is smaller
/// in one way at least.
pub open spec fn shrunk_box(width: u16, height: u16, encoded_len: usize, scaled: (u16, u16)) -> Option<
    (u16, u16),
> {
    let (w, h) = (at_least_one(scaled.0), at_least_one(scaled.1));
    if encoded_len <= MAX_TMUX_SIXEL_BYTES || (w >= width && h >= height) {
        None
    } else {
        Some((w, h))
    }
}

pub fn shrink_box(width: u16, height: u16, encoded_len: usize, scaled: (u16, u16)) -> (out: Option<
    (u16, u16),
>)
    ensures
        out == shrunk_box(width, height, encoded_len, scaled),
{
    let w: u16 = if scaled.0 == 0 {
        1
    } else {
        scaled.0
    };
    let h: u16 = if scaled.1 == 0 {
        1
    } else {
        scaled.1
    };
    if encoded_len <= MAX_TMUX_SIXEL_BYTES || (w >= width && h >= height) {
        None
    } else {
        Some((w, h))
    }
}

/// The search for a payload that tmux takes: the box to encode in, and how often it may
/// still be made smaller.
#[derive(Debug, Clone, Copy, PartialEq, Eq, Structural)]
pub struct EncodeSearch {
    pub width: u16,
    pub height: u16,
    pub left: u32,
}

impl EncodeSearch {
    pub fn start(width: u16, height: u16) -> (out: EncodeSearch)
        ensures
            out == (EncodeSearch { width, height, left: (MAX_SIXEL_SHRINK_ATTEMPTS + 1) as u32 }),
    {
        EncodeSearch { width, height, left: MAX_SIXEL_SHRINK_ATTEMPTS + 1 }
    }

    /// What follows an encoding: another in a smaller box, or none where it is taken.
    pub open spec fn after(self, through_tmux: bool, encoded_len: usize, scaled: (u16, u16)) -> Option<
        EncodeSearch,
    > {
        if !through_tmux || self.left == 0 {
            None
        } else {
            match shrunk_box(self.width, self.height, encoded_len, scaled) {
                Some((width, height)) => Some(
                    EncodeSearch { width, height, left: (self.left - 1) as u32 },
                ),
                None => None,
            }
        }
    }

    pub fn next(self, through_tmux: bool, encoded_len: usize, scaled: (u16, u16)) -> (out: Option<
        EncodeSearch,
    >)
        ensures
            out == self.after(through_tmux, encoded_len, scaled),
    {
        if !through_tmux || self.left == 0 {
            return None;
        }
        match shrink_box(self.width, self.height, encoded_len, scaled) {
            Some((width, height)) => Some(EncodeSearch { width, height, left: self.left - 1 }),
            None => None,
        }
    }
}

/// A box that is tried next is never empty, and smaller than the one before where the
/// scaled one is no larger either way. The tries come to an end.
pub proof fn law_boxes_shrink(search: EncodeSearch, encoded_len: usize, scaled: (u16, u16))
    requires
        search.width >= 1,
        search.height >= 1,
        scaled.0 <= search.width,
        scaled.1 <= search.height,
        search.after(true, encoded_len, scaled) is Some,
    ensures
        ({
            let next = search.after(true, encoded_len, scaled)->0;
            &&& 1 <= next.width <= search.width
            &&& 1 <= next.height <= search.height
            &&& next.width < search.width || next.height < search.height
            &&& next.left < search.left
        }),
{
}

// ---------------------------------------------------------------------------
// What bytes tell
// ---------------------------------------------------------------------------

/// What is said of an image that is too large.
pub open spec fn dimensions_text(width: u32, height: u32) -> Seq<char> {
    "image dimensions "@ + decimal(width as nat) + "x"@ + decimal(height as nat)
        + " exceed the decode limit"@
}

/// Whether an image may be decoded: it has pixels, and not too many.
pub open spec fn decodable(width: u32, height: u32) -> bool {
    0 < width * height <= MAX_DECODED_PIXELS
}

pub fn validate_image_dimensions(width: u32, height: u32) -> (out: Result<(), String>)
    ensures
        match out {
            Ok(()) => decodable(width, height),
            Err(text) => !decodable(width, height) && text@ == dimensions_text(width, height),
        },
{
    assert(width * height <= u64::MAX) by (nonlinear_arith)
        requires
            width <= 0xffff_ffff,
            height <= 0xffff_ffff,
    ;
    assert(0 <= width * height) by (nonlinear_arith);
    let pixels: u64 = width as u64 * height as u64;
    if pixels == 0 || pixels > MAX_DECODED_PIXELS {
        let w = decimal_u64(width as u64);
        let h = decimal_u64(height as u64);
        Err(cat5("image dimensions ", w.as_str(), "x", h.as_str(), " exceed the decode limit"))
    } else {
        Ok(())
    }
}

/// Whether bytes stand in others from a position on.
pub open spec fn bytes_at(bytes: Seq<u8>, at: int, part: Seq<u8>) -> bool {
    at + part.len() <= bytes.len() && bytes.subrange(at, at + part.len()) == part
}

fn has_bytes_at(bytes: &[u8], at: usize, part: &[u8]) -> (r: bool)
    requires
        at <= 8,
        part@.len() <= 16,
    ensures
        r == bytes_at(bytes@, at as int, part@),
{
    if bytes.len() < at + part.len() {
        return false;
    }
    let mut i: usize = 0;
    while i < part.len()
        invariant
            i <= part.len(),
            at <= 8,
            part@.len() <= 16,
            at + part@.len() <= bytes@.len(),
            forall|k: int| 0 <= k < i ==> bytes@[at + k] == part@[k],
        decreases part.len() - i,
    {
        if bytes[at + i] != part[i] {
            proof {
                let s = bytes@.subrange(at as int, at + part@.len());
                assert(s[i as int] == bytes@[at + i]);
            }
            return false;
        }
        i = i + 1;
    }
    assert(bytes@.subrange(at as int, at + part@.len()) =~= part@);
    true
}

/// What a container of the base media format holds, by its brand.
pub open spec fn brand_of(bytes: Seq<u8>) -> Seq<char> {
    if bytes_at(bytes, 8, seq![97u8, 118, 105, 102]) || bytes_at(
        bytes,
        8,
        seq![97u8, 118, 105, 115],
    ) {
        "AVIF"@
    } else if bytes_at(bytes, 8, seq![104u8, 101, 105, 99]) || bytes_at(
        bytes,
        8,
        seq![104u8, 101, 105, 115],
    ) || bytes_at(bytes, 8, seq![104u8, 101, 105, 109]) || bytes_at(
        bytes,
        8,
        seq![104u8, 101, 105, 120],
    ) {
        "HEIC"@
    } else if bytes_at(bytes, 8, seq![109u8, 105, 102, 49]) || bytes_at(
        bytes,
        8,
        seq![109u8, 115, 102, 49],
    ) {
        "HEIF"@
    } else {
        "ISO BMFF (AVIF/HEIC/MP4/…)"@
    }
}

/// The format that bytes begin like, if any.
pub open spec fn known_format(bytes: Seq<u8>) -> Option<Seq<char>> {
    if bytes_at(bytes, 0, seq![0xffu8, 0xd8, 0xff]) {
        Some("JPEG"@)
    } else if bytes_at(bytes, 0, seq![0x89u8, 80, 78, 71, 13, 10, 26, 10]) {
        Some("PNG"@)
    } else if bytes_at(bytes, 0, seq![71u8, 73, 70, 56, 55, 97]) || bytes_at(
        bytes,
        0,
        seq![71u8, 73, 70, 56, 57, 97],
    ) {
        Some("GIF"@)
    } else if bytes_at(bytes, 0, seq![82u8, 73, 70, 70]) && bytes_at(
        bytes,
        8,
        seq![87u8, 69, 66, 80],
    ) {
        Some("WebP"@)
    } else if bytes_at(bytes, 0, seq![66u8, 77]) {
        Some("BMP"@)
    } else if bytes_at(bytes, 0, seq![73u8, 73, 42, 0]) || bytes_at(
        bytes,
        0,
        seq![77u8, 77, 0, 42],
    ) {
        Some("TIFF"@)
    } else if bytes_at(bytes, 4, seq![102u8, 116, 121, 112]) {
        Some(brand_of(bytes))
    } else if bytes_at(bytes, 0, seq![60u8, 115, 118, 103]) || bytes_at(
        bytes,
        0,
        seq![60u8, 63, 120, 109, 108],
    ) || bytes_at(bytes, 0, seq![60u8, 83, 86, 71]) {
        Some("SVG (not supported)"@)
    } else if bytes_at(bytes, 0, seq![0u8, 0, 1, 0]) {
        Some("ICO"@)
    } else {
        None
    }
}

/// A byte by two hexadecimal digits.
pub open spec fn hex_byte(b: u8) -> Seq<char> {
    seq![crate::ids::hex_digit((b / 16) as int), crate::ids::hex_digit((b % 16) as int)]
}

/// A byte as a character, where it is one that is seen.
pub open spec fn seen_byte(b: u8) -> char {
    if 32 <= b <= 126 {
        b as char
    } else {
        '.'
    }
}

/// The first bytes by their digits.
pub open spec fn hex_dump(bytes: Seq<u8>) -> Seq<char>
    decreases bytes.len(),
{
    if bytes.len() == 0 {
        Seq::empty()
    } else if bytes.len() == 1 {
        hex_byte(bytes[0])
    } else {
        hex_dump(bytes.drop_last()) + " "@ + hex_byte(bytes.last())
    }
}

/// The first bytes of a text, sixteen at most.
pub open spec fn first_bytes(bytes: Seq<u8>) -> Seq<u8> {
    if bytes.len() > 16 {
        bytes.take(16)
    } else {
        bytes
    }
}

/// What is said of bytes that begin like no format.
pub open spec fn unknown_text(bytes: Seq<u8>) -> Seq<char> {
    let first = first_bytes(bytes);
    "unknown — first bytes: "@ + hex_dump(first) + "  ("@ + first.map_values(
        |b: u8| seen_byte(b),
    ) + ")"@
}

/// What bytes are, by how they begin.
pub open spec fn sniffed(bytes: Seq<u8>) -> Seq<char> {
    match known_format(bytes) {
        Some(name) => name,
        None => unknown_text(bytes),
    }
}

fn sniff_brand(bytes: &[u8]) -> (out: &'static str)
    ensures
        out@ == brand_of(bytes@),
{
    if has_bytes_at(bytes, 8, &[97, 118, 105, 102]) || has_bytes_at(bytes, 8, &[97, 118, 105, 115]) {
        "AVIF"
    } else if has_bytes_at(bytes, 8, &[104, 101, 105, 99]) || has_bytes_at(
        bytes,
        8,
        &[104, 101, 105, 115],
    ) || has_bytes_at(bytes, 8, &[104, 101, 105, 109]) || has_bytes_at(
        bytes,
        8,
        &[104, 101, 105, 120],
    ) {
        "HEIC"
    } else if has_bytes_at(bytes, 8, &[109, 105, 102, 49]) || has_bytes_at(
        bytes,
        8,
        &[109, 115, 102, 49],
    ) {
        "HEIF"
    } else {
        "ISO BMFF (AVIF/HEIC/MP4/…)"
    }
}

fn sniff_known(bytes: &[u8]) -> (out: Option<&'static str>)
    ensures
        crate::text::option_str_view(out) == known_format(bytes@),
{
    if has_bytes_at(bytes, 0, &[0xff, 0xd8, 0xff]) {
        Some("JPEG")
    } else if has_bytes_at(bytes, 0, &[0x89, 80, 78, 71, 13, 10, 26, 10]) {
        Some("PNG")
    } else if has_bytes_at(bytes, 0, &[71, 73, 70, 56, 55, 97]) || has_bytes_at(
        bytes,
        0,
        &[71, 73, 70, 56, 57, 97],
    ) {
        Some("GIF")
    } else if has_bytes_at(bytes, 0, &[82, 73, 70, 70]) && has_bytes_at(
        bytes,
        8,
        &[87, 69, 66, 80],
    ) {
        Some("WebP")
    } else if has_bytes_at(bytes, 0, &[66, 77]) {
        Some("BMP")
    } else if has_bytes_at(bytes, 0, &[73, 73, 42, 0]) || has_bytes_at(bytes, 0, &[77, 77, 0, 42]) {
        Some("TIFF")
    } else if has_bytes_at(bytes, 4, &[102, 116, 121, 112]) {
        Some(sniff_brand(bytes))
    } else if has_bytes_at(bytes, 0, &[60, 115, 118, 103]) || has_bytes_at(
        bytes,
        0,
        &[60, 63, 120, 109, 108],
    ) || has_bytes_at(bytes, 0, &[60, 83, 86, 71]) {
        Some("SVG (not supported)")
    } else if has_bytes_at(bytes, 0, &[0, 0, 1, 0]) {
        Some("ICO")
    } else {
        None
    }
}

fn write_digit(n: u8) -> (c: char)
    requires
        n < 16,
    ensures
        c == crate::ids::hex_digit(n as int),
{
    if n < 10 {
        (48 + n) as char
    } else {
        (87 + n) as char
    }
}

fn write_byte(b: u8) -> (out: char)
    ensures
        out == seen_byte(b),
{
    if 32 <= b && b <= 126 {
        b as char
    } else {
        '.'
    }
}

fn describe_unknown(bytes: &[u8]) -> (out: String)
    ensures
        out@ == unknown_text(bytes@),
{
    let n: usize = if bytes.len() > 16 {
        16
    } else {
        bytes.len()
    };
    let ghost first = first_bytes(bytes@);
    let mut digits: Vec<char> = Vec::new();
    let mut seen: Vec<char> = Vec::new();
    let mut i: usize = 0;
    proof {
        reveal_strlit(" ");
    }
    assert(digits@ =~= hex_dump(first.take(0)));
    assert(first.len() == n);
    while i < n
        invariant
            i <= n <= bytes.len(),
            first == first_bytes(bytes@),
            first.len() == n,
            forall|k: int| 0 <= k < n ==> first[k] == bytes@[k],
            digits@ == hex_dump(first.take(i as int)),
            seen.len() == i,
            forall|k: int| 0 <= k < i ==> #[trigger] seen@[k] == seen_byte(first[k]),
            " "@ =~= seq![' '],
        decreases n - i,
    {
        let b: u8 = bytes[i];
        let ghost before = digits@;
        assert(first.take(i + 1).drop_last() =~= first.take(i as int));
        assert(first.take(i + 1).last() == b);
        if i > 0 {
            digits.push(' ');
        }
        digits.push(write_digit(b / 16));
        digits.push(write_digit(b % 16));
        proof {
            if i == 0 {
                assert(first.take(1).len() == 1);
                assert(first.take(1)[0] == b);
                assert(before =~= Seq::<char>::empty());
                assert(digits@ =~= hex_byte(b));
            } else {
                assert(digits@ =~= before + " "@ + hex_byte(b));
            }
        }
        seen.push(write_byte(b));
        i = i + 1;
    }
    assert(first.take(i as int) =~= first);
    assert(seen@ =~= first.map_values(|b: u8| seen_byte(b)));
    let dump = text_of(digits.as_slice());
    let shown = text_of(seen.as_slice());
    cat5("unknown — first bytes: ", dump.as_str(), "  (", shown.as_str(), ")")
}

/// What bytes are, by how they begin, whatever can be decoded. Bytes that begin like no
/// image are shown: they may be a reply that tells of a fault.
pub fn sniff_format(bytes: &[u8]) -> (out: String)
    ensures
        out@ == sniffed(bytes@),
{
    match sniff_known(bytes) {
        Some(name) => name.to_owned(),
        None => describe_unknown(bytes),
    }
}

} // verus!
