//! LAN discovery bookkeeping: what a received packet does, which peers are
//! still alive, and the beacon a world announces.
use crate::clock::ClockLog;
use crate::text::{copy_string, decimal, lemma_lex_lt_transitive, lemma_lex_total, lex_lt, push_decimal, push_str, string_from};
use crate::world::string_lt;
use dashmap::DashMap;
use std::collections::hash_map::RandomState;
use vstd::prelude::*;

verus! {

/// A discovery packet.
pub enum DiscoveryPacket {
    /// A world announcing itself.
    Beacon {
        world_id: String,
        station_name: String,
        short_name: String,
        port: u16,
        base_path: String,
        version: String,
        is_headless: bool,
    },
    /// A request for every world to announce itself now.
    Probe,
}

/// A peer world seen on the LAN.
pub struct DiscoveredWorld {
    pub world_id: String,
    pub station_name: String,
    pub short_name: String,
    pub host: String,
    pub port: u16,
    pub base_path: String,
    pub url: String,
    pub version: String,
    pub is_headless: bool,
    pub last_seen_ms: i64,
}

/// `dashmap::DashMap`, the concurrent map the peers are kept in.
#[verifier::external_type_specification]
#[verifier::external_body]
#[verifier::reject_recursive_types(K)]
#[verifier::reject_recursive_types(V)]
#[verifier::reject_recursive_types(S)]
pub struct ExDashMap<K, V, S>(DashMap<K, V, S>);

/// The peers a `DashMap` holds, keyed by the text of their world id.
pub uninterp spec fn peers(m: DashMap<String, DiscoveredWorld, RandomState>) -> Map<Seq<char>, DiscoveredWorld>;

/// `DashMap::new`: an empty map.
#[verifier::external_body]
fn peers_new() -> (m: DashMap<String, DiscoveredWorld, RandomState>)
    ensures
        peers(m).dom().len() == 0 && peers(m).dom().finite(),
{
    DashMap::new()
}

/// Every peer is stored under its own world id.
pub open spec fn keyed_by_world_id(m: Map<Seq<char>, DiscoveredWorld>) -> bool {
    forall|k: Seq<char>| #[trigger] m.contains_key(k) ==> m[k].world_id@ == k
}

/// A peer last seen at `last_seen_ms` is still alive at `now_ms`.
pub open spec fn fresh(now_ms: i64, max_age_ms: i64, last_seen_ms: i64) -> bool {
    now_ms - last_seen_ms <= max_age_ms
}

/// The peers of `m` still alive at `now_ms`.
pub open spec fn fresh_peers(m: Map<Seq<char>, DiscoveredWorld>, now_ms: i64, max_age_ms: i64) -> Map<
    Seq<char>,
    DiscoveredWorld,
> {
    m.restrict(m.dom().filter(|k: Seq<char>| fresh(now_ms, max_age_ms, m[k].last_seen_ms)))
}

/// Whether a peer is still alive at `now_ms`.
pub fn is_fresh(now_ms: i64, max_age_ms: i64, w: &DiscoveredWorld) -> (b: bool)
    ensures
        b == fresh(now_ms, max_age_ms, w.last_seen_ms),
{
    (now_ms as i128) - (w.last_seen_ms as i128) <= max_age_ms as i128
}

/// A copy of a peer.
pub fn copy_world(w: &DiscoveredWorld) -> (r: DiscoveredWorld)
    ensures
        r == *w,
{
    DiscoveredWorld {
        world_id: w.world_id.clone(),
        station_name: w.station_name.clone(),
        short_name: w.short_name.clone(),
        host: w.host.clone(),
        port: w.port,
        base_path: w.base_path.clone(),
        url: w.url.clone(),
        version: w.version.clone(),
        is_headless: w.is_headless,
        last_seen_ms: w.last_seen_ms,
    }
}

/// `DashMap::insert`: the peer is stored under `key`, replacing any peer
/// stored there; the map is taken `&mut` so the change is visible here.
#[verifier::external_body]
fn peers_insert(m: &mut DashMap<String, DiscoveredWorld, RandomState>, key: String, value: DiscoveredWorld)
    ensures
        peers(*final(m)) == peers(*old(m)).insert(key@, value),
{
    m.insert(key, value);
}

/// `DashMap::retain` with the freshness test: exactly the peers alive at
/// `now_ms` stay.
#[verifier::external_body]
fn peers_retain_fresh(m: &mut DashMap<String, DiscoveredWorld, RandomState>, now_ms: i64, max_age_ms: i64)
    ensures
        peers(*final(m)) == fresh_peers(peers(*old(m)), now_ms, max_age_ms),
{
    m.retain(|_k, w| is_fresh(now_ms, max_age_ms, w));
}

/// `DashMap::iter` collected into a vector of copies: each stored peer once,
/// in the map's own order.
#[verifier::external_body]
fn peers_values(m: &DashMap<String, DiscoveredWorld, RandomState>) -> (r: Vec<DiscoveredWorld>)
    requires
        keyed_by_world_id(peers(*m)),
    ensures
        r.len() == peers(*m).dom().len(),
        forall|i: int|
            0 <= i < r.len() ==> peers(*m).contains_key((#[trigger] r@[i]).world_id@) && peers(*m)[r@[i].world_id@]
                == r@[i],
        forall|i: int, j: int| 0 <= i < j < r.len() ==> (#[trigger] r@[i]).world_id@ != (#[trigger] r@[j]).world_id@,
{
    m.iter().map(|entry| copy_world(entry.value())).collect()
}

/// What a received packet leads to.
pub enum PacketAction {
    /// Nothing to do.
    Ignored,
    /// The beacon's world was recorded.
    Recorded,
    /// Answer the prober with this beacon.
    Reply(DiscoveryPacket),
}

/// What the world announces about itself besides its fixed identity.
pub struct SelfAnnouncement {
    pub station_name: String,
    pub short_name: String,
    pub version: String,
}

/// The base path as it appears in a peer URL: empty for `/`.
pub open spec fn clean_base(base_path: Seq<char>) -> Seq<char> {
    if base_path == "/"@ {
        Seq::empty()
    } else {
        base_path
    }
}

/// The URL of a peer.
pub open spec fn peer_url(host: Seq<char>, port: u16, base_path: Seq<char>) -> Seq<char> {
    "http://"@ + host + ":"@ + decimal(port as nat) + clean_base(base_path)
}

/// `w` records a beacon received from `host` at `now_ms`.
pub open spec fn records_beacon(
    w: DiscoveredWorld,
    world_id: Seq<char>,
    station_name: Seq<char>,
    short_name: Seq<char>,
    port: u16,
    base_path: Seq<char>,
    version: Seq<char>,
    is_headless: bool,
    host: Seq<char>,
    now_ms: i64,
) -> bool {
    &&& w.world_id@ == world_id
    &&& w.station_name@ == station_name
    &&& w.short_name@ == short_name
    &&& w.host@ == host
    &&& w.port == port
    &&& w.base_path@ == base_path
    &&& w.url@ == peer_url(host, port, base_path)
    &&& w.version@ == version
    &&& w.is_headless == is_headless
    &&& w.last_seen_ms == now_ms
}

/// `b` is the beacon of a world.
pub open spec fn is_beacon_of(
    b: DiscoveryPacket,
    world_id: Seq<char>,
    ann: SelfAnnouncement,
    port: u16,
    base_path: Seq<char>,
    is_headless: bool,
) -> bool {
    match b {
        DiscoveryPacket::Beacon { world_id: w, station_name, short_name, port: p, base_path: bp, version, is_headless: h } => {
            &&& w@ == world_id
            &&& station_name@ == ann.station_name@
            &&& short_name@ == ann.short_name@
            &&& p == port
            &&& bp@ == base_path
            &&& version@ == ann.version@
            &&& h == is_headless
        },
        DiscoveryPacket::Probe => false,
    }
}

/// `a` is before or level with `b` by station name.
pub open spec fn station_le(a: DiscoveredWorld, b: DiscoveredWorld) -> bool {
    !lex_lt(b.station_name@, a.station_name@)
}

/// Who this world is, and the peer worlds it knows of.
pub struct DiscoveryRegistry {
    self_world_id: String,
    self_port: u16,
    self_base_path: String,
    self_is_headless: bool,
    discovered: DashMap<String, DiscoveredWorld, RandomState>,
    ttl_ms: i64,
    clock: ClockLog,
}

impl DiscoveryRegistry {
    /// Every peer is stored under its world id, there are finitely many,
    /// none is this world itself, and peers expire after 30 s.
    pub closed spec fn wf(self) -> bool {
        &&& keyed_by_world_id(peers(self.discovered))
        &&& peers(self.discovered).dom().finite()
        &&& !peers(self.discovered).contains_key(self.self_world_id@)
        &&& self.ttl_ms == 30000
    }

    /// What a well-formed registry holds: each peer under its own world id,
    /// finitely many, never this world, and a 30 s expiry.
    pub proof fn lemma_wf(self)
        requires
            self.wf(),
        ensures
            keyed_by_world_id(self.known_peers()),
            self.known_peers().dom().finite(),
            !self.known_peers().contains_key(self.world_id()),
            self.ttl() == 30000,
    {
    }

    /// This world's id.
    pub closed spec fn world_id(self) -> Seq<char> {
        self.self_world_id@
    }

    /// This world's port.
    pub closed spec fn port(self) -> u16 {
        self.self_port
    }

    /// This world's base path.
    pub closed spec fn base_path(self) -> Seq<char> {
        self.self_base_path@
    }

    /// Whether this world runs headless.
    pub closed spec fn headless(self) -> bool {
        self.self_is_headless
    }

    /// How long a peer stays listed after its last beacon, in milliseconds.
    pub closed spec fn ttl(self) -> i64 {
        self.ttl_ms
    }

    /// The clock readings (ms) this registry has taken, oldest first.
    pub closed spec fn clock_readings(self) -> Seq<i64> {
        self.clock.readings()
    }

    /// The peers currently known, by world id.
    pub closed spec fn known_peers(self) -> Map<Seq<char>, DiscoveredWorld> {
        peers(self.discovered)
    }

    /// A registry for this world, tracking no peer; peers stay listed 30 s.
    pub fn new(world_id: String, port: u16, base_path: String, is_headless: bool) -> (r: Self)
        ensures
            r.wf(),
            r.world_id() == world_id@,
            r.port() == port,
            r.base_path() == base_path@,
            r.headless() == is_headless,
            r.ttl() == 30000,
            r.known_peers().dom().len() == 0,
    {
        let discovered = peers_new();
        DiscoveryRegistry {
            self_world_id: world_id,
            self_port: port,
            self_base_path: base_path,
            self_is_headless: is_headless,
            discovered,
            ttl_ms: 30000,
            clock: ClockLog::new(),
        }
    }

    /// This world's beacon.
    pub fn build_self_beacon(&self, ann: &SelfAnnouncement) -> (b: DiscoveryPacket)
        ensures
            is_beacon_of(b, self.world_id(), *ann, self.port(), self.base_path(), self.headless()),
    {
        DiscoveryPacket::Beacon {
            world_id: copy_string(&self.self_world_id),
            station_name: copy_string(&ann.station_name),
            short_name: copy_string(&ann.short_name),
            port: self.self_port,
            base_path: copy_string(&self.self_base_path),
            version: copy_string(&ann.version),
            is_headless: self.self_is_headless,
        }
    }

    /// This world's identity and the peer expiry are the same in `after`,
    /// which is well formed.
    pub open spec fn keeps_world(self, after: Self) -> bool {
        &&& after.wf()
        &&& after.world_id() == self.world_id()
        &&& after.port() == self.port()
        &&& after.base_path() == self.base_path()
        &&& after.headless() == self.headless()
        &&& after.ttl() == self.ttl()
    }

    /// `after` and the action `a` are what handling `packet` from `host` at
    /// `now_ms` makes of `self`: another world's beacon is recorded (this
    /// world's own is ignored); a probe is answered with this world's beacon.
    pub open spec fn handled(
        self,
        after: Self,
        packet: DiscoveryPacket,
        host: Seq<char>,
        now_ms: i64,
        ann: SelfAnnouncement,
        a: PacketAction,
    ) -> bool {
        match packet {
            DiscoveryPacket::Probe => {
                &&& after.known_peers() == self.known_peers()
                &&& a matches PacketAction::Reply(b) && is_beacon_of(
                    b,
                    self.world_id(),
                    ann,
                    self.port(),
                    self.base_path(),
                    self.headless(),
                )
            },
            DiscoveryPacket::Beacon { world_id, station_name, short_name, port, base_path, version, is_headless } => {
                if world_id@ == self.world_id() {
                    a is Ignored && after.known_peers() == self.known_peers()
                } else {
                    &&& a is Recorded
                    &&& after.known_peers().dom() == self.known_peers().dom().insert(world_id@)
                    &&& forall|k: Seq<char>|
                        k != world_id@ && #[trigger] self.known_peers().contains_key(k) ==> after.known_peers()[k]
                            == self.known_peers()[k]
                    &&& records_beacon(
                        after.known_peers()[world_id@],
                        world_id@,
                        station_name@,
                        short_name@,
                        port,
                        base_path@,
                        version@,
                        is_headless,
                        host,
                        now_ms,
                    )
                }
            },
        }
    }

    /// `after` keeps exactly the peers of `self` alive at `now_ms`, and `r`
    /// lists each of them once, sorted by station name; none is this world,
    /// and each was seen within the expiry.
    pub open spec fn listed(self, after: Self, now_ms: i64, r: Seq<DiscoveredWorld>) -> bool {
        &&& after.known_peers() == fresh_peers(self.known_peers(), now_ms, self.ttl())
        &&& forall|i: int| 0 <= i < r.len() ==> (#[trigger] r[i]).world_id@ != self.world_id()
        &&& forall|i: int| 0 <= i < r.len() ==> fresh(now_ms, self.ttl(), (#[trigger] r[i]).last_seen_ms)
        &&& r.len() == after.known_peers().dom().len()
        &&& forall|i: int|
            0 <= i < r.len() ==> after.known_peers().contains_key((#[trigger] r[i]).world_id@)
                && after.known_peers()[r[i].world_id@] == r[i]
        &&& forall|i: int, j: int| 0 <= i < j < r.len() ==> (#[trigger] r[i]).world_id@ != (#[trigger] r[j]).world_id@
        &&& forall|i: int, j: int| 0 <= i < j < r.len() ==> station_le(#[trigger] r[i], #[trigger] r[j])
    }

    /// Handles a packet from `host` received at `now_ms`.
    pub fn handle_packet_at(&mut self, packet: DiscoveryPacket, host: String, now_ms: i64, ann: &SelfAnnouncement) -> (a: PacketAction)
        requires
            old(self).wf(),
        ensures
            old(self).keeps_world(*final(self)),
            old(self).handled(*final(self), packet, host@, now_ms, *ann, a),
            final(self).clock_readings() == old(self).clock_readings(),
    {
        match packet {
            DiscoveryPacket::Probe => PacketAction::Reply(self.build_self_beacon(ann)),
            DiscoveryPacket::Beacon { world_id, station_name, short_name, port, base_path, version, is_headless } => {
                if world_id == self.self_world_id {
                    return PacketAction::Ignored;
                }
                let slash = string_from("/");
                let mut url = string_from("http://");
                push_str(&mut url, host.as_str());
                push_str(&mut url, ":");
                push_decimal(&mut url, port as u64);
                if base_path != slash {
                    push_str(&mut url, base_path.as_str());
                }
                assert(url@ =~= peer_url(host@, port, base_path@));
                let key = world_id.clone();
                let w = DiscoveredWorld {
                    world_id,
                    station_name,
                    short_name,
                    host,
                    port,
                    base_path,
                    url,
                    version,
                    is_headless,
                    last_seen_ms: now_ms,
                };
                peers_insert(&mut self.discovered, key, w);
                PacketAction::Recorded
            },
        }
    }

    /// The peers still alive at `now_ms`, sorted by station name; expired
    /// peers are dropped from the registry.
    pub fn discovered_worlds_at(&mut self, now_ms: i64) -> (r: Vec<DiscoveredWorld>)
        requires
            old(self).wf(),
        ensures
            old(self).keeps_world(*final(self)),
            old(self).listed(*final(self), now_ms, r@),
            final(self).clock_readings() == old(self).clock_readings(),
    {
        let ghost m0 = peers(self.discovered);
        peers_retain_fresh(&mut self.discovered, now_ms, self.ttl_ms);
        proof {
            let m1 = peers(self.discovered);
            assert(m1.dom().subset_of(m0.dom()));
            vstd::set_lib::lemma_set_subset_finite(m0.dom(), m1.dom());
            assert forall|k: Seq<char>| #[trigger] m1.contains_key(k) implies m1[k].world_id@ == k by {
                assert(m0.contains_key(k));
            }
        }
        let items = peers_values(&self.discovered);
        sort_by_station(items)
    }

    /// Handles a packet from `host` received now (the time is read from the
    /// clock).
    /// `None`, with the peers unchanged, when the clock cannot be read. The
    /// time the beacon is stamped with is the clock reading this call logs.
    pub fn handle_packet(&mut self, packet: DiscoveryPacket, host: String, ann: &SelfAnnouncement) -> (a: Option<
        PacketAction,
    >)
        requires
            old(self).wf(),
        ensures
            old(self).keeps_world(*final(self)),
            a is None ==> final(self).known_peers() == old(self).known_peers() && final(self).clock_readings()
                == old(self).clock_readings(),
            a matches Some(act) ==> exists|now_ms: i64|
                now_ms >= 0 && final(self).clock_readings() == old(self).clock_readings().push(now_ms)
                    && #[trigger] old(self).handled(*final(self), packet, host@, now_ms, *ann, act),
    {
        let ghost p0 = packet;
        let ghost h0 = host@;
        match self.clock.read_ms() {
            Some(now_ms) => {
                let ghost mid = *self;
                assert(mid.known_peers() == old(self).known_peers());
                let act = self.handle_packet_at(packet, host, now_ms, ann);
                assert(mid.handled(*self, p0, h0, now_ms, *ann, act));
                assert(old(self).handled(*self, p0, h0, now_ms, *ann, act));
                Some(act)
            },
            None => None,
        }
    }

    /// The peers still alive now, sorted by station name; expired peers are
    /// dropped from the registry. The time listed at is the clock reading
    /// this call logs. `None`, with the peers unchanged, when the clock
    /// cannot be read.
    pub fn get_discovered_worlds(&mut self) -> (r: Option<Vec<DiscoveredWorld>>)
        requires
            old(self).wf(),
        ensures
            old(self).keeps_world(*final(self)),
            r is None ==> final(self).known_peers() == old(self).known_peers() && final(self).clock_readings()
                == old(self).clock_readings(),
            r is Some ==> exists|now_ms: i64|
                now_ms >= 0 && final(self).clock_readings() == old(self).clock_readings().push(now_ms)
                    && #[trigger] old(self).listed(*final(self), now_ms, r->0@),
    {
        match self.clock.read_ms() {
            Some(now_ms) => {
                let v = self.discovered_worlds_at(now_ms);
                let r = Some(v);
                assert(old(self).listed(*self, now_ms, r->0@));
                r
            },
            None => None,
        }
    }
}

/// A beacon recorded at time `t` (ms) expires after 30 s: listing at any
/// time `t2 > t + 30000` drops that peer and does not list it, while listing
/// at a time `t2` with `t <= t2 <= t + 30000` keeps it in the registry. For
/// `handle_packet` and `get_discovered_worlds`, `t` and `t2` are the clock
/// readings each logs in `clock_readings`.
pub proof fn law_peers_expire_after_thirty_seconds(
    a: DiscoveryRegistry,
    b: DiscoveryRegistry,
    c: DiscoveryRegistry,
    packet: DiscoveryPacket,
    host: Seq<char>,
    t: i64,
    ann: SelfAnnouncement,
    act: PacketAction,
    t2: i64,
    r: Seq<DiscoveredWorld>,
)
    requires
        a.wf(),
        a.keeps_world(b),
        a.handled(b, packet, host, t, ann, act),
        packet matches DiscoveryPacket::Beacon { world_id, .. } && world_id@ != a.world_id(),
        b.listed(c, t2, r),
    ensures
        ({
            let w = packet->Beacon_world_id@;
            &&& t2 - t > 30000 ==> !c.known_peers().contains_key(w) && forall|i: int|
                0 <= i < r.len() ==> (#[trigger] r[i]).world_id@ != w
            &&& t <= t2 <= t + 30000 ==> c.known_peers().contains_key(w) && c.known_peers()[w].last_seen_ms == t
        }),
{
    a.lemma_wf();
    b.lemma_wf();
    let w = packet->Beacon_world_id@;
    assert(b.known_peers().contains_key(w));
    assert(b.known_peers()[w].last_seen_ms == t);
    if t2 - t > 30000 {
        assert(!c.known_peers().contains_key(w));
        assert forall|i: int| 0 <= i < r.len() implies (#[trigger] r[i]).world_id@ != w by {
            assert(c.known_peers().contains_key(r[i].world_id@));
        }
    }
}

/// The peers sorted by station name, ties in their given order.
fn sort_by_station(items: Vec<DiscoveredWorld>) -> (r: Vec<DiscoveredWorld>)
    ensures
        r.len() == items.len(),
        forall|i: int| 0 <= i < r.len() ==> items@.contains(#[trigger] r@[i]),
        forall|i: int, j: int| 0 <= i < j < r.len() ==> station_le(#[trigger] r@[i], #[trigger] r@[j]),
        (forall|i: int, j: int| 0 <= i < j < items.len() ==> (#[trigger] items@[i]).world_id@ != (#[trigger] items@[j]).world_id@)
            ==> (forall|i: int, j: int| 0 <= i < j < r.len() ==> (#[trigger] r@[i]).world_id@ != (#[trigger] r@[j]).world_id@),
{
    let mut out: Vec<DiscoveredWorld> = Vec::new();
    let mut i: usize = 0;
    while i < items.len()
        invariant
            i <= items.len(),
            out.len() == i,
            forall|a: int| 0 <= a < out.len() ==> exists|j: int| 0 <= j < i && items@[j] == #[trigger] out@[a],
            forall|a: int, b: int| 0 <= a < b < out.len() ==> station_le(#[trigger] out@[a], #[trigger] out@[b]),
            (forall|x: int, y: int| 0 <= x < y < items.len() ==> (#[trigger] items@[x]).world_id@ != (#[trigger] items@[y]).world_id@)
                ==> (forall|a: int, b: int| 0 <= a < b < out.len() ==> (#[trigger] out@[a]).world_id@ != (#[trigger] out@[b]).world_id@),
        decreases items.len() - i,
    {
        let x = copy_world(&items[i]);
        let mut k: usize = 0;
        while k < out.len() && !string_lt(&x.station_name, &out[k].station_name)
            invariant
                k <= out.len(),
                forall|a: int| 0 <= a < k ==> station_le(#[trigger] out@[a], x),
            decreases out.len() - k,
        {
            k += 1;
        }
        let ghost prev = out@;
        proof {
            prev.insert_ensures(k as int, x);
            lemma_insert_by_station(prev, k as int, x);
        }
        out.insert(k, x);
        proof {
            assert forall|a: int| 0 <= a < out.len() implies exists|j: int| 0 <= j < i + 1 && items@[j] == #[trigger] out@[a] by {
                if a < k {
                    assert(out@[a] == prev[a]);
                } else if a > k {
                    assert(out@[a] == prev[a - 1]);
                } else {
                    assert(items@[i as int] == out@[a]);
                }
            }
            if forall|x1: int, y1: int| 0 <= x1 < y1 < items.len() ==> (#[trigger] items@[x1]).world_id@ != (#[trigger] items@[y1]).world_id@ {
                assert forall|a: int, b: int| 0 <= a < b < out.len() implies (#[trigger] out@[a]).world_id@ != (#[trigger] out@[b]).world_id@ by {
                    if a == k || b == k {
                        let o = if a == k { b } else { a };
                        let po = if o < k { o } else { o - 1 };
                        assert(out@[o] == prev[po]);
                        let j = choose|j: int| 0 <= j < i && items@[j] == #[trigger] prev[po];
                        assert(items@[j].world_id@ != items@[i as int].world_id@);
                    } else {
                        let pa = if a < k { a } else { a - 1 };
                        let pb = if b < k { b } else { b - 1 };
                        assert(out@[a] == prev[pa]);
                        assert(out@[b] == prev[pb]);
                    }
                }
            }
        }
        i += 1;
    }
    proof {
        assert forall|a: int| 0 <= a < out.len() implies items@.contains(#[trigger] out@[a]) by {
            let j = choose|j: int| 0 <= j < i && items@[j] == out@[a];
        }
    }
    out
}

/// Inserting a peer after all peers not after it keeps the order.
proof fn lemma_insert_by_station(prev: Seq<DiscoveredWorld>, k: int, x: DiscoveredWorld)
    requires
        0 <= k <= prev.len(),
        forall|a: int, b: int| 0 <= a < b < prev.len() ==> station_le(#[trigger] prev[a], #[trigger] prev[b]),
        forall|a: int| 0 <= a < k ==> station_le(#[trigger] prev[a], x),
        k < prev.len() ==> lex_lt(x.station_name@, prev[k].station_name@),
    ensures
        forall|a: int, b: int| 0 <= a < b < prev.len() + 1 ==> station_le(#[trigger] prev.insert(k, x)[a], #[trigger] prev.insert(k, x)[b]),
{
    let s = prev.insert(k, x);
    prev.insert_ensures(k, x);
    assert forall|a: int, b: int| 0 <= a < b < prev.len() + 1 implies station_le(#[trigger] s[a], #[trigger] s[b]) by {
        if b < k {
            assert(s[a] == prev[a] && s[b] == prev[b]);
        } else if b == k {
            assert(s[a] == prev[a]);
        } else if a == k {
            assert(s[b] == prev[b - 1]);
            if b - 1 > k {
                lemma_le_lt_chain(x.station_name@, prev[k].station_name@, prev[b - 1].station_name@);
            } else {
                lemma_lt_asym(x.station_name@, prev[k].station_name@);
            }
        } else if a < k {
            assert(s[a] == prev[a] && s[b] == prev[b - 1]);
        } else {
            assert(s[a] == prev[a - 1] && s[b] == prev[b - 1]);
        }
    }
}

/// `a < b` excludes `b < a`.
proof fn lemma_lt_asym(a: Seq<char>, b: Seq<char>)
    requires
        lex_lt(a, b),
    ensures
        !lex_lt(b, a),
{
    if lex_lt(b, a) {
        lemma_lex_lt_transitive(a, b, a);
        crate::text::lemma_lex_lt_irreflexive(a);
    }
}

/// `a < b` and `b <= c` give `a < c`, hence not `c < a`.
proof fn lemma_le_lt_chain(a: Seq<char>, b: Seq<char>, c: Seq<char>)
    requires
        lex_lt(a, b),
        !lex_lt(c, b),
    ensures
        !lex_lt(c, a),
{
    lemma_lex_total(b, c);
    if lex_lt(b, c) {
        lemma_lex_lt_transitive(a, b, c);
        lemma_lt_asym(a, c);
    } else {
        lemma_lt_asym(a, b);
    }
}

} // verus!
