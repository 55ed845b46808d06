//! Store-and-forward cache for mesh links: packets of opaque ciphertext relayed
//! between devices that meet only now and then, with deduplication, hop-count
//! decay, and eviction by age and by total size.
use vstd::prelude::*;

verus! {

/// Most message ids that the dedup memory holds; the oldest go first.
pub const MAX_SEEN_IDS: usize = 10_000;

/// A packet relayed through the mesh towards its recipient.
#[derive(Debug, Clone)]
pub struct MeshPacket {
    /// Unique message id, used for deduplication.
    pub message_id: String,
    /// Truncated hash of the recipient's key: enough to route, little to identify.
    pub recipient_hash: String,
    /// End-to-end encrypted payload that only the recipient can open.
    pub encrypted_payload: Vec<u8>,
    /// Hop budget, lowered at each relay; a packet at zero is dead.
    pub ttl: u8,
    /// Creation time in seconds since the Unix epoch.
    pub created_at: u64,
}

/// The mathematical value of a packet.
pub struct PacketView {
    pub message_id: Seq<char>,
    pub recipient_hash: Seq<char>,
    pub payload: Seq<u8>,
    pub ttl: u8,
    pub created_at: u64,
}

impl View for MeshPacket {
    type V = PacketView;

    open spec fn view(&self) -> PacketView {
        PacketView {
            message_id: self.message_id@,
            recipient_hash: self.recipient_hash@,
            payload: self.encrypted_payload@,
            ttl: self.ttl,
            created_at: self.created_at,
        }
    }
}

/// The packet is older than the age limit at time `now`.
pub open spec fn age_exceeded(p: PacketView, now: u64) -> bool {
    now > p.created_at && now - p.created_at > MeshPacket::MAX_AGE_SECS
}

/// The packet after one hop: its ttl lowered by one, stopping at zero.
pub open spec fn forwarded(p: PacketView) -> PacketView {
    PacketView { ttl: if p.ttl > 0 { (p.ttl - 1) as u8 } else { 0 }, ..p }
}

impl MeshPacket {
    /// Hop budget of a new packet.
    pub const MAX_TTL: u8 = 20;

    /// Age after which a packet is dropped: seven days.
    pub const MAX_AGE_SECS: u64 = 7 * 24 * 3600;

    /// Total payload that a store carries at most: 50 MiB.
    pub const MAX_STORE_BYTES: usize = 50 * 1024 * 1024;

    pub fn is_expired(&self, now: u64) -> (r: bool)
        ensures
            r == age_exceeded(self@, now),
    {
        now.saturating_sub(self.created_at) > Self::MAX_AGE_SECS
    }

    pub fn is_alive(&self) -> (r: bool)
        ensures
            r == (self.ttl > 0),
    {
        self.ttl > 0
    }

    /// Lowers the hop budget by one, before the packet is passed on.
    pub fn forward(&mut self)
        ensures
            final(self)@ == forwarded(old(self)@),
    {
        self.ttl = self.ttl.saturating_sub(1);
    }

    /// A copy of the packet, field by field.
    pub fn duplicate(&self) -> (r: MeshPacket)
        ensures
            r@ == self@,
    {
        let payload = self.encrypted_payload.clone();
        assert(payload@ =~= self.encrypted_payload@);
        MeshPacket {
            message_id: self.message_id.clone(),
            recipient_hash: self.recipient_hash.clone(),
            encrypted_payload: payload,
            ttl: self.ttl,
            created_at: self.created_at,
        }
    }
}


/// Advertisement of a mesh node, for discovery over a short-range radio.
#[derive(Debug, Clone)]
pub struct MeshBeacon {
    /// Protocol version.
    pub version: u8,
    /// Truncated hash of this node's key.
    pub node_hash: String,
    /// Number of packets this node carries, so that peers can pick whom to sync with first.
    pub packet_count: u32,
}

/// Outcome of a sync between two devices.
#[derive(Debug, Clone)]
pub struct MeshSyncResult {
    /// Packets received from the peer.
    pub received: u32,
    /// Packets sent to the peer.
    pub sent: u32,
    /// The peer's node hash.
    pub peer_hash: String,
}

/// Packets relayed by this device, and the ids it has seen.
#[derive(Debug, Clone)]
pub struct MeshStore {
    /// Packets carried for other users, oldest admitted first.
    pub packets: Vec<MeshPacket>,
    /// Message ids already seen, oldest first, for deduplication.
    pub seen_ids: Vec<String>,
}

/// The mathematical value of a store.
pub struct StoreView {
    pub packets: Seq<PacketView>,
    pub seen: Seq<Seq<char>>,
}

pub open spec fn packet_views(v: Seq<MeshPacket>) -> Seq<PacketView> {
    v.map_values(|p: MeshPacket| p@)
}

pub open spec fn id_views(v: Seq<String>) -> Seq<Seq<char>> {
    v.map_values(|s: String| s@)
}

impl View for MeshStore {
    type V = StoreView;

    open spec fn view(&self) -> StoreView {
        StoreView { packets: packet_views(self.packets@), seen: id_views(self.seen_ids@) }
    }
}

/// The packet may still be carried at time `now`: young enough, with hops left.
pub open spec fn is_carried(p: PacketView, now: u64) -> bool {
    !age_exceeded(p, now) && p.ttl > 0
}

/// Sum of the payload sizes.
pub open spec fn total_payload(s: Seq<PacketView>) -> int
    decreases s.len(),
{
    if s.len() == 0 {
        0
    } else {
        s[0].payload.len() + total_payload(s.drop_first())
    }
}

/// Drops the oldest packets while the total payload is over the store's capacity.
pub open spec fn trim_to_capacity(s: Seq<PacketView>) -> Seq<PacketView>
    decreases s.len(),
{
    if s.len() == 0 || total_payload(s) <= MeshPacket::MAX_STORE_BYTES {
        s
    } else {
        trim_to_capacity(s.drop_first())
    }
}

/// The most recent `MAX_SEEN_IDS` ids.
pub open spec fn recent_ids(seen: Seq<Seq<char>>) -> Seq<Seq<char>> {
    if seen.len() > MAX_SEEN_IDS {
        seen.skip(seen.len() - MAX_SEEN_IDS)
    } else {
        seen
    }
}

pub open spec fn carried_at(s: Seq<PacketView>, now: u64) -> Seq<PacketView> {
    s.filter(|p: PacketView| is_carried(p, now))
}

/// The store after garbage collection at time `now`.
pub open spec fn collected(s: StoreView, now: u64) -> StoreView {
    StoreView { packets: trim_to_capacity(carried_at(s.packets, now)), seen: recent_ids(s.seen) }
}

/// A packet is admitted when its id is new and it has hops left.
pub open spec fn admits(s: StoreView, p: PacketView) -> bool {
    !s.seen.contains(p.message_id) && p.ttl > 0
}

/// The store after admitting `p` at time `now`.
pub open spec fn admitted(s: StoreView, p: PacketView, now: u64) -> StoreView {
    collected(StoreView { packets: s.packets.push(p), seen: s.seen.push(p.message_id) }, now)
}

/// What a peer that has seen `peer_seen` is missing: the carried packets whose
/// ids it lacks.
pub open spec fn missing_for(s: StoreView, peer_seen: Seq<Seq<char>>, now: u64) -> Seq<PacketView> {
    s.packets.filter(|p: PacketView| is_carried(p, now) && !peer_seen.contains(p.message_id))
}

pub open spec fn addressed_to(s: Seq<PacketView>, hash: Seq<char>) -> Seq<PacketView> {
    s.filter(|p: PacketView| p.recipient_hash == hash)
}

pub open spec fn not_addressed_to(s: Seq<PacketView>, hash: Seq<char>) -> Seq<PacketView> {
    s.filter(|p: PacketView| p.recipient_hash != hash)
}

proof fn lemma_total_payload_skip(s: Seq<PacketView>, j: int)
    requires
        0 <= j < s.len(),
    ensures
        total_payload(s.skip(j)) == s[j].payload.len() + total_payload(s.skip(j + 1)),
{
    assert(s.skip(j).drop_first() =~= s.skip(j + 1));
}

proof fn lemma_total_payload_monotone(s: Seq<PacketView>, j: int, k: int)
    requires
        0 <= j <= k <= s.len(),
    ensures
        total_payload(s.skip(j)) >= total_payload(s.skip(k)),
    decreases k - j,
{
    if j < k {
        lemma_total_payload_skip(s, j);
        lemma_total_payload_monotone(s, j + 1, k);
    }
}

proof fn lemma_trim_is_suffix(s: Seq<PacketView>, k: int)
    requires
        0 <= k <= s.len(),
        total_payload(s.skip(k)) <= MeshPacket::MAX_STORE_BYTES,
        k == 0 || total_payload(s.skip(k - 1)) > MeshPacket::MAX_STORE_BYTES,
    ensures
        trim_to_capacity(s) == s.skip(k),
    decreases k,
{
    if k == 0 {
        assert(s.skip(0) =~= s);
    } else {
        lemma_total_payload_monotone(s, 0, k - 1);
        assert(s.skip(0) =~= s);
        let t = s.drop_first();
        assert(t.skip(k - 1) =~= s.skip(k));
        if k > 1 {
            assert(t.skip(k - 2) =~= s.skip(k - 1));
        }
        lemma_trim_is_suffix(t, k - 1);
    }
}

proof fn lemma_filter_take_step(s: Seq<PacketView>, i: int, pred: spec_fn(PacketView) -> bool)
    requires
        0 <= i < s.len(),
    ensures
        s.take(i + 1).filter(pred) == (if pred(s[i]) {
            s.take(i).filter(pred).push(s[i])
        } else {
            s.take(i).filter(pred)
        }),
{
    reveal(Seq::filter);
    assert(s.take(i + 1).drop_last() =~= s.take(i));
    assert(s.take(i + 1).last() == s[i]);
}

proof fn lemma_views_push(v: Seq<MeshPacket>, p: MeshPacket)
    ensures
        packet_views(v.push(p)) == packet_views(v).push(p@),
{
    assert(packet_views(v.push(p)) =~= packet_views(v).push(p@));
}

/// Is `id` among `ids`?
fn contains_id(ids: &[String], id: &String) -> (r: bool)
    ensures
        r == id_views(ids@).contains(id@),
{
    let mut i: usize = 0;
    while i < ids.len()
        invariant
            i <= ids@.len(),
            forall|j: int| 0 <= j < i ==> ids@[j]@ != id@,
        decreases ids@.len() - i,
    {
        if ids[i] == *id {
            assert(id_views(ids@)[i as int] == id@);
            return true;
        }
        i += 1;
    }
    assert forall|j: int| 0 <= j < id_views(ids@).len() implies id_views(ids@)[j] != id@ by {
        assert(ids@[j]@ != id@);
    }
    false
}

/// Relies on `SystemTime::now`: the current time in seconds since the Unix
/// epoch, read from the system clock (zero if the clock is set before it).
#[verifier::external_body]
fn unix_now() -> (r: u64) {
    std::time::SystemTime::now().duration_since(std::time::UNIX_EPOCH).unwrap_or_default().as_secs()
}

impl Default for MeshStore {
    fn default() -> (r: Self)
        ensures
            r@.packets.len() == 0,
            r@.seen.len() == 0,
    {
        MeshStore::new()
    }
}

impl MeshStore {
    pub fn new() -> (r: MeshStore)
        ensures
            r@.packets.len() == 0,
            r@.seen.len() == 0,
    {
        MeshStore { packets: Vec::new(), seen_ids: Vec::new() }
    }

    /// Garbage collection at time `now`: drops packets that are too old or out
    /// of hops, keeps the most recent `MAX_SEEN_IDS` seen ids, and drops the
    /// oldest packets while the total payload is over `MAX_STORE_BYTES`.
    pub fn gc_at(&mut self, now: u64)
        ensures
            final(self)@ == collected(old(self)@, now),
    {
        let ghost src = packet_views(self.packets@);
        let mut kept: Vec<MeshPacket> = Vec::new();
        let mut i: usize = 0;
        while i < self.packets.len()
            invariant
                i <= self.packets@.len(),
                src == packet_views(self.packets@),
                packet_views(kept@) == carried_at(src.take(i as int), now),
            decreases self.packets@.len() - i,
        {
            let p = &self.packets[i];
            proof {
                lemma_filter_take_step(src, i as int, |p: PacketView| is_carried(p, now));
            }
            if !p.is_expired(now) && p.is_alive() {
                let q = p.duplicate();
                proof {
                    lemma_views_push(kept@, q);
                }
                kept.push(q);
            }
            i += 1;
        }
        assert(src.take(i as int) =~= src);
        let ghost live = packet_views(kept@);

        if self.seen_ids.len() > MAX_SEEN_IDS {
            let drop = self.seen_ids.len() - MAX_SEEN_IDS;
            let ghost before = id_views(self.seen_ids@);
            let recent = self.seen_ids.split_off(drop);
            self.seen_ids = recent;
            assert(id_views(self.seen_ids@) =~= before.skip(drop as int));
        }

        let mut start: usize = kept.len();
        let mut acc: usize = 0;
        while start > 0 && kept[start - 1].encrypted_payload.len() <= MeshPacket::MAX_STORE_BYTES
            - acc
            invariant
                start <= kept@.len(),
                live == packet_views(kept@),
                acc <= MeshPacket::MAX_STORE_BYTES,
                acc == total_payload(live.skip(start as int)),
            decreases start,
        {
            proof {
                lemma_total_payload_skip(live, start - 1);
            }
            acc = acc + kept[start - 1].encrypted_payload.len();
            start = start - 1;
        }
        proof {
            if start > 0 {
                lemma_total_payload_skip(live, start - 1);
            }
            lemma_trim_is_suffix(live, start as int);
        }
        let tail = kept.split_off(start);
        assert(packet_views(tail@) =~= live.skip(start as int));
        self.packets = tail;
    }

    /// Garbage collection at the current time of the system clock.
    pub fn gc(&mut self)
        ensures
            exists|now: u64| final(self)@ == collected(old(self)@, now),
    {
        let now = unix_now();
        self.gc_at(now);
    }

    /// Admits a packet unless its id was seen before or it has no hops left;
    /// an admitted packet's id is recorded, the packet appended, and garbage
    /// collection run at time `now`.
    pub fn accept_packet_at(&mut self, packet: MeshPacket, now: u64) -> (r: bool)
        ensures
            r == admits(old(self)@, packet@),
            r ==> final(self)@ == admitted(old(self)@, packet@, now),
            !r ==> final(self)@ == old(self)@,
    {
        if contains_id(self.seen_ids.as_slice(), &packet.message_id) {
            return false;
        }
        if !packet.is_alive() {
            return false;
        }
        let ghost before = self@;
        let id = packet.message_id.clone();
        proof {
            assert(id_views(self.seen_ids@.push(id)) =~= id_views(self.seen_ids@).push(id@));
            lemma_views_push(self.packets@, packet);
        }
        self.seen_ids.push(id);
        self.packets.push(packet);
        self.gc_at(now);
        true
    }

    /// `accept_packet_at` at the current time of the system clock.
    pub fn accept_packet(&mut self, packet: MeshPacket) -> (r: bool)
        ensures
            r == admits(old(self)@, packet@),
            r ==> exists|now: u64| final(self)@ == admitted(old(self)@, packet@, now),
            !r ==> final(self)@ == old(self)@,
    {
        let now = unix_now();
        self.accept_packet_at(packet, now)
    }

    /// The packets that a peer which has seen `peer_seen` lacks: those still
    /// carried at time `now` whose ids are not in `peer_seen`, in store order.
    pub fn get_packets_for_sync_at(&self, peer_seen: &[String], now: u64) -> (r: Vec<MeshPacket>)
        ensures
            packet_views(r@) == missing_for(self@, id_views(peer_seen@), now),
    {
        let ghost src = self@.packets;
        let ghost seen = id_views(peer_seen@);
        let mut out: Vec<MeshPacket> = Vec::new();
        let mut i: usize = 0;
        while i < self.packets.len()
            invariant
                i <= self.packets@.len(),
                src == packet_views(self.packets@),
                seen == id_views(peer_seen@),
                packet_views(out@) == src.take(i as int).filter(
                    |p: PacketView| is_carried(p, now) && !seen.contains(p.message_id),
                ),
            decreases self.packets@.len() - i,
        {
            let p = &self.packets[i];
            proof {
                lemma_filter_take_step(
                    src,
                    i as int,
                    |p: PacketView| is_carried(p, now) && !seen.contains(p.message_id),
                );
            }
            if !p.is_expired(now) && p.is_alive() && !contains_id(peer_seen, &p.message_id) {
                let q = p.duplicate();
                proof {
                    lemma_views_push(out@, q);
                }
                out.push(q);
            }
            i += 1;
        }
        assert(src.take(i as int) =~= src);
        out
    }

    /// `get_packets_for_sync_at` at the current time of the system clock.
    pub fn get_packets_for_sync(&self, peer_seen: &[String]) -> (r: Vec<MeshPacket>)
        ensures
            exists|now: u64| packet_views(r@) == missing_for(self@, id_views(peer_seen@), now),
    {
        let now = unix_now();
        self.get_packets_for_sync_at(peer_seen, now)
    }

    /// Takes out the packets addressed to `my_hash`, in store order, and
    /// leaves the others in the store.
    pub fn extract_my_packets(&mut self, my_hash: &str) -> (r: Vec<MeshPacket>)
        ensures
            packet_views(r@) == addressed_to(old(self)@.packets, my_hash@),
            final(self)@.packets == not_addressed_to(old(self)@.packets, my_hash@),
            final(self)@.seen == old(self)@.seen,
    {
        let ghost src = self@.packets;
        let target = my_hash.to_owned();
        let mut mine: Vec<MeshPacket> = Vec::new();
        let mut others: Vec<MeshPacket> = Vec::new();
        let mut i: usize = 0;
        while i < self.packets.len()
            invariant
                i <= self.packets@.len(),
                src == packet_views(self.packets@),
                target@ == my_hash@,
                packet_views(mine@) == addressed_to(src.take(i as int), my_hash@),
                packet_views(others@) == not_addressed_to(src.take(i as int), my_hash@),
            decreases self.packets@.len() - i,
        {
            let p = &self.packets[i];
            proof {
                lemma_filter_take_step(src, i as int, |p: PacketView| p.recipient_hash == my_hash@);
                lemma_filter_take_step(src, i as int, |p: PacketView| p.recipient_hash != my_hash@);
            }
            let q = p.duplicate();
            if p.recipient_hash == target {
                proof {
                    lemma_views_push(mine@, q);
                }
                mine.push(q);
            } else {
                proof {
                    lemma_views_push(others@, q);
                }
                others.push(q);
            }
            i += 1;
        }
        assert(src.take(i as int) =~= src);
        self.packets = others;
        mine
    }
}

/// The packet after `n` hops.
pub open spec fn forwarded_times(p: PacketView, n: nat) -> PacketView
    decreases n,
{
    if n == 0 {
        p
    } else {
        forwarded(forwarded_times(p, (n - 1) as nat))
    }
}

proof fn lemma_trim_within(s: Seq<PacketView>, x: PacketView)
    requires
        trim_to_capacity(s).contains(x),
    ensures
        s.contains(x),
    decreases s.len(),
{
    if !(s.len() == 0 || total_payload(s) <= MeshPacket::MAX_STORE_BYTES) {
        let t = s.drop_first();
        lemma_trim_within(t, x);
        let j = choose|j: int| 0 <= j < t.len() && t[j] == x;
        assert(s[j + 1] == x);
    }
}

proof fn lemma_trim_keeps_last(s: Seq<PacketView>)
    requires
        s.len() > 0,
        s.last().payload.len() <= MeshPacket::MAX_STORE_BYTES,
    ensures
        trim_to_capacity(s).len() > 0,
        trim_to_capacity(s).len() <= s.len(),
        trim_to_capacity(s) == s.skip(s.len() - trim_to_capacity(s).len()),
    decreases s.len(),
{
    if total_payload(s) <= MeshPacket::MAX_STORE_BYTES {
        assert(s.skip(0) =~= s);
    } else {
        if s.len() == 1 {
            assert(s.last() == s[0]);
            assert(total_payload(s.drop_first()) == 0);
            assert(false);
        }
        let t = s.drop_first();
        lemma_trim_keeps_last(t);
        assert(t.skip(t.len() - trim_to_capacity(t).len()) =~= s.skip(
            s.len() - trim_to_capacity(t).len(),
        ));
    }
}

proof fn lemma_filter_none(s: Seq<PacketView>, pred: spec_fn(PacketView) -> bool)
    requires
        forall|i: int| 0 <= i < s.len() ==> !pred(s[i]),
    ensures
        s.filter(pred).len() == 0,
    decreases s.len(),
{
    reveal(Seq::filter);
    if s.len() > 0 {
        lemma_filter_none(s.drop_last(), pred);
    }
}

/// Deduplication: a packet whose id the store has never held, that is still
/// carried at `now` and fits the store alone, is admitted; offered again under
/// the same id it is refused, and the store then holds exactly one packet with
/// that id: the one admitted.
pub proof fn lemma_dedup(s: StoreView, p: PacketView, q: PacketView, now: u64)
    requires
        !s.seen.contains(p.message_id),
        forall|i: int| 0 <= i < s.packets.len() ==> s.packets[i].message_id != p.message_id,
        is_carried(p, now),
        p.payload.len() <= MeshPacket::MAX_STORE_BYTES,
        q.message_id == p.message_id,
    ensures
        admits(s, p),
        !admits(admitted(s, p, now), q),
        admitted(s, p, now).packets.filter(|x: PacketView| x.message_id == p.message_id) == seq![p],
{
    let seen = s.seen.push(p.message_id);
    let kept = recent_ids(seen);
    assert(kept[kept.len() - 1] == p.message_id);
    let c = carried_at(s.packets, now);
    let pred = |x: PacketView| is_carried(x, now);
    s.packets.lemma_filter_push(p, pred);
    let t = c.push(p);
    assert(carried_at(s.packets.push(p), now) == t);
    lemma_trim_keeps_last(t);
    let tr = trim_to_capacity(t);
    let u = tr.drop_last();
    let same = |x: PacketView| x.message_id == p.message_id;
    assert forall|i: int| 0 <= i < u.len() implies !same(u[i]) by {
        let k = t.len() - tr.len();
        assert(u[i] == t[k + i]);
        assert(c.contains(t[k + i]));
        s.packets.lemma_filter_contains_rev(pred, t[k + i]);
    }
    lemma_filter_none(u, same);
    assert(u.push(p) =~= tr);
    u.lemma_filter_push(p, same);
    assert(u.filter(same).push(p) =~= seq![p]);
}

/// Hop limit: a packet forwarded as many times as its ttl has a ttl of zero,
/// and no store admits it.
pub proof fn lemma_ttl_exhausted(s: StoreView, p: PacketView)
    ensures
        forwarded_times(p, p.ttl as nat).ttl == 0,
        !admits(s, forwarded_times(p, p.ttl as nat)),
{
    lemma_forwarded_times_ttl(p, p.ttl as nat);
}

/// After `n` hops the ttl is `n` lower, stopping at zero.
pub proof fn lemma_forwarded_times_ttl(p: PacketView, n: nat)
    ensures
        forwarded_times(p, n).ttl == (if n <= p.ttl { p.ttl - n } else { 0 }),
    decreases n,
{
    if n > 0 {
        lemma_forwarded_times_ttl(p, (n - 1) as nat);
    }
}

/// Age limit: after garbage collection at `now` the store holds no packet
/// older than the age limit, whatever its ttl.
pub proof fn lemma_age_gc(s: StoreView, now: u64, p: PacketView)
    requires
        age_exceeded(p, now),
    ensures
        !collected(s, now).packets.contains(p),
{
    if collected(s, now).packets.contains(p) {
        lemma_trim_within(carried_at(s.packets, now), p);
        let pred = |x: PacketView| is_carried(x, now);
        let c = carried_at(s.packets, now);
        let j = choose|j: int| 0 <= j < c.len() && c[j] == p;
        s.packets.lemma_filter_pred(pred, j);
    }
}

/// Sync completeness: what a peer is handed holds a packet exactly when the
/// store carries it at `now` and the peer has not seen its id.
pub proof fn lemma_sync_complete(s: StoreView, peer_seen: Seq<Seq<char>>, now: u64, p: PacketView)
    ensures
        missing_for(s, peer_seen, now).contains(p) <==> (s.packets.contains(p) && is_carried(p, now)
            && !peer_seen.contains(p.message_id)),
{
    let pred = |x: PacketView| is_carried(x, now) && !peer_seen.contains(x.message_id);
    let m = missing_for(s, peer_seen, now);
    if m.contains(p) {
        s.packets.lemma_filter_contains_rev(pred, p);
        let j = choose|j: int| 0 <= j < m.len() && m[j] == p;
        s.packets.lemma_filter_pred(pred, j);
    }
    if s.packets.contains(p) && is_carried(p, now) && !peer_seen.contains(p.message_id) {
        let j = choose|j: int| 0 <= j < s.packets.len() && s.packets[j] == p;
        s.packets.lemma_filter_contains(pred, j);
    }
}

} // verus!
