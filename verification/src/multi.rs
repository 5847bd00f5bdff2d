//! Multi-source capture: bus mapping, the transmit routing table, the
//! merge engine that batches and orders frames from several sources, and
//! the combined capability record.

use vstd::prelude::*;

use crate::error::IoError;
use crate::frame::{CanTransmitFrame, Frame, IOCapabilities};
use crate::gvret;
use crate::strutil::str_eq;
use vstd::multiset::Multiset;
use vstd::string::StringExecFns;

verus! {

/// One bus mapping of a source: traffic seen on `device_bus` appears as
/// `output_bus` when the mapping is enabled.
#[derive(Clone, Copy, Debug, PartialEq, Eq, Structural)]
pub struct BusMapping {
    /// The bus number as the device reports it.
    pub device_bus: u8,
    /// The logical bus number in the merged stream.
    pub output_bus: u8,
    /// Disabled mappings drop their traffic.
    pub enabled: bool,
}

/// Configuration of a single source in a multi-source session.
#[derive(Clone, Debug)]
pub struct SourceConfig {
    /// Profile to open.
    pub profile_id: String,
    /// Profile kind (`gvret_tcp`, `gvret_usb`, `gs_usb`, `socketcan`,
    /// `slcan`, `serial`).
    pub profile_kind: String,
    /// Human-readable name.
    pub display_name: String,
    /// Bus mappings for this source.
    pub bus_mappings: Vec<BusMapping>,
}

/// The output bus the first enabled matching mapping rewrites `bus` to,
/// if any; every mapping is consulted and the first enabled match wins.
pub open spec fn spec_bus_mapping(mappings: Seq<BusMapping>, bus: u8) -> Option<u8>
    decreases mappings.len(),
{
    if mappings.len() == 0 {
        None
    } else if mappings[0].enabled && mappings[0].device_bus == bus {
        Some(mappings[0].output_bus)
    } else {
        spec_bus_mapping(mappings.skip(1), bus)
    }
}

/// Applies a source's bus mappings to a frame: rewrites the bus through
/// the first enabled matching mapping and returns true, or returns false
/// (frame untouched) when no enabled mapping matches — the caller drops
/// such frames.
pub fn apply_bus_mapping(frame: &mut Frame, mappings: &Vec<BusMapping>) -> (r: bool)
    ensures
        match spec_bus_mapping(mappings@, old(frame).bus) {
            Some(out) => r && *final(frame) == (Frame { bus: out, ..*old(frame) }),
            None => !r && *final(frame) == *old(frame),
        },
{
    let n = mappings.len();
    let mut i: usize = 0;
    proof {
        assert(mappings@.skip(0) =~= mappings@);
    }
    while i < n
        invariant
            i <= n == mappings@.len(),
            *frame == *old(frame),
            spec_bus_mapping(mappings@, old(frame).bus) == spec_bus_mapping(
                mappings@.skip(i as int),
                old(frame).bus,
            ),
        decreases n - i,
    {
        proof {
            assert(mappings@.skip(i as int)[0] == mappings@[i as int]);
            assert(mappings@.skip(i as int).skip(1) =~= mappings@.skip(i as int + 1));
        }
        if mappings[i].enabled && mappings[i].device_bus == frame.bus {
            frame.bus = mappings[i].output_bus;
            return true;
        }
        i = i + 1;
    }
    false
}

/// Where a transmit on some output bus goes: which source, under which
/// device bus, with which protocol.
#[derive(Clone, Debug)]
pub struct TransmitRoute {
    /// Index of the source in the session's source list.
    pub source_idx: usize,
    /// Profile kind of the source, selecting the encoder.
    pub profile_kind: String,
    /// The device bus to rewrite the frame to.
    pub device_bus: u8,
}

/// The route registered for `bus`, scanning newest registrations first.
pub open spec fn route_lookup(routes: Seq<(u8, TransmitRoute)>, bus: u8) -> Option<TransmitRoute>
    decreases routes.len(),
{
    if routes.len() == 0 {
        None
    } else if routes.last().0 == bus {
        Some(routes.last().1)
    } else {
        route_lookup(routes.drop_last(), bus)
    }
}

/// The last mapping before position `j` of a row that carries `bus`
/// enabled, if any.
pub open spec fn row_route_upto(maps: Seq<BusMapping>, bus: u8, j: int) -> Option<int>
    decreases j,
{
    if j <= 0 {
        None
    } else if 0 < j <= maps.len() && maps[j - 1].enabled && maps[j - 1].output_bus == bus {
        Some(j - 1)
    } else {
        row_route_upto(maps, bus, j - 1)
    }
}

/// The last enabled mapping carrying `bus` among the first `i` sources, as
/// a (source, mapping) position in walk order, if any.
pub open spec fn spec_route_source(sources: Seq<SourceConfig>, bus: u8, i: int) -> Option<
    (int, int),
>
    decreases i,
{
    if i <= 0 || i > sources.len() {
        None
    } else {
        match row_route_upto(
            sources[i - 1].bus_mappings@,
            bus,
            sources[i - 1].bus_mappings@.len() as int,
        ) {
            Some(m) => Some((i - 1, m)),
            None => spec_route_source(sources, bus, i - 1),
        }
    }
}

/// How a routing-table entry corresponds to the mapping position it was
/// built from.
pub open spec fn route_entry_matches(
    sources: Seq<SourceConfig>,
    route: TransmitRoute,
    s: int,
    m: int,
    bus: u8,
) -> bool {
    &&& 0 <= s < sources.len()
    &&& 0 <= m < sources[s].bus_mappings@.len()
    &&& sources[s].bus_mappings@[m].enabled
    &&& sources[s].bus_mappings@[m].output_bus == bus
    &&& route.source_idx as int == s
    &&& route.device_bus == sources[s].bus_mappings@[m].device_bus
    &&& route.profile_kind@ == sources[s].profile_kind@
}

/// The correspondence the builder maintains: for every output bus, the
/// table's lookup answers exactly the last enabled mapping of the walk so
/// far (sources before `i` in full, then source `i`'s first `j` mappings).
pub open spec fn routes_correspond(
    routes: Seq<(u8, TransmitRoute)>,
    sources: Seq<SourceConfig>,
    i: int,
    j: int,
) -> bool {
    forall|b: u8|
        #![trigger route_lookup(routes, b)]
        match (
            route_lookup(routes, b),
            (match row_route_upto(sources[i].bus_mappings@, b, j) {
                Some(m) => Some((i, m)),
                None => spec_route_source(sources, b, i),
            }),
        ) {
            (Some(route), Some((s, m))) => route_entry_matches(sources, route, s, m, b),
            (None, None) => true,
            _ => false,
        }
}

/// Builds the transmit routing table of a session: for every enabled
/// mapping of every source, the output bus routes to that source and its
/// device bus; later registrations override earlier ones.
pub fn build_transmit_routes(sources: &Vec<SourceConfig>) -> (r: Vec<(u8, TransmitRoute)>)
    ensures
        forall|b: u8|
            #![trigger route_lookup(r@, b)]
            match (route_lookup(r@, b), spec_route_source(sources@, b, sources@.len() as int)) {
                (Some(route), Some((s, m))) => route_entry_matches(sources@, route, s, m, b),
                (None, None) => true,
                _ => false,
            },
{
    let mut routes: Vec<(u8, TransmitRoute)> = Vec::new();
    let mut i: usize = 0;
    proof {
        lemma_route_source_none(sources@, 0);
        assert forall|b: u8| #[trigger] route_lookup(routes@, b) is None by {
            assert(routes@.len() == 0);
        }
    }
    while i < sources.len()
        invariant
            i <= sources@.len(),
            forall|b: u8|
                #![trigger route_lookup(routes@, b)]
                match (route_lookup(routes@, b), spec_route_source(sources@, b, i as int)) {
                    (Some(route), Some((s, m))) => route_entry_matches(sources@, route, s, m, b),
                    (None, None) => true,
                    _ => false,
                },
        decreases sources@.len() - i,
    {
        let mut j: usize = 0;
        proof {
            lemma_routes_row_start(routes@, sources@, i as int);
        }
        while j < sources[i].bus_mappings.len()
            invariant
                i < sources@.len(),
                j <= sources@[i as int].bus_mappings@.len(),
                routes_correspond(routes@, sources@, i as int, j as int),
            decreases sources@[i as int].bus_mappings@.len() - j,
        {
            let ghost pre = routes@;
            let m = sources[i].bus_mappings[j];
            if m.enabled {
                let kind = sources[i].profile_kind.clone();
                routes.push(
                    (
                        m.output_bus,
                        TransmitRoute {
                            source_idx: i,
                            profile_kind: kind,
                            device_bus: m.device_bus,
                        },
                    ),
                );
                proof {
                    assert(routes@.drop_last() =~= pre);
                    assert forall|b: u8|
                        match (
                            #[trigger] route_lookup(routes@, b),
                            (match row_route_upto(
                                sources@[i as int].bus_mappings@,
                                b,
                                j as int + 1,
                            ) {
                                Some(mm) => Some((i as int, mm)),
                                None => spec_route_source(sources@, b, i as int),
                            }),
                        ) {
                            (Some(route), Some((s, mm))) => route_entry_matches(
                                sources@,
                                route,
                                s,
                                mm,
                                b,
                            ),
                            (None, None) => true,
                            _ => false,
                        } by {
                        if b != m.output_bus {
                            assert(route_lookup(routes@, b) == route_lookup(pre, b));
                        }
                    }
                }
            } else {
                proof {
                    assert forall|b: u8|
                        row_route_upto(
                            sources@[i as int].bus_mappings@,
                            b,
                            j as int + 1,
                        ) == #[trigger] row_route_upto(
                            sources@[i as int].bus_mappings@,
                            b,
                            j as int,
                        ) by {}
                }
            }
            j = j + 1;
        }
        proof {
            lemma_routes_row_end(routes@, sources@, i as int);
        }
        i = i + 1;
    }
    routes
}

/// Below the first source nothing routes.
proof fn lemma_route_source_none(sources: Seq<SourceConfig>, i: int)
    requires
        i <= 0,
    ensures
        forall|b: u8| #[trigger] spec_route_source(sources, b, i) is None,
{
}

/// Entering a source's row: its empty prefix routes nothing, so the
/// correspondence carries over from the sources before it.
proof fn lemma_routes_row_start(
    routes: Seq<(u8, TransmitRoute)>,
    sources: Seq<SourceConfig>,
    i: int,
)
    requires
        0 <= i < sources.len(),
        forall|b: u8|
            #![trigger route_lookup(routes, b)]
            match (route_lookup(routes, b), spec_route_source(sources, b, i)) {
                (Some(route), Some((s, m))) => route_entry_matches(sources, route, s, m, b),
                (None, None) => true,
                _ => false,
            },
    ensures
        routes_correspond(routes, sources, i, 0),
{
    assert forall|b: u8| #[trigger] row_route_upto(sources[i].bus_mappings@, b, 0) is None by {}
}

/// Leaving a source's row: its full prefix is exactly what the next
/// source count sees.
proof fn lemma_routes_row_end(
    routes: Seq<(u8, TransmitRoute)>,
    sources: Seq<SourceConfig>,
    i: int,
)
    requires
        0 <= i < sources.len(),
        routes_correspond(routes, sources, i, sources[i].bus_mappings@.len() as int),
    ensures
        forall|b: u8|
            #![trigger route_lookup(routes, b)]
            match (route_lookup(routes, b), spec_route_source(sources, b, i + 1)) {
                (Some(route), Some((s, m))) => route_entry_matches(sources, route, s, m, b),
                (None, None) => true,
                _ => false,
            },
{
    assert forall|b: u8|
        #[trigger] spec_route_source(sources, b, i + 1) == (match row_route_upto(
            sources[i].bus_mappings@,
            b,
            sources[i].bus_mappings@.len() as int,
        ) {
            Some(m) => Some((i, m)),
            None => spec_route_source(sources, b, i),
        }) by {}
}

/// Finds the transmit route for an output bus, newest registration first.
pub fn find_route(routes: &Vec<(u8, TransmitRoute)>, bus: u8) -> (r: Option<&TransmitRoute>)
    ensures
        match (r, route_lookup(routes@, bus)) {
            (Some(a), Some(b)) => *a == b,
            (None, None) => true,
            _ => false,
        },
{
    let n = routes.len();
    let mut i: usize = n;
    proof {
        assert(routes@.take(n as int) =~= routes@);
    }
    while i > 0
        invariant
            i <= n == routes@.len(),
            route_lookup(routes@, bus) == route_lookup(routes@.take(i as int), bus),
        decreases i,
    {
        proof {
            assert(routes@.take(i as int).last() == routes@[i - 1]);
            assert(routes@.take(i as int).drop_last() =~= routes@.take(i - 1));
        }
        if routes[i - 1].0 == bus {
            return Some(&routes[i - 1].1);
        }
        i = i - 1;
    }
    proof {
        assert(routes@.take(0) =~= Seq::<(u8, TransmitRoute)>::empty());
    }
    None
}

/// The wire encodings a transmit can be routed to.
pub open spec fn spec_routed_encoding(kind: Seq<char>, routed: CanTransmitFrame) -> Option<
    Seq<u8>,
> {
    if kind == "gvret_tcp"@ || kind == "gvret_usb"@ {
        if gvret::gvret_frame_valid(routed) {
            Some(gvret::spec_encode_gvret(routed))
        } else {
            None
        }
    } else if kind == "slcan"@ {
        Some(
            vstd::utf8::encode_utf8(
                crate::slcan::spec_slcan_cmd(
                    routed.frame_id,
                    if routed.data@.len() <= 8 {
                        routed.data@.len() as u8
                    } else {
                        8
                    },
                    (if routed.data@.len() <= 8 {
                        routed.data@
                    } else {
                        routed.data@.take(8)
                    }),
                    routed.is_extended,
                    routed.is_rtr && routed.data@.len() == 0,
                ),
            ),
        )
    } else if kind == "gs_usb"@ {
        if routed.frame_id <= 0x1FFF_FFFF {
            Some(crate::gs_usb::spec_gs_usb_record(routed, 0))
        } else {
            None
        }
    } else if kind == "socketcan"@ {
        if routed.frame_id <= 0x1FFF_FFFF {
            Some(crate::socketcan_dev::spec_socketcan_record(routed))
        } else {
            None
        }
    } else {
        None
    }
}

/// Routes an outbound frame: looks the output bus up in the routing
/// table, rewrites it to the source's device bus, and encodes for the
/// source's protocol.  A bus with no route, an unroutable kind, or a
/// frame the protocol rejects is a configuration error.
pub fn route_transmit(routes: &Vec<(u8, TransmitRoute)>, frame: &CanTransmitFrame) -> (r: Result<
    (usize, Vec<u8>),
    IoError,
>)
    ensures
        match route_lookup(routes@, frame.bus) {
            None => r is Err,
            Some(route) => {
                let routed = CanTransmitFrame { bus: route.device_bus, ..*frame };
                match spec_routed_encoding(route.profile_kind@, routed) {
                    Some(data) => r matches Ok((idx, d)) && idx == route.source_idx && d@
                        == data,
                    None => r is Err,
                }
            },
        },
        r matches Err(e) ==> (e is Configuration || e is Transmission),
{
    proof {
        reveal_strlit("gvret_tcp");
        reveal_strlit("gvret_usb");
        reveal_strlit("slcan");
        reveal_strlit("gs_usb");
        reveal_strlit("socketcan");
        reveal_strlit("no source is mapped to this bus");
        reveal_strlit("unsupported profile kind for transmission");
        reveal_strlit("identifier does not fit the protocol");
    }
    let route = match find_route(routes, frame.bus) {
        Some(x) => x,
        None => {
            return Err(IoError::configuration("no source is mapped to this bus"));
        },
    };
    let mut data: Vec<u8> = Vec::new();
    let mut k: usize = 0;
    while k < frame.data.len()
        invariant
            k <= frame.data@.len(),
            data@ =~= frame.data@.take(k as int),
        decreases frame.data@.len() - k,
    {
        data.push(frame.data[k]);
        k = k + 1;
        proof {
            assert(data@ =~= frame.data@.take(k as int));
        }
    }
    proof {
        assert(frame.data@.take(frame.data@.len() as int) =~= frame.data@);
    }
    let routed = CanTransmitFrame {
        frame_id: frame.frame_id,
        data,
        bus: route.device_bus,
        is_extended: frame.is_extended,
        is_fd: frame.is_fd,
        is_brs: frame.is_brs,
        is_rtr: frame.is_rtr,
    };
    let kind = route.profile_kind.as_str();
    if str_eq(kind, "gvret_tcp") || str_eq(kind, "gvret_usb") {
        match gvret::validate_gvret_frame(&routed) {
            Ok(()) => Ok((route.source_idx, gvret::encode_gvret_frame(&routed))),
            Err(t) => {
                let details = match t.message {
                    Some(m) => m,
                    None => String::new(),
                };
                Err(IoError::Configuration { details })
            },
        }
    } else if str_eq(kind, "slcan") {
        Ok((route.source_idx, crate::slcan::encode_slcan_transmit_frame(&routed)))
    } else if str_eq(kind, "gs_usb") {
        if routed.frame_id > 0x1FFF_FFFF {
            return Err(IoError::configuration("identifier does not fit the protocol"));
        }
        Ok((route.source_idx, crate::gs_usb::encode_gs_usb_frame(&routed, 0)))
    } else if str_eq(kind, "socketcan") {
        if routed.frame_id > 0x1FFF_FFFF {
            return Err(IoError::configuration("identifier does not fit the protocol"));
        }
        Ok((route.source_idx, crate::socketcan_dev::encode_socketcan_frame(&routed)))
    } else {
        Err(IoError::configuration("unsupported profile kind for transmission"))
    }
}

/// Whether a frame batch is ordered by timestamp.
pub open spec fn sorted_by_ts(s: Seq<Frame>) -> bool {
    forall|i: int, j: int| 0 <= i < j < s.len() ==> s[i].timestamp_us <= s[j].timestamp_us
}

/// Sorts a frame batch by timestamp.  The result is ordered and holds
/// exactly the frames that went in.
pub fn sort_frames_by_timestamp(frames: Vec<Frame>) -> (r: Vec<Frame>)
    ensures
        sorted_by_ts(r@),
        r@.to_multiset() == frames@.to_multiset(),
        r@.len() == frames@.len(),
{
    broadcast use vstd::seq_lib::group_to_multiset_ensures;

    let mut src = frames;
    let mut out: Vec<Frame> = Vec::new();
    let ghost orig = src@;
    while src.len() > 0
        invariant
            sorted_by_ts(out@),
            out@.to_multiset().add(src@.to_multiset()) =~= orig.to_multiset(),
            out@.len() + src@.len() == orig.len(),
            forall|i: int, j: int|
                0 <= i < out@.len() && 0 <= j < src@.len() ==> #[trigger] out@[i].timestamp_us
                    <= #[trigger] src@[j].timestamp_us,
        decreases src@.len(),
    {
        // Find the earliest remaining frame.
        let mut min: usize = 0;
        let mut j: usize = 1;
        while j < src.len()
            invariant
                min < j <= src@.len(),
                src@.len() > 0,
                forall|t: int|
                    0 <= t < j ==> src@[min as int].timestamp_us
                        <= #[trigger] src@[t].timestamp_us,
            decreases src@.len() - j,
        {
            if src[j].timestamp_us < src[min].timestamp_us {
                min = j;
            }
            j = j + 1;
        }
        let ghost pre_src = src@;
        let ghost pre_out = out@;
        let f = src.remove(min);
        out.push(f);
        proof {
            pre_out.to_multiset_ensures();
            pre_src.to_multiset_ensures();
            assert(out@ == pre_out.push(f));
            assert(pre_out.push(f).to_multiset() =~= pre_out.to_multiset().insert(f));
            assert(src@ == pre_src.remove(min as int));
            assert(pre_src.remove(min as int).to_multiset() =~= pre_src.to_multiset().remove(
                pre_src[min as int],
            ));
            assert(pre_src.to_multiset().count(f) > 0) by {
                assert(pre_src[min as int] == f);
                assert(pre_src.contains(f));
            }
            assert(out@.to_multiset().add(src@.to_multiset()) =~= orig.to_multiset());
            assert forall|i: int, t: int|
                0 <= i < out@.len() && 0 <= t < src@.len() implies #[trigger] out@[i].timestamp_us
                <= #[trigger] src@[t].timestamp_us by {
                if i < pre_out.len() {
                    if t < min {
                        assert(src@[t] == pre_src[t]);
                    } else {
                        assert(src@[t] == pre_src[t + 1]);
                    }
                } else {
                    assert(out@[i] == f);
                    if t < min {
                        assert(src@[t] == pre_src[t]);
                    } else {
                        assert(src@[t] == pre_src[t + 1]);
                    }
                }
            }
        }
    }
    proof {
        assert(src@.to_multiset() =~= Multiset::<Frame>::empty());
        assert(out@.to_multiset() =~= orig.to_multiset());
    }
    out
}

/// The merge engine: accumulates frames from all sources, counts the
/// sources still running, and hands out timestamp-ordered batches.
pub struct MergeEngine {
    /// Frames accumulated since the last emitted batch.
    pending: Vec<Frame>,
    /// Sources that have not yet ended.
    active_sources: usize,
}

impl MergeEngine {
    /// The accumulated, not yet emitted frames.
    pub closed spec fn spec_pending(self) -> Seq<Frame> {
        self.pending@
    }

    /// The number of sources still running.
    pub closed spec fn spec_active(self) -> int {
        self.active_sources as int
    }

    /// An engine for a session with `n_sources` sources.
    pub fn new(n_sources: usize) -> (r: MergeEngine)
        ensures
            r.spec_pending() == Seq::<Frame>::empty(),
            r.spec_active() == n_sources as int,
    {
        let r = MergeEngine { pending: Vec::new(), active_sources: n_sources };
        proof {
            assert(r.spec_pending() =~= Seq::<Frame>::empty());
        }
        r
    }

    /// Accepts a batch of frames from one source.
    pub fn on_frames(&mut self, frames: Vec<Frame>)
        ensures
            final(self).spec_pending() == old(self).spec_pending() + frames@,
            final(self).spec_active() == old(self).spec_active(),
    {
        let mut frames = frames;
        self.pending.append(&mut frames);
    }

    /// Notes that one source ended (normally or with an error).
    pub fn on_source_ended(&mut self)
        ensures
            final(self).spec_active() == if old(self).spec_active() > 0 {
                old(self).spec_active() - 1
            } else {
                0
            },
            final(self).spec_pending() == old(self).spec_pending(),
    {
        if self.active_sources > 0 {
            self.active_sources = self.active_sources - 1;
        }
    }

    /// Whether every source has ended.
    pub fn is_done(&self) -> (r: bool)
        ensures
            r == (self.spec_active() == 0),
    {
        self.active_sources == 0
    }

    /// How many frames are pending.
    pub fn pending_len(&self) -> (r: usize)
        ensures
            r == self.spec_pending().len(),
    {
        self.pending.len()
    }

    /// Whether a batch should be emitted now: there is something pending
    /// and either the batch threshold (100 frames) or the emit interval
    /// (50 ms since the last emission) is reached.
    pub fn should_flush(&self, elapsed_ms_since_emit: u64) -> (r: bool)
        ensures
            r == (self.spec_pending().len() > 0 && (self.spec_pending().len() >= 100
                || elapsed_ms_since_emit >= 50)),
    {
        self.pending.len() > 0 && (self.pending.len() >= 100 || elapsed_ms_since_emit >= 50)
    }

    /// Takes the pending frames as one batch, ordered by timestamp.
    pub fn take_batch(&mut self) -> (r: Vec<Frame>)
        ensures
            final(self).spec_pending() == Seq::<Frame>::empty(),
            final(self).spec_active() == old(self).spec_active(),
            sorted_by_ts(r@),
            r@.to_multiset() == old(self).spec_pending().to_multiset(),
            r@.len() == old(self).spec_pending().len(),
    {
        let mut pending: Vec<Frame> = Vec::new();
        core::mem::swap(&mut pending, &mut self.pending);
        proof {
            assert(self.spec_pending() =~= Seq::<Frame>::empty());
        }
        sort_frames_by_timestamp(pending)
    }
}

/// Source `s` maps its device traffic onto output bus `b` through its
/// `m`-th mapping.
pub open spec fn mapped_at(sources: Seq<SourceConfig>, b: u8, s: int, m: int) -> bool {
    &&& 0 <= s < sources.len()
    &&& 0 <= m < sources[s].bus_mappings@.len()
    &&& sources[s].bus_mappings@[m].enabled
    &&& sources[s].bus_mappings@[m].output_bus == b
}

/// Whether any source has an enabled mapping onto output bus `b`.
pub open spec fn bus_is_mapped(sources: Seq<SourceConfig>, b: u8) -> bool {
    exists|s: int, m: int| #[trigger] mapped_at(sources, b, s, m)
}

/// Whether an enabled mapping onto `b` occurs before position `(i, j)` in
/// the row-major walk over sources and their mappings.
pub open spec fn mapped_before(sources: Seq<SourceConfig>, b: u8, i: int, j: int) -> bool {
    exists|s: int, m: int| #[trigger] mapped_at(sources, b, s, m) && (s < i || (s == i && m < j))
}

/// One mapping further in the walk adds exactly that mapping.
proof fn lemma_mapped_before_step(sources: Seq<SourceConfig>, b: u8, i: int, j: int)
    ensures
        mapped_before(sources, b, i, j + 1) == (mapped_before(sources, b, i, j) || mapped_at(
            sources,
            b,
            i,
            j,
        )),
{
    if mapped_before(sources, b, i, j + 1) {
        let (s, m) = choose|s: int, m: int|
            #[trigger] mapped_at(sources, b, s, m) && (s < i || (s == i && m < j + 1));
        if s < i || (s == i && m < j) {
            assert(mapped_before(sources, b, i, j));
        } else {
            assert(mapped_at(sources, b, i, j));
        }
    }
    if mapped_before(sources, b, i, j) {
        let (s, m) = choose|s: int, m: int|
            #[trigger] mapped_at(sources, b, s, m) && (s < i || (s == i && m < j));
        assert(mapped_at(sources, b, s, m) && (s < i || (s == i && m < j + 1)));
    }
    if mapped_at(sources, b, i, j) {
        assert(mapped_at(sources, b, i, j) && (i < i || (i == i && j < j + 1)));
    }
}

/// Finishing one source's row is the same as starting the next.
proof fn lemma_mapped_before_row(sources: Seq<SourceConfig>, b: u8, i: int)
    requires
        0 <= i < sources.len(),
    ensures
        mapped_before(sources, b, i, sources[i].bus_mappings@.len() as int) == mapped_before(
            sources,
            b,
            i + 1,
            0,
        ),
{
    let row = sources[i].bus_mappings@.len() as int;
    if mapped_before(sources, b, i, row) {
        let (s, m) = choose|s: int, m: int|
            #[trigger] mapped_at(sources, b, s, m) && (s < i || (s == i && m < row));
        assert(mapped_at(sources, b, s, m) && (s < i + 1 || (s == i + 1 && m < 0)));
    }
    if mapped_before(sources, b, i + 1, 0) {
        let (s, m) = choose|s: int, m: int|
            #[trigger] mapped_at(sources, b, s, m) && (s < i + 1 || (s == i + 1 && m < 0));
        assert(mapped_at(sources, b, s, m));
        if s == i {
            assert(m < sources[i].bus_mappings@.len());
            assert(mapped_at(sources, b, s, m) && (s < i || (s == i && m < row)));
        } else {
            assert(mapped_at(sources, b, s, m) && (s < i || (s == i && m < row)));
        }
    }
}

/// Walking the whole table visits every mapping.
proof fn lemma_mapped_before_all(sources: Seq<SourceConfig>, b: u8)
    ensures
        mapped_before(sources, b, sources.len() as int, 0) == bus_is_mapped(sources, b),
{
    if mapped_before(sources, b, sources.len() as int, 0) {
        let (s, m) = choose|s: int, m: int|
            #[trigger] mapped_at(sources, b, s, m) && (s < sources.len() || (s == sources.len()
                && m < 0));
        assert(mapped_at(sources, b, s, m));
    }
    if bus_is_mapped(sources, b) {
        let (s, m) = choose|s: int, m: int| #[trigger] mapped_at(sources, b, s, m);
        assert(mapped_at(sources, b, s, m) && (s < sources.len() || (s == sources.len() && m
            < 0)));
    }
}

/// Whether any source has an enabled mapping onto output bus `b`.
pub fn bus_has_enabled_mapping(sources: &Vec<SourceConfig>, b: u8) -> (r: bool)
    ensures
        r == bus_is_mapped(sources@, b),
{
    let mut found = false;
    let mut i: usize = 0;
    while i < sources.len()
        invariant
            i <= sources@.len(),
            found == mapped_before(sources@, b, i as int, 0),
        decreases sources@.len() - i,
    {
        let mut m: usize = 0;
        while m < sources[i].bus_mappings.len()
            invariant
                i < sources@.len(),
                m <= sources@[i as int].bus_mappings@.len(),
                found == mapped_before(sources@, b, i as int, m as int),
            decreases sources@[i as int].bus_mappings@.len() - m,
        {
            let mp = sources[i].bus_mappings[m];
            proof {
                lemma_mapped_before_step(sources@, b, i as int, m as int);
            }
            if mp.enabled && mp.output_bus == b {
                found = true;
                proof {
                    assert(mapped_at(sources@, b, i as int, m as int));
                }
            }
            m = m + 1;
        }
        proof {
            lemma_mapped_before_row(sources@, b, i as int);
        }
        i = i + 1;
    }
    proof {
        lemma_mapped_before_all(sources@, b);
    }
    found
}

/// The combined capability record of a multi-source session: live,
/// unpausable, transmitting when any route exists, reaching exactly the
/// enabled output buses of its sources, in ascending order.
pub fn combined_capabilities(sources: &Vec<SourceConfig>) -> (r: IOCapabilities)
    ensures
        !r.can_pause,
        !r.supports_time_range,
        r.is_realtime,
        !r.supports_speed_control,
        !r.supports_seek,
        !r.can_transmit_serial,
        r.supports_canfd,
        r.supports_extended_id,
        r.supports_rtr,
        forall|b: u8| (#[trigger] r.available_buses@.contains(b)) <==> bus_is_mapped(sources@, b),
        forall|i: int, j: int|
            0 <= i < j < r.available_buses@.len() ==> r.available_buses@[i]
                < r.available_buses@[j],
        r.can_transmit == (r.available_buses@.len() > 0),
{
    let mut buses: Vec<u8> = Vec::new();
    let mut bus: u16 = 0;
    while bus < 256
        invariant
            bus <= 256,
            forall|b: u8|
                (#[trigger] buses@.contains(b)) <==> (b < bus && bus_is_mapped(sources@, b)),
            forall|i: int, j: int| 0 <= i < j < buses@.len() ==> buses@[i] < buses@[j],
            forall|i: int| 0 <= i < buses@.len() ==> buses@[i] < bus,
        decreases 256 - bus,
    {
        let b = bus as u8;
        let found = bus_has_enabled_mapping(sources, b);
        if found {
            let ghost pre = buses@;
            buses.push(b);
            proof {
                assert forall|x: u8| (#[trigger] buses@.contains(x)) implies (x < bus + 1
                    && bus_is_mapped(sources@, x)) by {
                    if x != b {
                        assert(pre.contains(x));
                    }
                }
                assert forall|x: u8| (x < bus + 1 && bus_is_mapped(sources@, x)) implies
                    #[trigger] buses@.contains(x) by {
                    if x == b {
                        assert(buses@.last() == b);
                    } else {
                        assert(pre.contains(x));
                        let wi = choose|i: int| 0 <= i < pre.len() && pre[i] == x;
                        assert(buses@[wi] == x);
                    }
                }
            }
        }
        bus = bus + 1;
    }
    let can_transmit = buses.len() > 0;
    IOCapabilities {
        can_pause: false,
        supports_time_range: false,
        is_realtime: true,
        supports_speed_control: false,
        supports_seek: false,
        can_transmit,
        can_transmit_serial: false,
        supports_canfd: true,
        supports_extended_id: true,
        supports_rtr: true,
        available_buses: buses,
    }
}

} // verus!
