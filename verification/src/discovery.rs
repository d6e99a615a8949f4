//! The discovery engine: the multicast probe and the de-duplicated record
//! list built from the replies of one collection window.
//!
//! The sockets, the background receive loop and the timing live outside the
//! library. They hand in, in arrival order, the outcome of the descriptor
//! parser for each datagram that arrived during the window; everything from
//! there on is computed here.

use vstd::prelude::*;
use crate::device::DeviceRecord;
use crate::text::decimal;

verus! {

/// The configuration of one discovery round: where the probe goes, where
/// replies are received, and how long the round lasts. All of these are
/// caller-supplied, not compiled-in.
pub struct DiscoveryConfig {
    /// The multicast group the probe is sent to.
    pub multicast_group: String,
    /// The port of the multicast group.
    pub multicast_port: u16,
    /// The local port the receiving endpoint binds to, on all interfaces.
    pub bind_port: u16,
    /// How long replies are collected before the round closes, in
    /// milliseconds.
    pub window_millis: u64,
    /// The pause between two receives of the background loop, in
    /// milliseconds.
    pub pause_millis: u64,
    /// The service-type token named in the probe.
    pub service_type: String,
}

/// A `host:port` endpoint as text.
pub open spec fn endpoint_text(host: Seq<char>, port: u16) -> Seq<char> {
    host + ":"@ + decimal(port as nat)
}

/// The fixed discovery-request text: the search method line, the multicast
/// host header, the discovery-class marker, and the service-type token.
pub open spec fn probe_text(group: Seq<char>, port: u16, service_type: Seq<char>) -> Seq<char> {
    "M-SEARCH * HTTP/1.1\r\nHOST: "@ + endpoint_text(group, port)
        + "\r\nMAN: \"ssdp:discover\"\r\nST: "@ + service_type
}

impl DiscoveryConfig {
    /// The collection window must outlast the inter-receive pause, so that
    /// several replies can accumulate before the round closes.
    pub open spec fn well_formed(&self) -> bool {
        self.pause_millis < self.window_millis
    }

    /// The `group:port` endpoint the probe datagram is addressed to.
    pub fn multicast_endpoint(&self) -> (r: String)
        ensures
            r@ == endpoint_text(self.multicast_group@, self.multicast_port),
    {
        let mut out = self.multicast_group.clone();
        out.append(":");
        let port = crate::text::u32_to_decimal(self.multicast_port as u32);
        out.append(port.as_str());
        out
    }
}

impl Default for DiscoveryConfig {
    /// The well-known defaults: the standard multicast group and port for
    /// these lights, the fixed local bind port, a collection window of 1.2
    /// seconds with a 200 ms inter-receive pause, and the light bulb
    /// service type.
    fn default() -> (c: Self)
        ensures
            c.multicast_group@ == "239.255.255.250"@,
            c.multicast_port == 1982,
            c.bind_port == 34254,
            c.window_millis == 1200,
            c.pause_millis == 200,
            c.service_type@ == "wifi_bulb"@,
            c.well_formed(),
    {
        DiscoveryConfig {
            multicast_group: String::from_str("239.255.255.250"),
            multicast_port: 1982,
            bind_port: 34254,
            window_millis: 1200,
            pause_millis: 200,
            service_type: String::from_str("wifi_bulb"),
        }
    }
}

/// Builds the probe datagram text for one discovery round.
pub fn build_probe(config: &DiscoveryConfig) -> (r: String)
    ensures
        r@ == probe_text(config.multicast_group@, config.multicast_port, config.service_type@),
{
    let mut out = String::from_str("M-SEARCH * HTTP/1.1\r\nHOST: ");
    let endpoint = config.multicast_endpoint();
    out.append(endpoint.as_str());
    out.append("\r\nMAN: \"ssdp:discover\"\r\nST: ");
    out.append(config.service_type.as_str());
    out
}

/// True when some record in `s` carries `id`.
pub open spec fn has_identifier(s: Seq<DeviceRecord>, id: u32) -> bool {
    exists|j: int| 0 <= j < s.len() && s[j].identifier == id
}

/// The de-duplicated form of an arrival-ordered record sequence: for each
/// identifier, the record of its first arrival is kept and every later
/// record with that identifier is dropped, so the result is in order of
/// first sighting.
pub open spec fn dedup_by_identifier(s: Seq<DeviceRecord>) -> Seq<DeviceRecord>
    decreases s.len(),
{
    if s.len() == 0 {
        Seq::empty()
    } else if has_identifier(s.drop_last(), s.last().identifier) {
        dedup_by_identifier(s.drop_last())
    } else {
        dedup_by_identifier(s.drop_last()).push(s.last())
    }
}

/// The records of the successfully parsed datagrams, in arrival order;
/// datagrams the descriptor parser rejected are dropped.
pub open spec fn parse_successes(s: Seq<Option<DeviceRecord>>) -> Seq<DeviceRecord>
    decreases s.len(),
{
    if s.len() == 0 {
        Seq::empty()
    } else {
        let rest = parse_successes(s.drop_last());
        match s.last() {
            Some(r) => rest.push(r),
            None => rest,
        }
    }
}

/// What one discovery round reports for a given sequence of parse outcomes:
/// the successfully parsed records, de-duplicated by identifier.
pub open spec fn discovered(parsed: Seq<Option<DeviceRecord>>) -> Seq<DeviceRecord> {
    dedup_by_identifier(parse_successes(parsed))
}

fn contains_id(ids: &Vec<u32>, id: u32) -> (b: bool)
    ensures
        b == ids@.contains(id),
{
    let mut j: usize = 0;
    while j < ids.len()
        invariant
            j <= ids.len(),
            forall|k: int| 0 <= k < j ==> ids@[k] != id,
        decreases ids.len() - j,
    {
        if ids[j] == id {
            proof {
                assert(ids@[j as int] == id);
            }
            return true;
        }
        j += 1;
    }
    false
}

/// Collapses duplicate replies: iterates in arrival order and keeps, for
/// each distinct identifier, only the first-seen record.
pub fn remove_duplicates(records: Vec<DeviceRecord>) -> (out: Vec<DeviceRecord>)
    ensures
        out@ == dedup_by_identifier(records@),
{
    let mut out: Vec<DeviceRecord> = Vec::new();
    let mut ids: Vec<u32> = Vec::new();
    let mut i: usize = 0;
    while i < records.len()
        invariant
            i <= records.len(),
            out@ == dedup_by_identifier(records@.take(i as int)),
            forall|id: u32| ids@.contains(id) <==> has_identifier(records@.take(i as int), id),
        decreases records.len() - i,
    {
        let ghost prefix = records@.take(i as int);
        let ghost extended = records@.take(i as int + 1);
        proof {
            assert(extended.drop_last() =~= prefix);
            assert(extended.last() == records@[i as int]);
            assert forall|id: u32|
                has_identifier(extended, id) <==> (has_identifier(prefix, id) || id == records@[i
                    as int].identifier) by {
                if has_identifier(extended, id) {
                    let j = choose|j: int| 0 <= j < extended.len() && extended[j].identifier == id;
                    if j < i {
                        assert(prefix[j].identifier == id);
                    }
                }
                if has_identifier(prefix, id) {
                    let j = choose|j: int| 0 <= j < prefix.len() && prefix[j].identifier == id;
                    assert(extended[j].identifier == id);
                }
                if id == records@[i as int].identifier {
                    assert(extended[i as int].identifier == id);
                }
            }
        }
        let r = &records[i];
        if !contains_id(&ids, r.identifier) {
            let ghost old_ids = ids@;
            ids.push(r.identifier);
            out.push(r.clone());
            proof {
                assert forall|id: u32| ids@.contains(id) <==> has_identifier(extended, id) by {
                    if ids@.contains(id) {
                        let j = choose|j: int| 0 <= j < ids@.len() && ids@[j] == id;
                        if j < old_ids.len() {
                            assert(old_ids[j] == id);
                            assert(old_ids.contains(id));
                            assert(has_identifier(prefix, id));
                        } else {
                            assert(id == records@[i as int].identifier);
                        }
                        assert(has_identifier(extended, id));
                    }
                    if has_identifier(extended, id) {
                        if has_identifier(prefix, id) {
                            assert(old_ids.contains(id));
                            let j = choose|j: int| 0 <= j < old_ids.len() && old_ids[j] == id;
                            assert(ids@[j] == old_ids[j]);
                            assert(ids@.contains(id));
                        } else {
                            assert(id == records@[i as int].identifier);
                            assert(ids@[ids@.len() - 1] == id);
                            assert(ids@.contains(id));
                        }
                    }
                }
            }
        }
        i += 1;
    }
    proof {
        assert(records@.take(records@.len() as int) =~= records@);
    }
    out
}

/// Turns the parse outcomes of one collection window, in arrival order, into
/// the discovery result: the records of the successfully parsed replies,
/// de-duplicated by identifier. Zero replies is not an error: the result is
/// then simply empty.
pub fn collect_devices(parsed: Vec<Option<DeviceRecord>>) -> (out: Vec<DeviceRecord>)
    ensures
        out@ == discovered(parsed@),
{
    let mut hits: Vec<DeviceRecord> = Vec::new();
    let mut i: usize = 0;
    while i < parsed.len()
        invariant
            i <= parsed.len(),
            hits@ == parse_successes(parsed@.take(i as int)),
        decreases parsed.len() - i,
    {
        proof {
            assert(parsed@.take(i as int + 1).drop_last() =~= parsed@.take(i as int));
            assert(parsed@.take(i as int + 1).last() == parsed@[i as int]);
        }
        match &parsed[i] {
            Some(r) => {
                hits.push(r.clone());
            },
            None => {},
        }
        i += 1;
    }
    proof {
        assert(parsed@.take(parsed@.len() as int) =~= parsed@);
    }
    remove_duplicates(hits)
}

/// The index of the first record in `s` that carries `id`; meaningful only
/// when some record does.
pub open spec fn first_index_of(s: Seq<DeviceRecord>, id: u32) -> int
    decreases s.len(),
{
    if s.len() == 0 {
        -1
    } else if has_identifier(s.drop_last(), id) {
        first_index_of(s.drop_last(), id)
    } else {
        s.len() - 1
    }
}

/// The distinct identifiers that occur in `s`: one per duplicate group.
pub open spec fn identifiers_of(s: Seq<DeviceRecord>) -> Set<u32> {
    Set::new(|id: u32| has_identifier(s, id))
}

/// When `id` occurs in `s`, `first_index_of` names its first occurrence.
pub proof fn lemma_first_index_of(s: Seq<DeviceRecord>, id: u32)
    requires
        has_identifier(s, id),
    ensures
        0 <= first_index_of(s, id) < s.len(),
        s[first_index_of(s, id)].identifier == id,
        forall|j: int| 0 <= j < first_index_of(s, id) ==> s[j].identifier != id,
    decreases s.len(),
{
    let pre = s.drop_last();
    if has_identifier(pre, id) {
        lemma_first_index_of(pre, id);
        assert forall|j: int| 0 <= j < first_index_of(s, id) implies s[j].identifier != id by {
            assert(pre[j] == s[j]);
            assert(pre[j].identifier != id);
        }
    } else {
        let j = choose|j: int| 0 <= j < s.len() && s[j].identifier == id;
        if j < s.len() - 1 {
            assert(pre[j].identifier == id);
            assert(has_identifier(pre, id));
        }
        assert forall|k: int| 0 <= k < s.len() - 1 implies s[k].identifier != id by {
            if s[k].identifier == id {
                assert(pre[k].identifier == id);
                assert(has_identifier(pre, id));
            }
        }
    }
}

/// Occurrence of an identifier in a non-empty sequence, split between the
/// prefix and the last record.
proof fn lemma_has_identifier_split(s: Seq<DeviceRecord>)
    requires
        s.len() > 0,
    ensures
        forall|id: u32| #[trigger]
            has_identifier(s, id) <==> (has_identifier(s.drop_last(), id) || s.last().identifier
                == id),
{
    let pre = s.drop_last();
    assert forall|id: u32| #[trigger]
        has_identifier(s, id) <==> (has_identifier(pre, id) || s.last().identifier == id) by {
        if has_identifier(s, id) {
            let j = choose|j: int| 0 <= j < s.len() && s[j].identifier == id;
            if j < s.len() - 1 {
                assert(pre[j].identifier == id);
                assert(has_identifier(pre, id));
            }
        }
        if has_identifier(pre, id) {
            let j = choose|j: int| 0 <= j < pre.len() && pre[j].identifier == id;
            assert(s[j].identifier == id);
        }
        if s.last().identifier == id {
            assert(s[s.len() - 1].identifier == id);
        }
    }
}

/// The first-arrival law of de-duplication. For any arrival-ordered sequence
/// of records, the de-duplicated output
/// - holds only identifiers that occur in the input, and all of them,
/// - holds for each of those identifiers the record of its first arrival,
/// - lists those records in the order of their first arrivals, and
/// - holds no two records with the same identifier.
pub proof fn lemma_dedup_first_arrival(s: Seq<DeviceRecord>)
    ensures
        forall|id: u32| #[trigger] has_identifier(dedup_by_identifier(s), id) <==> has_identifier(
            s,
            id,
        ),
        forall|k: int|
            0 <= k < dedup_by_identifier(s).len() ==> has_identifier(
                s,
                (#[trigger] dedup_by_identifier(s)[k]).identifier,
            ) && dedup_by_identifier(s)[k] == s[first_index_of(
                s,
                dedup_by_identifier(s)[k].identifier,
            )],
        forall|k1: int, k2: int|
            0 <= k1 < k2 < dedup_by_identifier(s).len() ==> first_index_of(
                s,
                (#[trigger] dedup_by_identifier(s)[k1]).identifier,
            ) < first_index_of(s, (#[trigger] dedup_by_identifier(s)[k2]).identifier),
        forall|k1: int, k2: int|
            0 <= k1 < k2 < dedup_by_identifier(s).len() ==> (#[trigger] dedup_by_identifier(
                s,
            )[k1]).identifier != (#[trigger] dedup_by_identifier(s)[k2]).identifier,
    decreases s.len(),
{
    if s.len() == 0 {
    } else {
        let pre = s.drop_last();
        let last = s.last();
        let d = dedup_by_identifier(s);
        let dpre = dedup_by_identifier(pre);
        lemma_dedup_first_arrival(pre);
        lemma_has_identifier_split(s);
        assert(s[s.len() - 1] == last);
        // A record of the prefix output stands for the same first arrival in `s`.
        assert forall|k: int|
            0 <= k < dpre.len() implies has_identifier(s, (#[trigger] dpre[k]).identifier)
            && dpre[k] == s[first_index_of(s, dpre[k].identifier)] && first_index_of(
            s,
            dpre[k].identifier,
        ) < s.len() - 1 by {
            let id = dpre[k].identifier;
            assert(has_identifier(dpre, id));
            assert(has_identifier(pre, id));
            lemma_first_index_of(pre, id);
            assert(first_index_of(s, id) == first_index_of(pre, id));
            assert(s[first_index_of(pre, id)] == pre[first_index_of(pre, id)]);
        }
        if has_identifier(pre, last.identifier) {
            assert(d == dpre);
        } else {
            assert(d == dpre.push(last));
            assert(first_index_of(s, last.identifier) == s.len() - 1);
            assert(d[d.len() - 1] == last);
            assert forall|k: int| 0 <= k < dpre.len() implies (#[trigger] d[k]) == dpre[k] by {}
            // Completeness over the push.
            assert forall|id: u32| #[trigger]
                has_identifier(d, id) <==> has_identifier(s, id) by {
                if has_identifier(d, id) {
                    let j = choose|j: int| 0 <= j < d.len() && d[j].identifier == id;
                    if j < dpre.len() {
                        assert(dpre[j].identifier == id);
                        assert(has_identifier(dpre, id));
                    } else {
                        assert(last.identifier == id);
                    }
                }
                if has_identifier(s, id) {
                    if has_identifier(pre, id) {
                        assert(has_identifier(dpre, id));
                        let j = choose|j: int| 0 <= j < dpre.len() && dpre[j].identifier == id;
                        assert(d[j].identifier == id);
                    } else {
                        assert(d[d.len() - 1].identifier == id);
                    }
                }
            }
            // The new record's identifier is absent from the prefix output.
            assert forall|k: int|
                0 <= k < dpre.len() implies (#[trigger] d[k]).identifier != last.identifier by {
                if dpre[k].identifier == last.identifier {
                    assert(has_identifier(dpre, last.identifier));
                }
            }
        }
    }
}

/// For any arrival sequence with N duplicate-identifier groups, the
/// de-duplicated output has exactly N records: one per distinct identifier.
pub proof fn lemma_dedup_counts_groups(s: Seq<DeviceRecord>)
    ensures
        dedup_by_identifier(s).len() == identifiers_of(s).len(),
        identifiers_of(dedup_by_identifier(s)) == identifiers_of(s),
{
    lemma_dedup_first_arrival(s);
    let d = dedup_by_identifier(s);
    let pick = |r: DeviceRecord| r.identifier;
    let idseq = d.map_values(pick);
    assert forall|i: int, j: int|
        0 <= i < idseq.len() && 0 <= j < idseq.len() && i != j implies idseq[i] != idseq[j] by {
        assert(idseq[i] == d[i].identifier);
        assert(idseq[j] == d[j].identifier);
    }
    assert(idseq.no_duplicates());
    idseq.unique_seq_to_set();
    assert forall|id: u32| idseq.to_set().contains(id) <==> has_identifier(d, id) by {
        if idseq.contains(id) {
            let j = choose|j: int| 0 <= j < idseq.len() && idseq[j] == id;
            assert(d[j].identifier == id);
        }
        if has_identifier(d, id) {
            let j = choose|j: int| 0 <= j < d.len() && d[j].identifier == id;
            assert(idseq[j] == id);
        }
    }
    assert forall|id: u32| idseq.to_set().contains(id) == identifiers_of(s).contains(id) by {
        assert(idseq.to_set().contains(id) <==> has_identifier(d, id));
        assert(has_identifier(d, id) <==> has_identifier(s, id));
        assert(identifiers_of(s).contains(id) == has_identifier(s, id));
    }
    assert(idseq.to_set() =~= identifiers_of(s));
    assert forall|id: u32| identifiers_of(d).contains(id) == identifiers_of(s).contains(id) by {
        assert(has_identifier(d, id) <==> has_identifier(s, id));
    }
    assert(identifiers_of(d) =~= identifiers_of(s));
}

/// Discovery is a pure function of the arrival sequence: two rounds that see
/// identical parse outcomes in identical order report identical records, in
/// identical order.
pub proof fn lemma_discovery_deterministic(
    first_round: Seq<Option<DeviceRecord>>,
    second_round: Seq<Option<DeviceRecord>>,
)
    requires
        first_round == second_round,
    ensures
        discovered(first_round) == discovered(second_round),
{
}

} // verus!
