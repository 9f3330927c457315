//! Latency tracking: named stages stamped with the time they were reached,
//! and the span between the earliest and the latest stamp.
use vstd::prelude::*;
use vstd::string::*;

verus! {

#[derive(Debug)]
pub struct TimestampEntry {
    pub stage: String,
    /// RFC 3339 time, to the nanosecond, in UTC.
    pub time: String,
}

#[derive(Debug)]
pub struct LatencyTracker {
    pub sequence_id: String,
    pub timestamps: Vec<TimestampEntry>,
    pub metadata: Option<std::collections::HashMap<String, String>>,
}

/// A point in time as chrono counts it: whole seconds since the Unix epoch and
/// the nanoseconds past that second (which exceed 999,999,999 only during a
/// leap second).
#[derive(Debug, Clone, Copy, PartialEq, Eq)]
pub struct Instant {
    pub secs: i64,
    pub nanos: u32,
}

/// The instant chrono's RFC 3339 parser reads from `s`, as (seconds since the
/// epoch, nanoseconds), or `None` if it refuses the text.
pub uninterp spec fn rfc3339_instant(s: Seq<char>) -> Option<(i64, u32)>;

/// The whole milliseconds chrono counts from the instant `earlier` to the
/// instant `later` (negative when `later` comes first).
pub uninterp spec fn chrono_millis_between(later: (i64, u32), earlier: (i64, u32)) -> i64;

/// Calls `chrono::Utc::now` and formats the time with
/// `DateTime::to_rfc3339_opts` (nanosecond precision, `Z` for UTC). Nothing is
/// stated of the result: it is the current time.
#[verifier::external_body]
fn now_rfc3339() -> (r: String) {
    chrono::Utc::now().to_rfc3339_opts(chrono::SecondsFormat::Nanos, true)
}

/// Calls `chrono::DateTime::parse_from_rfc3339` and reads the parsed time as
/// `timestamp()` and `timestamp_subsec_nanos()`. The contract claims that the
/// result depends on the text alone.
#[verifier::external_body]
fn parse_rfc3339(s: &str) -> (r: Option<Instant>)
    ensures
        match rfc3339_instant(s@) {
            Some((secs, nanos)) => r == Some(Instant { secs, nanos }),
            None => r is None,
        },
{
    match chrono::DateTime::parse_from_rfc3339(s) {
        Ok(t) => Some(Instant { secs: t.timestamp(), nanos: t.timestamp_subsec_nanos() }),
        Err(_) => None,
    }
}

/// Calls `chrono::DateTime::parse_from_rfc3339` on both texts, subtracts the
/// two times (`Sub` of `DateTime`s, which cannot overflow) and reads the
/// difference with `TimeDelta::num_milliseconds`. The contract claims that the
/// result is there exactly when both texts parse, that it depends on the two
/// instants alone, and that outside leap seconds (nanoseconds below 10^9) a
/// later instant minus an earlier one is no negative number of milliseconds.
#[verifier::external_body]
fn millis_between(later: &str, earlier: &str) -> (r: Option<i64>)
    ensures
        match (rfc3339_instant(later@), rfc3339_instant(earlier@)) {
            (Some(l), Some(e)) => {
                &&& r == Some(chrono_millis_between(l, e))
                &&& (l.1 < 1_000_000_000 && e.1 < 1_000_000_000 && instant_le(e, l)
                    ==> chrono_millis_between(l, e) >= 0)
            },
            _ => r is None,
        },
{
    match (chrono::DateTime::parse_from_rfc3339(later), chrono::DateTime::parse_from_rfc3339(earlier)) {
        (Ok(l), Ok(e)) => Some((l - e).num_milliseconds()),
        _ => None,
    }
}

/// Whether `a` is no later than `b`: chrono orders instants by second, then
/// by nanosecond.
pub open spec fn instant_le(a: (i64, u32), b: (i64, u32)) -> bool {
    a.0 < b.0 || (a.0 == b.0 && a.1 <= b.1)
}

/// The instants of the stamps, or `None` if one of them does not parse.
pub open spec fn spec_parsed(ts: Seq<TimestampEntry>) -> Option<Seq<(i64, u32)>>
    decreases ts.len(),
{
    if ts.len() == 0 {
        Some(Seq::empty())
    } else {
        match (spec_parsed(ts.drop_last()), rfc3339_instant(ts.last().time@)) {
            (Some(p), Some(t)) => Some(p.push(t)),
            _ => None,
        }
    }
}

/// The earliest of a non-empty run of instants.
pub open spec fn spec_earliest(s: Seq<(i64, u32)>) -> (i64, u32)
    decreases s.len(),
{
    if s.len() <= 1 {
        s[0]
    } else {
        let m = spec_earliest(s.drop_last());
        if instant_le(m, s.last()) {
            m
        } else {
            s.last()
        }
    }
}

/// The latest of a non-empty run of instants.
pub open spec fn spec_latest(s: Seq<(i64, u32)>) -> (i64, u32)
    decreases s.len(),
{
    if s.len() <= 1 {
        s[0]
    } else {
        let m = spec_latest(s.drop_last());
        if instant_le(s.last(), m) {
            m
        } else {
            s.last()
        }
    }
}

/// Whether every stamp parses to a time outside a leap second.
pub open spec fn no_leap_second(ts: Seq<TimestampEntry>) -> bool {
    spec_parsed(ts) matches Some(p) && forall|j: int| 0 <= j < p.len() ==> #[trigger] p[j].1 < 1_000_000_000
}

/// The earliest and the latest of a run of instants are among them and bound
/// all of them.
proof fn lemma_extremes(s: Seq<(i64, u32)>)
    requires
        s.len() > 0,
    ensures
        exists|i: int| 0 <= i < s.len() && s[i] == spec_earliest(s),
        exists|i: int| 0 <= i < s.len() && s[i] == spec_latest(s),
        forall|j: int| 0 <= j < s.len() ==> instant_le(spec_earliest(s), #[trigger] s[j]),
        forall|j: int| 0 <= j < s.len() ==> instant_le(#[trigger] s[j], spec_latest(s)),
    decreases s.len(),
{
    if s.len() > 1 {
        let t = s.drop_last();
        lemma_extremes(t);
        let ie = choose|i: int| 0 <= i < t.len() && t[i] == spec_earliest(t);
        let il = choose|i: int| 0 <= i < t.len() && t[i] == spec_latest(t);
        assert(s[ie] == t[ie]);
        assert(s[il] == t[il]);
        assert(s[s.len() - 1] == s.last());
        assert forall|j: int| 0 <= j < s.len() implies instant_le(spec_earliest(s), #[trigger] s[j]) by {
            if j < s.len() - 1 {
                assert(s[j] == t[j]);
            }
        }
        assert forall|j: int| 0 <= j < s.len() implies instant_le(#[trigger] s[j], spec_latest(s)) by {
            if j < s.len() - 1 {
                assert(s[j] == t[j]);
            }
        }
    } else {
        assert(instant_le(s[0], s[0]));
    }
}

/// The latency the stamps record: the milliseconds from the earliest stamp to
/// the latest, when there are at least two stamps and all of them parse.
pub open spec fn spec_total_latency(ts: Seq<TimestampEntry>) -> Option<i64> {
    if ts.len() < 2 {
        None
    } else {
        match spec_parsed(ts) {
            Some(p) => Some(chrono_millis_between(spec_latest(p), spec_earliest(p))),
            None => None,
        }
    }
}

impl LatencyTracker {
    pub fn new(sequence_id: String) -> (r: Self)
        ensures
            r.sequence_id@ == sequence_id@,
            r.timestamps@.len() == 0,
            r.metadata is None,
    {
        LatencyTracker { sequence_id, timestamps: Vec::new(), metadata: None }
    }

    pub fn sequence_id(&self) -> (r: &str)
        ensures
            r@ == self.sequence_id@,
    {
        self.sequence_id.as_str()
    }

    /// Records that `stage` was reached now.
    pub fn add_timestamp(&mut self, stage: &str)
        ensures
            final(self).sequence_id == old(self).sequence_id,
            final(self).metadata == old(self).metadata,
            final(self).timestamps@.len() == old(self).timestamps@.len() + 1,
            final(self).timestamps@.take(old(self).timestamps@.len() as int) == old(
                self,
            ).timestamps@,
            final(self).timestamps@.last().stage@ == stage@,
    {
        let now = now_rfc3339();
        self.timestamps.push(TimestampEntry { stage: String::from_str(stage), time: now });
    }

    /// The milliseconds from the earliest recorded stamp to the latest; `None`
    /// with fewer than two stamps or when one of them is not an RFC 3339 time.
    pub fn total_latency(&self) -> (r: Option<i64>)
        ensures
            r == spec_total_latency(self.timestamps@),
            r is Some <==> (self.timestamps@.len() >= 2 && forall|j: int|
                0 <= j < self.timestamps@.len() ==> #[trigger] rfc3339_instant(self.timestamps@[j].time@) is Some),
            r matches Some(d) ==> (no_leap_second(self.timestamps@) ==> d >= 0),
    {
        let ts = &self.timestamps;
        if ts.len() < 2 {
            return None;
        }
        proof {
            lemma_parsed_all(ts@);
        }
        let mut times: Vec<Instant> = Vec::new();
        let mut i: usize = 0;
        while i < ts.len()
            invariant
                ts@ == self.timestamps@,
                i <= ts@.len(),
                spec_parsed(ts@.take(i as int)) == Some(instant_pairs(times@)),
            decreases ts.len() - i,
        {
            assert(ts@.take(i + 1).drop_last() == ts@.take(i as int));
            assert(ts@.take(i + 1).last() == ts@[i as int]);
            let t = match parse_rfc3339(ts[i].time.as_str()) {
                Some(t) => t,
                None => {
                    proof {
                        lemma_parsed_prefix_none(ts@, (i + 1) as int);
                    }
                    return None;
                },
            };
            let ghost old_times = times@;
            assert(rfc3339_instant(ts@[i as int].time@) == Some((t.secs, t.nanos)));
            times.push(t);
            assert(times@.drop_last() == old_times);
            assert(instant_pairs(times@) == instant_pairs(old_times).push((t.secs, t.nanos)));
            i = i + 1;
        }
        assert(ts@.take(ts@.len() as int) == ts@);
        proof {
            lemma_instant_pairs_len(times@);
            lemma_extremes(instant_pairs(times@));
        }
        proof {
            lemma_parsed_elements(ts@);
        }
        proof {
            lemma_parsed_all(ts@);
        }
        let (ie, il) = extreme_indices(&times);
        millis_between(ts[il].time.as_str(), ts[ie].time.as_str())
    }
}

/// The instants as (seconds, nanoseconds) pairs.
pub open spec fn instant_pairs(s: Seq<Instant>) -> Seq<(i64, u32)>
    decreases s.len(),
{
    if s.len() == 0 {
        Seq::empty()
    } else {
        instant_pairs(s.drop_last()).push((s.last().secs, s.last().nanos))
    }
}

proof fn lemma_instant_pairs_len(s: Seq<Instant>)
    ensures
        instant_pairs(s).len() == s.len(),
        forall|j: int| 0 <= j < s.len() ==> #[trigger] instant_pairs(s)[j] == (s[j].secs, s[j].nanos),
    decreases s.len(),
{
    if s.len() > 0 {
        lemma_instant_pairs_len(s.drop_last());
    }
}

/// The earliest and the latest of `instants` (the first of equal ones), or
/// `None` if there are none.
pub fn earliest_and_latest(instants: &[Instant]) -> (r: Option<(Instant, Instant)>)
    ensures
        instants@.len() == 0 ==> r is None,
        instants@.len() > 0 ==> (r matches Some((e, l)) && (e.secs, e.nanos) == spec_earliest(
            instant_pairs(instants@),
        ) && (l.secs, l.nanos) == spec_latest(instant_pairs(instants@))),
{
    if instants.len() == 0 {
        return None;
    }
    proof {
        lemma_instant_pairs_len(instants@);
    }
    let (ie, il) = extreme_indices(instants);
    Some((instants[ie], instants[il]))
}

/// The positions of the earliest and the latest of a non-empty run of
/// instants.
fn extreme_indices(instants: &[Instant]) -> (r: (usize, usize))
    requires
        instants@.len() > 0,
    ensures
        r.0 < instants@.len(),
        r.1 < instants@.len(),
        (instants@[r.0 as int].secs, instants@[r.0 as int].nanos) == spec_earliest(instant_pairs(instants@)),
        (instants@[r.1 as int].secs, instants@[r.1 as int].nanos) == spec_latest(instant_pairs(instants@)),
{
    let mut ie: usize = 0;
    let mut il: usize = 0;
    let mut i: usize = 1;
    proof {
        lemma_instant_pairs_len(instants@.take(1));
    }
    while i < instants.len()
        invariant
            1 <= i <= instants@.len(),
            ie < i,
            il < i,
            (instants@[ie as int].secs, instants@[ie as int].nanos) == spec_earliest(
                instant_pairs(instants@.take(i as int)),
            ),
            (instants@[il as int].secs, instants@[il as int].nanos) == spec_latest(
                instant_pairs(instants@.take(i as int)),
            ),
        decreases instants.len() - i,
    {
        let t = instants[i];
        let ghost prev = instant_pairs(instants@.take(i as int));
        let ghost next = instant_pairs(instants@.take(i + 1));
        assert(instants@.take(i + 1).drop_last() == instants@.take(i as int));
        assert(next == prev.push((t.secs, t.nanos)));
        proof {
            lemma_instant_pairs_len(instants@.take(i as int));
        }
        assert(next.drop_last() == prev);
        let e = instants[ie];
        let l = instants[il];
        if !(e.secs < t.secs || (e.secs == t.secs && e.nanos <= t.nanos)) {
            ie = i;
        }
        if !(t.secs < l.secs || (t.secs == l.secs && t.nanos <= l.nanos)) {
            il = i;
        }
        i = i + 1;
    }
    assert(instants@.take(instants@.len() as int) == instants@);
    (ie, il)
}

/// The instants of parsed stamps are those of the stamps, in order.
proof fn lemma_parsed_elements(ts: Seq<TimestampEntry>)
    ensures
        spec_parsed(ts) matches Some(p) ==> p.len() == ts.len() && forall|j: int|
            0 <= j < ts.len() ==> rfc3339_instant(#[trigger] ts[j].time@) == Some(p[j]),
    decreases ts.len(),
{
    if ts.len() > 0 {
        lemma_parsed_elements(ts.drop_last());
        if let Some(p) = spec_parsed(ts) {
            let q = spec_parsed(ts.drop_last())->0;
            assert forall|j: int| 0 <= j < ts.len() implies rfc3339_instant(#[trigger] ts[j].time@) == Some(
                p[j],
            ) by {
                if j < ts.len() - 1 {
                    assert(ts[j] == ts.drop_last()[j]);
                    assert(p[j] == q[j]);
                }
            }
        }
    }
}

/// The stamps parse as a whole exactly when each of them parses.
proof fn lemma_parsed_all(ts: Seq<TimestampEntry>)
    ensures
        spec_parsed(ts) is Some <==> forall|j: int| 0 <= j < ts.len() ==> #[trigger] rfc3339_instant(ts[j].time@) is Some,
    decreases ts.len(),
{
    lemma_parsed_elements(ts);
    if ts.len() > 0 {
        lemma_parsed_all(ts.drop_last());
        if forall|j: int| 0 <= j < ts.len() ==> #[trigger] rfc3339_instant(ts[j].time@) is Some {
            assert forall|j: int| 0 <= j < ts.drop_last().len() implies #[trigger] rfc3339_instant(
                ts.drop_last()[j].time@,
            ) is Some by {
                assert(ts.drop_last()[j] == ts[j]);
            }
            assert(rfc3339_instant(ts[ts.len() - 1].time@) is Some);
        }
    }
}

/// Of two runs of instants with the same elements, the earliest are the same
/// and the latest are the same.
proof fn lemma_extremes_same(s1: Seq<(i64, u32)>, s2: Seq<(i64, u32)>)
    requires
        s1.len() > 0,
        s2.len() > 0,
        forall|i: int| 0 <= i < s1.len() ==> #[trigger] s2.contains(s1[i]),
        forall|i: int| 0 <= i < s2.len() ==> #[trigger] s1.contains(s2[i]),
    ensures
        spec_earliest(s1) == spec_earliest(s2),
        spec_latest(s1) == spec_latest(s2),
{
    lemma_extremes(s1);
    lemma_extremes(s2);
    let i1 = choose|i: int| 0 <= i < s1.len() && s1[i] == spec_earliest(s1);
    let i2 = choose|i: int| 0 <= i < s2.len() && s2[i] == spec_earliest(s2);
    let k1 = choose|i: int| 0 <= i < s1.len() && s1[i] == spec_latest(s1);
    let k2 = choose|i: int| 0 <= i < s2.len() && s2[i] == spec_latest(s2);
    assert(s2.contains(s1[i1]));
    assert(s1.contains(s2[i2]));
    assert(s2.contains(s1[k1]));
    assert(s1.contains(s2[k2]));
    let a = choose|j: int| 0 <= j < s2.len() && s2[j] == s1[i1];
    let b = choose|j: int| 0 <= j < s1.len() && s1[j] == s2[i2];
    let c = choose|j: int| 0 <= j < s2.len() && s2[j] == s1[k1];
    let d = choose|j: int| 0 <= j < s1.len() && s1[j] == s2[k2];
    assert(instant_le(spec_earliest(s2), s2[a]));
    assert(instant_le(spec_earliest(s1), s1[b]));
    assert(instant_le(s2[c], spec_latest(s2)));
    assert(instant_le(s1[d], spec_latest(s1)));
}

/// The latency of a tracker does not depend on the order of its stamps: two
/// runs of stamps made of the same stamps (each stamp of one is a stamp of the
/// other) record the same latency, when each has at least two stamps.
pub proof fn lemma_total_latency_order_free(ts1: Seq<TimestampEntry>, ts2: Seq<TimestampEntry>)
    requires
        ts1.len() >= 2,
        ts2.len() >= 2,
        forall|i: int| 0 <= i < ts1.len() ==> #[trigger] ts2.contains(ts1[i]),
        forall|i: int| 0 <= i < ts2.len() ==> #[trigger] ts1.contains(ts2[i]),
    ensures
        spec_total_latency(ts1) == spec_total_latency(ts2),
{
    lemma_parsed_all(ts1);
    lemma_parsed_all(ts2);
    lemma_parsed_elements(ts1);
    lemma_parsed_elements(ts2);
    if spec_parsed(ts1) is Some {
        assert forall|j: int| 0 <= j < ts2.len() implies #[trigger] rfc3339_instant(ts2[j].time@) is Some by {
            assert(ts1.contains(ts2[j]));
            let k = choose|k: int| 0 <= k < ts1.len() && ts1[k] == ts2[j];
            assert(rfc3339_instant(ts1[k].time@) is Some);
        }
    }
    if spec_parsed(ts2) is Some {
        assert forall|j: int| 0 <= j < ts1.len() implies #[trigger] rfc3339_instant(ts1[j].time@) is Some by {
            assert(ts2.contains(ts1[j]));
            let k = choose|k: int| 0 <= k < ts2.len() && ts2[k] == ts1[j];
            assert(rfc3339_instant(ts2[k].time@) is Some);
        }
    }
    if spec_parsed(ts1) is Some && spec_parsed(ts2) is Some {
        let p1 = spec_parsed(ts1)->0;
        let p2 = spec_parsed(ts2)->0;
        assert forall|i: int| 0 <= i < p1.len() implies #[trigger] p2.contains(p1[i]) by {
            assert(ts2.contains(ts1[i]));
            let k = choose|k: int| 0 <= k < ts2.len() && ts2[k] == ts1[i];
            assert(rfc3339_instant(ts2[k].time@) == Some(p2[k]));
            assert(rfc3339_instant(ts1[i].time@) == Some(p1[i]));
            assert(p2[k] == p1[i]);
        }
        assert forall|i: int| 0 <= i < p2.len() implies #[trigger] p1.contains(p2[i]) by {
            assert(ts1.contains(ts2[i]));
            let k = choose|k: int| 0 <= k < ts1.len() && ts1[k] == ts2[i];
            assert(rfc3339_instant(ts1[k].time@) == Some(p1[k]));
            assert(rfc3339_instant(ts2[i].time@) == Some(p2[i]));
            assert(p1[k] == p2[i]);
        }
        lemma_extremes_same(p1, p2);
    }
}

/// A stamp that does not parse spoils every longer run of stamps.
proof fn lemma_parsed_prefix_none(ts: Seq<TimestampEntry>, k: int)
    requires
        0 <= k <= ts.len(),
        spec_parsed(ts.take(k)) is None,
    ensures
        spec_parsed(ts) is None,
    decreases ts.len() - k,
{
    if k < ts.len() {
        assert(ts.take(k + 1).drop_last() == ts.take(k));
        lemma_parsed_prefix_none(ts, k + 1);
    } else {
        assert(ts.take(k) == ts);
    }
}

} // verus!
