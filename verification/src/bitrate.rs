//! The bitrate histogram: packet sizes of one stream summed over time buckets
//! of a fixed width.

use vstd::prelude::*;
use vstd::seq_lib::{to_multiset_len, to_multiset_remove};
use crate::ffmpeg::{Packet, ProbeData};
use crate::time::Seconds;

verus! {

/// The stream whose packets the histogram counts.
pub const TARGET_STREAM: u64 = 0;

/// Whether the histogram counts this packet.
pub open spec fn selected(packet: Packet) -> bool {
    packet.stream_index == TARGET_STREAM
}

/// Number of buckets of `width` microseconds needed to cover `duration`
/// microseconds: the duration divided by the width, rounded up, and no bucket
/// for a duration that is not positive.
pub open spec fn bucket_count(duration: int, width: int) -> int
    recommends
        width > 0,
{
    if duration <= 0 {
        0
    } else {
        (duration + width - 1) / width
    }
}

/// The bucket, of `count` buckets of `width` microseconds, that a packet
/// presented at `time` microseconds falls in: the time divided by the width,
/// rounded down, and moved to the nearest bucket where that lies outside the
/// histogram.
pub open spec fn bucket_index(time: int, width: int, count: int) -> int
    recommends
        width > 0,
        count > 0,
{
    let raw = time / width;
    if raw < 0 {
        0
    } else if raw >= count {
        count - 1
    } else {
        raw
    }
}

/// The bytes that one packet adds to bucket `bucket`.
pub open spec fn share(packet: Packet, width: int, count: int, bucket: int) -> nat {
    if selected(packet) && bucket_index(packet.pts_time.micros as int, width, count) == bucket {
        packet.size as nat
    } else {
        0
    }
}

/// The bytes that `packets` add to bucket `bucket`, all together.
pub open spec fn bucket_bytes(packets: Seq<Packet>, width: int, count: int, bucket: int) -> nat
    decreases packets.len(),
{
    if packets.len() == 0 {
        0
    } else {
        bucket_bytes(packets.drop_last(), width, count, bucket) + share(
            packets.last(),
            width,
            count,
            bucket,
        )
    }
}

/// One bucket of the histogram.
#[derive(Clone, Copy, Debug, PartialEq, Eq, Structural)]
pub struct Bar {
    /// Where the bucket begins.
    pub start: Seconds,
    /// How long the bucket is.
    pub width: Seconds,
    /// Bytes of the packets that fall in the bucket. Divided by the width in
    /// seconds and by 1024 this is the bucket's rate in KiB/s.
    pub bytes: u128,
}

impl Bar {
    /// Twice the bucket's midpoint, in microseconds. (The midpoint of a bucket
    /// of odd width lies between two microseconds.)
    pub open spec fn center_doubled(self) -> int {
        2 * self.start.micros + self.width.micros
    }
}

/// Why no histogram could be made.
#[derive(Clone, Copy, Debug, PartialEq, Eq, Structural)]
pub enum AggregateError {
    /// The report has no packet section.
    MissingPackets,
    /// The report has no format section.
    MissingFormat,
    /// The format section gives no duration.
    MissingDuration,
    /// The bucket width is not positive.
    InvalidBucketWidth,
    /// More buckets are needed than a list can hold on this machine.
    TooManyBuckets,
    /// The duration gives no bucket, yet there is a packet to count.
    NoBucket,
}

/// Bucket `bucket` of the histogram of `packets`.
pub open spec fn bar_at(packets: Seq<Packet>, width: int, count: int, bucket: int) -> Bar {
    Bar {
        start: Seconds { micros: (bucket * width) as i64 },
        width: Seconds { micros: width as i64 },
        bytes: bucket_bytes(packets, width, count, bucket) as u128,
    }
}

/// The bars of the histogram of `packets` over `duration`, for buckets of
/// `bucket_width`: one for each bucket, first bucket first.
pub open spec fn bars_of(packets: Seq<Packet>, duration: Seconds, bucket_width: Seconds) -> Seq<Bar> {
    let width = bucket_width.micros as int;
    let count = bucket_count(duration.micros as int, width);
    Seq::new(count as nat, |bucket: int| bar_at(packets, width, count, bucket))
}

/// The histogram of a report for buckets of `bucket_width`, or why there is
/// none. A packet presented before the first bucket is counted in the first,
/// one presented after the last bucket in the last.
pub open spec fn histogram(data: ProbeData, bucket_width: Seconds) -> Result<
    Seq<Bar>,
    AggregateError,
> {
    if data.packets is None {
        Err(AggregateError::MissingPackets)
    } else if data.format is None {
        Err(AggregateError::MissingFormat)
    } else if data.format->0.duration is None {
        Err(AggregateError::MissingDuration)
    } else if bucket_width.micros <= 0 {
        Err(AggregateError::InvalidBucketWidth)
    } else {
        let packets = data.packets->0@;
        let width = bucket_width.micros as int;
        let count = bucket_count(data.format->0.duration->0.micros as int, width);
        if count > usize::MAX {
            Err(AggregateError::TooManyBuckets)
        } else if count == 0 && exists|i: int| 0 <= i < packets.len() && selected(#[trigger] packets[i]) {
            Err(AggregateError::NoBucket)
        } else {
            Ok(bars_of(packets, data.format->0.duration->0, bucket_width))
        }
    }
}

/// The packets of `packets` that belong to stream `stream`, in their order.
pub fn select_stream(packets: &Vec<Packet>, stream: u64) -> (chosen: Vec<Packet>)
    ensures
        chosen@ == packets@.filter(|p: Packet| p.stream_index == stream),
{
    let mut chosen: Vec<Packet> = Vec::new();
    let mut i: usize = 0;
    while i < packets.len()
        invariant
            i <= packets.len(),
            chosen@ == packets@.take(i as int).filter(|p: Packet| p.stream_index == stream),
        decreases packets.len() - i,
    {
        let packet = packets[i];
        proof {
            let pred = |p: Packet| p.stream_index == stream;
            assert(packets@.take(i as int + 1) == packets@.take(i as int).push(packets@[i as int]));
            packets@.take(i as int).lemma_filter_push(packets@[i as int], pred);
        }
        if packet.stream_index == stream {
            chosen.push(packet);
        }
        i += 1;
    }
    proof {
        assert(packets@.take(packets.len() as int) == packets@);
    }
    chosen
}

/// Sorts packets by `pts`, smallest first, through the standard library's
/// `sort_unstable_by_key` on slices. Believed of it: the packets afterwards
/// are the packets before, each as often as before, and no packet stands
/// before one with a smaller `pts`. Which of two packets with the same `pts`
/// comes first is left open.
#[verifier::external_body]
fn sort_by_pts(packets: &mut Vec<Packet>)
    ensures
        final(packets)@.to_multiset() == old(packets)@.to_multiset(),
        ordered_by_pts(final(packets)@),
{
    packets.sort_unstable_by_key(|p| p.pts);
}

/// Whether no packet stands before one with a smaller `pts`.
pub open spec fn ordered_by_pts(packets: Seq<Packet>) -> bool {
    forall|i: int, j: int| 0 <= i <= j < packets.len() ==> packets[i].pts <= packets[j].pts
}

/// The packets the histogram counts, in the order it processes them: those of
/// the target stream, by `pts` ascending.
pub fn processing_order(packets: &Vec<Packet>) -> (ordered: Vec<Packet>)
    ensures
        ordered@.to_multiset() == packets@.filter(|p: Packet| selected(p)).to_multiset(),
        ordered_by_pts(ordered@),
{
    let mut chosen = select_stream(packets, TARGET_STREAM);
    assert(chosen@ == packets@.filter(|p: Packet| selected(p))) by {
        assert((|p: Packet| p.stream_index == TARGET_STREAM) =~= (|p: Packet| selected(p)));
    }
    sort_by_pts(&mut chosen);
    chosen
}

/// Number of buckets of `width` microseconds that cover `duration` microseconds.
pub fn count_buckets(duration: i64, width: i64) -> (count: u64)
    requires
        width > 0,
    ensures
        count == bucket_count(duration as int, width as int),
{
    if duration <= 0 {
        0
    } else {
        let whole: i64 = duration / width;
        let rest: i64 = duration % width;
        proof {
            lemma_round_up(duration as int, width as int);
        }
        if rest == 0 {
            whole as u64
        } else {
            (whole + 1) as u64
        }
    }
}

/// The bucket that a packet presented at `time` microseconds is counted in.
pub fn bucket_of(time: i64, width: i64, count: usize) -> (bucket: usize)
    requires
        width > 0,
        count > 0,
    ensures
        bucket == bucket_index(time as int, width as int, count as int),
        bucket < count,
{
    if time < 0 {
        assert((time as int) / (width as int) < 0) by (nonlinear_arith)
            requires
                time < 0,
                width > 0,
        ;
        0
    } else {
        let raw: i64 = time / width;
        assert(0 <= (time as int) / (width as int)) by (nonlinear_arith)
            requires
                time >= 0,
                width > 0,
        ;
        if raw as u64 >= count as u64 {
            count - 1
        } else {
            raw as usize
        }
    }
}

/// The bytes of every bucket of the histogram of `packets`.
fn bucket_totals(packets: &Vec<Packet>, width: i64, count: usize) -> (totals: Vec<u128>)
    requires
        width > 0,
        count > 0,
    ensures
        totals@.len() == count,
        forall|b: int|
            0 <= b < count ==> totals@[b] == #[trigger] bucket_bytes(
                packets@,
                width as int,
                count as int,
                b,
            ),
{
    let mut totals: Vec<u128> = Vec::new();
    let mut b: usize = 0;
    while b < count
        invariant
            b <= count,
            totals@.len() == b,
            forall|k: int| 0 <= k < b ==> totals@[k] == 0,
        decreases count - b,
    {
        totals.push(0u128);
        b += 1;
    }
    let mut i: usize = 0;
    while i < packets.len()
        invariant
            width > 0,
            count > 0,
            i <= packets.len(),
            totals@.len() == count,
            forall|k: int|
                0 <= k < count ==> totals@[k] == #[trigger] bucket_bytes(
                    packets@.take(i as int),
                    width as int,
                    count as int,
                    k,
                ),
            forall|k: int| 0 <= k < count ==> #[trigger] totals@[k] <= i * 0xffff_ffff,
        decreases packets.len() - i,
    {
        let packet = packets[i];
        proof {
            let longer = packets@.take(i as int + 1);
            assert(longer.drop_last() =~= packets@.take(i as int));
            assert(longer.last() == packet);
            assert forall|k: int| 0 <= k < count implies #[trigger] bucket_bytes(
                longer,
                width as int,
                count as int,
                k,
            ) == bucket_bytes(packets@.take(i as int), width as int, count as int, k) + share(
                packet,
                width as int,
                count as int,
                k,
            ) by {}
        }
        if packet.stream_index == TARGET_STREAM {
            let at = bucket_of(packet.pts_time.micros, width, count);
            assert(i * 0xffff_ffff + 0xffff_ffff <= 0xffff_ffff_ffff_ffff * 0xffff_ffff + 0xffff_ffff)
                by (nonlinear_arith)
                requires
                    i <= 0xffff_ffff_ffff_ffff,
            ;
            let sum: u128 = totals[at] + packet.size as u128;
            totals.set(at, sum);
        }
        i += 1;
    }
    proof {
        assert(packets@.take(packets.len() as int) == packets@);
    }
    totals
}

/// The histogram of a report for buckets of `bucket_width`: one bar for each
/// bucket, first bucket first, or the reason why there is none.
pub fn aggregate(data: &ProbeData, bucket_width: Seconds) -> (r: Result<Vec<Bar>, AggregateError>)
    ensures
        match r {
            Ok(bars) => histogram(*data, bucket_width) == Ok::<Seq<Bar>, AggregateError>(bars@),
            Err(e) => histogram(*data, bucket_width) == Err::<Seq<Bar>, AggregateError>(e),
        },
{
    let packets = match &data.packets {
        Some(packets) => packets,
        None => { return Err(AggregateError::MissingPackets); },
    };
    let format = match &data.format {
        Some(format) => format,
        None => { return Err(AggregateError::MissingFormat); },
    };
    let duration = match format.duration {
        Some(duration) => duration,
        None => { return Err(AggregateError::MissingDuration); },
    };
    let width: i64 = bucket_width.micros;
    if width <= 0 {
        return Err(AggregateError::InvalidBucketWidth);
    }
    let wanted: u64 = count_buckets(duration.micros, width);
    if wanted > usize::MAX as u64 {
        return Err(AggregateError::TooManyBuckets);
    }
    let count: usize = wanted as usize;
    let ordered = processing_order(packets);
    proof {
        lemma_filter_keeps_selected(packets@);
        to_multiset_len(ordered@);
        to_multiset_len(packets@.filter(|p: Packet| selected(p)));
    }
    let mut bars: Vec<Bar> = Vec::new();
    if count == 0 {
        if ordered.len() > 0 {
            return Err(AggregateError::NoBucket);
        }
        assert(bars@ == Seq::new(
            0nat,
            |bucket: int| bar_at(packets@, width as int, count as int, bucket),
        ));
        return Ok(bars);
    }
    let totals = bucket_totals(&ordered, width, count);
    let mut b: usize = 0;
    while b < count
        invariant
            b <= count,
            count == bucket_count(duration.micros as int, width as int),
            width > 0,
            width == bucket_width.micros,
            totals@.len() == count,
            bars@.len() == b,
            forall|k: int|
                0 <= k < count ==> totals@[k] == #[trigger] bucket_bytes(
                    ordered@,
                    width as int,
                    count as int,
                    k,
                ),
            ordered@.to_multiset() == packets@.filter(|p: Packet| selected(p)).to_multiset(),
            forall|k: int|
                0 <= k < b ==> bars@[k] == bar_at(packets@, width as int, count as int, k),
        decreases count - b,
    {
        proof {
            lemma_bucket_bytes_permutation(
                ordered@,
                packets@.filter(|p: Packet| selected(p)),
                width as int,
                count as int,
                b as int,
            );
            lemma_bucket_bytes_filter(packets@, width as int, count as int, b as int);
            lemma_last_bucket_starts_in_time(duration.micros as int, width as int, b as int);
        }
        let start: i64 = (b as i64) * width;
        bars.push(Bar { start: Seconds { micros: start }, width: bucket_width, bytes: totals[b] });
        b += 1;
    }
    assert(bars@ =~= Seq::new(
        count as nat,
        |bucket: int| bar_at(packets@, width as int, count as int, bucket),
    ));
    Ok(bars)
}

/// The bytes of all selected packets of `packets`.
pub open spec fn selected_bytes(packets: Seq<Packet>) -> nat
    decreases packets.len(),
{
    if packets.len() == 0 {
        0
    } else {
        selected_bytes(packets.drop_last()) + if selected(packets.last()) {
            packets.last().size as nat
        } else {
            0
        }
    }
}

/// The bytes of all bars of `bars`.
pub open spec fn total_bytes(bars: Seq<Bar>) -> nat
    decreases bars.len(),
{
    if bars.len() == 0 {
        0
    } else {
        total_bytes(bars.drop_last()) + bars.last().bytes as nat
    }
}

/// The histogram has as many bars as the duration divided by the bucket
/// width, rounded up: the least number of buckets that cover the duration.
/// Each bar is as wide as asked, the first begins at zero, and each other bar
/// begins where the one before it ends, so that the midpoints of the bars rise
/// by one bucket width from bar to bar.
pub proof fn lemma_histogram_shape(packets: Seq<Packet>, duration: Seconds, bucket_width: Seconds)
    requires
        bucket_width.micros > 0,
    ensures
        ({
            let bars = bars_of(packets, duration, bucket_width);
            let width = bucket_width.micros as int;
            &&& bars.len() == bucket_count(duration.micros as int, width)
            &&& duration.micros <= 0 ==> bars.len() == 0
            &&& duration.micros > 0 ==> (bars.len() - 1) * width < duration.micros <= bars.len()
                * width
            &&& forall|i: int|
                0 <= i < bars.len() ==> (#[trigger] bars[i]).width == bucket_width
                    && bars[i].start.micros == i * width
            &&& forall|i: int|
                0 <= i < bars.len() - 1 ==> (#[trigger] bars[i + 1]).center_doubled()
                    - bars[i].center_doubled() == 2 * width
        }),
{
    let bars = bars_of(packets, duration, bucket_width);
    let width = bucket_width.micros as int;
    let duration = duration.micros as int;
    let count = bucket_count(duration, width);
    if duration > 0 {
        lemma_round_up(duration, width);
        assert((count - 1) * width < duration <= count * width) by (nonlinear_arith)
            requires
                width > 0,
                duration > 0,
                duration % width == 0 ==> count == duration / width,
                duration % width != 0 ==> count == duration / width + 1,
                duration == (duration / width) * width + duration % width,
                0 <= duration % width < width,
        ;
    }
    assert forall|i: int| 0 <= i < bars.len() implies (#[trigger] bars[i]).width == bucket_width
        && bars[i].start.micros == i * width by {
        lemma_last_bucket_starts_in_time(duration, width, i);
    }
    assert forall|i: int| 0 <= i < bars.len() - 1 implies (#[trigger] bars[i + 1]).center_doubled()
        - bars[i].center_doubled() == 2 * width by {
        assert(bars[i].start.micros == i * width);
        assert(bars[i + 1].start.micros == (i + 1) * width);
        assert((i + 1) * width == i * width + width) by (nonlinear_arith);
    }
}

/// The histogram does not depend on the order in which the report lists its
/// packets: two reports with the same packets, each as often in one as in the
/// other, and the same format section have the same histogram.
pub proof fn lemma_histogram_order_independent(
    first: ProbeData,
    second: ProbeData,
    bucket_width: Seconds,
)
    requires
        first.packets is Some,
        second.packets is Some,
        first.packets->0@.to_multiset() == second.packets->0@.to_multiset(),
        first.format == second.format,
    ensures
        histogram(first, bucket_width) == histogram(second, bucket_width),
{
    let p = first.packets->0@;
    let q = second.packets->0@;
    if first.format is Some && first.format->0.duration is Some && bucket_width.micros > 0 {
        let width = bucket_width.micros as int;
        let count = bucket_count(first.format->0.duration->0.micros as int, width);
        lemma_same_packets_same_selection(p, q);
        lemma_same_packets_same_selection(q, p);
        if count <= usize::MAX && !(count == 0 && exists|i: int|
            0 <= i < p.len() && selected(#[trigger] p[i])) {
            let a = histogram(first, bucket_width)->Ok_0;
            let b = histogram(second, bucket_width)->Ok_0;
            assert forall|bucket: int| 0 <= bucket < count implies a[bucket] == b[bucket] by {
                lemma_bucket_bytes_permutation(p, q, width, count, bucket);
            }
            assert(a =~= b);
        }
    }
}

/// A list with the same packets as one that holds a selected packet holds one too.
proof fn lemma_same_packets_same_selection(first: Seq<Packet>, second: Seq<Packet>)
    requires
        first.to_multiset() == second.to_multiset(),
    ensures
        (exists|i: int| 0 <= i < first.len() && selected(#[trigger] first[i])) ==> (exists|i: int|
            0 <= i < second.len() && selected(#[trigger] second[i])),
{
    if exists|i: int| 0 <= i < first.len() && selected(#[trigger] first[i]) {
        let i = choose|i: int| 0 <= i < first.len() && selected(#[trigger] first[i]);
        first.to_multiset_ensures();
        second.to_multiset_ensures();
        assert(first.contains(first[i]));
        assert(first.to_multiset().count(first[i]) > 0);
        assert(second.to_multiset().count(first[i]) > 0);
        assert(second.contains(first[i]));
        let j = choose|j: int| 0 <= j < second.len() && second[j] == first[i];
        assert(selected(second[j]));
    }
}

/// No byte is lost or counted twice: the bars of the histogram hold, all
/// together, the bytes of all packets of the target stream. This holds of
/// every list of packets that a machine can hold, where there is a bucket to
/// count in or no packet to count.
pub proof fn lemma_histogram_conserves_bytes(
    packets: Seq<Packet>,
    duration: Seconds,
    bucket_width: Seconds,
)
    requires
        bucket_width.micros > 0,
        packets.len() <= usize::MAX,
        duration.micros > 0 || !exists|i: int|
            0 <= i < packets.len() && selected(#[trigger] packets[i]),
    ensures
        total_bytes(bars_of(packets, duration, bucket_width)) == selected_bytes(packets),
{
    let bars = bars_of(packets, duration, bucket_width);
    let width = bucket_width.micros as int;
    let count = bucket_count(duration.micros as int, width);
    if duration.micros > 0 {
        lemma_round_up(duration.micros as int, width);
        assert(count > 0) by (nonlinear_arith)
            requires
                count == (duration.micros + width - 1) / width,
                duration.micros > 0,
                width > 0,
        ;
    }
    lemma_total_bytes_of_bars(packets, width, count, count);
    assert(bars.take(count) =~= bars);
    if count == 0 {
        lemma_nothing_selected(packets);
    } else {
        lemma_buckets_hold_selected(packets, width, count);
    }
}

/// Without a selected packet there are no selected bytes.
proof fn lemma_nothing_selected(packets: Seq<Packet>)
    requires
        !exists|i: int| 0 <= i < packets.len() && selected(#[trigger] packets[i]),
    ensures
        selected_bytes(packets) == 0,
    decreases packets.len(),
{
    if packets.len() > 0 {
        assert(!selected(packets[packets.len() - 1]));
        assert forall|i: int| 0 <= i < packets.drop_last().len() implies !selected(
            #[trigger] packets.drop_last()[i],
        ) by {
            assert(packets.drop_last()[i] == packets[i]);
        }
        lemma_nothing_selected(packets.drop_last());
    }
}

/// The bytes of the first `upto` buckets of `packets`, all together.
pub open spec fn buckets_bytes(packets: Seq<Packet>, width: int, count: int, upto: int) -> nat
    decreases upto,
{
    if upto <= 0 {
        0
    } else {
        buckets_bytes(packets, width, count, upto - 1) + bucket_bytes(
            packets,
            width,
            count,
            upto - 1,
        )
    }
}

/// A bucket holds at most as many bytes as its packets can have.
proof fn lemma_bucket_bytes_bound(packets: Seq<Packet>, width: int, count: int, bucket: int)
    ensures
        bucket_bytes(packets, width, count, bucket) <= packets.len() * 0xffff_ffff,
    decreases packets.len(),
{
    if packets.len() > 0 {
        lemma_bucket_bytes_bound(packets.drop_last(), width, count, bucket);
    }
}

/// The first `upto` bars of a histogram hold the bytes of its first `upto` buckets.
proof fn lemma_total_bytes_of_bars(packets: Seq<Packet>, width: int, count: int, upto: int)
    requires
        0 <= upto <= count,
        packets.len() <= usize::MAX,
    ensures
        total_bytes(
            Seq::new(count as nat, |bucket: int| bar_at(packets, width, count, bucket)).take(upto),
        ) == buckets_bytes(packets, width, count, upto),
    decreases upto,
{
    let bars = Seq::new(count as nat, |bucket: int| bar_at(packets, width, count, bucket));
    if upto > 0 {
        lemma_total_bytes_of_bars(packets, width, count, upto - 1);
        assert(bars.take(upto).drop_last() =~= bars.take(upto - 1));
        assert(bars.take(upto).last() == bar_at(packets, width, count, upto - 1));
        lemma_bucket_bytes_bound(packets, width, count, upto - 1);
        assert(packets.len() * 0xffff_ffff <= 0xffff_ffff_ffff_ffff * 0xffff_ffff) by (nonlinear_arith)
            requires
                packets.len() <= 0xffff_ffff_ffff_ffff,
        ;
    }
}

/// What one packet adds to the first `upto` buckets: its bytes, if it is
/// selected and its bucket is among them.
proof fn lemma_share_of_buckets(packets: Seq<Packet>, width: int, count: int, upto: int)
    requires
        packets.len() > 0,
        0 <= upto,
    ensures
        buckets_bytes(packets, width, count, upto) == buckets_bytes(
            packets.drop_last(),
            width,
            count,
            upto,
        ) + if selected(packets.last()) && 0 <= bucket_index(
            packets.last().pts_time.micros as int,
            width,
            count,
        ) < upto {
            packets.last().size as nat
        } else {
            0
        },
    decreases upto,
{
    if upto > 0 {
        lemma_share_of_buckets(packets, width, count, upto - 1);
    }
}

/// All buckets together hold the bytes of all selected packets.
proof fn lemma_buckets_hold_selected(packets: Seq<Packet>, width: int, count: int)
    requires
        count > 0,
    ensures
        buckets_bytes(packets, width, count, count) == selected_bytes(packets),
    decreases packets.len(),
{
    if packets.len() == 0 {
        lemma_empty_buckets(packets, width, count, count);
    } else {
        lemma_buckets_hold_selected(packets.drop_last(), width, count);
        lemma_share_of_buckets(packets, width, count, count);
    }
}

/// Without packets the buckets are empty.
proof fn lemma_empty_buckets(packets: Seq<Packet>, width: int, count: int, upto: int)
    requires
        packets.len() == 0,
    ensures
        buckets_bytes(packets, width, count, upto) == 0,
    decreases upto,
{
    if upto > 0 {
        lemma_empty_buckets(packets, width, count, upto - 1);
    }
}

/// Some packet is selected exactly when filtering by selection leaves one.
proof fn lemma_filter_keeps_selected(packets: Seq<Packet>)
    ensures
        packets.filter(|p: Packet| selected(p)).len() > 0 <==> exists|i: int|
            0 <= i < packets.len() && selected(#[trigger] packets[i]),
{
    let pred = |p: Packet| selected(p);
    let kept = packets.filter(pred);
    if kept.len() > 0 {
        assert(kept.contains(kept[0]));
        packets.lemma_filter_contains_rev(pred, kept[0]);
        packets.lemma_filter_pred(pred, 0);
        let i = choose|i: int| 0 <= i < packets.len() && packets[i] == kept[0];
        assert(selected(packets[i]));
    }
    if exists|i: int| 0 <= i < packets.len() && selected(#[trigger] packets[i]) {
        let i = choose|i: int| 0 <= i < packets.len() && selected(#[trigger] packets[i]);
        assert(pred(packets[i]));
        packets.lemma_filter_contains(pred, i);
    }
}

/// Every bucket but the last ends before the duration does, so each bucket
/// begins at a time that can be held.
proof fn lemma_last_bucket_starts_in_time(duration: int, width: int, bucket: int)
    requires
        width > 0,
        0 <= bucket < bucket_count(duration, width),
    ensures
        0 <= bucket <= bucket * width < duration,
{
    lemma_round_up(duration, width);
    let q = duration / width;
    let r = duration % width;
    assert(duration == q * width + r && 0 <= r < width) by (nonlinear_arith)
        requires
            q == duration / width,
            r == duration % width,
            width > 0,
    ;
    assert(0 <= bucket <= bucket * width < duration) by (nonlinear_arith)
        requires
            duration == q * width + r,
            0 <= r < width,
            width > 0,
            0 <= bucket,
            r == 0 ==> bucket < q,
            r != 0 ==> bucket < q + 1,
    ;
}

/// Taking one packet out of a list takes its share out of the bucket.
proof fn lemma_bucket_bytes_remove(
    packets: Seq<Packet>,
    at: int,
    width: int,
    count: int,
    bucket: int,
)
    requires
        0 <= at < packets.len(),
    ensures
        bucket_bytes(packets, width, count, bucket) == bucket_bytes(
            packets.remove(at),
            width,
            count,
            bucket,
        ) + share(packets[at], width, count, bucket),
    decreases packets.len(),
{
    if at == packets.len() - 1 {
        assert(packets.remove(at) =~= packets.drop_last());
    } else {
        lemma_bucket_bytes_remove(packets.drop_last(), at, width, count, bucket);
        assert(packets.remove(at).drop_last() =~= packets.drop_last().remove(at));
        assert(packets.remove(at).last() == packets.last());
    }
}

/// The bytes of a bucket do not depend on the order of the packets.
pub proof fn lemma_bucket_bytes_permutation(
    first: Seq<Packet>,
    second: Seq<Packet>,
    width: int,
    count: int,
    bucket: int,
)
    requires
        first.to_multiset() == second.to_multiset(),
    ensures
        bucket_bytes(first, width, count, bucket) == bucket_bytes(second, width, count, bucket),
    decreases first.len(),
{
    to_multiset_len(first);
    to_multiset_len(second);
    if first.len() > 0 {
        let last = first.last();
        first.to_multiset_ensures();
        second.to_multiset_ensures();
        assert(first.contains(last));
        assert(first.to_multiset().count(last) > 0);
        assert(second.to_multiset().count(last) > 0);
        assert(second.contains(last));
        let at = choose|at: int| 0 <= at < second.len() && second[at] == last;
        assert(first.drop_last() =~= first.remove(first.len() - 1));
        to_multiset_remove(first, first.len() - 1);
        to_multiset_remove(second, at);
        lemma_bucket_bytes_permutation(first.drop_last(), second.remove(at), width, count, bucket);
        lemma_bucket_bytes_remove(second, at, width, count, bucket);
    }
}

/// Packets of other streams add nothing to a bucket.
proof fn lemma_bucket_bytes_filter(packets: Seq<Packet>, width: int, count: int, bucket: int)
    ensures
        bucket_bytes(packets.filter(|p: Packet| selected(p)), width, count, bucket)
            == bucket_bytes(packets, width, count, bucket),
    decreases packets.len(),
{
    let pred = |p: Packet| selected(p);
    if packets.len() == 0 {
        assert(packets.filter(pred) =~= packets);
    } else {
        let front = packets.drop_last();
        lemma_bucket_bytes_filter(front, width, count, bucket);
        assert(packets == front.push(packets.last()));
        front.lemma_filter_push(packets.last(), pred);
        if selected(packets.last()) {
            assert(packets.filter(pred).drop_last() =~= front.filter(pred));
        }
    }
}

/// Rounding a quotient up: with `whole` the quotient rounded down and `rest`
/// the remainder, the rounded-up quotient is `whole` when nothing remains and
/// `whole + 1` otherwise.
proof fn lemma_round_up(duration: int, width: int)
    requires
        duration > 0,
        width > 0,
    ensures
        duration % width == 0 ==> (duration + width - 1) / width == duration / width,
        duration % width != 0 ==> (duration + width - 1) / width == duration / width + 1,
        0 <= duration / width <= duration,
        duration % width != 0 ==> duration / width < duration,
        duration == (duration / width) * width + duration % width,
        0 <= duration % width < width,
{
    let q = duration / width;
    let r = duration % width;
    assert(duration == q * width + r && 0 <= r < width) by (nonlinear_arith)
        requires
            q == duration / width,
            r == duration % width,
            width > 0,
    ;
    assert(0 <= q <= duration && (r != 0 ==> q < duration)) by (nonlinear_arith)
        requires
            duration == q * width + r,
            0 <= r < width,
            duration > 0,
            width > 0,
    ;
    if r == 0 {
        assert((q * width + width - 1) / width == q) by (nonlinear_arith)
            requires
                width > 0,
        ;
    } else {
        assert((q * width + r + width - 1) / width == q + 1) by (nonlinear_arith)
            requires
                width > 0,
                0 < r < width,
        ;
    }
}

} // verus!
