use bitgraph::bitrate::{
    aggregate, bucket_of, count_buckets, processing_order, select_stream, AggregateError, Bar,
};
use bitgraph::ffmpeg::{Format, Packet, ProbeData};
use bitgraph::time::{Seconds, MICROS_PER_SECOND};

fn packet(stream_index: u64, pts: i64, micros: i64, size: u32) -> Packet {
    Packet { stream_index, pts, pts_time: Seconds::from_micros(micros), size }
}

fn format(duration: Option<i64>) -> Format {
    Format {
        filename: "a.mp4".to_string(),
        format_name: "mp4".to_string(),
        format_long_name: "MP4".to_string(),
        start_time: None,
        duration: duration.map(Seconds::from_micros),
        size: 0,
        bit_rate: 0,
    }
}

fn report(packets: Vec<Packet>, duration: i64) -> ProbeData {
    ProbeData { packets: Some(packets), streams: None, format: Some(format(Some(duration))), error: None }
}

fn bar(start: i64, width: i64, bytes: u128) -> Bar {
    Bar { start: Seconds::from_micros(start), width: Seconds::from_micros(width), bytes }
}

const SECOND: i64 = MICROS_PER_SECOND;

fn sample() -> Vec<Packet> {
    vec![
        packet(0, 30, 25 * SECOND, 4096),
        packet(1, 0, 0, 999),
        packet(0, 0, 0, 1024),
        packet(0, 20, 10 * SECOND, 2048),
        packet(0, 10, 9_999_999, 512),
        packet(0, 25, 19 * SECOND, 100),
        packet(2, 5, 5 * SECOND, 77),
    ]
}

#[test]
fn buckets_cover_the_duration_rounded_up() {
    assert_eq!(count_buckets(30 * SECOND, 10 * SECOND), 3);
    assert_eq!(count_buckets(30 * SECOND + 1, 10 * SECOND), 4);
    assert_eq!(count_buckets(1, 10 * SECOND), 1);
    assert_eq!(count_buckets(10 * SECOND - 1, 10 * SECOND), 1);
    assert_eq!(count_buckets(10 * SECOND, 10 * SECOND), 1);
    assert_eq!(count_buckets(0, 10 * SECOND), 0);
    assert_eq!(count_buckets(-5, 10 * SECOND), 0);
    assert_eq!(count_buckets(i64::MAX, 1), i64::MAX as u64);
    assert_eq!(count_buckets(i64::MAX, i64::MAX), 1);
    assert_eq!(count_buckets(i64::MAX, 2), (1u64 << 62));
}

#[test]
fn a_packet_falls_in_the_bucket_of_its_time() {
    assert_eq!(bucket_of(0, 10, 3), 0);
    assert_eq!(bucket_of(9, 10, 3), 0);
    assert_eq!(bucket_of(10, 10, 3), 1);
    assert_eq!(bucket_of(29, 10, 3), 2);
}

#[test]
fn a_packet_outside_the_histogram_is_moved_to_its_edge() {
    assert_eq!(bucket_of(30, 10, 3), 2);
    assert_eq!(bucket_of(i64::MAX, 10, 3), 2);
    assert_eq!(bucket_of(-1, 10, 3), 0);
    assert_eq!(bucket_of(i64::MIN, 10, 3), 0);
    assert_eq!(bucket_of(5, 10, 1), 0);
    assert_eq!(bucket_of(500, 10, 1), 0);
}

#[test]
fn select_stream_keeps_the_order() {
    let chosen = select_stream(&sample(), 0);
    let pts: Vec<i64> = chosen.iter().map(|p| p.pts).collect();
    assert_eq!(pts, [30, 0, 20, 10, 25]);
    assert_eq!(select_stream(&sample(), 2), vec![packet(2, 5, 5 * SECOND, 77)]);
    assert_eq!(select_stream(&sample(), 9), vec![]);
}

#[test]
fn processing_order_sorts_by_pts() {
    let ordered = processing_order(&sample());
    let pts: Vec<i64> = ordered.iter().map(|p| p.pts).collect();
    assert_eq!(pts, [0, 10, 20, 25, 30]);
    assert!(ordered.iter().all(|p| p.stream_index == 0));
    let sizes: Vec<u32> = ordered.iter().map(|p| p.size).collect();
    assert_eq!(sizes, [1024, 512, 2048, 100, 4096]);
}

#[test]
fn processing_order_goes_by_pts_not_by_time() {
    let ordered = processing_order(&vec![packet(0, 2, 0, 1), packet(0, 1, 5 * SECOND, 2)]);
    assert_eq!(ordered, vec![packet(0, 1, 5 * SECOND, 2), packet(0, 2, 0, 1)]);
}

#[test]
fn aggregate_sums_the_bytes_of_each_bucket() {
    let bars = aggregate(&report(sample(), 30 * SECOND), Seconds::from_micros(10 * SECOND)).unwrap();
    assert_eq!(
        bars,
        vec![
            bar(0, 10 * SECOND, 1536),
            bar(10 * SECOND, 10 * SECOND, 2148),
            bar(20 * SECOND, 10 * SECOND, 4096),
        ]
    );
}

#[test]
fn aggregate_gives_the_rate_in_kib_per_second() {
    let bars = aggregate(&report(sample(), 30 * SECOND), Seconds::from_micros(10 * SECOND)).unwrap();
    let values: Vec<f64> = bars
        .iter()
        .map(|b| b.bytes as f64 / (b.width.micros as f64 / 1e6) / 1024.0)
        .collect();
    assert_eq!(values, [0.15, 2148.0 / 10240.0, 0.4]);
    let centers: Vec<f64> =
        bars.iter().map(|b| (b.start.micros as f64 + b.width.micros as f64 / 2.0) / 1e6).collect();
    assert_eq!(centers, [5.0, 15.0, 25.0]);
}

#[test]
fn aggregate_has_one_bar_for_each_bucket() {
    for (duration, width, count) in
        [(30 * SECOND, 10 * SECOND, 3), (30 * SECOND + 1, 10 * SECOND, 4), (1, SECOND, 1), (7, 2, 4), (0, 5, 0)]
    {
        let bars = aggregate(&report(vec![], duration), Seconds::from_micros(width)).unwrap();
        assert_eq!(bars.len(), count);
        for (i, b) in bars.iter().enumerate() {
            assert_eq!(*b, bar(i as i64 * width, width, 0));
        }
        for pair in bars.windows(2) {
            assert_eq!(pair[1].start.micros - pair[0].start.micros, width);
        }
    }
}

#[test]
fn aggregate_does_not_depend_on_the_order_of_the_packets() {
    let width = Seconds::from_micros(7 * SECOND);
    let forward = aggregate(&report(sample(), 30 * SECOND), width).unwrap();
    let mut reversed = sample();
    reversed.reverse();
    assert_eq!(aggregate(&report(reversed, 30 * SECOND), width).unwrap(), forward);
    let mut rotated = sample();
    rotated.rotate_left(3);
    assert_eq!(aggregate(&report(rotated, 30 * SECOND), width).unwrap(), forward);
}

#[test]
fn aggregate_conserves_the_bytes() {
    let total: u128 = sample().iter().filter(|p| p.stream_index == 0).map(|p| p.size as u128).sum();
    assert_eq!(total, 7780);
    for width in [1, 3, SECOND, 7 * SECOND, 10 * SECOND, 40 * SECOND] {
        let bars = aggregate(&report(sample(), 30 * SECOND), Seconds::from_micros(width)).unwrap();
        assert_eq!(bars.iter().map(|b| b.bytes).sum::<u128>(), total);
    }
}

#[test]
fn aggregate_counts_a_packet_outside_the_duration_at_the_edge() {
    let packets = vec![packet(0, 0, -23_220, 10), packet(0, 1, 5 * SECOND, 20), packet(0, 2, 99 * SECOND, 40)];
    let bars = aggregate(&report(packets, 20 * SECOND), Seconds::from_micros(10 * SECOND)).unwrap();
    assert_eq!(bars, vec![bar(0, 10 * SECOND, 30), bar(10 * SECOND, 10 * SECOND, 40)]);
}

#[test]
fn aggregate_holds_sums_beyond_a_packet_size() {
    let packets = vec![packet(0, 0, 0, u32::MAX); 5];
    let bars = aggregate(&report(packets, SECOND), Seconds::from_micros(SECOND)).unwrap();
    assert_eq!(bars, vec![bar(0, SECOND, 5 * u32::MAX as u128)]);
}

#[test]
fn aggregate_needs_packets() {
    let data = ProbeData { packets: None, streams: None, format: Some(format(Some(SECOND))), error: None };
    assert_eq!(aggregate(&data, Seconds::from_micros(SECOND)), Err(AggregateError::MissingPackets));
    let nothing = ProbeData { packets: None, streams: None, format: None, error: None };
    assert_eq!(aggregate(&nothing, Seconds::from_micros(0)), Err(AggregateError::MissingPackets));
}

#[test]
fn aggregate_needs_a_format_with_a_duration() {
    let no_format = ProbeData { packets: Some(vec![]), streams: None, format: None, error: None };
    assert_eq!(aggregate(&no_format, Seconds::from_micros(SECOND)), Err(AggregateError::MissingFormat));
    let no_duration = ProbeData { packets: Some(sample()), streams: None, format: Some(format(None)), error: None };
    assert_eq!(aggregate(&no_duration, Seconds::from_micros(SECOND)), Err(AggregateError::MissingDuration));
}

#[test]
fn aggregate_needs_a_positive_width() {
    assert_eq!(aggregate(&report(sample(), SECOND), Seconds::from_micros(0)), Err(AggregateError::InvalidBucketWidth));
    assert_eq!(aggregate(&report(vec![], SECOND), Seconds::from_micros(-SECOND)), Err(AggregateError::InvalidBucketWidth));
}

#[test]
fn aggregate_needs_a_bucket_for_its_packets() {
    assert_eq!(aggregate(&report(sample(), 0), Seconds::from_micros(SECOND)), Err(AggregateError::NoBucket));
    assert_eq!(aggregate(&report(sample(), -SECOND), Seconds::from_micros(SECOND)), Err(AggregateError::NoBucket));
    let others = vec![packet(1, 0, 0, 5), packet(3, 1, 1, 6)];
    assert_eq!(aggregate(&report(others, 0), Seconds::from_micros(SECOND)), Ok(vec![]));
}

#[test]
fn aggregate_ignores_other_streams() {
    let others = vec![packet(1, 0, 0, 5), packet(3, 1, 1, 6)];
    assert_eq!(
        aggregate(&report(others, SECOND), Seconds::from_micros(SECOND)),
        Ok(vec![bar(0, SECOND, 0)])
    );
}

#[test]
fn the_rates_give_back_the_bytes() {
    let total: f64 = sample().iter().filter(|p| p.stream_index == 0).map(|p| p.size as f64).sum();
    for width in [SECOND / 3, SECOND, 7 * SECOND, 10 * SECOND] {
        let bars = aggregate(&report(sample(), 30 * SECOND), Seconds::from_micros(width)).unwrap();
        let seconds = width as f64 / 1e6;
        let sum: f64 = bars.iter().map(|b| (b.bytes as f64 / seconds / 1024.0) * seconds * 1024.0).sum();
        assert!((sum - total).abs() < 1e-6 * total, "{width}");
    }
}
