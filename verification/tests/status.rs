use bitgraph::bitrate::{AggregateError, Bar};
use bitgraph::ffmpeg::{Error, Failure, Format, Packet, PathKind, ProbeData};
use bitgraph::status::{AnalyzeStatus, Reason, BUCKET_WIDTH_MICROS};
use bitgraph::time::Seconds;

fn report(error: Option<Error>) -> ProbeData {
    ProbeData {
        packets: Some(vec![
            Packet { stream_index: 0, pts: 1, pts_time: Seconds::from_micros(12_000_000), size: 10 },
            Packet { stream_index: 0, pts: 0, pts_time: Seconds::from_micros(1_000_000), size: 5 },
        ]),
        streams: None,
        format: Some(Format {
            filename: "a".to_string(),
            format_name: "b".to_string(),
            format_long_name: "c".to_string(),
            start_time: None,
            duration: Some(Seconds::from_micros(15_000_000)),
            size: 15,
            bit_rate: 8,
        }),
        error,
    }
}

fn waiting() -> AnalyzeStatus {
    AnalyzeStatus::select("/media/a.mkv".to_string())
}

#[test]
fn a_chosen_file_waits_for_its_probe() {
    assert_eq!(waiting(), AnalyzeStatus::WaitUpdate("/media/a.mkv".to_string()));
    assert_eq!(waiting().pending(), Some(&"/media/a.mkv".to_string()));
    assert_eq!(AnalyzeStatus::NotSelected.pending(), None);
}

#[test]
fn a_dropped_file_is_chosen_and_nothing_else_is() {
    let path = "/media/b.mkv".to_string();
    assert_eq!(
        AnalyzeStatus::NotSelected.dropped(path.clone(), PathKind::File),
        AnalyzeStatus::WaitUpdate(path.clone())
    );
    assert_eq!(waiting().dropped(path.clone(), PathKind::Other), waiting());
    assert_eq!(AnalyzeStatus::Draw(vec![]).dropped(path, PathKind::Missing), AnalyzeStatus::Draw(vec![]));
}

#[test]
fn close_forgets_the_file() {
    assert_eq!(waiting().close(), AnalyzeStatus::NotSelected);
    assert_eq!(AnalyzeStatus::Success(report(None)).close(), AnalyzeStatus::NotSelected);
}

#[test]
fn a_report_is_a_success() {
    assert_eq!(waiting().probed(Ok(report(None))), AnalyzeStatus::Success(report(None)));
}

#[test]
fn a_failed_probe_and_a_reported_error_are_kept_apart() {
    assert_eq!(
        waiting().probed(Err(Failure::Launch("gone".to_string()))),
        AnalyzeStatus::FfprobeFailed(Reason::Probe(Failure::Launch("gone".to_string())))
    );
    assert_eq!(
        waiting().probed(Err(Failure::MissingInput { path: "/media/a.mkv".to_string() })),
        AnalyzeStatus::FfprobeFailed(Reason::Probe(Failure::MissingInput {
            path: "/media/a.mkv".to_string()
        }))
    );
    let error = Error { code: -2, message: "No such file or directory".to_string() };
    assert_eq!(
        waiting().probed(Ok(report(Some(error.clone())))),
        AnalyzeStatus::FfprobeFailed(Reason::Tool(error))
    );
}

#[test]
fn a_probe_that_nothing_waits_for_changes_nothing() {
    assert_eq!(AnalyzeStatus::NotSelected.probed(Ok(report(None))), AnalyzeStatus::NotSelected);
    assert_eq!(AnalyzeStatus::Draw(vec![]).probed(Err(Failure::Discovery)), AnalyzeStatus::Draw(vec![]));
}

#[test]
fn a_success_is_drawn() {
    let width = Seconds::from_micros(BUCKET_WIDTH_MICROS);
    let drawn = AnalyzeStatus::Success(report(None)).rendered(width);
    assert_eq!(
        drawn,
        AnalyzeStatus::Draw(vec![
            Bar { start: Seconds::from_micros(0), width, bytes: 5 },
            Bar { start: Seconds::from_micros(10_000_000), width, bytes: 10 },
        ])
    );
    assert_eq!(BUCKET_WIDTH_MICROS, 10_000_000);
}

#[test]
fn a_report_without_what_a_histogram_needs_fails() {
    let mut data = report(None);
    data.format = None;
    assert_eq!(
        AnalyzeStatus::Success(data).rendered(Seconds::from_micros(1)),
        AnalyzeStatus::FfprobeFailed(Reason::Aggregate(AggregateError::MissingFormat))
    );
    let mut data = report(None);
    data.packets = None;
    assert_eq!(
        AnalyzeStatus::Success(data).rendered(Seconds::from_micros(1)),
        AnalyzeStatus::FfprobeFailed(Reason::Aggregate(AggregateError::MissingPackets))
    );
}

#[test]
fn only_a_success_is_drawn() {
    let width = Seconds::from_micros(1);
    assert_eq!(waiting().rendered(width), waiting());
    assert_eq!(AnalyzeStatus::NotSelected.rendered(width), AnalyzeStatus::NotSelected);
    assert_eq!(AnalyzeStatus::Draw(vec![]).rendered(width), AnalyzeStatus::Draw(vec![]));
}
