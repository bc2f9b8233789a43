//! The state of an analysis, from the choice of a file to its histogram.

use vstd::prelude::*;
use crate::bitrate::{aggregate, histogram, AggregateError, Bar};
use crate::ffmpeg::{Error, Failure, PathKind, ProbeData};
use crate::time::Seconds;

verus! {

/// The width of the histogram's buckets, in microseconds.
pub const BUCKET_WIDTH_MICROS: i64 = 10_000_000;

/// Why an analysis failed. The three reasons call for different remedies and
/// are kept apart.
#[derive(Clone, Debug, PartialEq, Eq)]
pub enum Reason {
    /// The probe program gave no report: it was not started, or what it wrote
    /// could not be decoded, or there was no file to ask it about.
    Probe(Failure),
    /// The probe program ran and reported that it could not read the file.
    Tool(Error),
    /// The report lacks what a histogram needs.
    Aggregate(AggregateError),
}

/// The state of an analysis.
#[derive(Clone, Debug, PartialEq, Eq)]
pub enum AnalyzeStatus {
    /// No file is chosen.
    NotSelected,
    /// The file at this path is chosen and waits to be probed.
    WaitUpdate(String),
    /// The analysis failed.
    FfprobeFailed(Reason),
    /// The probe program reported on the file.
    Success(ProbeData),
    /// The histogram of the file is made.
    Draw(Vec<Bar>),
}

impl AnalyzeStatus {
    /// The state after the file at `path` is chosen, whatever went before.
    pub fn select(path: String) -> (next: AnalyzeStatus)
        ensures
            next == AnalyzeStatus::WaitUpdate(path),
    {
        AnalyzeStatus::WaitUpdate(path)
    }

    /// The state after something is dropped on the window: a regular file is
    /// chosen, anything else changes nothing.
    pub fn dropped(self, path: String, kind: PathKind) -> (next: AnalyzeStatus)
        ensures
            next == (if kind == PathKind::File {
                AnalyzeStatus::WaitUpdate(path)
            } else {
                self
            }),
    {
        match kind {
            PathKind::File => AnalyzeStatus::WaitUpdate(path),
            _ => self,
        }
    }

    /// The state after the file is closed.
    pub fn close(self) -> (next: AnalyzeStatus)
        ensures
            next == AnalyzeStatus::NotSelected,
    {
        AnalyzeStatus::NotSelected
    }

    /// The path of the file that waits to be probed, if one does.
    pub fn pending(&self) -> (path: Option<&String>)
        ensures
            match path {
                Some(path) => *self == AnalyzeStatus::WaitUpdate(*path),
                None => !(self is WaitUpdate),
            },
    {
        match self {
            AnalyzeStatus::WaitUpdate(path) => Some(path),
            _ => None,
        }
    }

    /// The state after the probe of the waiting file ended with `result`. A
    /// probe that failed and a report that holds the program's own error both
    /// fail the analysis, each with its own reason; any other report is a
    /// success. Where no file waits, nothing changes.
    pub fn probed(self, result: Result<ProbeData, Failure>) -> (next: AnalyzeStatus)
        ensures
            next == (match (self, result) {
                (AnalyzeStatus::WaitUpdate(_), Err(failure)) => AnalyzeStatus::FfprobeFailed(
                    Reason::Probe(failure),
                ),
                (AnalyzeStatus::WaitUpdate(_), Ok(data)) => match data.error {
                    Some(error) => AnalyzeStatus::FfprobeFailed(Reason::Tool(error)),
                    None => AnalyzeStatus::Success(data),
                },
                _ => self,
            }),
    {
        match self {
            AnalyzeStatus::WaitUpdate(_) => match result {
                Err(failure) => AnalyzeStatus::FfprobeFailed(Reason::Probe(failure)),
                Ok(data) => {
                    if data.error.is_some() {
                        let error = data.error.unwrap();
                        AnalyzeStatus::FfprobeFailed(Reason::Tool(error))
                    } else {
                        AnalyzeStatus::Success(data)
                    }
                },
            },
            _ => self,
        }
    }

    /// The state after the histogram of a report is asked for, with buckets
    /// of `bucket_width`: the histogram, or the reason why the report gives
    /// none. Where there is no report, nothing changes.
    pub fn rendered(self, bucket_width: Seconds) -> (next: AnalyzeStatus)
        ensures
            match self {
                AnalyzeStatus::Success(data) => match histogram(data, bucket_width) {
                    Ok(bars) => next matches AnalyzeStatus::Draw(drawn) && drawn@ == bars,
                    Err(e) => next == AnalyzeStatus::FfprobeFailed(Reason::Aggregate(e)),
                },
                _ => next == self,
            },
    {
        match self {
            AnalyzeStatus::Success(data) => match aggregate(&data, bucket_width) {
                Ok(bars) => AnalyzeStatus::Draw(bars),
                Err(e) => AnalyzeStatus::FfprobeFailed(Reason::Aggregate(e)),
            },
            _ => self,
        }
    }
}

} // verus!
