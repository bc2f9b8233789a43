//! The probe tool's report: the records it holds, the program that produces
//! it, and the commands that ask for it.

use vstd::prelude::*;
use crate::decode::{
    as_signed_32, as_signed_64, as_text, as_unsigned_64, field_from_string,
    field_na_or_from_string, field_of, field_signed_32, field_signed_64, field_text,
    decode_message, field_unsigned_64, from_string, list, list_of, members_of, na_or_string,
    record, require, required, section, section_of, views, DecodeError, FromJson,
};
use crate::json::{document, parse, Json};
use crate::locate::{Locator, Phase, Place, State};
use vstd::string::StringExecFns;
use crate::time::Seconds;

verus! {

/// Everything one run of the probe tool reports about a media file.
///
/// Each section is absent when the tool left it out. A report with an `error`
/// section describes a file the tool could not read.
#[derive(Clone, Debug, PartialEq, Eq)]
pub struct ProbeData {
    pub packets: Option<Vec<Packet>>,
    pub streams: Option<Vec<Stream>>,
    pub format: Option<Format>,
    pub error: Option<Error>,
}

/// One demuxed packet.
#[derive(Clone, Copy, Debug, PartialEq, Eq, Structural)]
pub struct Packet {
    pub stream_index: u64,
    /// Timestamp in the stream's own time base; the order packets are processed in.
    pub pts: i64,
    /// Presentation time.
    pub pts_time: Seconds,
    /// Size in bytes.
    pub size: u32,
}

/// Summary of one stream of the container.
#[derive(Clone, Debug, PartialEq, Eq)]
pub struct Stream {
    pub index: u64,
    pub codec_name: String,
}

/// Summary of the container as a whole.
#[derive(Clone, Debug, PartialEq, Eq)]
pub struct Format {
    pub filename: String,
    pub format_name: String,
    pub format_long_name: String,
    pub start_time: Option<Seconds>,
    pub duration: Option<Seconds>,
    pub size: u64,
    pub bit_rate: u64,
}

/// A failure that the probe tool itself reported for its input.
#[derive(Clone, Debug, PartialEq, Eq)]
pub struct Error {
    pub code: i32,
    pub message: String,
}

/// The document that answers a version query.
#[derive(Clone, Debug, PartialEq, Eq)]
pub struct ProgramVersionWrap {
    pub program_version: ProgramVersion,
}

/// How the probe program identifies itself.
#[derive(Clone, Debug, PartialEq, Eq)]
pub struct ProgramVersion {
    pub version: String,
    pub copyright: String,
    pub compiler_ident: String,
    pub configuration: String,
}

/// A report as plain data: each list by what it holds.
pub struct Report {
    pub packets: Option<Seq<Packet>>,
    pub streams: Option<Seq<Stream>>,
    pub format: Option<Format>,
    pub error: Option<Error>,
}

impl View for ProbeData {
    type V = Report;

    open spec fn view(&self) -> Report {
        Report {
            packets: match self.packets {
                Some(packets) => Some(packets@),
                None => None,
            },
            streams: match self.streams {
                Some(streams) => Some(streams@),
                None => None,
            },
            format: self.format,
            error: self.error,
        }
    }
}

impl View for Packet {
    type V = Packet;

    open spec fn view(&self) -> Packet {
        *self
    }
}

impl View for Stream {
    type V = Stream;

    open spec fn view(&self) -> Stream {
        *self
    }
}

impl View for Format {
    type V = Format;

    open spec fn view(&self) -> Format {
        *self
    }
}

impl View for Error {
    type V = Error;

    open spec fn view(&self) -> Error {
        *self
    }
}

impl View for ProgramVersion {
    type V = ProgramVersion;

    open spec fn view(&self) -> ProgramVersion {
        *self
    }
}

impl View for ProgramVersionWrap {
    type V = ProgramVersionWrap;

    open spec fn view(&self) -> ProgramVersionWrap {
        *self
    }
}

impl FromJson for Packet {
    /// A packet is an object with the fields `stream_index` and `pts`, whole
    /// numbers, and `pts_time` and `size`, numbers written as text. The first
    /// of these, in this order, that is missing or cannot be decoded decides
    /// the error.
    open spec fn decoded(json: Json) -> Result<Packet, DecodeError> {
        match members_of(json, "Packet") {
            Err(e) => Err(e),
            Ok(members) => {
                let stream_index = field_of(
                    members,
                    "stream_index",
                    |json: Json| as_unsigned_64(json),
                );
                let pts = field_of(members, "pts", |json: Json| as_signed_64(json));
                let pts_time = field_of(
                    members,
                    "pts_time",
                    |json: Json| from_string::<Seconds>(json),
                );
                let size = field_of(members, "size", |json: Json| from_string::<u32>(json));
                if stream_index is Err {
                    Err(stream_index->Err_0)
                } else if pts is Err {
                    Err(pts->Err_0)
                } else if pts_time is Err {
                    Err(pts_time->Err_0)
                } else if size is Err {
                    Err(size->Err_0)
                } else {
                    Ok(
                        Packet {
                            stream_index: stream_index->Ok_0,
                            pts: pts->Ok_0,
                            pts_time: pts_time->Ok_0,
                            size: size->Ok_0,
                        },
                    )
                }
            },
        }
    }

    fn from_json(json: &Json) -> (r: Result<Packet, DecodeError>) {
        let members = record(json, "Packet")?;
        let stream_index = field_unsigned_64(members, "stream_index")?;
        let pts = field_signed_64(members, "pts")?;
        let pts_time = field_from_string::<Seconds>(members, "pts_time")?;
        let size = field_from_string::<u32>(members, "size")?;
        Ok(Packet { stream_index, pts, pts_time, size })
    }
}

impl FromJson for Stream {
    /// A stream is an object with the fields `index`, a whole number, and
    /// `codec_name`, a text.
    open spec fn decoded(json: Json) -> Result<Stream, DecodeError> {
        match members_of(json, "Stream") {
            Err(e) => Err(e),
            Ok(members) => {
                let index = field_of(members, "index", |json: Json| as_unsigned_64(json));
                let codec_name = field_of(members, "codec_name", |json: Json| as_text(json));
                if index is Err {
                    Err(index->Err_0)
                } else if codec_name is Err {
                    Err(codec_name->Err_0)
                } else {
                    Ok(Stream { index: index->Ok_0, codec_name: codec_name->Ok_0 })
                }
            },
        }
    }

    fn from_json(json: &Json) -> (r: Result<Stream, DecodeError>) {
        let members = record(json, "Stream")?;
        let index = field_unsigned_64(members, "index")?;
        let codec_name = field_text(members, "codec_name")?;
        Ok(Stream { index, codec_name })
    }
}

impl FromJson for Format {
    /// A format section is an object with the texts `filename`, `format_name`
    /// and `format_long_name`, the times `start_time` and `duration`, each
    /// written as text or as `N/A`, and the whole numbers `size` and
    /// `bit_rate`, written as text.
    open spec fn decoded(json: Json) -> Result<Format, DecodeError> {
        match members_of(json, "Format") {
            Err(e) => Err(e),
            Ok(members) => {
                let filename = field_of(members, "filename", |json: Json| as_text(json));
                let format_name = field_of(members, "format_name", |json: Json| as_text(json));
                let format_long_name = field_of(
                    members,
                    "format_long_name",
                    |json: Json| as_text(json),
                );
                let start_time = field_of(
                    members,
                    "start_time",
                    |json: Json| na_or_string::<Seconds>(json),
                );
                let duration = field_of(
                    members,
                    "duration",
                    |json: Json| na_or_string::<Seconds>(json),
                );
                let size = field_of(members, "size", |json: Json| from_string::<u64>(json));
                let bit_rate = field_of(members, "bit_rate", |json: Json| from_string::<u64>(json));
                if filename is Err {
                    Err(filename->Err_0)
                } else if format_name is Err {
                    Err(format_name->Err_0)
                } else if format_long_name is Err {
                    Err(format_long_name->Err_0)
                } else if start_time is Err {
                    Err(start_time->Err_0)
                } else if duration is Err {
                    Err(duration->Err_0)
                } else if size is Err {
                    Err(size->Err_0)
                } else if bit_rate is Err {
                    Err(bit_rate->Err_0)
                } else {
                    Ok(
                        Format {
                            filename: filename->Ok_0,
                            format_name: format_name->Ok_0,
                            format_long_name: format_long_name->Ok_0,
                            start_time: start_time->Ok_0,
                            duration: duration->Ok_0,
                            size: size->Ok_0,
                            bit_rate: bit_rate->Ok_0,
                        },
                    )
                }
            },
        }
    }

    fn from_json(json: &Json) -> (r: Result<Format, DecodeError>) {
        let members = record(json, "Format")?;
        let filename = field_text(members, "filename")?;
        let format_name = field_text(members, "format_name")?;
        let format_long_name = field_text(members, "format_long_name")?;
        let start_time = field_na_or_from_string::<Seconds>(members, "start_time")?;
        let duration = field_na_or_from_string::<Seconds>(members, "duration")?;
        let size = field_from_string::<u64>(members, "size")?;
        let bit_rate = field_from_string::<u64>(members, "bit_rate")?;
        Ok(Format { filename, format_name, format_long_name, start_time, duration, size, bit_rate })
    }
}

impl FromJson for Error {
    /// An error section is an object with the fields `code`, a whole number,
    /// and `string`, the message.
    open spec fn decoded(json: Json) -> Result<Error, DecodeError> {
        match members_of(json, "Error") {
            Err(e) => Err(e),
            Ok(members) => {
                let code = field_of(members, "code", |json: Json| as_signed_32(json));
                let message = field_of(members, "string", |json: Json| as_text(json));
                if code is Err {
                    Err(code->Err_0)
                } else if message is Err {
                    Err(message->Err_0)
                } else {
                    Ok(Error { code: code->Ok_0, message: message->Ok_0 })
                }
            },
        }
    }

    fn from_json(json: &Json) -> (r: Result<Error, DecodeError>) {
        let members = record(json, "Error")?;
        let code = field_signed_32(members, "code")?;
        let message = field_text(members, "string")?;
        Ok(Error { code, message })
    }
}

impl FromJson for ProgramVersion {
    /// A version record is an object with the texts `version`, `copyright`,
    /// `compiler_ident` and `configuration`.
    open spec fn decoded(json: Json) -> Result<ProgramVersion, DecodeError> {
        match members_of(json, "ProgramVersion") {
            Err(e) => Err(e),
            Ok(members) => {
                let version = field_of(members, "version", |json: Json| as_text(json));
                let copyright = field_of(members, "copyright", |json: Json| as_text(json));
                let compiler_ident = field_of(
                    members,
                    "compiler_ident",
                    |json: Json| as_text(json),
                );
                let configuration = field_of(
                    members,
                    "configuration",
                    |json: Json| as_text(json),
                );
                if version is Err {
                    Err(version->Err_0)
                } else if copyright is Err {
                    Err(copyright->Err_0)
                } else if compiler_ident is Err {
                    Err(compiler_ident->Err_0)
                } else if configuration is Err {
                    Err(configuration->Err_0)
                } else {
                    Ok(
                        ProgramVersion {
                            version: version->Ok_0,
                            copyright: copyright->Ok_0,
                            compiler_ident: compiler_ident->Ok_0,
                            configuration: configuration->Ok_0,
                        },
                    )
                }
            },
        }
    }

    fn from_json(json: &Json) -> (r: Result<ProgramVersion, DecodeError>) {
        let members = record(json, "ProgramVersion")?;
        let version = field_text(members, "version")?;
        let copyright = field_text(members, "copyright")?;
        let compiler_ident = field_text(members, "compiler_ident")?;
        let configuration = field_text(members, "configuration")?;
        Ok(ProgramVersion { version, copyright, compiler_ident, configuration })
    }
}

impl FromJson for ProgramVersionWrap {
    /// The answer to a version query is an object with the field
    /// `program_version`, a version record.
    open spec fn decoded(json: Json) -> Result<ProgramVersionWrap, DecodeError> {
        match members_of(json, "ProgramVersionWrap") {
            Err(e) => Err(e),
            Ok(members) => match required(members, "program_version") {
                Err(e) => Err(e),
                Ok(inner) => match ProgramVersion::decoded(inner) {
                    Err(e) => Err(e),
                    Ok(program_version) => Ok(ProgramVersionWrap { program_version }),
                },
            },
        }
    }

    fn from_json(json: &Json) -> (r: Result<ProgramVersionWrap, DecodeError>) {
        let members = record(json, "ProgramVersionWrap")?;
        let inner = require(members, "program_version")?;
        let program_version = ProgramVersion::from_json(inner)?;
        Ok(ProgramVersionWrap { program_version })
    }
}

/// The list of records in a section that a report may have.
pub open spec fn optional_list<T: FromJson>(
    members: Seq<(String, Json)>,
    field: &'static str,
) -> Result<Option<Seq<T::V>>, DecodeError> {
    match section_of(members, field) {
        None => Ok(None),
        Some(json) => match list_of::<T>(json, field) {
            Ok(records) => Ok(Some(records)),
            Err(e) => Err(e),
        },
    }
}

/// The record in a section that a report may have.
pub open spec fn optional_record<T: FromJson>(
    members: Seq<(String, Json)>,
    field: &'static str,
) -> Result<Option<T::V>, DecodeError> {
    match section_of(members, field) {
        None => Ok(None),
        Some(json) => match T::decoded(json) {
            Ok(record) => Ok(Some(record)),
            Err(e) => Err(e),
        },
    }
}

impl FromJson for ProbeData {
    /// A report is an object. Each of its sections `packets`, `streams`,
    /// `format` and `error` may be absent or `null`; one that is there is
    /// decoded, and the first, in this order, that cannot be decides the error.
    /// Nothing else is asked of a report: it may hold packets and no format.
    open spec fn decoded(json: Json) -> Result<Report, DecodeError> {
        match members_of(json, "ProbeData") {
            Err(e) => Err(e),
            Ok(members) => {
                let packets = optional_list::<Packet>(members, "packets");
                let streams = optional_list::<Stream>(members, "streams");
                let format = optional_record::<Format>(members, "format");
                let error = optional_record::<Error>(members, "error");
                if packets is Err {
                    Err(packets->Err_0)
                } else if streams is Err {
                    Err(streams->Err_0)
                } else if format is Err {
                    Err(format->Err_0)
                } else if error is Err {
                    Err(error->Err_0)
                } else {
                    Ok(
                        Report {
                            packets: packets->Ok_0,
                            streams: streams->Ok_0,
                            format: format->Ok_0,
                            error: error->Ok_0,
                        },
                    )
                }
            },
        }
    }

    fn from_json(json: &Json) -> (r: Result<ProbeData, DecodeError>) {
        let members = record(json, "ProbeData")?;
        let packets: Option<Vec<Packet>> = match section(members, "packets") {
            Some(json) => {
                let packets = list::<Packet>(json, "packets")?;
                assert(views(packets@) =~= packets@);
                Some(packets)
            },
            None => None,
        };
        let streams: Option<Vec<Stream>> = match section(members, "streams") {
            Some(json) => {
                let streams = list::<Stream>(json, "streams")?;
                assert(views(streams@) =~= streams@);
                Some(streams)
            },
            None => None,
        };
        let format: Option<Format> = match section(members, "format") {
            Some(json) => Some(Format::from_json(json)?),
            None => None,
        };
        let error: Option<Error> = match section(members, "error") {
            Some(json) => Some(Error::from_json(json)?),
            None => None,
        };
        Ok(ProbeData { packets, streams, format, error })
    }
}

/// Why the probe program gave no report.
#[derive(Clone, Debug, PartialEq, Eq)]
pub enum Failure {
    /// The probe program was found nowhere.
    Discovery,
    /// Nothing exists at the path to probe.
    MissingInput { path: String },
    /// The path to probe exists but is no regular file.
    NotAFile { path: String },
    /// The probe program could not be started. Holds the system's reason.
    Launch(String),
    /// The probe program's output could not be decoded.
    Decode(DecodeError),
}

/// The name of the probe program.
pub open spec fn program_name() -> Seq<char> {
    "ffprobe"@
}

/// What to tell the user of a failure. Each kind of failure has a wording of
/// its own; a failure that concerns a path names it.
pub open spec fn failure_message(failure: Failure) -> Seq<char> {
    match failure {
        Failure::Discovery => "Failed to find ffprobe"@,
        Failure::MissingInput { path } => "Path `"@ + path@ + "` does not exist"@,
        Failure::NotAFile { path } => "Path `"@ + path@ + "` is not a file"@,
        Failure::Launch(reason) => "Failed to spawn ffprobe: "@ + reason@,
        Failure::Decode(e) => "Failed to decode the output of ffprobe: "@ + decode_message(e),
    }
}

impl Failure {
    /// What to tell the user of the failure.
    pub fn message(&self) -> (text: String)
        ensures
            text@ == failure_message(*self),
    {
        match self {
            Failure::Discovery => "Failed to find ffprobe".to_owned(),
            Failure::MissingInput { path } => {
                let mut text: String = "Path `".to_owned();
                text.append(path.as_str());
                text.append("` does not exist");
                text
            },
            Failure::NotAFile { path } => {
                let mut text: String = "Path `".to_owned();
                text.append(path.as_str());
                text.append("` is not a file");
                text
            },
            Failure::Launch(reason) => {
                let mut text: String = "Failed to spawn ffprobe: ".to_owned();
                text.append(reason.as_str());
                text
            },
            Failure::Decode(e) => {
                let mut text: String = "Failed to decode the output of ffprobe: ".to_owned();
                text.append(e.message().as_str());
                text
            },
        }
    }
}

/// Failures of different kinds are told in different words, whatever paths
/// and reasons they hold.
pub proof fn lemma_messages_tell_kinds_apart(first: Failure, second: Failure)
    requires
        (first is Discovery) != (second is Discovery) || (first is MissingInput) != (
        second is MissingInput) || (first is NotAFile) != (second is NotAFile) || (first is Launch)
            != (second is Launch) || (first is Decode) != (second is Decode),
    ensures
        failure_message(first) != failure_message(second),
{
    reveal_strlit("Failed to find ffprobe");
    reveal_strlit("Path `");
    reveal_strlit("` does not exist");
    reveal_strlit("` is not a file");
    reveal_strlit("Failed to spawn ffprobe: ");
    reveal_strlit("Failed to decode the output of ffprobe: ");
    let a = failure_message(first);
    let b = failure_message(second);
    assert(a.len() > 10 && b.len() > 10);
    if (first is MissingInput || first is NotAFile) && (second is MissingInput
        || second is NotAFile) {
        assert(a.last() != b.last());
    } else {
        assert(a[0] != b[0] || a[10] != b[10]);
    }
}

/// What the file system says of a path.
#[derive(Clone, Copy, Debug, PartialEq, Eq, Structural)]
pub enum PathKind {
    /// Nothing is there.
    Missing,
    /// A regular file is there.
    File,
    /// Something else is there, such as a directory.
    Other,
}

/// A program to run, with its arguments.
#[derive(Clone, Debug, PartialEq, Eq)]
pub struct Invocation {
    pub program: String,
    pub args: Vec<String>,
}

impl Invocation {
    /// The arguments, each as its text.
    pub open spec fn arguments(self) -> Seq<Seq<char>> {
        self.args@.map_values(|arg: String| arg@)
    }
}

/// The arguments of a version query.
pub open spec fn version_arguments() -> Seq<Seq<char>> {
    seq!["-hide_banner"@, "-show_program_version"@, "-of"@, "json=c=1"@]
}

/// The arguments that ask for the report on the file at `path`, of all its
/// streams or of those that `stream_select` names.
pub open spec fn probe_arguments(path: Seq<char>, stream_select: Option<Seq<char>>) -> Seq<
    Seq<char>,
> {
    let head = seq![
        "-hide_banner"@,
        "-show_error"@,
        "-show_entries"@,
        "packet=stream_index,pts,pts_time,size:stream:format"@,
        "-of"@,
        "json=c=1"@,
    ];
    match stream_select {
        Some(selector) => head + seq!["-select_streams"@, selector, path],
        None => head.push(path),
    }
}

/// What the output of the probe program decodes to, given that it is the JSON
/// document `json`.
pub open spec fn decoded_output<T: FromJson>(json: Json) -> Result<T::V, Failure> {
    match T::decoded(json) {
        Ok(record) => Ok(record),
        Err(e) => Err(Failure::Decode(e)),
    }
}

/// The probe program.
#[derive(Clone, Debug, PartialEq, Eq)]
pub struct FfProbe {
    path: String,
}

impl FfProbe {
    /// Where the program lies.
    pub closed spec fn location(self) -> Seq<char> {
        self.path@
    }

    /// Where the program lies.
    pub fn path(&self) -> (path: &str)
        ensures
            path@ == self.location(),
    {
        self.path.as_str()
    }

    /// A search for the probe program, `ffprobe`, that has not yet looked
    /// anywhere.
    pub fn locator(exe_dir: &str, work_dir: &str, windows: bool) -> (search: Locator)
        ensures
            search.name@ == program_name(),
            search.exe_dir@ == exe_dir@,
            search.work_dir@ == work_dir@,
            search.windows == windows,
            search.state@ == Phase::Check(Place::first()),
    {
        Locator::new("ffprobe", exe_dir, work_dir, windows)
    }

    /// The probe program at the place where a search for it ended. There is
    /// none unless the search was one for `ffprobe` and found it.
    pub fn find(search: &Locator) -> (r: Result<FfProbe, Failure>)
        ensures
            match r {
                Ok(probe) => search.name@ == program_name() && search.state@ == Phase::Found(
                    probe.location(),
                ),
                Err(e) => e == Failure::Discovery && !(search.name@ == program_name()
                    && search.state@ is Found),
            },
    {
        let wanted: String = "ffprobe".to_owned();
        if !(search.name == wanted) {
            return Err(Failure::Discovery);
        }
        match &search.state {
            State::Found(path) => Ok(FfProbe { path: path.clone() }),
            _ => Err(Failure::Discovery),
        }
    }

    /// The command that runs the probe program with `args`.
    pub fn command(&self, args: Vec<String>) -> (invocation: Invocation)
        ensures
            invocation.program@ == self.location(),
            invocation.args == args,
    {
        Invocation { program: self.path.clone(), args }
    }

    /// What a run of the probe program gave: the record that its output holds.
    /// `output` holds the bytes that the program wrote to its standard
    /// output, or the reason why it could not be started.
    pub fn execute_json<T: FromJson>(&self, output: Result<Vec<u8>, String>) -> (r: Result<
        T,
        Failure,
    >)
        ensures
            match output {
                Err(reason) => r == Err::<T, Failure>(Failure::Launch(reason)),
                Ok(text) => match document(text@) {
                    None => r matches Err(Failure::Decode(DecodeError::Syntax(_))),
                    Some(json) => match r {
                        Ok(record) => decoded_output::<T>(json) == Ok::<T::V, Failure>(record@),
                        Err(e) => decoded_output::<T>(json) == Err::<T::V, Failure>(e),
                    },
                },
            },
    {
        let text = match output {
            Ok(text) => text,
            Err(reason) => {
                return Err(Failure::Launch(reason));
            },
        };
        let json = match parse(text.as_slice()) {
            Ok(json) => json,
            Err(e) => {
                return Err(Failure::Decode(DecodeError::Syntax(e.message)));
            },
        };
        match T::from_json(&json) {
            Ok(record) => Ok(record),
            Err(e) => Err(Failure::Decode(e)),
        }
    }

    /// The command that asks the probe program for its version.
    pub fn version_query(&self) -> (invocation: Invocation)
        ensures
            invocation.program@ == self.location(),
            invocation.arguments() == version_arguments(),
    {
        let mut args: Vec<String> = Vec::new();
        args.push("-hide_banner".to_owned());
        args.push("-show_program_version".to_owned());
        args.push("-of".to_owned());
        args.push("json=c=1".to_owned());
        let invocation = self.command(args);
        assert(invocation.arguments() =~= version_arguments());
        invocation
    }

    /// The version that the probe program reports, from what the version
    /// query wrote.
    pub fn fetch_version(&self, output: Result<Vec<u8>, String>) -> (r: Result<
        ProgramVersion,
        Failure,
    >)
        ensures
            match output {
                Err(reason) => r == Err::<ProgramVersion, Failure>(Failure::Launch(reason)),
                Ok(text) => match document(text@) {
                    None => r matches Err(Failure::Decode(DecodeError::Syntax(_))),
                    Some(json) => r == version_of(json),
                },
            },
    {
        match self.execute_json::<ProgramVersionWrap>(output) {
            Ok(wrap) => Ok(wrap.program_version),
            Err(e) => Err(e),
        }
    }

    /// The command that asks the probe program for the report on the file at
    /// `path`, if there is a file to ask about. No command is given for a
    /// path at which nothing lies, or something other than a regular file.
    pub fn probe_query(&self, path: &str, kind: PathKind, stream_select: Option<&str>) -> (r:
        Result<Invocation, Failure>)
        ensures
            match kind {
                PathKind::Missing => r matches Err(Failure::MissingInput { path: missing })
                    && missing@ == path@,
                PathKind::Other => r matches Err(Failure::NotAFile { path: other }) && other@
                    == path@,
                PathKind::File => r matches Ok(invocation) && invocation.program@
                    == self.location() && invocation.arguments() == probe_arguments(
                    path@,
                    match stream_select {
                        Some(selector) => Some(selector@),
                        None => None,
                    },
                ),
            },
    {
        match kind {
            PathKind::Missing => {
                return Err(Failure::MissingInput { path: path.to_owned() });
            },
            PathKind::Other => {
                return Err(Failure::NotAFile { path: path.to_owned() });
            },
            PathKind::File => {},
        }
        let mut args: Vec<String> = Vec::new();
        args.push("-hide_banner".to_owned());
        args.push("-show_error".to_owned());
        args.push("-show_entries".to_owned());
        args.push("packet=stream_index,pts,pts_time,size:stream:format".to_owned());
        args.push("-of".to_owned());
        args.push("json=c=1".to_owned());
        if let Some(selector) = stream_select {
            args.push("-select_streams".to_owned());
            args.push(selector.to_owned());
        }
        args.push(path.to_owned());
        let invocation = self.command(args);
        assert(invocation.arguments() =~= probe_arguments(
            path@,
            match stream_select {
                Some(selector) => Some(selector@),
                None => None,
            },
        ));
        Ok(invocation)
    }

    /// The report of the probe program, from what the probe query wrote. A
    /// report that decodes may still hold the program's own error section.
    pub fn probe(&self, output: Result<Vec<u8>, String>) -> (r: Result<ProbeData, Failure>)
        ensures
            match output {
                Err(reason) => r == Err::<ProbeData, Failure>(Failure::Launch(reason)),
                Ok(text) => match document(text@) {
                    None => r matches Err(Failure::Decode(DecodeError::Syntax(_))),
                    Some(json) => match r {
                        Ok(data) => decoded_output::<ProbeData>(json) == Ok::<Report, Failure>(
                            data@,
                        ),
                        Err(e) => decoded_output::<ProbeData>(json) == Err::<Report, Failure>(e),
                    },
                },
            },
    {
        self.execute_json::<ProbeData>(output)
    }
}

/// The version record in the JSON document that answers a version query.
pub open spec fn version_of(json: Json) -> Result<ProgramVersion, Failure> {
    match ProgramVersionWrap::decoded(json) {
        Ok(wrap) => Ok(wrap.program_version),
        Err(e) => Err(Failure::Decode(e)),
    }
}

} // verus!
