//! What can go wrong, and what the user is told.

use vstd::prelude::*;
use vstd::string::*;

verus! {

/// Why a request was refused or failed.
#[derive(Debug)]
pub enum AppError {
    FileNotFound(String),
    UnsupportedVideoFormat(String),
    UnsupportedOutputFormat(String),
    InvalidTimeFormat(String),
    InvalidTimeRange(String),
    StartAfterEnd,
    FfmpegFailed(String),
    Cancelled,
    Io(String),
}

/// An error with its text as a sequence of characters.
pub enum Failure {
    FileNotFound(Seq<char>),
    UnsupportedVideoFormat(Seq<char>),
    UnsupportedOutputFormat(Seq<char>),
    InvalidTimeFormat(Seq<char>),
    InvalidTimeRange(Seq<char>),
    StartAfterEnd,
    FfmpegFailed(Seq<char>),
    Cancelled,
    Io(Seq<char>),
}

impl View for AppError {
    type V = Failure;

    open spec fn view(&self) -> Failure {
        match self {
            AppError::FileNotFound(s) => Failure::FileNotFound(s@),
            AppError::UnsupportedVideoFormat(s) => Failure::UnsupportedVideoFormat(s@),
            AppError::UnsupportedOutputFormat(s) => Failure::UnsupportedOutputFormat(s@),
            AppError::InvalidTimeFormat(s) => Failure::InvalidTimeFormat(s@),
            AppError::InvalidTimeRange(s) => Failure::InvalidTimeRange(s@),
            AppError::StartAfterEnd => Failure::StartAfterEnd,
            AppError::FfmpegFailed(s) => Failure::FfmpegFailed(s@),
            AppError::Cancelled => Failure::Cancelled,
            AppError::Io(s) => Failure::Io(s@),
        }
    }
}

/// How an operation failed, and `None` when it did not.
pub open spec fn failure<T>(result: Result<T, AppError>) -> Option<Failure> {
    match result {
        Ok(_) => None,
        Err(e) => Some(e@),
    }
}

/// The message that goes with a failure.
pub open spec fn message(failure: Failure) -> Seq<char> {
    match failure {
        Failure::FileNotFound(s) => "File not found: "@ + s,
        Failure::UnsupportedVideoFormat(s) => "Unsupported video format: "@ + s,
        Failure::UnsupportedOutputFormat(s) => "Unsupported output format: "@ + s,
        Failure::InvalidTimeFormat(s) => "Invalid time format (expected HH:MM:SS): "@ + s,
        Failure::InvalidTimeRange(s) => "Minutes and seconds must be 0-59: "@ + s,
        Failure::StartAfterEnd => "Start time must be before end time"@,
        Failure::FfmpegFailed(s) => "FFmpeg failed: "@ + s,
        Failure::Cancelled => "Cancelled"@,
        Failure::Io(s) => s,
    }
}

/// Puts two texts together.
pub(crate) fn joined(a: &str, b: &str) -> (both: String)
    ensures
        both@ == a@ + b@,
{
    a.to_owned().concat(b)
}

impl AppError {
    /// The message that the user is shown.
    pub fn to_string(&self) -> (text: String)
        ensures
            text@ == message(self@),
    {
        match self {
            AppError::FileNotFound(s) => joined("File not found: ", s.as_str()),
            AppError::UnsupportedVideoFormat(s) => joined("Unsupported video format: ", s.as_str()),
            AppError::UnsupportedOutputFormat(s) => joined("Unsupported output format: ", s.as_str()),
            AppError::InvalidTimeFormat(s) => joined(
                "Invalid time format (expected HH:MM:SS): ",
                s.as_str(),
            ),
            AppError::InvalidTimeRange(s) => joined("Minutes and seconds must be 0-59: ", s.as_str()),
            AppError::StartAfterEnd => "Start time must be before end time".to_owned(),
            AppError::FfmpegFailed(s) => joined("FFmpeg failed: ", s.as_str()),
            AppError::Cancelled => "Cancelled".to_owned(),
            AppError::Io(s) => s.clone(),
        }
    }

    /// FFmpeg could not be started to decode a waveform.
    pub fn waveform_not_started(cause: &str) -> (e: AppError)
        ensures
            e@ == Failure::FfmpegFailed(cause@ + ". Is FFmpeg installed?"@),
    {
        AppError::FfmpegFailed(joined(cause, ". Is FFmpeg installed?"))
    }

    /// FFmpeg could not be started to extract audio.
    pub fn extraction_not_started(cause: &str) -> (e: AppError)
        ensures
            e@ == Failure::FfmpegFailed(cause@ + ". Is FFmpeg installed and in your PATH?"@),
    {
        AppError::FfmpegFailed(joined(cause, ". Is FFmpeg installed and in your PATH?"))
    }

    /// The size of a file could not be read.
    pub fn metadata_unreadable(cause: &str) -> (e: AppError)
        ensures
            e@ == Failure::Io("Cannot read file metadata: "@ + cause@),
    {
        AppError::Io(joined("Cannot read file metadata: ", cause))
    }

    /// The output of FFmpeg could not be read.
    pub fn output_unreadable(cause: &str) -> (e: AppError)
        ensures
            e@ == Failure::Io("Failed to read FFmpeg output: "@ + cause@),
    {
        AppError::Io(joined("Failed to read FFmpeg output: ", cause))
    }
}

/// Every message names its kind of failure, and then what it is about.
pub proof fn law_messages(s: Seq<char>)
    ensures
        message(Failure::FileNotFound(s)) == "File not found: "@ + s,
        message(Failure::UnsupportedVideoFormat(s)) == "Unsupported video format: "@ + s,
        message(Failure::UnsupportedOutputFormat(s)) == "Unsupported output format: "@ + s,
        message(Failure::InvalidTimeFormat(s)) == "Invalid time format (expected HH:MM:SS): "@ + s,
        message(Failure::InvalidTimeRange(s)) == "Minutes and seconds must be 0-59: "@ + s,
        message(Failure::FfmpegFailed(s)) == "FFmpeg failed: "@ + s,
        message(Failure::Io(s)) == s,
        message(Failure::StartAfterEnd) == "Start time must be before end time"@,
        message(Failure::Cancelled) == "Cancelled"@,
{
}

/// A result fails exactly if it is an error, and as that error says.
pub proof fn law_failures<T>(value: T, error: AppError)
    ensures
        failure(Ok::<T, AppError>(value)) is None,
        failure(Err::<T, AppError>(error)) == Some(error@),
        error matches AppError::FileNotFound(s) ==> error@ == Failure::FileNotFound(s@),
        error matches AppError::UnsupportedVideoFormat(s) ==> error@
            == Failure::UnsupportedVideoFormat(s@),
        error matches AppError::UnsupportedOutputFormat(s) ==> error@
            == Failure::UnsupportedOutputFormat(s@),
        error matches AppError::InvalidTimeFormat(s) ==> error@ == Failure::InvalidTimeFormat(s@),
        error matches AppError::InvalidTimeRange(s) ==> error@ == Failure::InvalidTimeRange(s@),
        error matches AppError::FfmpegFailed(s) ==> error@ == Failure::FfmpegFailed(s@),
        error matches AppError::Io(s) ==> error@ == Failure::Io(s@),
        error is StartAfterEnd ==> error@ == Failure::StartAfterEnd,
        error is Cancelled ==> error@ == Failure::Cancelled,
{
}

} // verus!
