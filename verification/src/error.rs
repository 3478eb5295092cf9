use vstd::prelude::*;

verus! {

/// Everything that can go wrong while capturing.
#[derive(Debug, PartialEq, Eq)]
pub enum Error {
    FailedToOpenSource(String),
    NoVideoStream,
    ReadError,
    UnsupportedPlatform,
    FailedToOpenDecoder,
    NoHwConfig,
    FailedToOpenWriter,
    FailedToWriteFrame,
    FailedToWriteTrailer,
    ConnectionClosed,
}

/// The kind of failure an error reports, as the Python binding raises it:
/// a failed or lost connection, a failed read or write, or a bad setting.
#[derive(Debug, Clone, Copy, PartialEq, Eq, Structural)]
pub enum ErrorCategory {
    Connection,
    Io,
    Value,
}

impl Error {
    pub open spec fn spec_category(&self) -> ErrorCategory {
        match self {
            Error::FailedToOpenSource(_) => ErrorCategory::Connection,
            Error::NoVideoStream => ErrorCategory::Connection,
            Error::ReadError => ErrorCategory::Io,
            Error::UnsupportedPlatform => ErrorCategory::Value,
            Error::FailedToOpenDecoder => ErrorCategory::Value,
            Error::NoHwConfig => ErrorCategory::Value,
            Error::FailedToOpenWriter => ErrorCategory::Io,
            Error::FailedToWriteFrame => ErrorCategory::Io,
            Error::FailedToWriteTrailer => ErrorCategory::Io,
            Error::ConnectionClosed => ErrorCategory::Connection,
        }
    }

    /// The kind of failure this error reports.
    pub fn category(&self) -> (c: ErrorCategory)
        ensures
            c == self.spec_category(),
    {
        match self {
            Error::FailedToOpenSource(_) => ErrorCategory::Connection,
            Error::NoVideoStream => ErrorCategory::Connection,
            Error::ReadError => ErrorCategory::Io,
            Error::UnsupportedPlatform => ErrorCategory::Value,
            Error::FailedToOpenDecoder => ErrorCategory::Value,
            Error::NoHwConfig => ErrorCategory::Value,
            Error::FailedToOpenWriter => ErrorCategory::Io,
            Error::FailedToWriteFrame => ErrorCategory::Io,
            Error::FailedToWriteTrailer => ErrorCategory::Io,
            Error::ConnectionClosed => ErrorCategory::Connection,
        }
    }

    pub open spec fn spec_message(&self) -> Seq<char> {
        match self {
            Error::FailedToOpenSource(path) => "Failed to open video source: "@ + path@,
            Error::NoVideoStream => "No video stream found in source"@,
            Error::ReadError => "Error reading from video source"@,
            Error::UnsupportedPlatform => "Selected hardware acceleration is not supported on this platform"@,
            Error::FailedToOpenDecoder => "Failed to open decoder"@,
            Error::NoHwConfig => "No hardware decoder config found for codec"@,
            Error::FailedToOpenWriter => "Failed to open writer"@,
            Error::FailedToWriteFrame => "Failed to write frame"@,
            Error::FailedToWriteTrailer => "Failed to write trailer"@,
            Error::ConnectionClosed => "Connection is closed"@,
        }
    }

    /// The message that explains this error to a user.
    pub fn message(&self) -> (m: String)
        ensures
            m@ == self.spec_message(),
    {
        match self {
            Error::FailedToOpenSource(path) => {
                let mut m = String::from_str("Failed to open video source: ");
                m.append(path.as_str());
                m
            },
            Error::NoVideoStream => String::from_str("No video stream found in source"),
            Error::ReadError => String::from_str("Error reading from video source"),
            Error::UnsupportedPlatform => String::from_str(
                "Selected hardware acceleration is not supported on this platform",
            ),
            Error::FailedToOpenDecoder => String::from_str("Failed to open decoder"),
            Error::NoHwConfig => String::from_str("No hardware decoder config found for codec"),
            Error::FailedToOpenWriter => String::from_str("Failed to open writer"),
            Error::FailedToWriteFrame => String::from_str("Failed to write frame"),
            Error::FailedToWriteTrailer => String::from_str("Failed to write trailer"),
            Error::ConnectionClosed => String::from_str("Connection is closed"),
        }
    }
}

} // verus!
