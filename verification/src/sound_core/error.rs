use vstd::prelude::*;
use vstd::string::StringExecFns;

verus! {

/// Stable error categories for sound-engine failures.
#[derive(Debug, Clone, Copy, PartialEq, Eq, Hash, Structural)]
pub enum ErrorCode {
    InvalidArgument,
    InvalidState,
    NotFound,
    BackendUnavailable,
    UnsupportedFeature,
    ResourceAllocationFailed,
    ShaderCompileFailed,
    Io,
    External,
    PoisonedLock,
}

impl ErrorCode {
    /// The name of the category, as the error's textual form prints it.
    pub open spec fn spec_name(self) -> Seq<char> {
        match self {
            ErrorCode::InvalidArgument => "InvalidArgument"@,
            ErrorCode::InvalidState => "InvalidState"@,
            ErrorCode::NotFound => "NotFound"@,
            ErrorCode::BackendUnavailable => "BackendUnavailable"@,
            ErrorCode::UnsupportedFeature => "UnsupportedFeature"@,
            ErrorCode::ResourceAllocationFailed => "ResourceAllocationFailed"@,
            ErrorCode::ShaderCompileFailed => "ShaderCompileFailed"@,
            ErrorCode::Io => "Io"@,
            ErrorCode::External => "External"@,
            ErrorCode::PoisonedLock => "PoisonedLock"@,
        }
    }

    /// Returns the name of the category.
    pub fn name(self) -> (name: &'static str)
        ensures
            name@ == self.spec_name(),
    {
        proof {
            reveal_strlit("InvalidArgument");
            reveal_strlit("InvalidState");
            reveal_strlit("NotFound");
            reveal_strlit("BackendUnavailable");
            reveal_strlit("UnsupportedFeature");
            reveal_strlit("ResourceAllocationFailed");
            reveal_strlit("ShaderCompileFailed");
            reveal_strlit("Io");
            reveal_strlit("External");
            reveal_strlit("PoisonedLock");
        }
        match self {
            ErrorCode::InvalidArgument => "InvalidArgument",
            ErrorCode::InvalidState => "InvalidState",
            ErrorCode::NotFound => "NotFound",
            ErrorCode::BackendUnavailable => "BackendUnavailable",
            ErrorCode::UnsupportedFeature => "UnsupportedFeature",
            ErrorCode::ResourceAllocationFailed => "ResourceAllocationFailed",
            ErrorCode::ShaderCompileFailed => "ShaderCompileFailed",
            ErrorCode::Io => "Io",
            ErrorCode::External => "External",
            ErrorCode::PoisonedLock => "PoisonedLock",
        }
    }
}

/// Abstract content of a [`SoundError`]: its category, its message and the
/// description of the underlying failure, if one was attached.
pub struct SoundErrorView {
    pub code: ErrorCode,
    pub message: Seq<char>,
    pub source: Option<Seq<char>>,
}

/// Library-wide error type.
#[derive(Debug)]
pub struct SoundError {
    code: ErrorCode,
    message: String,
    source: Option<String>,
}

/// Library-wide result alias.
pub type SoundResult<T> = Result<T, SoundError>;

impl View for SoundError {
    type V = SoundErrorView;

    closed spec fn view(&self) -> SoundErrorView {
        SoundErrorView {
            code: self.code,
            message: self.message@,
            source: match self.source {
                Some(s) => Some(s@),
                None => None,
            },
        }
    }
}

impl SoundError {
    /// Creates an error of the given category without an underlying source.
    pub fn new(code: ErrorCode, message: &str) -> (error: Self)
        ensures
            error@.code == code,
            error@.message == message@,
            error@.source is None,
    {
        SoundError { code, message: message.to_owned(), source: None }
    }

    /// Creates an error that records the description of the failure it wraps.
    pub fn with_source(code: ErrorCode, message: &str, source: &str) -> (error: Self)
        ensures
            error@.code == code,
            error@.message == message@,
            error@.source == Some(source@),
    {
        SoundError { code, message: message.to_owned(), source: Some(source.to_owned()) }
    }

    /// Returns the error category.
    pub fn code(&self) -> (code: ErrorCode)
        ensures
            code == self@.code,
    {
        self.code
    }

    /// Returns the error message.
    pub fn message(&self) -> (message: &str)
        ensures
            message@ == self@.message,
    {
        self.message.as_str()
    }

    /// Returns the description of the wrapped failure, if any.
    pub fn source_message(&self) -> (source: Option<&str>)
        ensures
            match source {
                Some(s) => self@.source == Some(s@),
                None => self@.source is None,
            },
    {
        match &self.source {
            Some(s) => Some(s.as_str()),
            None => None,
        }
    }

    /// Renders the error as `<category>: <message>`.
    pub fn describe(&self) -> (text: String)
        ensures
            text@ == self@.code.spec_name() + ": "@ + self@.message,
    {
        let mut text = self.code.name().to_owned();
        text.append(": ");
        text.append(self.message.as_str());
        proof {
            reveal_strlit(": ");
        }
        text
    }

    pub fn invalid_argument(message: &str) -> (error: Self)
        ensures
            error@.code == ErrorCode::InvalidArgument,
            error@.message == message@,
            error@.source is None,
    {
        Self::new(ErrorCode::InvalidArgument, message)
    }

    pub fn invalid_state(message: &str) -> (error: Self)
        ensures
            error@.code == ErrorCode::InvalidState,
            error@.message == message@,
            error@.source is None,
    {
        Self::new(ErrorCode::InvalidState, message)
    }

    pub fn not_found(message: &str) -> (error: Self)
        ensures
            error@.code == ErrorCode::NotFound,
            error@.message == message@,
            error@.source is None,
    {
        Self::new(ErrorCode::NotFound, message)
    }

    pub fn backend_unavailable(message: &str) -> (error: Self)
        ensures
            error@.code == ErrorCode::BackendUnavailable,
            error@.message == message@,
            error@.source is None,
    {
        Self::new(ErrorCode::BackendUnavailable, message)
    }

    pub fn unsupported_feature(message: &str) -> (error: Self)
        ensures
            error@.code == ErrorCode::UnsupportedFeature,
            error@.message == message@,
            error@.source is None,
    {
        Self::new(ErrorCode::UnsupportedFeature, message)
    }

    pub fn resource_allocation_failed(message: &str) -> (error: Self)
        ensures
            error@.code == ErrorCode::ResourceAllocationFailed,
            error@.message == message@,
            error@.source is None,
    {
        Self::new(ErrorCode::ResourceAllocationFailed, message)
    }

    pub fn shader_compile_failed(message: &str) -> (error: Self)
        ensures
            error@.code == ErrorCode::ShaderCompileFailed,
            error@.message == message@,
            error@.source is None,
    {
        Self::new(ErrorCode::ShaderCompileFailed, message)
    }

    pub fn io(message: &str) -> (error: Self)
        ensures
            error@.code == ErrorCode::Io,
            error@.message == message@,
            error@.source is None,
    {
        Self::new(ErrorCode::Io, message)
    }

    pub fn external(message: &str) -> (error: Self)
        ensures
            error@.code == ErrorCode::External,
            error@.message == message@,
            error@.source is None,
    {
        Self::new(ErrorCode::External, message)
    }

    pub fn poisoned_lock(message: &str) -> (error: Self)
        ensures
            error@.code == ErrorCode::PoisonedLock,
            error@.message == message@,
            error@.source is None,
    {
        Self::new(ErrorCode::PoisonedLock, message)
    }
}

/// The category of the error that a failed result carries.
pub open spec fn err_code<T>(result: SoundResult<T>) -> Option<ErrorCode> {
    match result {
        Ok(_) => None,
        Err(e) => Some(e@.code),
    }
}

} // verus!
