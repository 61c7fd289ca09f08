//! The value types of the plugin C API that the server logic reasons about.
//!
//! The C structs that carry raw pointers stay with the FFI glue; here are the
//! result codes and colour formats, with their C numbering.
use vstd::prelude::*;
use vstd::string::*;

verus! {

/// Result code of a plugin call.
#[derive(Debug, PartialEq, Eq, Clone, Copy, Structural)]
pub enum UpsclrErrorCode {
    Success,
    InvalidArgument,
    EngineNotFound,
    UpscaleFailed,
    Other,
}

/// Pixel channel order of an image buffer handed to or received from a plugin.
#[derive(Debug, Clone, Copy, PartialEq, Eq, Structural)]
pub enum UpsclrColorFormat {
    Rgb,
    Bgr,
}

impl UpsclrErrorCode {
    /// The C value of the code (`UPSCLR_SUCCESS` is 0, `UPSCLR_ERROR_OTHER` is 9999).
    pub open spec fn spec_code(self) -> i32 {
        match self {
            UpsclrErrorCode::Success => 0,
            UpsclrErrorCode::InvalidArgument => 1,
            UpsclrErrorCode::EngineNotFound => 2,
            UpsclrErrorCode::UpscaleFailed => 3,
            UpsclrErrorCode::Other => 9999,
        }
    }

    pub fn code(&self) -> (r: i32)
        ensures
            r == self.spec_code(),
    {
        match self {
            UpsclrErrorCode::Success => 0,
            UpsclrErrorCode::InvalidArgument => 1,
            UpsclrErrorCode::EngineNotFound => 2,
            UpsclrErrorCode::UpscaleFailed => 3,
            UpsclrErrorCode::Other => 9999,
        }
    }

    /// The code's name, as `{:?}` prints it.
    pub open spec fn debug_name(self) -> Seq<char> {
        match self {
            UpsclrErrorCode::Success => "Success"@,
            UpsclrErrorCode::InvalidArgument => "InvalidArgument"@,
            UpsclrErrorCode::EngineNotFound => "EngineNotFound"@,
            UpsclrErrorCode::UpscaleFailed => "UpscaleFailed"@,
            UpsclrErrorCode::Other => "Other"@,
        }
    }

    /// The code's name, as `{:?}` prints it.
    pub fn debug_text(&self) -> (r: String)
        ensures
            r@ == self.debug_name(),
    {
        match self {
            UpsclrErrorCode::Success => String::from_str("Success"),
            UpsclrErrorCode::InvalidArgument => String::from_str("InvalidArgument"),
            UpsclrErrorCode::EngineNotFound => String::from_str("EngineNotFound"),
            UpsclrErrorCode::UpscaleFailed => String::from_str("UpscaleFailed"),
            UpsclrErrorCode::Other => String::from_str("Other"),
        }
    }

    /// The code with the given C value, if there is one.
    pub fn from_code(c: i32) -> (r: Option<UpsclrErrorCode>)
        ensures
            match r {
                Some(e) => e.spec_code() == c,
                None => c != 0 && c != 1 && c != 2 && c != 3 && c != 9999,
            },
    {
        match c {
            0 => Some(UpsclrErrorCode::Success),
            1 => Some(UpsclrErrorCode::InvalidArgument),
            2 => Some(UpsclrErrorCode::EngineNotFound),
            3 => Some(UpsclrErrorCode::UpscaleFailed),
            9999 => Some(UpsclrErrorCode::Other),
            _ => None,
        }
    }
}

impl UpsclrColorFormat {
    /// The C value of the format (`UPSCLR_COLOR_FORMAT_RGB` is 0, BGR is 1).
    pub open spec fn spec_code(self) -> u32 {
        match self {
            UpsclrColorFormat::Rgb => 0,
            UpsclrColorFormat::Bgr => 1,
        }
    }

    pub fn code(&self) -> (r: u32)
        ensures
            r == self.spec_code(),
    {
        match self {
            UpsclrColorFormat::Rgb => 0,
            UpsclrColorFormat::Bgr => 1,
        }
    }

    pub fn from_code(c: u32) -> (r: Option<UpsclrColorFormat>)
        ensures
            match r {
                Some(f) => f.spec_code() == c,
                None => c > 1,
            },
    {
        match c {
            0 => Some(UpsclrColorFormat::Rgb),
            1 => Some(UpsclrColorFormat::Bgr),
            _ => None,
        }
    }
}

} // verus!
