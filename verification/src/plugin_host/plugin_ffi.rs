//! The value types of the plugin C API as the plugin host sees them.
use vstd::prelude::*;
use vstd::string::*;

verus! {

/// Result code of a plugin call.
#[derive(Debug, PartialEq, Eq, Clone, Copy, Structural)]
pub enum UpsclrErrorCode {
    Success,
    PluginNotInitialized,
    PluginAlreadyInitialized,
    PluginAlreadyDestroyed,
    InvalidArgument,
    EngineNotFound,
    PreloadFailed,
    UpscaleFailed,
    Other,
}

/// Pixel channel order of an image buffer handed to or received from a plugin.
#[derive(Debug, Clone, Copy, PartialEq, Eq, Structural)]
pub enum UpsclrColorFormat {
    Rgb,
    Bgr,
}

impl UpsclrErrorCode {
    /// The C value of the code (`UPSCLR_SUCCESS` is 0, `UPSCLR_ERROR_OTHER` is 9999).
    pub open spec fn spec_code(self) -> i32 {
        match self {
            UpsclrErrorCode::Success => 0,
            UpsclrErrorCode::PluginNotInitialized => 1,
            UpsclrErrorCode::PluginAlreadyInitialized => 2,
            UpsclrErrorCode::PluginAlreadyDestroyed => 3,
            UpsclrErrorCode::InvalidArgument => 4,
            UpsclrErrorCode::EngineNotFound => 5,
            UpsclrErrorCode::PreloadFailed => 6,
            UpsclrErrorCode::UpscaleFailed => 7,
            UpsclrErrorCode::Other => 9999,
        }
    }

    pub fn code(&self) -> (r: i32)
        ensures
            r == self.spec_code(),
    {
        match self {
            UpsclrErrorCode::Success => 0,
            UpsclrErrorCode::PluginNotInitialized => 1,
            UpsclrErrorCode::PluginAlreadyInitialized => 2,
            UpsclrErrorCode::PluginAlreadyDestroyed => 3,
            UpsclrErrorCode::InvalidArgument => 4,
            UpsclrErrorCode::EngineNotFound => 5,
            UpsclrErrorCode::PreloadFailed => 6,
            UpsclrErrorCode::UpscaleFailed => 7,
            UpsclrErrorCode::Other => 9999,
        }
    }

    /// The code with the given C value, if there is one.
    pub fn from_code(c: i32) -> (r: Option<UpsclrErrorCode>)
        ensures
            match r {
                Some(e) => e.spec_code() == c,
                None => !(0 <= c <= 7 || c == 9999),
            },
    {
        match c {
            0 => Some(UpsclrErrorCode::Success),
            1 => Some(UpsclrErrorCode::PluginNotInitialized),
            2 => Some(UpsclrErrorCode::PluginAlreadyInitialized),
            3 => Some(UpsclrErrorCode::PluginAlreadyDestroyed),
            4 => Some(UpsclrErrorCode::InvalidArgument),
            5 => Some(UpsclrErrorCode::EngineNotFound),
            6 => Some(UpsclrErrorCode::PreloadFailed),
            7 => Some(UpsclrErrorCode::UpscaleFailed),
            9999 => Some(UpsclrErrorCode::Other),
            _ => None,
        }
    }

    /// The code's name, as `{:?}` prints it.
    pub open spec fn debug_name(self) -> Seq<char> {
        match self {
            UpsclrErrorCode::Success => "Success"@,
            UpsclrErrorCode::PluginNotInitialized => "PluginNotInitialized"@,
            UpsclrErrorCode::PluginAlreadyInitialized => "PluginAlreadyInitialized"@,
            UpsclrErrorCode::PluginAlreadyDestroyed => "PluginAlreadyDestroyed"@,
            UpsclrErrorCode::InvalidArgument => "InvalidArgument"@,
            UpsclrErrorCode::EngineNotFound => "EngineNotFound"@,
            UpsclrErrorCode::PreloadFailed => "PreloadFailed"@,
            UpsclrErrorCode::UpscaleFailed => "UpscaleFailed"@,
            UpsclrErrorCode::Other => "Other"@,
        }
    }

    /// The code's name, as `{:?}` prints it.
    pub fn debug_text(&self) -> (r: String)
        ensures
            r@ == self.debug_name(),
    {
        match self {
            UpsclrErrorCode::Success => String::from_str("Success"),
            UpsclrErrorCode::PluginNotInitialized => String::from_str("PluginNotInitialized"),
            UpsclrErrorCode::PluginAlreadyInitialized => String::from_str("PluginAlreadyInitialized"),
            UpsclrErrorCode::PluginAlreadyDestroyed => String::from_str("PluginAlreadyDestroyed"),
            UpsclrErrorCode::InvalidArgument => String::from_str("InvalidArgument"),
            UpsclrErrorCode::EngineNotFound => String::from_str("EngineNotFound"),
            UpsclrErrorCode::PreloadFailed => String::from_str("PreloadFailed"),
            UpsclrErrorCode::UpscaleFailed => String::from_str("UpscaleFailed"),
            UpsclrErrorCode::Other => String::from_str("Other"),
        }
    }
}

impl UpsclrColorFormat {
    /// The C value of the format (RGB is 0, BGR is 1).
    pub open spec fn spec_code(self) -> u32 {
        match self {
            UpsclrColorFormat::Rgb => 0,
            UpsclrColorFormat::Bgr => 1,
        }
    }

    pub fn code(&self) -> (r: u32)
        ensures
            r == self.spec_code(),
    {
        match self {
            UpsclrColorFormat::Rgb => 0,
            UpsclrColorFormat::Bgr => 1,
        }
    }
}

} // verus!
