//! Log levels and the terminal colour codes the host's console logging
//! renders them with.

use vstd::prelude::*;

verus! {

/// An ANSI terminal colour.
#[derive(Debug, Clone, Copy, PartialEq, Eq, Structural)]
pub enum ColorCode {
    Black,
    Red,
    Green,
    Yellow,
    Blue,
    Magenta,
    Cyan,
    White,
    BrightBlack,
    BrightRed,
    BrightGreen,
    BrightYellow,
    BrightBlue,
    BrightMagenta,
    BrightCyan,
    BrightWhite,
}

impl ColorCode {
    /// The ANSI SGR code of this colour.
    pub fn code(&self) -> (r: u8)
        ensures
            r == match self {
                ColorCode::Black => 30u8,
                ColorCode::Red => 31u8,
                ColorCode::Green => 32u8,
                ColorCode::Yellow => 33u8,
                ColorCode::Blue => 34u8,
                ColorCode::Magenta => 35u8,
                ColorCode::Cyan => 36u8,
                ColorCode::White => 37u8,
                ColorCode::BrightBlack => 90u8,
                ColorCode::BrightRed => 91u8,
                ColorCode::BrightGreen => 92u8,
                ColorCode::BrightYellow => 93u8,
                ColorCode::BrightBlue => 94u8,
                ColorCode::BrightMagenta => 95u8,
                ColorCode::BrightCyan => 96u8,
                ColorCode::BrightWhite => 97u8,
            },
    {
        match self {
            ColorCode::Black => 30,
            ColorCode::Red => 31,
            ColorCode::Green => 32,
            ColorCode::Yellow => 33,
            ColorCode::Blue => 34,
            ColorCode::Magenta => 35,
            ColorCode::Cyan => 36,
            ColorCode::White => 37,
            ColorCode::BrightBlack => 90,
            ColorCode::BrightRed => 91,
            ColorCode::BrightGreen => 92,
            ColorCode::BrightYellow => 93,
            ColorCode::BrightBlue => 94,
            ColorCode::BrightMagenta => 95,
            ColorCode::BrightCyan => 96,
            ColorCode::BrightWhite => 97,
        }
    }
}

/// The severity of a log line.
#[derive(Debug, Clone, Copy, PartialEq, Eq, Structural)]
pub enum LogLevel {
    Error,
    Warn,
    Info,
    Debug,
    Trace,
}

impl LogLevel {
    /// The level's name as it is printed.
    pub fn label(&self) -> (r: &'static str)
        ensures
            r@ == match self {
                LogLevel::Error => "ERROR"@,
                LogLevel::Warn => "WARN"@,
                LogLevel::Info => "INFO"@,
                LogLevel::Debug => "DEBUG"@,
                LogLevel::Trace => "TRACE"@,
            },
    {
        match self {
            LogLevel::Error => "ERROR",
            LogLevel::Warn => "WARN",
            LogLevel::Info => "INFO",
            LogLevel::Debug => "DEBUG",
            LogLevel::Trace => "TRACE",
        }
    }
}

} // verus!
