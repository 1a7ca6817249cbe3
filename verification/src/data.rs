use vstd::prelude::*;

verus! {

/// One 8-bit RGB pixel value.
#[derive(Clone, Copy, PartialEq, Eq, Structural, Debug)]
pub struct Rgb {
    pub r: u8,
    pub g: u8,
    pub b: u8,
}

/// Gradient endpoints as hex strings, as received from the shell layer.
#[derive(Clone)]
pub struct ColorHex {
    pub hex_start: String,
    pub hex_end: String,
}

/// A malformed hex color string: wrong length or a non-hex character.
#[derive(Clone, Copy, PartialEq, Eq, Structural, Debug)]
pub struct ColorParseError;

/// Outcome of an export request, reported back to the shell layer.
#[derive(Clone, Copy, PartialEq, Eq, Structural, Debug)]
pub enum ExportResult {
    Done,
    ErrorBadFileType,
    ErrorUnknown,
}

/// Classifies an export attempt: a path whose extension names no known image
/// format is rejected before rendering; a failed save is an unknown error.
pub fn export_status(format_ok: bool, save_ok: bool) -> (r: ExportResult)
    ensures
        !format_ok ==> r == ExportResult::ErrorBadFileType,
        format_ok && !save_ok ==> r == ExportResult::ErrorUnknown,
        format_ok && save_ok ==> r == ExportResult::Done,
{
    if !format_ok {
        ExportResult::ErrorBadFileType
    } else if !save_ok {
        ExportResult::ErrorUnknown
    } else {
        ExportResult::Done
    }
}

} // verus!
