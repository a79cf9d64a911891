//! The terminal escape codes that set a replacement off from its
//! surroundings.

use vstd::prelude::*;

verus! {

/// The bytes that switch the terminal's foreground to blue: `ESC [ 3 4 m`.
pub open spec fn highlight_start() -> Seq<u8> {
    seq![0x1bu8, 0x5bu8, 0x33u8, 0x34u8, 0x6du8]
}

/// The bytes that switch the terminal back to its normal style:
/// `ESC [ 0 m`.
pub open spec fn highlight_end() -> Seq<u8> {
    seq![0x1bu8, 0x5bu8, 0x30u8, 0x6du8]
}

/// Calls `ansi_term::Colour::prefix` on `Blue` and takes the bytes that its
/// `Display` writes. Trusted: for a plain foreground colour `ansi_term`
/// writes `ESC [`, the colour's number (34 for blue) and `m`.
#[verifier::external_body]
pub(crate) fn start_marker() -> (bytes: Vec<u8>)
    ensures
        bytes@ == highlight_start(),
{
    ansi_term::Color::Blue.prefix().to_string().into_bytes()
}

/// Calls `ansi_term::Colour::suffix` on `Blue` and takes the bytes that its
/// `Display` writes. Trusted: for any style that is not plain `ansi_term`
/// writes its reset code, `ESC [ 0 m`.
#[verifier::external_body]
pub(crate) fn end_marker() -> (bytes: Vec<u8>)
    ensures
        bytes@ == highlight_end(),
{
    ansi_term::Color::Blue.suffix().to_string().into_bytes()
}

} // verus!
