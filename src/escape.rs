//! The colour escapes that highlighted and plain rows carry, taken from termion.

use vstd::prelude::*;

verus! {

/// The escape that turns the foreground blue (palette entry 4): `ESC [ 3 8 ; 5 ; 4 m`.
pub open spec fn highlight_code() -> Seq<char> {
    seq!['\u{1b}', '[', '3', '8', ';', '5', ';', '4', 'm']
}

/// The escape that resets the foreground colour: `ESC [ 3 9 m`.
pub open spec fn reset_code() -> Seq<char> {
    seq!['\u{1b}', '[', '3', '9', 'm']
}

/// Relies on termion::color::Blue::fg_str, which returns the fixed sequence
/// `csi!("38;5;", "4", "m")`, that is "\x1b[38;5;4m".
#[verifier::external_body]
pub(crate) fn highlight_escape() -> (r: String)
    ensures
        r@ == highlight_code(),
{
    termion::color::Blue.fg_str().to_string()
}

/// Relies on termion::color::Reset::fg_str, which returns the fixed sequence
/// `csi!("39m")`, that is "\x1b[39m".
#[verifier::external_body]
pub(crate) fn reset_escape() -> (r: String)
    ensures
        r@ == reset_code(),
{
    termion::color::Reset.fg_str().to_string()
}

} // verus!
