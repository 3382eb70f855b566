//! Profile pictures: an identicon drawn from a user's names and email.

use vstd::prelude::*;
use vstd::string::StringExecFns;

use crate::model::bytes_view;

verus! {

/// The PNG file that `identicon_rs` draws for an input text with its default
/// settings, or `None` where it reports an error, which with these settings
/// it never does.
pub uninterp spec fn identicon_png(input: Seq<char>) -> Option<Seq<u8>>;

/// Calls `identicon_rs::Identicon::new` and `Identicon::export_png_data`.
///
/// The picture is a function of the input text alone: the crate hashes the
/// text and draws from the hash with fixed settings. An error of the crate
/// would come back as `None`; with the default settings the crate has no
/// failing path: the default theme is valid, the picture fits its border,
/// and the PNG is written into memory.
#[verifier::external_body]
fn render_identicon(input: &str) -> (r: Option<Vec<u8>>)
    ensures
        bytes_view(r) == identicon_png(input@),
        r is Some,
{
    identicon_rs::Identicon::new(input).export_png_data().ok()
}

/// The text a profile picture is drawn from.
pub open spec fn avatar_input(
    display_name: Seq<char>,
    email: Seq<char>,
    real_name: Seq<char>,
) -> Seq<char> {
    display_name + email + real_name
}

/// Draws the profile picture of a user with these names and email. There is
/// one for every user.
pub fn profile_picture(display_name: &str, email: &str, real_name: &str) -> (r: Option<Vec<u8>>)
    ensures
        bytes_view(r) == identicon_png(avatar_input(display_name@, email@, real_name@)),
        r is Some,
{
    let input = String::from_str(display_name).concat(email).concat(real_name);
    render_identicon(input.as_str())
}

} // verus!
