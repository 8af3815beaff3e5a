//! Text shown to the user that the library computes.

use vstd::prelude::*;
use vstd::string::{StringExecFns, StringSliceAdditionalSpecFns};

use crate::cli::string_result;
use crate::error::{BeamsError, ErrorModel};

verus! {

/// The text block `qrcode` renders for `data` (dense Unicode half blocks,
/// with the quiet zone), or the text of its encoding error.
pub uninterp spec fn qr_text(data: Seq<u8>) -> Result<Seq<char>, Seq<char>>;

/// Calls `qrcode::QrCode::new(data)` and renders the code with
/// `render::<qrcode::render::unicode::Dense1x2>().quiet_zone(true).build()`;
/// an encoding failure becomes its `Display` text. Claimed: the result is a
/// function of `data` alone, named by [`qr_text`].
#[verifier::external_body]
fn encode_qr(data: &[u8]) -> (r: Result<String, String>)
    ensures
        match r {
            Ok(t) => qr_text(data@) == Ok::<Seq<char>, Seq<char>>(t@),
            Err(m) => qr_text(data@) == Err::<Seq<char>, Seq<char>>(m@),
        },
{
    match qrcode::QrCode::new(data) {
        Ok(code) => Ok(code.render::<qrcode::render::unicode::Dense1x2>().quiet_zone(true).build()),
        Err(e) => Err(e.to_string()),
    }
}

/// What [`render_qr`] gives for the bytes of a URL.
pub open spec fn spec_render_qr(url_bytes: Seq<u8>) -> Result<Seq<char>, ErrorModel> {
    match qr_text(url_bytes) {
        Ok(t) => Ok(t),
        Err(m) => Err(ErrorModel::Download("failed to render QR code: "@ + m)),
    }
}

/// Render a URL as a scannable Unicode QR code string.
pub fn render_qr(url: &str) -> (r: Result<String, BeamsError>)
    ensures
        string_result(r) == spec_render_qr(url.spec_bytes()),
{
    match encode_qr(url.as_bytes()) {
        Ok(t) => Ok(t),
        Err(m) => {
            let mut msg = "failed to render QR code: ".to_owned();
            msg.append(m.as_str());
            Err(BeamsError::Download(msg))
        },
    }
}

} // verus!
