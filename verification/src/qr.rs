//! The pairing payload: the text a QR code encodes so a companion client
//! can find the server.  Rendering the code and showing it on screen is
//! the shell's job.

use vstd::prelude::*;
use vstd::string::StringExecFns;

verus! {

/// The text to encode in the pairing QR code for a server reachable at
/// `server_addr`: the address as a URL.
pub fn display_qr_code(server_addr: &str) -> (r: String)
    ensures
        r@ == "http://"@ + server_addr@,
{
    let mut out = String::from_str("http://");
    out.append(server_addr);
    out
}

} // verus!
