//! A gateway that lets a web browser walk through Gopher: it reads a
//! minimal HTTP request, finds the Gopher resource that the path names or
//! searches for, and turns what the Gopher client fetched into a page.

use vstd::prelude::*;

pub mod autolink;
pub mod gopher;
pub mod request;
pub mod server;
pub mod strip_ansi_escapes;
pub mod text;

verus! {

/// The Gopher locator that is shown where a request names none.
pub const DEFAULT_GOPHERHOLE: &'static str = "gopher://phroxy.net/";

} // verus!
