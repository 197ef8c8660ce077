//! The live-reload development server: path resolution, directory listings,
//! static responses, change detection and live-reload broadcasting.
//!
//! The shell owns the sockets, the filesystem and the clock; every route
//! decision and every response body is computed here, under contract.

pub mod broadcast;
pub mod error;
pub mod listing;
pub mod paths;
pub mod port;
pub mod reload;
pub mod respond;

use vstd::prelude::*;
use crate::server::paths::{views_of, ResolvedPath};
use crate::server::reload::name_extension;
use crate::server::respond::{HttpResponse, ResponseBody};

verus! {

/// Configuration of one server run, immutable after start.
pub struct ServerArgs {
    /// The directory whose files are served.
    pub root_dir: String,
    /// The port the server asks for; a busy port falls back to a scan.
    pub port: u16,
    /// Whether the shell should open a browser tab after binding.
    pub open: bool,
}

/// The route of the server's own listing stylesheet; never a project file.
pub const INTERNAL_CSS_ROUTE: &'static str = "/__internal_only_easywind_css_file__.css";

/// The stylesheet served on the internal route, baked into the binary.
pub const APP_CSS: &'static str = "body { font-family: sans-serif; margin: 2rem auto; max-width: 40rem; color: #1a202c; }\nh1 { font-size: 1.25rem; border-bottom: 1px solid #e2e8f0; padding-bottom: 0.5rem; }\nul { list-style: none; padding: 0; }\nli { padding: 0.25rem 0; }\na { color: #2b6cb0; text-decoration: none; }\na:hover { text-decoration: underline; }\n";

/// What `GET /` does.
pub enum RootAction {
    /// The root holds an `index.html`: serve it verbatim.
    ServeIndex(String),
    /// No index page: render the root's directory listing.
    RenderListing,
}

/// Decides the root route: an `index.html` found under the root is served
/// verbatim, otherwise the root's directory listing is rendered.
pub fn root(index_html: Option<String>) -> (r: RootAction)
    ensures
        index_html matches Some(h) ==> r == RootAction::ServeIndex(h),
        index_html is None ==> r == RootAction::RenderListing,
{
    match index_html {
        Some(h) => RootAction::ServeIndex(h),
        None => RootAction::RenderListing,
    }
}

/// The resolved target names an HTML file.
pub open spec fn is_html_path(segs: Seq<Seq<char>>) -> bool {
    segs.len() > 0 && name_extension(segs.last()) == Some("html"@)
}

/// What `GET /<path>` does with a resolved target.
pub enum PathAction {
    /// A directory: render its listing.
    List(ResolvedPath),
    /// An HTML file: read it and return it as raw text, bypassing the MIME
    /// lookup, so in-flight edits stay visible.
    RawHtml(ResolvedPath),
    /// Any other file: serve it with a MIME type from its extension.
    ServeStatic(ResolvedPath),
}

/// Decides the path route for a resolved, contained target.
pub fn path(target: ResolvedPath, is_dir: bool) -> (r: PathAction)
    ensures
        is_dir ==> r == PathAction::List(target),
        !is_dir && is_html_path(views_of(target.segs@)) ==> r == PathAction::RawHtml(target),
        !is_dir && !is_html_path(views_of(target.segs@)) ==> r == PathAction::ServeStatic(target),
{
    if is_dir {
        return PathAction::List(target);
    }
    let n = target.segs.len();
    if n == 0 {
        proof {
            assert(views_of(target.segs@).len() == 0);
        }
        return PathAction::ServeStatic(target);
    }
    proof {
        crate::server::paths::lemma_views_index(target.segs@, n - 1);
    }
    let is_html = match crate::server::reload::name_extension_exec(target.segs[n - 1].as_str()) {
        Some(e) => crate::strutil::str_eq(e.as_str(), "html"),
        None => false,
    };
    if is_html {
        PathAction::RawHtml(target)
    } else {
        PathAction::ServeStatic(target)
    }
}

/// The response of the reserved internal stylesheet route: the baked-in
/// listing stylesheet, as CSS.
pub fn serve_internal_css() -> (r: HttpResponse)
    ensures
        r.status == 200,
        r.content_type matches Some(ct) && ct@ == "text/css"@,
        r.body matches ResponseBody::Text(t) && t@ == APP_CSS@,
{
    HttpResponse {
        status: 200,
        content_type: Some(String::from_str("text/css")),
        body: ResponseBody::Text(String::from_str(APP_CSS)),
    }
}

} // verus!
