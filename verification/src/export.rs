//! The static export: every slide as a page of its own that takes itself over
//! in the browser and plays its games there, without a server.

use vstd::prelude::*;
use vstd::string::*;

verus! {

/// A page up to its title.
pub const PAGE_OPEN: &'static str = "<!doctype html>\n<html>\n<head>\n<meta charset=\"utf-8\">\n<title>";

/// From the title to the script: the page marks itself as local and brings its
/// styles along.
pub const PAGE_HEAD: &'static str = "</title>\n<meta name=\"game-mode\" content=\"local\">\n<link rel=\"stylesheet\" href=\"https://fonts.googleapis.com/css2?family=Bitter:ital@0;1&amp;family=Fira+Mono&amp;display=swap\">\n<link rel=\"stylesheet\" href=\"main.css\">\n<script>";

/// The queue that the client's take-over expects to find before it boots.
pub const STREAMING_INIT: &'static str = "window.hydrate_queue=[];window.dx_hydrate=(id,data,debug_types,debug_locations)=>{let decoded=atob(data),bytes=Uint8Array.from(decoded,(c)=>c.charCodeAt(0));if(window.hydration_callback)window.hydration_callback(id,bytes,debug_types,debug_locations);else window.hydrate_queue.push([id,bytes,debug_types,debug_locations])};";

/// From the script to the rendered deck.
pub const PAGE_BODY: &'static str = "</script>\n</head>\n<body>\n<div id=\"main\">\n";

/// From the rendered deck to the take-over data.
pub const PAGE_DATA: &'static str = "\n</div>\n<script>window.initial_dioxus_hydration_data=\"";

/// The data of a page that asked the server for nothing.
pub const HYDRATION_DATA: &'static str = "hoEY9vb2gRj1gRj1gRj1";

/// The end of a page, with the client that takes it over.
pub const PAGE_CLOSE: &'static str = "\";window.initial_dioxus_hydration_debug_types=[];window.initial_dioxus_hydration_debug_locations=[];</script>\n<script type=\"module\" src=\"./wasm/more-actors-with-tokio.js\"></script>\n</body>\n</html>\n";

/// The page around a rendered deck.
pub open spec fn page_text(title: Seq<char>, body: Seq<char>) -> Seq<char> {
    PAGE_OPEN@ + title + PAGE_HEAD@ + STREAMING_INIT@ + PAGE_BODY@ + body + PAGE_DATA@
        + HYDRATION_DATA@ + PAGE_CLOSE@
}

/// The page around a rendered deck.
pub fn page(title: &str, body: &str) -> (page: String)
    ensures
        page@ == page_text(title@, body@),
{
    let mut page = PAGE_OPEN.to_owned();
    page.append(title);
    page.append(PAGE_HEAD);
    page.append(STREAMING_INIT);
    page.append(PAGE_BODY);
    page.append(body);
    page.append(PAGE_DATA);
    page.append(HYDRATION_DATA);
    page.append(PAGE_CLOSE);
    page
}

} // verus!
