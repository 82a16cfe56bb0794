//! The routes of the board's own files: `GET /write` shows the page that
//! opens a thread, and `GET /css/{name}`, `GET /fonts/{name}` and
//! `GET /js/{name}` send a file of the site.
use vstd::prelude::*;
use crate::routing::{is_path, match_named, method_named, method_of, named_path, path_of, request_path, Method};

verus! {

/// `/write`
pub open spec fn write_path() -> Seq<char> {
    seq!['/', 'w', 'r', 'i', 't', 'e']
}

/// `/css`
pub open spec fn css_prefix() -> Seq<char> {
    seq!['/', 'c', 's', 's']
}

/// `/fonts`
pub open spec fn fonts_prefix() -> Seq<char> {
    seq!['/', 'f', 'o', 'n', 't', 's']
}

/// `/js`
pub open spec fn js_prefix() -> Seq<char> {
    seq!['/', 'j', 's']
}

/// What the server does with a request for the board's own files.
pub enum AssetAction {
    /// The request is not this handler's.
    Decline,
    /// Answer with the page that opens a thread.
    ShowWritePage,
    /// Send the file `name` of the directory with the media type, or an
    /// empty 404 where it cannot be opened.
    SendFile { dir: String, name: String, content_type: String },
}

/// What the handler does with a request.
pub open spec fn asset_step(method: Method, path: Seq<char>, action: AssetAction) -> bool {
    let css = named_path(path, css_prefix());
    let font = named_path(path, fonts_prefix());
    let js = named_path(path, js_prefix());
    if method != Method::Get {
        action is Decline
    } else if path == write_path() {
        action is ShowWritePage
    } else if css is Some {
        action matches AssetAction::SendFile { dir, name, content_type } && dir@ == "./css"@
            && name@ == css->0 && content_type@ == "text/css"@
    } else if font is Some {
        action matches AssetAction::SendFile { dir, name, content_type } && dir@ == "./font"@
            && name@ == font->0 && content_type@ == "application/font"@
    } else if js is Some {
        action matches AssetAction::SendFile { dir, name, content_type } && dir@ == "./js"@
            && name@ == js->0 && content_type@ == "script/javascript"@
    } else {
        action is Decline
    }
}

/// Handles a request for the board's own files.
pub fn process(method: &str, url: &str) -> (a: AssetAction)
    ensures
        asset_step(method_named(method@), path_of(url@), a),
{
    let write: [char; 6] = ['/', 'w', 'r', 'i', 't', 'e'];
    let css: [char; 4] = ['/', 'c', 's', 's'];
    let fonts: [char; 6] = ['/', 'f', 'o', 'n', 't', 's'];
    let js: [char; 3] = ['/', 'j', 's'];
    assert(write@ == write_path());
    assert(css@ == css_prefix());
    assert(fonts@ == fonts_prefix());
    assert(js@ == js_prefix());
    if method_of(method) != Method::Get {
        return AssetAction::Decline;
    }
    let path = request_path(url);
    if is_path(path, &write) {
        return AssetAction::ShowWritePage;
    }
    if let Some(name) = match_named(path, &css) {
        return AssetAction::SendFile {
            dir: "./css".to_owned(),
            name,
            content_type: "text/css".to_owned(),
        };
    }
    if let Some(name) = match_named(path, &fonts) {
        return AssetAction::SendFile {
            dir: "./font".to_owned(),
            name,
            content_type: "application/font".to_owned(),
        };
    }
    if let Some(name) = match_named(path, &js) {
        return AssetAction::SendFile {
            dir: "./js".to_owned(),
            name,
            content_type: "script/javascript".to_owned(),
        };
    }
    AssetAction::Decline
}

} // verus!
