//! Per-request dispatch: from a resolved path and the observed state
//! of the filesystem to the HTTP response.
//!
//! The caller resolves the raw path first (`pathres::resolve`), then
//! — only for an accepted path — asks the filesystem what the
//! candidate is (a directory, with its enumerated entries or an
//! enumeration error; a regular file; nothing) and hands the outcome
//! in. Dispatch decides status, content type, headers and body:
//! rejected and missing paths get `404`, an unreadable directory gets
//! `500`, a file gets `200` with the type guessed from its extension,
//! a readable directory gets `200` with its rendered listing.

use crate::config::RenderMode;
use crate::config::ServerConfig;
use crate::entries::DirEntry;
use crate::entries::entry_order;
use crate::entries::lemma_entry_order_total;
use crate::entries::lemma_listing_canonical;
use crate::entries::sort_entries;
use crate::entries::views_of;
use crate::entries::EntryV;
use crate::mimetype::content_type_for_path;
use crate::mimetype::ext_of_path;
use crate::mimetype::mime_of;
use crate::pathres::join_candidate;
use crate::pathres::join_view;
use crate::pathres::ResolvedPath;
use crate::render::minimal_doc_view;
use crate::render::render_minimal;
use crate::render::render_styled;
use crate::render::styled_doc_view;
use vstd::prelude::*;

verus! {

/// What enumerating a directory produced: its entries, or a failure.
pub enum ListingOutcome {
    Listed(Vec<DirEntry>),
    Unreadable,
}

/// What the filesystem said about a candidate path: a directory
/// (with the outcome of enumerating it), a regular file, or nothing —
/// anything that is neither a directory nor a regular file counts as
/// missing.
pub enum Observation {
    Directory(ListingOutcome),
    File,
    Missing,
}

/// A response body: a rendered HTML page, a short plain text, or the
/// streamed contents of the file at the candidate path (the stream
/// itself is the caller's to open; a failure to open it is answered
/// with [`open_failure_response`]).
pub enum BodyKind {
    Page(String),
    Text(String),
    FileStream,
}

/// The response the dispatcher decided on: status code, content type,
/// whether the permissive cross-origin header is set, and the body.
pub struct HttpResponse {
    pub status: u16,
    pub content_type: String,
    pub cross_origin: bool,
    pub body: BodyKind,
}

/// A plain-text not-found response.
pub open spec fn is_not_found(r: HttpResponse) -> bool {
    &&& r.status == 404
    &&& r.content_type@ == "text/plain; charset=utf-8"@
    &&& !r.cross_origin
    &&& r.body matches BodyKind::Text(t) && t@ == "404 - 文件未找到"@
}

/// A plain-text server-failure response.
pub open spec fn is_failure(r: HttpResponse, text: Seq<char>) -> bool {
    &&& r.status == 500
    &&& r.content_type@ == "text/plain; charset=utf-8"@
    &&& !r.cross_origin
    &&& r.body matches BodyKind::Text(t) && t@ == text
}

/// The listing document the configured mode renders for the sorted
/// entries `s` of the directory at `rel` below `root`.
pub open spec fn listing_doc_view(
    mode: RenderMode,
    root: Seq<char>,
    rel: Seq<char>,
    s: Seq<EntryV>,
) -> Seq<char> {
    if mode is Styled {
        styled_doc_view(root, rel, s)
    } else {
        minimal_doc_view(join_view(root, rel), rel, s)
    }
}

/// The not-found response: a rejected or missing path is answered
/// with `404` and a short plain-text body.
pub fn not_found_response() -> (r: HttpResponse)
    ensures
        is_not_found(r),
{
    HttpResponse {
        status: 404,
        content_type: "text/plain; charset=utf-8".to_owned(),
        cross_origin: false,
        body: BodyKind::Text("404 - 文件未找到".to_owned()),
    }
}

/// The response for a file whose contents could not be opened after
/// it classified as a regular file.
pub fn open_failure_response() -> (r: HttpResponse)
    ensures
        is_failure(r, "无法打开文件"@),
{
    HttpResponse {
        status: 500,
        content_type: "text/plain; charset=utf-8".to_owned(),
        cross_origin: false,
        body: BodyKind::Text("无法打开文件".to_owned()),
    }
}

/// Decides the response for one request.
///
/// `res` is what path resolution yielded; `obs` is what the caller
/// observed on the filesystem for the accepted candidate path (for a
/// rejected path it is never consulted). Every outcome is pinned
/// down: `404` for rejected and missing paths, `500` for an
/// unreadable directory, `200` with the extension's content type for
/// a file, and `200` with the rendered listing of the sorted entries
/// for a directory — with the cross-origin header exactly on styled
/// listings.
pub fn dispatch(config: &ServerConfig, res: &Option<ResolvedPath>, obs: Observation) -> (r:
    HttpResponse)
    ensures
        ({
            match res {
                None => is_not_found(r),
                Some(p) => match obs {
                    Observation::Missing => is_not_found(r),
                    Observation::File => r.status == 200 && r.content_type@ == mime_of(
                        ext_of_path(join_view(config.root@, p.rel@)),
                    ) && r.body is FileStream && !r.cross_origin,
                    Observation::Directory(ListingOutcome::Unreadable) => is_failure(
                        r,
                        "无法读取目录"@,
                    ),
                    Observation::Directory(ListingOutcome::Listed(es)) => r.status == 200
                        && r.content_type@ == "text/html; charset=utf-8"@ && r.cross_origin == (
                    config.mode is Styled) && (r.body matches BodyKind::Page(h) && h@
                        == listing_doc_view(
                        config.mode,
                        config.root@,
                        p.rel@,
                        views_of(es@).sort_by(entry_order()),
                    )),
                },
            }
        }),
{
    match res {
        None => not_found_response(),
        Some(p) => match obs {
            Observation::Missing => not_found_response(),
            Observation::File => {
                let full = join_candidate(config.root.as_str(), p.rel.as_str());
                let content_type = content_type_for_path(full.as_str());
                HttpResponse {
                    status: 200,
                    content_type,
                    cross_origin: false,
                    body: BodyKind::FileStream,
                }
            },
            Observation::Directory(ListingOutcome::Unreadable) => HttpResponse {
                status: 500,
                content_type: "text/plain; charset=utf-8".to_owned(),
                cross_origin: false,
                body: BodyKind::Text("无法读取目录".to_owned()),
            },
            Observation::Directory(ListingOutcome::Listed(es)) => {
                let ghost orig = views_of(es@);
                let mut entries = es;
                sort_entries(&mut entries);
                proof {
                    lemma_entry_order_total();
                    orig.lemma_sort_by_ensures(entry_order());
                    lemma_listing_canonical(
                        views_of(entries@),
                        orig.sort_by(entry_order()),
                    );
                }
                let styled = match config.mode {
                    RenderMode::Styled => true,
                    RenderMode::Minimal => false,
                };
                let html = if styled {
                    render_styled(config.root.as_str(), p.rel.as_str(), &entries)
                } else {
                    let full = join_candidate(config.root.as_str(), p.rel.as_str());
                    render_minimal(full.as_str(), p.rel.as_str(), &entries)
                };
                HttpResponse {
                    status: 200,
                    content_type: "text/html; charset=utf-8".to_owned(),
                    cross_origin: styled,
                    body: BodyKind::Page(html),
                }
            },
        },
    }
}

} // verus!
