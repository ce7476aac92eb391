//! Rendering of directory listings as HTML documents.
//!
//! Two interchangeable presentations exist: a minimal unordered list,
//! and a styled page with a breadcrumb, a grid of cards (with
//! thumbnails for image files), an empty-state placeholder, and a
//! footer with the directory and file counts. Every string that comes
//! from the filesystem — names, paths, link targets — is HTML-escaped
//! before it is embedded in markup.

use crate::config::eq_ignore_ascii_case;
use crate::entries::DirEntry;
use crate::entries::EntryV;
use crate::entries::views_of;
use vstd::prelude::*;

verus! {

/// What one character contributes to escaped markup.
pub open spec fn escape_char(c: char) -> Seq<char> {
    if c == '&' {
        "&amp;"@
    } else if c == '<' {
        "&lt;"@
    } else if c == '>' {
        "&gt;"@
    } else if c == '"' {
        "&quot;"@
    } else if c == '\'' {
        "&#39;"@
    } else {
        seq![c]
    }
}

/// The HTML-escaped form of `s`.
pub open spec fn escape_view(s: Seq<char>) -> Seq<char>
    decreases s.len(),
{
    if s.len() == 0 {
        Seq::empty()
    } else {
        escape_char(s[0]) + escape_view(s.skip(1))
    }
}

proof fn lemma_escape_snoc(s: Seq<char>, c: char)
    ensures
        escape_view(s.push(c)) == escape_view(s) + escape_char(c),
    decreases s.len(),
{
    if s.len() == 0 {
        assert(s.push(c)[0] == c);
        assert(s.push(c).skip(1) =~= Seq::<char>::empty());
        assert(escape_view(s.push(c)) == escape_char(c) + escape_view(Seq::<char>::empty()));
        assert(escape_view(s.push(c)) =~= escape_view(s) + escape_char(c));
    } else {
        assert(s.push(c)[0] == s[0]);
        assert(s.push(c).skip(1) =~= s.skip(1).push(c));
        lemma_escape_snoc(s.skip(1), c);
        assert(escape_view(s.push(c)) =~= escape_view(s) + escape_char(c));
    }
}

/// Escapes `s` for embedding in HTML text or attribute values.
pub fn html_escape(s: &str) -> (r: String)
    ensures
        r@ == escape_view(s@),
{
    let len = s.unicode_len();
    let mut out = String::new();
    let mut i: usize = 0;
    proof {
        assert(s@.take(0) =~= Seq::<char>::empty());
    }
    while i < len
        invariant
            0 <= i <= len,
            len == s@.len(),
            out@ == escape_view(s@.take(i as int)),
        decreases len - i,
    {
        let c = s.get_char(i);
        if c == '&' {
            out.append("&amp;");
        } else if c == '<' {
            out.append("&lt;");
        } else if c == '>' {
            out.append("&gt;");
        } else if c == '"' {
            out.append("&quot;");
        } else if c == '\'' {
            out.append("&#39;");
        } else {
            let one = s.substring_char(i, i + 1);
            proof {
                assert(s@.subrange(i as int, i + 1) =~= seq![s@[i as int]]);
            }
            out.append(one);
        }
        proof {
            assert(s@.take(i + 1) =~= s@.take(i as int).push(s@[i as int]));
            lemma_escape_snoc(s@.take(i as int), s@[i as int]);
        }
        i = i + 1;
    }
    proof {
        assert(s@.take(len as int) =~= s@);
    }
    out
}

/// The decimal digit character for `d`.
pub open spec fn digit_char(d: int) -> char {
    if d == 0 {
        '0'
    } else if d == 1 {
        '1'
    } else if d == 2 {
        '2'
    } else if d == 3 {
        '3'
    } else if d == 4 {
        '4'
    } else if d == 5 {
        '5'
    } else if d == 6 {
        '6'
    } else if d == 7 {
        '7'
    } else if d == 8 {
        '8'
    } else {
        '9'
    }
}

/// The decimal rendering of `n`, most significant digit first.
pub open spec fn dec_view(n: nat) -> Seq<char>
    decreases n,
{
    if n < 10 {
        seq![digit_char(n as int)]
    } else {
        dec_view(n / 10) + seq![digit_char((n % 10) as int)]
    }
}

/// One decimal digit as a string slice.
fn digit_str(d: usize) -> (r: &'static str)
    requires
        d < 10,
    ensures
        r@ == seq![digit_char(d as int)],
{
    proof {
        reveal_strlit("0");
        reveal_strlit("1");
        reveal_strlit("2");
        reveal_strlit("3");
        reveal_strlit("4");
        reveal_strlit("5");
        reveal_strlit("6");
        reveal_strlit("7");
        reveal_strlit("8");
        reveal_strlit("9");
    }
    match d {
        0 => "0",
        1 => "1",
        2 => "2",
        3 => "3",
        4 => "4",
        5 => "5",
        6 => "6",
        7 => "7",
        8 => "8",
        _ => "9",
    }
}

/// Renders `n` in decimal.
pub fn usize_to_string(n: usize) -> (r: String)
    ensures
        r@ == dec_view(n as nat),
    decreases n,
{
    if n < 10 {
        digit_str(n).to_owned()
    } else {
        let mut s = usize_to_string(n / 10);
        s.append(digit_str(n % 10));
        s
    }
}

/// The relative path with its last segment removed: everything before
/// the last `/` of `s`, or the empty path when `s` has no `/`.
pub open spec fn parent_view(s: Seq<char>) -> Seq<char>
    decreases s.len(),
{
    if s.len() == 0 {
        s
    } else if s.last() == '/' {
        s.drop_last()
    } else {
        parent_view(s.drop_last())
    }
}

proof fn lemma_parent_prefix(s: Seq<char>, j: int)
    requires
        0 <= j <= s.len(),
        forall|k: int| j <= k < s.len() ==> s[k] != '/',
        j == 0 || s[j - 1] == '/',
    ensures
        j == 0 ==> parent_view(s) == Seq::<char>::empty(),
        j > 0 ==> parent_view(s) == s.take(j - 1),
    decreases s.len(),
{
    if s.len() == 0 {
    } else if s.len() == j {
        assert(s.last() == '/');
        assert(s.drop_last() =~= s.take(j - 1));
    } else {
        assert(s.last() != '/');
        lemma_parent_prefix(s.drop_last(), j);
        if j > 0 {
            assert(s.drop_last().take(j - 1) =~= s.take(j - 1));
        }
    }
}

/// The parent link target of relative path `rel`: `rel` without its
/// last segment.
pub fn parent_of(rel: &str) -> (r: String)
    ensures
        r@ == parent_view(rel@),
{
    let len = rel.unicode_len();
    let mut j: usize = len;
    while j > 0 && rel.get_char(j - 1) != '/'
        invariant
            0 <= j <= len,
            len == rel@.len(),
            forall|k: int| j <= k < len ==> rel@[k] != '/',
        decreases j,
    {
        j = j - 1;
    }
    proof {
        lemma_parent_prefix(rel@, j as int);
    }
    if j == 0 {
        proof {
            reveal_strlit("");
            assert(""@ =~= Seq::<char>::empty());
        }
        let empty = "";
        empty.to_owned()
    } else {
        let p = rel.substring_char(0, j - 1);
        proof {
            assert(rel@.subrange(0, j - 1) =~= rel@.take(j - 1));
        }
        p.to_owned()
    }
}

/// Whether `s` ends in `sfx`, compared without regard to ASCII case.
pub open spec fn suffix_ci(s: Seq<char>, sfx: Seq<char>) -> bool {
    s.len() >= sfx.len() && eq_ignore_ascii_case(s.skip(s.len() - sfx.len()), sfx)
}

/// Tests a file-name suffix without regard to ASCII case.
fn has_suffix_ci(s: &str, sfx: &str) -> (r: bool)
    ensures
        r == suffix_ci(s@, sfx@),
{
    let slen = s.unicode_len();
    let xlen = sfx.unicode_len();
    if slen < xlen {
        return false;
    }
    let tail = s.substring_char(slen - xlen, slen);
    proof {
        assert(s@.subrange(slen - xlen, slen as int) =~= s@.skip(s@.len() - sfx@.len()));
    }
    crate::config::eq_ignore_case(tail, sfx)
}

/// The link target of entry `name` under relative path `rel`.
pub open spec fn link_view(rel: Seq<char>, name: Seq<char>) -> Seq<char> {
    if rel.len() == 0 {
        name
    } else {
        rel + "/"@ + name
    }
}

/// Joins an entry name onto the listing's relative path.
pub fn entry_link(rel: &str, name: &str) -> (r: String)
    ensures
        r@ == link_view(rel@, name@),
{
    if rel.unicode_len() == 0 {
        name.to_owned()
    } else {
        let mut s = rel.to_owned();
        s.append("/");
        s.append(name);
        s
    }
}

/// Whether the name's extension marks a raster or vector image whose
/// card shows a thumbnail.
pub open spec fn is_image_name(name: Seq<char>) -> bool {
    ||| suffix_ci(name, ".jpg"@)
    ||| suffix_ci(name, ".jpeg"@)
    ||| suffix_ci(name, ".png"@)
    ||| suffix_ci(name, ".gif"@)
    ||| suffix_ci(name, ".bmp"@)
    ||| suffix_ci(name, ".webp"@)
    ||| suffix_ci(name, ".svg"@)
}

/// Tests whether a file name belongs to the image family.
pub fn is_image(name: &str) -> (r: bool)
    ensures
        r == is_image_name(name@),
{
    has_suffix_ci(name, ".jpg") || has_suffix_ci(name, ".jpeg") || has_suffix_ci(name, ".png")
        || has_suffix_ci(name, ".gif") || has_suffix_ci(name, ".bmp") || has_suffix_ci(
        name,
        ".webp",
    ) || has_suffix_ci(name, ".svg")
}

/// The glyph of a non-image file card, chosen by lowercased suffix
/// match against curated extension families; a generic document glyph
/// otherwise.
pub open spec fn icon_view(name: Seq<char>) -> Seq<char> {
    if suffix_ci(name, ".txt"@) || suffix_ci(name, ".md"@) {
        "📄"@
    } else if suffix_ci(name, ".mp4"@) || suffix_ci(name, ".avi"@) || suffix_ci(name, ".mov"@)
        || suffix_ci(name, ".mkv"@) {
        "🎬"@
    } else if suffix_ci(name, ".mp3"@) || suffix_ci(name, ".wav"@) || suffix_ci(name, ".flac"@) {
        "🎵"@
    } else if suffix_ci(name, ".pdf"@) {
        "📕"@
    } else if suffix_ci(name, ".zip"@) || suffix_ci(name, ".rar"@) || suffix_ci(name, ".7z"@) {
        "📦"@
    } else if suffix_ci(name, ".js"@) || suffix_ci(name, ".html"@) || suffix_ci(name, ".css"@) {
        "💻"@
    } else if suffix_ci(name, ".doc"@) || suffix_ci(name, ".docx"@) {
        "📘"@
    } else if suffix_ci(name, ".xls"@) || suffix_ci(name, ".xlsx"@) {
        "📗"@
    } else if suffix_ci(name, ".ppt"@) || suffix_ci(name, ".pptx"@) {
        "📙"@
    } else {
        "📄"@
    }
}

/// Picks the glyph for a non-image file card.
pub fn icon_for(name: &str) -> (r: &'static str)
    ensures
        r@ == icon_view(name@),
{
    if has_suffix_ci(name, ".txt") || has_suffix_ci(name, ".md") {
        "📄"
    } else if has_suffix_ci(name, ".mp4") || has_suffix_ci(name, ".avi") || has_suffix_ci(
        name,
        ".mov",
    ) || has_suffix_ci(name, ".mkv") {
        "🎬"
    } else if has_suffix_ci(name, ".mp3") || has_suffix_ci(name, ".wav") || has_suffix_ci(
        name,
        ".flac",
    ) {
        "🎵"
    } else if has_suffix_ci(name, ".pdf") {
        "📕"
    } else if has_suffix_ci(name, ".zip") || has_suffix_ci(name, ".rar") || has_suffix_ci(
        name,
        ".7z",
    ) {
        "📦"
    } else if has_suffix_ci(name, ".js") || has_suffix_ci(name, ".html") || has_suffix_ci(
        name,
        ".css",
    ) {
        "💻"
    } else if has_suffix_ci(name, ".doc") || has_suffix_ci(name, ".docx") {
        "📘"
    } else if has_suffix_ci(name, ".xls") || has_suffix_ci(name, ".xlsx") {
        "📗"
    } else if has_suffix_ci(name, ".ppt") || has_suffix_ci(name, ".pptx") {
        "📙"
    } else {
        "📄"
    }
}

/// The folder or generic-document glyph of a minimal-list entry.
pub open spec fn glyph_view(e: EntryV) -> Seq<char> {
    if e.dir {
        "📁"@
    } else {
        "📄"@
    }
}

/// One `<li>` of the minimal listing.
pub open spec fn minimal_item_view(rel: Seq<char>, e: EntryV) -> Seq<char> {
    "<li>"@ + glyph_view(e) + " <a href=\"/"@ + escape_view(link_view(rel, e.name)) + "\">"@
        + escape_view(e.name) + "</a></li>"@
}

/// The `<li>` rows of all entries, in the given order.
pub open spec fn minimal_items_view(rel: Seq<char>, es: Seq<EntryV>) -> Seq<char>
    decreases es.len(),
{
    if es.len() == 0 {
        Seq::empty()
    } else {
        minimal_items_view(rel, es.drop_last()) + minimal_item_view(rel, es.last())
    }
}

/// The synthetic parent-directory row, shown whenever the listing is
/// not of the root itself.
pub open spec fn minimal_parent_view(rel: Seq<char>) -> Seq<char> {
    if rel.len() == 0 {
        Seq::empty()
    } else {
        "<li>⬆️ <a href=\"/"@ + escape_view(parent_view(rel)) + "\">..</a></li>"@
    }
}

/// Everything of the minimal document before the entry rows.
pub open spec fn minimal_head_view(full: Seq<char>, rel: Seq<char>) -> Seq<char> {
    "<html><head><meta charset='utf-8'><title>Index of "@ + escape_view(full)
        + "</title></head><body><h3>📁 Index of "@ + escape_view(full) + "</h3><ul>"@
        + minimal_parent_view(rel)
}

/// The whole minimal listing document.
pub open spec fn minimal_doc_view(full: Seq<char>, rel: Seq<char>, es: Seq<EntryV>) -> Seq<char> {
    minimal_head_view(full, rel) + minimal_items_view(rel, es) + "</ul></body></html>"@
}

/// One `<li>` of the minimal listing.
fn minimal_item(rel: &str, e: &DirEntry) -> (r: String)
    ensures
        r@ == minimal_item_view(rel@, e@),
{
    let mut s = "<li>".to_owned();
    if e.is_dir {
        s.append("📁");
    } else {
        s.append("📄");
    }
    s.append(" <a href=\"/");
    let link = entry_link(rel, e.name.as_str());
    let elink = html_escape(link.as_str());
    s.append(elink.as_str());
    s.append("\">");
    let ename = html_escape(e.name.as_str());
    s.append(ename.as_str());
    s.append("</a></li>");
    s
}

/// Renders the minimal listing: a title and heading that embed the
/// candidate path, a parent row when the listing is not of the root,
/// and one row per entry in the given order.
pub fn render_minimal(full: &str, rel: &str, entries: &Vec<DirEntry>) -> (r: String)
    ensures
        r@ == minimal_doc_view(full@, rel@, views_of(entries@)),
{
    let efull = html_escape(full);
    let mut out = "<html><head><meta charset='utf-8'><title>Index of ".to_owned();
    out.append(efull.as_str());
    out.append("</title></head><body><h3>📁 Index of ");
    out.append(efull.as_str());
    out.append("</h3><ul>");
    if rel.unicode_len() > 0 {
        out.append("<li>⬆️ <a href=\"/");
        let parent = parent_of(rel);
        let eparent = html_escape(parent.as_str());
        out.append(eparent.as_str());
        out.append("\">..</a></li>");
    }
    proof {
        assert(out@ =~= minimal_head_view(full@, rel@));
    }
    let n = entries.len();
    let mut i: usize = 0;
    proof {
        assert(views_of(entries@).take(0) =~= Seq::<EntryV>::empty());
        assert(out@ =~= minimal_head_view(full@, rel@) + minimal_items_view(
            rel@,
            views_of(entries@).take(0),
        ));
    }
    while i < n
        invariant
            0 <= i <= n,
            n == entries@.len(),
            out@ == minimal_head_view(full@, rel@) + minimal_items_view(
                rel@,
                views_of(entries@).take(i as int),
            ),
        decreases n - i,
    {
        let item = minimal_item(rel, &entries[i]);
        out.append(item.as_str());
        proof {
            assert(views_of(entries@).take(i + 1).drop_last() =~= views_of(entries@).take(
                i as int,
            ));
            assert(views_of(entries@).take(i + 1).last() == entries@[i as int]@);
            assert(out@ =~= minimal_head_view(full@, rel@) + minimal_items_view(
                rel@,
                views_of(entries@).take(i + 1),
            ));
        }
        i = i + 1;
    }
    out.append("</ul></body></html>");
    proof {
        assert(views_of(entries@).take(n as int) =~= views_of(entries@));
        assert(out@ =~= minimal_doc_view(full@, rel@, views_of(entries@)));
    }
    out
}

/// The stylesheet of the styled page.
pub const STYLED_CSS: &'static str = "*{margin:0;padding:0;box-sizing:border-box}body{font-family:sans-serif;background:linear-gradient(135deg,#667eea 0%,#764ba2 100%);min-height:100vh;padding:20px}.container{max-width:1200px;margin:0 auto;background:rgba(255,255,255,.95);border-radius:20px;overflow:hidden}.header{background:linear-gradient(135deg,#4facfe 0%,#00f2fe 100%);color:#fff;padding:30px;text-align:center}.content{padding:40px}.breadcrumb{margin-bottom:30px;padding:15px 20px;background:#f8f9fa;border-radius:10px}.breadcrumb a{color:#007bff;text-decoration:none}.file-grid{display:grid;grid-template-columns:repeat(auto-fill,minmax(300px,1fr));gap:20px}.file-item{background:#fff;border:1px solid #e9ecef;border-radius:15px;padding:20px;display:block;text-decoration:none;color:inherit}.folder{background:linear-gradient(135deg,#ffeaa7 0%,#fab1a0 100%)}.file{background:linear-gradient(135deg,#a8e6cf 0%,#88d8c0 100%)}.file-icon{font-size:2.5em;display:block;margin-bottom:10px}.file-name{font-weight:500;word-break:break-all}.file-type{color:#666;font-size:.9em;margin-top:5px}.image-preview{width:80px;height:80px;object-fit:scale-down}.empty-state{text-align:center;padding:60px 20px;color:#666}.empty-state .icon{font-size:4em;opacity:.5}.footer{background:#f8f9fa;padding:20px;text-align:center;color:#666;font-size:.9em;border-top:1px solid #e9ecef}";

/// The breadcrumb tail naming the listed directory, empty at the root.
pub open spec fn breadcrumb_view(rel: Seq<char>) -> Seq<char> {
    if rel.len() == 0 {
        Seq::empty()
    } else {
        " / 📁 "@ + escape_view(rel)
    }
}

/// The synthetic parent-directory card, shown whenever the listing is
/// not of the root itself; its link drops the last path segment.
pub open spec fn styled_parent_view(rel: Seq<char>) -> Seq<char> {
    if rel.len() == 0 {
        Seq::empty()
    } else {
        "<a href=\"/"@ + escape_view(parent_view(rel))
            + "\" class=\"file-item folder\"><span class=\"file-icon\">⬆️</span><div class=\"file-name\">..</div><div class=\"file-type\">directory</div></a>"@
    }
}

/// Everything of the styled document before the entry cards: page
/// head, header with the displayed path, breadcrumb, grid opening,
/// and the parent card.
pub open spec fn styled_head_view(root: Seq<char>, rel: Seq<char>) -> Seq<char> {
    "<!DOCTYPE html><html><head><meta charset=\"utf-8\"><meta name=\"viewport\" content=\"width=device-width, initial-scale=1.0\"><title>📁 File Server - "@
        + escape_view("/"@ + rel) + "</title><style>"@ + STYLED_CSS@
        + "</style></head><body><div class=\"container\"><div class=\"header\"><h1>📁 File Server</h1><div class=\"path\">"@
        + escape_view(crate::pathres::join_view(root, rel))
        + "</div></div><div class=\"content\"><div class=\"breadcrumb\">🏠 <a href=\"/\">Home</a>"@
        + breadcrumb_view(rel) + "</div><div class=\"file-grid\">"@ + styled_parent_view(rel)
}

/// One card of the styled grid: a folder card, a thumbnail card for an
/// image file, or a file card with a family glyph.
pub open spec fn styled_item_view(rel: Seq<char>, e: EntryV) -> Seq<char> {
    let link = escape_view(link_view(rel, e.name));
    let name = escape_view(e.name);
    if e.dir {
        "<a href=\"/"@ + link
            + "\" class=\"file-item folder\"><span class=\"file-icon\">📁</span><div class=\"file-name\">"@
            + name + "</div><div class=\"file-type\">directory</div></a>"@
    } else if is_image_name(e.name) {
        "<a href=\"/"@ + link + "\" class=\"file-item file image-item\"><img src=\"/"@ + link
            + "\" class=\"image-preview\" alt=\""@ + name
            + "\" loading=\"lazy\" onerror=\"this.style.display='none'; this.nextElementSibling.style.display='block'\"><span class=\"file-icon\" style=\"display:none\">🖼️</span><div class=\"file-name\">"@
            + name + "</div><div class=\"file-type\">image</div></a>"@
    } else {
        "<a href=\"/"@ + link + "\" class=\"file-item file\"><span class=\"file-icon\">"@
            + icon_view(e.name) + "</span><div class=\"file-name\">"@ + name
            + "</div><div class=\"file-type\">file</div></a>"@
    }
}

/// The cards of all entries, in the given order.
pub open spec fn styled_items_view(rel: Seq<char>, es: Seq<EntryV>) -> Seq<char>
    decreases es.len(),
{
    if es.len() == 0 {
        Seq::empty()
    } else {
        styled_items_view(rel, es.drop_last()) + styled_item_view(rel, es.last())
    }
}

/// Everything of the styled document after the entry cards: the
/// empty-state placeholder when there are no entries, then the footer
/// with the directory and file counts.
pub open spec fn styled_tail_view(es: Seq<EntryV>) -> Seq<char> {
    (if es.len() == 0 {
        "<div class=\"empty-state\"><div class=\"icon\">📭</div><h3>This directory is empty</h3><p>No files or folders found</p></div>"@
    } else {
        Seq::empty()
    }) + "</div></div><div class=\"footer\">📊 "@ + dec_view(crate::entries::dir_count(es))
        + " directories, "@ + dec_view((es.len() - crate::entries::dir_count(es)) as nat)
        + " files</div></div></body></html>"@
}

/// The whole styled listing document.
pub open spec fn styled_doc_view(root: Seq<char>, rel: Seq<char>, es: Seq<EntryV>) -> Seq<char> {
    styled_head_view(root, rel) + styled_items_view(rel, es) + styled_tail_view(es)
}

/// One card of the styled grid.
fn styled_item(rel: &str, e: &DirEntry) -> (r: String)
    ensures
        r@ == styled_item_view(rel@, e@),
{
    let link = entry_link(rel, e.name.as_str());
    let elink = html_escape(link.as_str());
    let ename = html_escape(e.name.as_str());
    let mut s = "<a href=\"/".to_owned();
    s.append(elink.as_str());
    if e.is_dir {
        s.append(
            "\" class=\"file-item folder\"><span class=\"file-icon\">📁</span><div class=\"file-name\">",
        );
        s.append(ename.as_str());
        s.append("</div><div class=\"file-type\">directory</div></a>");
    } else if is_image(e.name.as_str()) {
        s.append("\" class=\"file-item file image-item\"><img src=\"/");
        s.append(elink.as_str());
        s.append("\" class=\"image-preview\" alt=\"");
        s.append(ename.as_str());
        s.append(
            "\" loading=\"lazy\" onerror=\"this.style.display='none'; this.nextElementSibling.style.display='block'\"><span class=\"file-icon\" style=\"display:none\">🖼️</span><div class=\"file-name\">",
        );
        s.append(ename.as_str());
        s.append("</div><div class=\"file-type\">image</div></a>");
    } else {
        s.append("\" class=\"file-item file\"><span class=\"file-icon\">");
        s.append(icon_for(e.name.as_str()));
        s.append("</span><div class=\"file-name\">");
        s.append(ename.as_str());
        s.append("</div><div class=\"file-type\">file</div></a>");
    }
    s
}

/// Renders the styled listing: header and breadcrumb, a parent card
/// when the listing is not of the root, one card per entry in the
/// given order, an empty-state placeholder for a directory with no
/// entries, and a footer with the counts.
pub fn render_styled(root: &str, rel: &str, entries: &Vec<DirEntry>) -> (r: String)
    ensures
        r@ == styled_doc_view(root@, rel@, views_of(entries@)),
{
    let mut current = "/".to_owned();
    current.append(rel);
    let ecurrent = html_escape(current.as_str());
    let display = crate::pathres::join_candidate(root, rel);
    let edisplay = html_escape(display.as_str());
    let mut out =
        "<!DOCTYPE html><html><head><meta charset=\"utf-8\"><meta name=\"viewport\" content=\"width=device-width, initial-scale=1.0\"><title>📁 File Server - ".to_owned();
    out.append(ecurrent.as_str());
    out.append("</title><style>");
    out.append(STYLED_CSS);
    out.append(
        "</style></head><body><div class=\"container\"><div class=\"header\"><h1>📁 File Server</h1><div class=\"path\">",
    );
    out.append(edisplay.as_str());
    out.append(
        "</div></div><div class=\"content\"><div class=\"breadcrumb\">🏠 <a href=\"/\">Home</a>",
    );
    if rel.unicode_len() > 0 {
        out.append(" / 📁 ");
        let erel = html_escape(rel);
        out.append(erel.as_str());
    }
    out.append("</div><div class=\"file-grid\">");
    if rel.unicode_len() > 0 {
        out.append("<a href=\"/");
        let parent = parent_of(rel);
        let eparent = html_escape(parent.as_str());
        out.append(eparent.as_str());
        out.append(
            "\" class=\"file-item folder\"><span class=\"file-icon\">⬆️</span><div class=\"file-name\">..</div><div class=\"file-type\">directory</div></a>",
        );
    }
    proof {
        assert(out@ =~= styled_head_view(root@, rel@));
    }
    let n = entries.len();
    let mut i: usize = 0;
    proof {
        assert(views_of(entries@).take(0) =~= Seq::<EntryV>::empty());
        assert(out@ =~= styled_head_view(root@, rel@) + styled_items_view(
            rel@,
            views_of(entries@).take(0),
        ));
    }
    while i < n
        invariant
            0 <= i <= n,
            n == entries@.len(),
            out@ == styled_head_view(root@, rel@) + styled_items_view(
                rel@,
                views_of(entries@).take(i as int),
            ),
        decreases n - i,
    {
        let item = styled_item(rel, &entries[i]);
        out.append(item.as_str());
        proof {
            assert(views_of(entries@).take(i + 1).drop_last() =~= views_of(entries@).take(
                i as int,
            ));
            assert(views_of(entries@).take(i + 1).last() == entries@[i as int]@);
            assert(out@ =~= styled_head_view(root@, rel@) + styled_items_view(
                rel@,
                views_of(entries@).take(i + 1),
            ));
        }
        i = i + 1;
    }
    proof {
        assert(views_of(entries@).take(n as int) =~= views_of(entries@));
    }
    if n == 0 {
        out.append(
            "<div class=\"empty-state\"><div class=\"icon\">📭</div><h3>This directory is empty</h3><p>No files or folders found</p></div>",
        );
    }
    let counts = crate::entries::count_entries(entries);
    out.append("</div></div><div class=\"footer\">📊 ");
    let dirs = usize_to_string(counts.0);
    out.append(dirs.as_str());
    out.append(" directories, ");
    let files = usize_to_string(counts.1);
    out.append(files.as_str());
    out.append(" files</div></div></body></html>");
    proof {
        assert(out@ =~= styled_doc_view(root@, rel@, views_of(entries@)));
    }
    out
}

} // verus!
