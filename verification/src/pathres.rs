//! Request-path resolution: percent-decoding, stripping of leading
//! separators, rejection of parent-directory traversal, and joining
//! onto the configured root.
//!
//! A raw request path is decoded as UTF-8 (falling back to the raw
//! string when the decoded bytes are not valid UTF-8), its leading `/`
//! characters are dropped, and the remainder is joined below the root.
//! A decoded path that still holds a `..` segment is refused outright,
//! so a resolved candidate path can never name anything outside the
//! root subtree.

use vstd::prelude::*;
use vstd::utf8::{decode_utf8, encode_utf8, valid_utf8};

verus! {

/// Whether `b` is an ASCII hexadecimal digit.
pub open spec fn is_hex_digit(b: u8) -> bool {
    (48 <= b && b <= 57) || (65 <= b && b <= 70) || (97 <= b && b <= 102)
}

/// The numeric value of the ASCII hexadecimal digit `b`.
pub open spec fn hex_value(b: u8) -> int {
    if 48 <= b && b <= 57 {
        b - 48
    } else if 65 <= b && b <= 70 {
        b - 55
    } else {
        b - 87
    }
}

/// Percent-decoding over bytes: every `%` followed by two hexadecimal
/// digits becomes the byte those digits denote; everything else passes
/// through unchanged.
pub open spec fn pct_decode_bytes(s: Seq<u8>) -> Seq<u8>
    decreases s.len(),
{
    if s.len() == 0 {
        Seq::empty()
    } else if s[0] == 37 && s.len() >= 3 && is_hex_digit(s[1]) && is_hex_digit(s[2]) {
        seq![(16 * hex_value(s[1]) + hex_value(s[2])) as u8] + pct_decode_bytes(s.skip(3))
    } else {
        seq![s[0]] + pct_decode_bytes(s.skip(1))
    }
}

/// What decoding a raw request path yields: the percent-decoded bytes
/// read as UTF-8 when they are valid UTF-8, the raw path itself when
/// they are not.
pub open spec fn decoded_path_view(raw: Seq<char>) -> Seq<char> {
    let bytes = pct_decode_bytes(encode_utf8(raw));
    if valid_utf8(bytes) {
        decode_utf8(bytes)
    } else {
        raw
    }
}

/// Relies on `percent_encoding::percent_decode_str` and
/// `PercentDecode::decode_utf8`: each `%` followed by two hexadecimal
/// digits decodes to that byte, other bytes pass through, and the
/// result is taken as UTF-8 or, when the bytes are not valid UTF-8,
/// the input stands.
#[verifier::external_body]
fn percent_decode_path(raw: &str) -> (r: String)
    ensures
        r@ == decoded_path_view(raw@),
{
    match percent_encoding::percent_decode_str(raw).decode_utf8() {
        Ok(decoded) => decoded.into_owned(),
        Err(_) => raw.to_string(),
    }
}

proof fn lemma_pct_decode_identity(s: Seq<u8>)
    requires
        forall|i: int| 0 <= i < s.len() ==> s[i] != 37,
    ensures
        pct_decode_bytes(s) == s,
    decreases s.len(),
{
    if s.len() == 0 {
        assert(pct_decode_bytes(s) =~= s);
    } else {
        lemma_pct_decode_identity(s.skip(1));
        assert(pct_decode_bytes(s) =~= seq![s[0]] + s.skip(1));
        assert(seq![s[0]] + s.skip(1) =~= s);
    }
}

proof fn lemma_encode_scalar_no_percent(c: char)
    requires
        c != '%',
    ensures
        forall|i: int|
            0 <= i < vstd::utf8::encode_scalar(c as u32).len()
                ==> #[trigger] vstd::utf8::encode_scalar(c as u32)[i] != 37,
{
    let v = c as u32;
    vstd::utf8::char_u32_cast(c, v);
    assert('%' as u32 == 37);
    assert(v != 37) by {
        if v == 37 {
            vstd::utf8::char_u32_cast('%', 37);
        }
    }
    assert(v <= 0x7F && v != 37 ==> ((v & 0x7F) as u8) != 37) by (bit_vector);
    assert((0xC0u8 | ((v >> 6) & 0x1F) as u8) != 37) by (bit_vector);
    assert((0xE0u8 | ((v >> 12) & 0x0F) as u8) != 37) by (bit_vector);
    assert((0xF0u8 | ((v >> 18) & 0x7) as u8) != 37) by (bit_vector);
    assert((0x80u8 | (v & 0x3F) as u8) != 37) by (bit_vector);
    assert((0x80u8 | ((v >> 6) & 0x3F) as u8) != 37) by (bit_vector);
    assert((0x80u8 | ((v >> 12) & 0x3F) as u8) != 37) by (bit_vector);
}

proof fn lemma_encode_no_percent(raw: Seq<char>)
    requires
        forall|i: int| 0 <= i < raw.len() ==> raw[i] != '%',
    ensures
        forall|i: int|
            0 <= i < encode_utf8(raw).len() ==> #[trigger] encode_utf8(raw)[i] != 37,
    decreases raw.len(),
{
    if raw.len() > 0 {
        lemma_encode_scalar_no_percent(raw[0]);
        lemma_encode_no_percent(raw.drop_first());
        let head = vstd::utf8::encode_scalar(raw[0] as u32);
        assert forall|i: int| 0 <= i < encode_utf8(raw).len() implies #[trigger] encode_utf8(
            raw,
        )[i] != 37 by {
            if i < head.len() {
                assert(encode_utf8(raw)[i] == head[i]);
            } else {
                assert(encode_utf8(raw)[i] == encode_utf8(raw.drop_first())[i - head.len()]);
            }
        }
    }
}

/// A raw path without percent signs decodes to itself: nothing is
/// rewritten, and the UTF-8 round trip gives the path back unchanged.
pub proof fn lemma_plain_path_decodes_to_itself(raw: Seq<char>)
    requires
        forall|i: int| 0 <= i < raw.len() ==> raw[i] != '%',
    ensures
        decoded_path_view(raw) == raw,
{
    lemma_encode_no_percent(raw);
    lemma_pct_decode_identity(encode_utf8(raw));
    vstd::utf8::encode_utf8_valid_utf8(raw);
    vstd::utf8::encode_utf8_decode_utf8(raw);
}

/// `s` without its leading `/` characters.
pub open spec fn strip_leading_slashes(s: Seq<char>) -> Seq<char>
    decreases s.len(),
{
    if s.len() > 0 && s[0] == '/' {
        strip_leading_slashes(s.skip(1))
    } else {
        s
    }
}

/// Drops every leading `/` of `s`.
fn strip_leading(s: &str) -> (r: String)
    ensures
        r@ == strip_leading_slashes(s@),
{
    let len = s.unicode_len();
    let mut i: usize = 0;
    proof {
        assert(s@.skip(0) =~= s@);
    }
    while i < len && s.get_char(i) == '/'
        invariant
            0 <= i <= len,
            len == s@.len(),
            strip_leading_slashes(s@) == strip_leading_slashes(s@.skip(i as int)),
            forall|j: int| 0 <= j < i ==> s@[j] == '/',
        decreases len - i,
    {
        proof {
            assert(s@.skip(i as int).skip(1) =~= s@.skip(i + 1));
        }
        i = i + 1;
    }
    let rest = s.substring_char(i, len);
    proof {
        assert(s@.skip(i as int) =~= s@.subrange(i as int, len as int));
    }
    rest.to_owned()
}

/// Whether `c` bounds a path segment: the request's `/`, or `\`,
/// which Windows filesystems treat as a separator as well.
pub open spec fn is_separator(c: char) -> bool {
    c == '/' || c == '\\'
}

/// Tests whether `c` bounds a path segment.
fn separator(c: char) -> (r: bool)
    ensures
        r == is_separator(c),
{
    c == '/' || c == '\\'
}

/// Whether a `..` segment starts at position `i` of `s`: two dots
/// bounded on each side by the start of the string, its end, or a
/// separator (either `/` or `\`, so an encoded `..\` cannot slip
/// past on a filesystem that separates on backslash).
pub open spec fn is_dotdot_at(s: Seq<char>, i: int) -> bool {
    &&& 0 <= i
    &&& i + 2 <= s.len()
    &&& s[i] == '.'
    &&& s[i + 1] == '.'
    &&& (i == 0 || is_separator(s[i - 1]))
    &&& (i + 2 == s.len() || is_separator(s[i + 2]))
}

/// Whether any separator-bounded segment of the path `s` is exactly
/// `..`.
pub open spec fn has_dotdot_segment(s: Seq<char>) -> bool {
    exists|i: int| is_dotdot_at(s, i)
}

/// Scans a relative path for a `..` segment.
fn has_traversal(s: &str) -> (r: bool)
    ensures
        r == has_dotdot_segment(s@),
{
    let len = s.unicode_len();
    let mut i: usize = 0;
    while i < len
        invariant
            0 <= i <= len,
            len == s@.len(),
            forall|j: int| j < i ==> !is_dotdot_at(s@, j),
        decreases len - i,
    {
        if len - i >= 2 && s.get_char(i) == '.' && s.get_char(i + 1) == '.' {
            let left_bounded = i == 0 || separator(s.get_char(i - 1));
            let right_bounded = len - i == 2 || separator(s.get_char(i + 2));
            if left_bounded && right_bounded {
                proof {
                    assert(is_dotdot_at(s@, i as int));
                }
                return true;
            }
        }
        proof {
            assert(!is_dotdot_at(s@, i as int));
        }
        i = i + 1;
    }
    proof {
        assert(forall|j: int| is_dotdot_at(s@, j) ==> 0 <= j < s@.len());
    }
    false
}

/// The candidate filesystem path for relative path `rel` below `root`:
/// `root` itself when `rel` is empty, else `root`, a separator, `rel`.
pub open spec fn join_view(root: Seq<char>, rel: Seq<char>) -> Seq<char> {
    if rel.len() == 0 {
        root
    } else {
        root + "/"@ + rel
    }
}

/// A per-request resolved path: the decoded relative path (empty for
/// the root itself) and the candidate filesystem path it denotes.
pub struct ResolvedPath {
    /// The decoded request path, leading separators stripped.
    pub rel: String,
    /// `root` joined with `rel`.
    pub full: String,
}

/// Decodes `raw` and resolves it below `root`. Returns `None` exactly
/// when the decoded path still holds a `..` segment; such a request
/// must not reach the filesystem at all.
pub fn resolve(root: &str, raw: &str) -> (r: Option<ResolvedPath>)
    ensures
        ({
            let rel = strip_leading_slashes(decoded_path_view(raw@));
            &&& (r is Some <==> !has_dotdot_segment(rel))
            &&& (r matches Some(p) ==> p.rel@ == rel && p.full@ == join_view(root@, rel))
        }),
{
    let decoded = percent_decode_path(raw);
    let rel = strip_leading(decoded.as_str());
    if has_traversal(rel.as_str()) {
        None
    } else {
        let full = join_candidate(root, rel.as_str());
        Some(ResolvedPath { rel, full })
    }
}

/// Joins `rel` below `root` as [`join_view`] says.
pub(crate) fn join_candidate(root: &str, rel: &str) -> (r: String)
    ensures
        r@ == join_view(root@, rel@),
{
    if rel.unicode_len() == 0 {
        root.to_owned()
    } else {
        let mut s = root.to_owned();
        s.append("/");
        s.append(rel);
        s
    }
}

/// A candidate path stays within the root subtree: it either is the
/// root itself or extends it below a separator, and no
/// parent-directory segment survives in the part below the root, so
/// following its segments can never name anything outside the root.
pub proof fn lemma_join_stays_within_root(root: Seq<char>, rel: Seq<char>)
    requires
        !has_dotdot_segment(rel),
    ensures
        ({
            let full = join_view(root, rel);
            &&& full.take(root.len() as int) == root
            &&& rel.len() == 0 ==> full == root
            &&& rel.len() > 0 ==> full.len() == root.len() + 1 + rel.len()
                && full[root.len() as int] == '/'
                && full.skip(root.len() as int + 1) == rel
                && !has_dotdot_segment(full.skip(root.len() as int + 1))
        }),
{
    let full = join_view(root, rel);
    if rel.len() == 0 {
        assert(full.take(root.len() as int) =~= root);
    } else {
        reveal_strlit("/");
        assert(full.take(root.len() as int) =~= root);
        assert(full.skip(root.len() as int + 1) =~= rel);
    }
}

} // verus!
