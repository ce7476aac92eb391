//! Access-log lines.
//!
//! One line is logged per request, before the request is classified.
//! The line is `[timestamp] METHOD path` with a trailing newline; as
//! long as the timestamp and the request text hold no newline of
//! their own, the line is a single well-formed record, so lines
//! written whole stay intact in the log.

use vstd::prelude::*;

verus! {

/// The request text of a log line: the method, a space, the raw path.
pub open spec fn request_info_view(method: Seq<char>, path: Seq<char>) -> Seq<char> {
    method + " "@ + path
}

/// Formats the request part of a log line.
pub fn format_request_info(method: &str, path: &str) -> (r: String)
    ensures
        r@ == request_info_view(method@, path@),
{
    let mut s = method.to_owned();
    s.append(" ");
    s.append(path);
    s
}

/// A full log line: the timestamp in brackets, the request text, a
/// terminating newline.
pub open spec fn log_line_view(timestamp: Seq<char>, info: Seq<char>) -> Seq<char> {
    "["@ + timestamp + "] "@ + info + "\n"@
}

/// Formats one log line. When neither the timestamp nor the request
/// text holds a newline, the newline at the end is the only one: the
/// line is exactly one record.
pub fn format_log_line(timestamp: &str, info: &str) -> (r: String)
    ensures
        r@ == log_line_view(timestamp@, info@),
        !timestamp@.contains('\n') && !info@.contains('\n') ==> r@.len() > 0 && r@.last() == '\n'
            && forall|i: int| 0 <= i < r@.len() - 1 ==> r@[i] != '\n',
{
    let mut s = "[".to_owned();
    s.append(timestamp);
    s.append("] ");
    s.append(info);
    s.append("\n");
    proof {
        reveal_strlit("[");
        reveal_strlit("] ");
        reveal_strlit("\n");
        let ts = timestamp@;
        let inf = info@;
        if !ts.contains('\n') && !inf.contains('\n') {
            assert forall|i: int| 0 <= i < s@.len() - 1 implies s@[i] != '\n' by {
                if 1 <= i < 1 + ts.len() {
                    assert(s@[i] == ts[i - 1]);
                    assert(!ts.contains('\n'));
                    assert(ts[i - 1] != '\n');
                } else if 3 + ts.len() <= i < 3 + ts.len() + inf.len() {
                    assert(s@[i] == inf[i - 3 - ts.len()]);
                    assert(!inf.contains('\n'));
                    assert(inf[i - 3 - ts.len()] != '\n');
                }
            }
        }
    }
    s
}

} // verus!
