//! Content types for streamed files.
//!
//! The extension of the candidate path's file name is extracted here
//! (the part after the last `.`, provided that dot is not the name's
//! first character), and the extension-to-type table of the
//! `mime_guess` crate turns it into a content type, defaulting to the
//! octet-stream type when the table has no entry.

use vstd::prelude::*;

verus! {

/// The file name of path `s`: the characters after its last `/`, the
/// whole of `s` when it has none.
pub open spec fn file_name_view(s: Seq<char>) -> Seq<char>
    decreases s.len(),
{
    if s.len() == 0 {
        s
    } else if s.last() == '/' {
        Seq::empty()
    } else {
        file_name_view(s.drop_last()).push(s.last())
    }
}

/// Whether the name has a `.` anywhere after its first character.
pub open spec fn has_interior_dot(n: Seq<char>) -> bool {
    exists|i: int| 0 < i < n.len() && n[i] == '.'
}

/// The characters after the last `.` of `n` (all of `n` when it has
/// no dot).
pub open spec fn after_last_dot(n: Seq<char>) -> Seq<char>
    decreases n.len(),
{
    if n.len() == 0 {
        n
    } else if n.last() == '.' {
        Seq::empty()
    } else {
        after_last_dot(n.drop_last()).push(n.last())
    }
}

/// The extension of file name `n`: what follows the last `.`, when a
/// dot stands after the first character; empty otherwise. A name with
/// no extension and a name with an empty one get the same content
/// type, so the two are not distinguished.
pub open spec fn ext_view(n: Seq<char>) -> Seq<char> {
    if has_interior_dot(n) {
        after_last_dot(n)
    } else {
        Seq::empty()
    }
}

/// The extension of the file name of path `s`.
pub open spec fn ext_of_path(s: Seq<char>) -> Seq<char> {
    ext_view(file_name_view(s))
}

proof fn lemma_file_name_suffix(s: Seq<char>, j: int)
    requires
        0 <= j <= s.len(),
        forall|k: int| j <= k < s.len() ==> s[k] != '/',
        j == 0 || s[j - 1] == '/',
    ensures
        file_name_view(s) == s.skip(j),
    decreases s.len(),
{
    if s.len() == j {
        if j == 0 {
            assert(s.skip(0) =~= s);
        } else {
            assert(file_name_view(s) =~= s.skip(j));
        }
    } else {
        assert(s.last() != '/');
        lemma_file_name_suffix(s.drop_last(), j);
        assert(s.drop_last().skip(j) =~= s.skip(j).drop_last());
        assert(s.skip(j).len() > 0);
        assert(file_name_view(s) =~= s.skip(j).drop_last().push(s.skip(j).last()));
        assert(s.skip(j).drop_last().push(s.skip(j).last()) =~= s.skip(j));
    }
}

proof fn lemma_after_last_dot_suffix(n: Seq<char>, i: int)
    requires
        0 <= i <= n.len(),
        forall|k: int| i <= k < n.len() ==> n[k] != '.',
        i == 0 || n[i - 1] == '.',
    ensures
        i > 0 ==> after_last_dot(n) == n.skip(i),
        i == 0 ==> !has_interior_dot(n),
    decreases n.len(),
{
    if i == 0 {
    } else if n.len() == i {
        assert(n.last() == '.');
        assert(after_last_dot(n) =~= n.skip(i));
    } else {
        assert(n.last() != '.');
        lemma_after_last_dot_suffix(n.drop_last(), i);
        assert(n.drop_last().skip(i) =~= n.skip(i).drop_last());
        assert(n.skip(i).len() > 0);
        assert(after_last_dot(n) =~= n.skip(i).drop_last().push(n.skip(i).last()));
        assert(n.skip(i).drop_last().push(n.skip(i).last()) =~= n.skip(i));
    }
}

/// Extracts the extension of the file name of `path`, as
/// [`ext_of_path`] says: empty when the name has no usable extension.
pub fn extension_of(path: &str) -> (r: String)
    ensures
        r@ == ext_of_path(path@),
{
    let len = path.unicode_len();
    // start of the file name: just past the last '/'
    let mut j: usize = len;
    while j > 0 && path.get_char(j - 1) != '/'
        invariant
            0 <= j <= len,
            len == path@.len(),
            forall|k: int| j <= k < len ==> path@[k] != '/',
        decreases j,
    {
        j = j - 1;
    }
    proof {
        lemma_file_name_suffix(path@, j as int);
    }
    let ghost name = path@.skip(j as int);
    // just past the last '.' of the file name
    let mut i: usize = len;
    while i > j && path.get_char(i - 1) != '.'
        invariant
            j <= i <= len,
            len == path@.len(),
            forall|k: int| i <= k < len ==> path@[k] != '.',
        decreases i,
    {
        i = i - 1;
    }
    proof {
        assert(name.len() == len - j);
        assert forall|k: int| (i - j) <= k < name.len() implies name[k] != '.' by {
            assert(name[k] == path@[k + j]);
        }
        if i > j {
            assert(name[i - j - 1] == path@[i as int - 1]);
        }
        lemma_after_last_dot_suffix(name, i - j);
    }
    if i > j && i - j > 1 {
        // the dot is interior to the name
        proof {
            assert(name[i - j - 1] == '.');
            assert(has_interior_dot(name));
            assert(path@.subrange(i as int, len as int) =~= name.skip(i - j));
        }
        let ext = path.substring_char(i, len);
        ext.to_owned()
    } else {
        // no dot, or a dot only at the name's first position
        proof {
            if i == j + 1 {
                assert forall|k: int| 0 < k < name.len() implies name[k] != '.' by {
                    assert(name[k] == path@[k + j]);
                }
                assert(!has_interior_dot(name));
            }
            reveal_strlit("");
            assert(""@ =~= Seq::<char>::empty());
        }
        let empty = "";
        empty.to_owned()
    }
}

/// The content type the extension-to-type table assigns to a file
/// extension (the default octet-stream type when the table has no
/// entry). The table is a fixed function of the extension alone.
pub uninterp spec fn mime_of(ext: Seq<char>) -> Seq<char>;

/// Relies on `mime_guess::from_ext` and
/// `MimeGuess::first_or_octet_stream`: the content type is looked up
/// in a static table by extension, and an empty or unknown extension
/// yields `application/octet-stream`.
#[verifier::external_body]
fn content_type_for_ext(ext: &str) -> (r: String)
    ensures
        r@ == mime_of(ext@),
        ext@.len() == 0 ==> r@ == "application/octet-stream"@,
{
    let mime = mime_guess::from_ext(ext).first_or_octet_stream();
    let s: &str = mime.as_ref();
    s.to_string()
}

/// The content type for the file at `path`, guessed from the
/// extension of its name.
pub fn content_type_for_path(path: &str) -> (r: String)
    ensures
        r@ == mime_of(ext_of_path(path@)),
{
    let ext = extension_of(path);
    content_type_for_ext(ext.as_str())
}

} // verus!
