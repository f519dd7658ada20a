//! Routing for the server that hosts the built front end: a request path names
//! a bundled asset, or falls back to the single-page entry point.

use vstd::prelude::*;
use crate::text::{chars_of, push_char};

verus! {

/// The media type that `mime_guess` registers for the extension of `path`.
pub uninterp spec fn guessed_mime(path: Seq<char>) -> Seq<char>;

/// Relies on `mime_guess::from_path(..).first_or_octet_stream()`: the media type
/// for the path's extension from the crate's fixed table, a function of the
/// path alone.
#[verifier::external_body]
fn guess_mime(path: &str) -> (r: String)
    ensures
        r@ == guessed_mime(path@),
{
    mime_guess::from_path(path).first_or_octet_stream().to_string()
}

/// `s` without its leading `/` characters.
pub open spec fn trim_slashes(s: Seq<char>) -> Seq<char>
    decreases s.len(),
{
    if s.len() > 0 && s[0] == '/' {
        trim_slashes(s.drop_first())
    } else {
        s
    }
}

/// What the server sends for a request.
#[derive(Debug, PartialEq, Eq)]
pub enum Reply {
    /// The asset stored under the request's key, with its media type.
    Asset { content_type: String },
    /// The single-page entry point, `index.html`.
    Index,
    /// Nothing: the path names a file that does not exist.
    NotFound,
}

/// The asset key of a request path: the path without its leading slashes.
pub fn asset_key(uri_path: &str) -> (r: String)
    ensures
        r@ == trim_slashes(uri_path@),
{
    let v = chars_of(uri_path);
    let mut i: usize = 0;
    assert(v@.subrange(0, v@.len() as int) =~= v@);
    while i < v.len() && v[i] == '/'
        invariant
            i <= v@.len(),
            v@ == uri_path@,
            trim_slashes(v@) == trim_slashes(v@.subrange(i as int, v@.len() as int)),
        decreases v.len() - i,
    {
        assert(v@.subrange(i as int, v@.len() as int).drop_first() =~= v@.subrange(
            i + 1,
            v@.len() as int,
        ));
        i = i + 1;
    }
    proof {
        let rest = v@.subrange(i as int, v@.len() as int);
        if rest.len() > 0 {
            assert(rest[0] == v@[i as int]);
        }
    }
    let mut out = String::new();
    let mut k: usize = i;
    while k < v.len()
        invariant
            i <= k <= v@.len(),
            v@ == uri_path@,
            trim_slashes(v@) == v@.subrange(i as int, v@.len() as int),
            out@ == v@.subrange(i as int, k as int),
        decreases v.len() - k,
    {
        push_char(&mut out, v[k]);
        assert(v@.subrange(i as int, k + 1) =~= v@.subrange(i as int, k as int).push(v@[k as int]));
        k = k + 1;
    }
    out
}

/// The last segment of `key` (what follows its last `/`) has a file
/// extension: a `.` after the segment's first character.
pub open spec fn has_extension(key: Seq<char>) -> bool {
    exists|i: int|
        0 < i < key.len() && #[trigger] key[i] == '.' && key[i - 1] != '/' && (forall|j: int|
            i < j < key.len() ==> key[j] != '/')
}

/// The reply for asset key `key`, where `found` tells whether an asset is
/// stored under it: the asset when found; else the entry point, unless the
/// key's last segment has a file extension, which is not found. An empty key
/// is the entry point.
pub fn respond(key: &str, found: bool) -> (r: Reply)
    ensures
        key@.len() > 0 && found ==> (r matches Reply::Asset { content_type } && content_type@
            == guessed_mime(key@)),
        key@.len() == 0 ==> r == Reply::Index,
        key@.len() > 0 && !found ==> (r == Reply::NotFound <==> has_extension(key@)),
        key@.len() > 0 && !found ==> (r == Reply::Index <==> !has_extension(key@)),
{
    let v = chars_of(key);
    let n = v.len();
    if n == 0 {
        return Reply::Index;
    }
    if found {
        return Reply::Asset { content_type: guess_mime(key) };
    }
    // Find where the last segment starts.
    let mut start: usize = 0;
    let mut i: usize = 0;
    while i < n
        invariant
            n == v@.len(),
            start <= i <= n,
            start == 0 || v@[start - 1] == '/',
            forall|j: int| start <= j < i ==> v@[j] != '/',
        decreases n - i,
    {
        if v[i] == '/' {
            start = i + 1;
        }
        i = i + 1;
    }
    let mut k: usize = start;
    while k < n
        invariant
            n == v@.len(),
            v@ == key@,
            !found,
            start <= k <= n,
            start == 0 || v@[start - 1] == '/',
            forall|j: int| start <= j < n ==> v@[j] != '/',
            forall|j: int| start < j < k ==> v@[j] != '.',
        decreases n - k,
    {
        if k > start && v[k] == '.' {
            assert(0 < k < key@.len() && key@[k as int] == '.' && key@[k - 1] != '/' && (forall|
                j: int,
            |
                k < j < key@.len() ==> key@[j] != '/'));
            return Reply::NotFound;
        }
        k = k + 1;
    }
    assert(!has_extension(key@)) by {
        assert forall|i: int|
            0 < i < key@.len() && #[trigger] key@[i] == '.' && key@[i - 1] != '/' implies !(
            forall|j: int| i < j < key@.len() ==> key@[j] != '/') by {
            if i < start {
                assert(key@[start - 1] == '/');
                if i == start - 1 {
                    assert(key@[i] == '/');
                }
            } else if i == start {
                assert(start > 0);
                assert(key@[i - 1] == '/');
            }
        }
    }
    Reply::Index
}

} // verus!
