//! Serving the bundled single-page front end: which file a request names, and
//! what is answered.
use vstd::prelude::*;

use crate::text::{chars_of, owned};

verus! {

/// `path` without its leading slashes.
pub open spec fn strip_leading_slashes(path: Seq<char>) -> Seq<char>
    decreases path.len(),
{
    if path.len() > 0 && path[0] == '/' {
        strip_leading_slashes(path.drop_first())
    } else {
        path
    }
}

/// The bundled file that a request path names: the path without its leading
/// slashes, or `index.html` when nothing is left.
pub open spec fn asset_name(path: Seq<char>) -> Seq<char> {
    if strip_leading_slashes(path).len() == 0 {
        "index.html"@
    } else {
        strip_leading_slashes(path)
    }
}

/// What `mime_guess` takes the media type of a file name to be.
pub uninterp spec fn guessed_mime(path: Seq<char>) -> Seq<char>;

/// Calls `mime_guess::from_path(path).first_or_octet_stream()` and writes the
/// media type out. The contract names the result (a function of the path alone,
/// looked up by its extension in a static table) and states, as the crate's
/// documentation does, that a path without any `.` has no extension and so gets
/// `application/octet-stream`.
#[verifier::external_body]
fn media_type(path: &str) -> (t: String)
    ensures
        t@ == guessed_mime(path@),
        !path@.contains('.') ==> t@ == "application/octet-stream"@,
{
    mime_guess::from_path(path).first_or_octet_stream().as_ref().to_string()
}

/// The name of the bundled file that the request path `uri_path` asks for.
pub fn asset_path(uri_path: &str) -> (name: String)
    ensures
        name@ == asset_name(uri_path@),
{
    let chars = chars_of(uri_path);
    let n = chars.len();
    let mut k: usize = 0;
    assert(chars@.skip(0) =~= chars@);
    while k < n && chars[k] == '/'
        invariant
            k <= n,
            n == chars@.len(),
            chars@ == uri_path@,
            strip_leading_slashes(uri_path@) == strip_leading_slashes(chars@.skip(k as int)),
        decreases n - k,
    {
        assert(chars@.skip(k as int).drop_first() =~= chars@.skip(k + 1));
        k = k + 1;
    }
    assert(strip_leading_slashes(chars@.skip(k as int)) == chars@.skip(k as int));
    if k == n {
        return owned("index.html");
    }
    let mut name = String::new();
    let mut i: usize = k;
    while i < n
        invariant
            k <= i <= n,
            n == chars@.len(),
            name@ == chars@.subrange(k as int, i as int),
        decreases n - i,
    {
        name.push(chars[i]);
        assert(name@ =~= chars@.subrange(k as int, i + 1));
        i = i + 1;
    }
    assert(chars@.subrange(k as int, n as int) =~= chars@.skip(k as int));
    name
}

/// The answer to a request for a bundled file.
#[derive(Debug, Clone)]
pub enum StaticReply {
    /// The file itself, with its media type.
    Asset { content_type: String },
    /// `index.html`, so that the single-page app can route the path itself.
    Index { content_type: String },
    /// The bundle holds neither the file nor `index.html`.
    NotFound,
    /// The bundle is empty: a page that says how to build the front end.
    NotBundled { content_type: String, page: String },
}

/// The media type of the `index.html` that stands in for an unknown path, and
/// of the page shown when nothing is bundled.
pub open spec fn html_type() -> Seq<char> {
    "text/html; charset=utf-8"@
}

/// The page shown when no front end is bundled.
pub open spec fn not_bundled_page() -> Seq<char> {
    "<html><body><p>Frontend not bundled. Run <code>./package.sh</code> to build.</p></body></html>"@
}

/// The answer for the bundled file `name`, given whether it and `index.html`
/// are in the bundle, and whether anything is bundled at all.
pub fn static_reply(name: &str, found: bool, index_found: bool, bundled: bool) -> (reply:
    StaticReply)
    ensures
        found ==> (reply matches StaticReply::Asset { content_type } && content_type@
            == guessed_mime(name@)),
        !found && index_found ==> (reply matches StaticReply::Index { content_type }
            && content_type@ == html_type()),
        !found && !index_found && bundled ==> reply is NotFound,
        !found && !index_found && !bundled ==> (reply matches StaticReply::NotBundled {
            content_type,
            page,
        } && content_type@ == html_type() && page@ == not_bundled_page()),
{
    if found {
        StaticReply::Asset { content_type: media_type(name) }
    } else if index_found {
        StaticReply::Index { content_type: owned("text/html; charset=utf-8") }
    } else if bundled {
        StaticReply::NotFound
    } else {
        StaticReply::NotBundled {
            content_type: owned("text/html; charset=utf-8"),
            page: owned(
                "<html><body><p>Frontend not bundled. Run <code>./package.sh</code> to build.</p></body></html>",
            ),
        }
    }
}

/// `n` slashes.
pub open spec fn slashes(n: nat) -> Seq<char> {
    Seq::new(n, |i: int| '/')
}

proof fn lemma_strip_slashes_prefix(n: nat, p: Seq<char>)
    requires
        p.len() == 0 || p[0] != '/',
    ensures
        strip_leading_slashes(slashes(n) + p) == p,
    decreases n,
{
    if n == 0 {
        assert(slashes(n) + p =~= p);
    } else {
        assert((slashes(n) + p).drop_first() =~= slashes((n - 1) as nat) + p);
        lemma_strip_slashes_prefix((n - 1) as nat, p);
    }
}

/// Law: a request path is the file name it asks for behind any number of
/// slashes, character for character; only leading slashes alone ask for
/// `index.html`.
pub proof fn lemma_asset_name_of_path(n: nat, p: Seq<char>)
    requires
        p.len() == 0 || p[0] != '/',
    ensures
        p.len() > 0 ==> asset_name(slashes(n) + p) == p,
        p.len() == 0 ==> asset_name(slashes(n) + p) == "index.html"@,
{
    lemma_strip_slashes_prefix(n, p);
}

/// Law: the file name never starts with a slash, and is never empty.
pub proof fn lemma_asset_name_clean(path: Seq<char>)
    ensures
        asset_name(path).len() > 0,
        asset_name(path)[0] != '/',
    decreases path.len(),
{
    reveal_strlit("index.html");
    lemma_strip_leading_slashes(path);
}

proof fn lemma_strip_leading_slashes(path: Seq<char>)
    ensures
        strip_leading_slashes(path).len() > 0 ==> strip_leading_slashes(path)[0] != '/',
        strip_leading_slashes(path).len() <= path.len(),
    decreases path.len(),
{
    if path.len() > 0 && path[0] == '/' {
        lemma_strip_leading_slashes(path.drop_first());
    }
}

} // verus!
