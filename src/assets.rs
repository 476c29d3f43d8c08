//! The embedded asset store: a fixed set of files, looked up by exact path,
//! with a content type inferred from the path's extension.

use vstd::prelude::*;

verus! {

/// The content type that mime_guess gives a path.
pub uninterp spec fn mime_of(path: Seq<char>) -> Seq<char>;

/// Relies on `mime_guess::from_path(..).first_or_octet_stream()`: the first
/// type of mime_guess's fixed extension table, or `application/octet-stream`;
/// it depends on the path alone.
#[verifier::external_body]
fn guess_mime(path: &str) -> (r: String)
    ensures
        r@ == mime_of(path@),
{
    mime_guess::from_path(path).first_or_octet_stream().as_ref().to_string()
}

/// The first bytes stored under `path`, if any.
pub open spec fn find(files: Seq<(Seq<char>, Seq<u8>)>, path: Seq<char>) -> Option<Seq<u8>>
    decreases files.len(),
{
    if files.len() == 0 {
        None
    } else if files[0].0 == path {
        Some(files[0].1)
    } else {
        find(files.drop_first(), path)
    }
}

/// The content type that the root document is served with.
pub open spec fn html_type() -> Seq<char> {
    "text/html; charset=utf-8"@
}

/// The body of a response to a missing asset.
pub open spec fn not_found_body() -> Seq<u8> {
    seq![52u8, 48u8, 52u8]
}

/// An HTTP response as plain values.
#[derive(Debug, PartialEq, Eq)]
pub struct Response {
    pub status: u16,
    pub content_type: Option<String>,
    pub body: Vec<u8>,
}

/// The root document and the static files, fixed at construction.
pub struct AssetStore {
    root: Vec<u8>,
    files: Vec<(String, Vec<u8>)>,
}

impl AssetStore {
    /// The stored files as (path, bytes), in the order given.
    pub closed spec fn files_spec(&self) -> Seq<(Seq<char>, Seq<u8>)> {
        self.files@.map_values(|f: (String, Vec<u8>)| (f.0@, f.1@))
    }

    pub closed spec fn root_spec(&self) -> Seq<u8> {
        self.root@
    }

    /// A store serving `root` at the root and `files` by path; where two
    /// files share a path, the first one is served.
    pub fn new(root: Vec<u8>, files: Vec<(String, Vec<u8>)>) -> (r: AssetStore)
        ensures
            r.root_spec() == root@,
            r.files_spec() == files@.map_values(|f: (String, Vec<u8>)| (f.0@, f.1@)),
    {
        AssetStore { root, files }
    }

    /// The bytes stored under exactly `path`.
    pub fn lookup(&self, path: &str) -> (r: Option<&Vec<u8>>)
        ensures
            r matches Some(d) ==> find(self.files_spec(), path@) == Some(d@),
            r is None ==> find(self.files_spec(), path@) is None,
    {
        let key = path.to_owned();
        let mut i: usize = 0;
        proof {
            assert(self.files_spec().skip(0) =~= self.files_spec());
        }
        while i < self.files.len()
            invariant
                i <= self.files@.len(),
                key@ == path@,
                find(self.files_spec(), path@) == find(self.files_spec().skip(i as int), path@),
            decreases self.files@.len() - i,
        {
            let ghost rest = self.files_spec().skip(i as int);
            assert(rest.drop_first() =~= self.files_spec().skip(i + 1));
            if self.files[i].0 == key {
                return Some(&self.files[i].1);
            }
            i = i + 1;
        }
        None
    }

    /// The root document: status 200, as HTML.
    pub fn root_response(&self) -> (r: Response)
        ensures
            r.status == 200,
            r.content_type matches Some(t) && t@ == html_type(),
            r.body@ == self.root_spec(),
    {
        Response {
            status: 200,
            content_type: Some("text/html; charset=utf-8".to_owned()),
            body: self.root.clone(),
        }
    }
}

/// A request for the static file at the path it holds.
pub struct StaticFile<T>(pub T);

impl StaticFile<String> {
    /// The file with its inferred content type and status 200, or status 404
    /// with the body `404` when no file has exactly this path.
    pub fn respond(&self, store: &AssetStore) -> (r: Response)
        ensures
            find(store.files_spec(), self.0@) matches Some(d) ==> r.status == 200 && r.body@ == d
                && (r.content_type matches Some(t) && t@ == mime_of(self.0@)),
            find(store.files_spec(), self.0@) is None ==> r.status == 404 && r.body@
                == not_found_body() && r.content_type is None,
    {
        match store.lookup(self.0.as_str()) {
            Some(data) => {
                let mime = guess_mime(self.0.as_str());
                Response { status: 200, content_type: Some(mime), body: data.clone() }
            },
            None => {
                let body: Vec<u8> = vec![52u8, 48u8, 52u8];
                proof {
                    assert(body@ =~= not_found_body());
                }
                Response { status: 404, content_type: None, body }
            },
        }
    }
}

} // verus!
