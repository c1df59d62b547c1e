//! The frontend assets served by the dashboard.
use vstd::prelude::*;
use vstd::string::*;
use crate::text::{chars_of, str_equals};

verus! {

/// The frontend files, by path relative to the frontend's root.
pub struct Assets {
    files: Vec<(String, Vec<u8>)>,
}

/// `i` is the first file stored under `path`.
pub open spec fn is_first_file(files: Seq<(String, Vec<u8>)>, path: Seq<char>, i: int) -> bool {
    &&& 0 <= i < files.len()
    &&& files[i].0@ == path
    &&& forall|j: int| 0 <= j < i ==> files[j].0@ != path
}

/// The path that a request path names: the root and the empty path name
/// `index.html`; otherwise leading slashes are dropped.
pub open spec fn asset_path(path: Seq<char>) -> Seq<char> {
    if path.len() == 0 || path == "/"@ {
        "index.html"@
    } else {
        trim_leading_slashes(path)
    }
}

/// `s` without its leading slashes.
pub open spec fn trim_leading_slashes(s: Seq<char>) -> Seq<char>
    decreases s.len(),
{
    if s.len() > 0 && s[0] == '/' {
        trim_leading_slashes(s.drop_first())
    } else {
        s
    }
}

/// The MIME type guessed from the extension of `path`, if one is known.
pub uninterp spec fn guessed_mime(path: Seq<char>) -> Option<Seq<char>>;

/// `mime_guess::from_path(path).first_raw()`: the first MIME type known
/// for the path's extension, which depends on the path alone.
#[verifier::external_body]
fn guess_mime(path: &str) -> (r: Option<String>)
    ensures
        match r {
            Some(m) => guessed_mime(path@) == Some(m@),
            None => guessed_mime(path@) is None,
        },
{
    match mime_guess::from_path(path).first_raw() {
        Some(m) => Some(m.to_string()),
        None => None,
    }
}

/// The MIME type served for `path`: the guessed one, else
/// `application/octet-stream`.
pub open spec fn served_mime(path: Seq<char>) -> Seq<char> {
    match guessed_mime(path) {
        Some(m) => m,
        None => "application/octet-stream"@,
    }
}

impl Assets {
    /// The stored files, in the order they were added.
    pub closed spec fn files(self) -> Seq<(String, Vec<u8>)> {
        self.files@
    }

    /// The contents stored under `path` (the first file added under it).
    pub open spec fn lookup(self, path: Seq<char>) -> Option<Seq<u8>> {
        if exists|i: int| is_first_file(self.files(), path, i) {
            Some(self.files()[choose|i: int| is_first_file(self.files(), path, i)].1@)
        } else {
            None
        }
    }

    /// No files.
    pub fn new() -> (r: Assets)
        ensures
            forall|p: Seq<char>| #[trigger] r.lookup(p) is None,
    {
        let r = Assets { files: Vec::new() };
        r
    }

    /// Adds a file; a path that is already present keeps its first contents.
    pub fn insert(&mut self, path: String, data: Vec<u8>)
        ensures
            forall|p: Seq<char>| p != path@ ==> #[trigger] final(self).lookup(p) == old(self).lookup(p),
            old(self).lookup(path@) is None ==> final(self).lookup(path@) == Some(data@),
            old(self).lookup(path@) is Some ==> final(self).lookup(path@) == old(self).lookup(path@),
    {
        let ghost before = self.files@;
        let ghost pv = path@;
        let ghost dv = data@;
        self.files.push((path, data));
        proof {
            let after = self.files@;
            assert(self.files() == after);
            assert(old(self).files() == before);
            assert forall|p: Seq<char>| p != pv implies #[trigger] self.lookup(p) == old(self).lookup(p) by {
                if exists|i: int| is_first_file(before, p, i) {
                    let i = choose|i: int| is_first_file(before, p, i);
                    lemma_first_file_unique(before, p, i);
                    assert(is_first_file(after, p, i));
                    lemma_first_file_unique(after, p, i);
                } else {
                    assert(!exists|i: int| is_first_file(after, p, i)) by {
                        if exists|i: int| is_first_file(after, p, i) {
                            let i = choose|i: int| is_first_file(after, p, i);
                            if i < before.len() {
                                assert(after[i] == before[i]);
                                assert forall|j: int| 0 <= j < i implies before[j].0@ != p by {
                                    assert(after[j] == before[j]);
                                }
                                assert(is_first_file(before, p, i));
                            } else {
                                assert(after[i].0@ == pv);
                            }
                        }
                    }
                }
            }
            if exists|i: int| is_first_file(before, pv, i) {
                let i = choose|i: int| is_first_file(before, pv, i);
                lemma_first_file_unique(before, pv, i);
                assert(is_first_file(after, pv, i));
                lemma_first_file_unique(after, pv, i);
            } else {
                assert forall|j: int| 0 <= j < before.len() implies before[j].0@ != pv by {
                    if before[j].0@ == pv {
                        lemma_some_first_file(before, pv, j);
                    }
                }
                assert(is_first_file(after, pv, before.len() as int));
                lemma_first_file_unique(after, pv, before.len() as int);
            }
        }
    }

    /// The contents stored under `path`.
    pub fn get(&self, path: &str) -> (r: Option<&Vec<u8>>)
        ensures
            match r {
                Some(d) => self.lookup(path@) == Some(d@),
                None => self.lookup(path@) is None,
            },
    {
        let mut i: usize = 0;
        while i < self.files.len()
            invariant
                i <= self.files@.len(),
                forall|j: int| 0 <= j < i ==> self.files@[j].0@ != path@,
            decreases self.files@.len() - i,
        {
            if str_equals(self.files[i].0.as_str(), path) {
                proof {
                    assert(self.files() == self.files@);
                    assert(is_first_file(self.files(), path@, i as int));
                    lemma_first_file_unique(self.files(), path@, i as int);
                }
                return Some(&self.files[i].1);
            }
            i = i + 1;
        }
        None
    }
}

/// The first file with a path is the one a lookup finds.
proof fn lemma_first_file_unique(files: Seq<(String, Vec<u8>)>, path: Seq<char>, i: int)
    requires
        is_first_file(files, path, i),
    ensures
        (choose|k: int| is_first_file(files, path, k)) == i,
{
    let k = choose|k: int| is_first_file(files, path, k);
    assert(k == i) by {
        if k < i {
            assert(files[k].0@ != path);
        } else if i < k {
            assert(files[i].0@ != path);
        }
    }
}

/// If some file has a path, there is a first one.
proof fn lemma_some_first_file(files: Seq<(String, Vec<u8>)>, path: Seq<char>, j: int)
    requires
        0 <= j < files.len(),
        files[j].0@ == path,
    ensures
        exists|i: int| is_first_file(files, path, i),
    decreases j,
{
    if exists|k: int| 0 <= k < j && files[k].0@ == path {
        let k = choose|k: int| 0 <= k < j && files[k].0@ == path;
        lemma_some_first_file(files, path, k);
    } else {
        assert(is_first_file(files, path, j));
    }
}

/// `path` without its leading slashes.
pub fn trim_slashes(path: &str) -> (r: &str)
    ensures
        r@ == trim_leading_slashes(path@),
{
    let cs = chars_of(path);
    let mut i: usize = 0;
    proof {
        assert(path@.subrange(0, path@.len() as int) =~= path@);
    }
    while i < cs.len() && cs[i] == '/'
        invariant
            cs@ == path@,
            i <= cs@.len(),
            trim_leading_slashes(path@) == trim_leading_slashes(path@.subrange(i as int, path@.len() as int)),
        decreases cs@.len() - i,
    {
        proof {
            let rest = path@.subrange(i as int, path@.len() as int);
            assert(rest.drop_first() =~= path@.subrange(i + 1, path@.len() as int));
        }
        i = i + 1;
    }
    proof {
        let rest = path@.subrange(i as int, path@.len() as int);
        if i < cs@.len() {
            assert(rest[0] == path@[i as int]);
        }
    }
    path.substring_char(i, cs.len())
}

/// The file a request path names, with its MIME type.
pub fn get_asset(assets: &Assets, path: &str) -> (r: Option<(Vec<u8>, String)>)
    ensures
        match assets.lookup(asset_path(path@)) {
            Some(data) => r matches Some(res) && res.0@ == data && res.1@ == served_mime(asset_path(path@)),
            None => r is None,
        },
{
    let clean_path: &str = if path.is_empty() || str_equals(path, "/") {
        "index.html"
    } else {
        trim_slashes(path)
    };
    match assets.get(clean_path) {
        Some(data) => {
            let mime = match guess_mime(clean_path) {
                Some(m) => m,
                None => String::from_str("application/octet-stream"),
            };
            Some((data.clone(), mime))
        },
        None => None,
    }
}

/// Whether the dashboard page `index.html` is present.
pub fn is_frontend_available(assets: &Assets) -> (r: bool)
    ensures
        r == assets.lookup("index.html"@) is Some,
{
    assets.get("index.html").is_some()
}

/// Dropping leading slashes leaves a tail of the path that does not start
/// with a slash, and only slashes were dropped.
pub proof fn lemma_trim_leading_slashes(s: Seq<char>)
    ensures
        trim_leading_slashes(s).len() <= s.len(),
        trim_leading_slashes(s) == s.subrange(s.len() - trim_leading_slashes(s).len(), s.len() as int),
        forall|j: int| 0 <= j < s.len() - trim_leading_slashes(s).len() ==> s[j] == '/',
        trim_leading_slashes(s).len() > 0 ==> trim_leading_slashes(s)[0] != '/',
    decreases s.len(),
{
    if s.len() > 0 && s[0] == '/' {
        lemma_trim_leading_slashes(s.drop_first());
        let t = trim_leading_slashes(s.drop_first());
        assert(s.drop_first().subrange(s.drop_first().len() - t.len(), s.drop_first().len() as int) =~= s.subrange(
            s.len() - t.len(),
            s.len() as int,
        ));
        assert forall|j: int| 0 <= j < s.len() - t.len() implies s[j] == '/' by {
            if j > 0 {
                assert(s[j] == s.drop_first()[j - 1]);
            }
        }
    } else {
        assert(s.subrange(0, s.len() as int) =~= s);
    }
}

/// The root and the empty path name `index.html`; any other request path
/// names itself without its leading slashes.  The MIME type served is the
/// one guessed from the file's name, or `application/octet-stream`.
pub proof fn lemma_asset_path(path: Seq<char>)
    ensures
        (path.len() == 0 || path == "/"@) ==> asset_path(path) == "index.html"@,
        !(path.len() == 0 || path == "/"@) ==> asset_path(path) == trim_leading_slashes(path),
        asset_path(path).len() > 0 && !(path.len() == 0 || path == "/"@) ==> asset_path(path)[0] != '/',
        match guessed_mime(asset_path(path)) {
            Some(m) => served_mime(asset_path(path)) == m,
            None => served_mime(asset_path(path)) == "application/octet-stream"@,
        },
{
    lemma_trim_leading_slashes(path);
}

} // verus!
