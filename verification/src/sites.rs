//! The site registry: descriptors of the searchable corpus partitions,
//! and the cache-aside store of the full site list.
//!
//! The registry owns the process-scoped site list.  It never touches
//! storage or the network itself: the caller reads the local cache file
//! and performs remote fetches, and hands the outcomes in as plain
//! values.  The registry decides — exactly once per process — whether
//! the local contents can be adopted, whether a remote fetch is
//! required, or whether the cache is corrupt and must be surfaced.

use vstd::prelude::*;
use vstd::utf8::{decode_utf8, encode_utf8, valid_utf8};

use crate::codec::{
    chars_to_string, lemma_cache_round_trip, parse_sites, parse_sites_s, render_sites,
    render_sites_s,
};
use crate::error::{Error, ErrorKind};

verus! {

/// One searchable corpus partition: its stable code and its public URL.
#[derive(Debug)]
pub struct Site {
    pub api_site_parameter: String,
    pub site_url: String,
}

/// The mathematical value of a [`Site`]: both fields as character
/// sequences.
pub struct SiteV {
    pub api_site_parameter: Seq<char>,
    pub site_url: Seq<char>,
}

impl View for Site {
    type V = SiteV;

    open spec fn view(&self) -> SiteV {
        SiteV { api_site_parameter: self.api_site_parameter@, site_url: self.site_url@ }
    }
}

impl DeepView for Site {
    type V = SiteV;

    open spec fn deep_view(&self) -> SiteV {
        self.view()
    }
}

impl Clone for Site {
    fn clone(&self) -> (r: Site)
        ensures
            r == *self,
    {
        Site {
            api_site_parameter: self.api_site_parameter.clone(),
            site_url: self.site_url.clone(),
        }
    }
}

/// The page size used when fetching the full site list: large enough
/// to return the whole list in one page.
pub open spec fn se_sites_pagesize() -> int {
    10000
}

/// The parameter list of one request for the full site list: the whole
/// list in one page.
pub fn site_list_params() -> (r: Vec<(String, String)>)
    ensures
        r@.len() == 2,
        r@[0].0@ == "pagesize"@ && r@[0].1@ == crate::search::dec_str(se_sites_pagesize()),
        r@[1].0@ == "page"@ && r@[1].1@ == "1"@,
{
    let mut r: Vec<(String, String)> = Vec::new();
    r.push((String::from_str("pagesize"), crate::search::u16_string(10000)));
    r.push((String::from_str("page"), String::from_str("1")));
    r
}

/// Whether `l` contains a site whose code is `code`.
pub open spec fn site_in(l: Seq<SiteV>, code: Seq<char>) -> bool {
    exists|i: int| 0 <= i < l.len() && l[i].api_site_parameter == code
}

/// The site list a cache file's bytes denote: the file must be UTF-8
/// and its characters a canonical encoding; anything else is corrupt.
pub open spec fn cache_decode(bytes: Seq<u8>) -> Option<Seq<SiteV>> {
    if valid_utf8(bytes) {
        parse_sites_s(decode_utf8(bytes))
    } else {
        None
    }
}

/// What the caller found at the cache file's location.
pub enum CacheFile {
    /// No file exists: a first run, never an error.
    Absent,
    /// The file's full contents.
    Contents(Vec<u8>),
}

/// What the registry decided after being offered the local cache.
#[derive(Debug)]
pub enum SitesOutcome {
    /// The list is loaded; this is a copy of it.
    Loaded(Vec<Site>),
    /// Nothing is loaded and no local file exists: the caller must
    /// fetch the authoritative list remotely and hand it to
    /// [`LocalStorage::update_sites`].
    FetchNeeded,
}

/// Relies on `String::from_utf8`: it succeeds exactly on valid UTF-8
/// input and the returned string's encoding is the input, unchanged.
#[verifier::external_body]
fn string_from_utf8(bytes: Vec<u8>) -> (r: Option<String>)
    ensures
        match r {
            Some(s) => valid_utf8(bytes@) && encode_utf8(s@) == bytes@,
            None => !valid_utf8(bytes@),
        },
{
    String::from_utf8(bytes).ok()
}

/// The characters of `s`, as a vector.
fn str_chars(s: &str) -> (v: Vec<char>)
    ensures
        v@ == s@,
{
    let n = s.unicode_len();
    let mut v: Vec<char> = Vec::new();
    let mut i: usize = 0;
    while i < n
        invariant
            0 <= i <= n,
            n == s@.len(),
            v@ == s@.take(i as int),
        decreases n - i,
    {
        v.push(s.get_char(i));
        proof {
            assert(s@.take(i + 1) =~= s@.take(i as int).push(s@[i as int]));
        }
        i = i + 1;
    }
    assert(s@.take(n as int) =~= s@);
    v
}

/// Whether two string slices hold the same characters.
fn str_eq(a: &str, b: &str) -> (r: bool)
    ensures
        r == (a@ == b@),
{
    let na = a.unicode_len();
    let nb = b.unicode_len();
    if na != nb {
        return false;
    }
    let mut i: usize = 0;
    while i < na
        invariant
            0 <= i <= na,
            na == a@.len(),
            na == b@.len(),
            forall|j: int| 0 <= j < i ==> a@[j] == b@[j],
        decreases na - i,
    {
        if a.get_char(i) != b.get_char(i) {
            return false;
        }
        i = i + 1;
    }
    assert(a@ =~= b@);
    true
}

/// The cache-aside store of the full site list, loaded at most once per
/// process and replaced only wholesale.
pub struct LocalStorage {
    sites: Option<Vec<Site>>,
}

impl View for LocalStorage {
    type V = Option<Seq<SiteV>>;

    /// The loaded site list, or `None` while nothing is loaded.
    closed spec fn view(&self) -> Option<Seq<SiteV>> {
        match self.sites {
            Some(v) => Some(v.deep_view()),
            None => None,
        }
    }
}

impl LocalStorage {
    /// A registry with nothing loaded yet.
    pub fn new() -> (s: LocalStorage)
        ensures
            s@ is None,
    {
        LocalStorage { sites: None }
    }

    /// The cache-aside read of the site list.
    ///
    /// If a list is already loaded, a copy of it is returned and the
    /// offered cache is ignored: the registry performs no reload.  If
    /// nothing is loaded and the cache file holds the canonical
    /// encoding of a list, that list is adopted and returned, and no
    /// fetch is asked for.  An absent file asks the caller for exactly
    /// one remote fetch.  A file that exists but does not decode is
    /// corrupt: the call fails, masks nothing, and asks for no fetch.
    pub fn sites(&mut self, local: CacheFile) -> (r: Result<SitesOutcome, Error>)
        ensures
            old(self)@ matches Some(l) ==> final(self)@ == old(self)@ && (match r {
                Ok(SitesOutcome::Loaded(v)) => v.deep_view() == l,
                _ => false,
            }),
            old(self)@ is None ==> (match local {
                CacheFile::Absent => final(self)@ == old(self)@ && (match r {
                    Ok(o) => o is FetchNeeded,
                    _ => false,
                }),
                CacheFile::Contents(b) => (match cache_decode(b@) {
                    Some(l) => final(self)@ == Some(l) && (match r {
                        Ok(SitesOutcome::Loaded(v)) => v.deep_view() == l,
                        _ => false,
                    }),
                    None => final(self)@ == old(self)@ && (match r {
                        Err(e) => e.kind == ErrorKind::CacheCorrupt,
                        _ => false,
                    }),
                }),
            }),
    {
        match &self.sites {
            Some(held) => {
                let copy = held.clone();
                proof {
                    assert(copy@ =~= held@);
                    assert(copy.deep_view() =~= held.deep_view());
                }
                Ok(SitesOutcome::Loaded(copy))
            },
            None => {
                match local {
                    CacheFile::Absent => Ok(SitesOutcome::FetchNeeded),
                    CacheFile::Contents(bytes) => {
                        match string_from_utf8(bytes) {
                            None => Err(Error::new(
                                ErrorKind::CacheCorrupt,
                                String::from_str("the local site cache is not readable text"),
                            )),
                            Some(text) => {
                                proof {
                                    vstd::utf8::encode_utf8_decode_utf8(text@);
                                }
                                let chars = str_chars(text.as_str());
                                match parse_sites(&chars) {
                                    None => Err(Error::new(
                                        ErrorKind::CacheCorrupt,
                                        String::from_str(
                                            "the local site cache is not a well-formed site list",
                                        ),
                                    )),
                                    Some(list) => {
                                        let copy = list.clone();
                                        proof {
                                            assert(copy@ =~= list@);
                                            assert(copy.deep_view() =~= list.deep_view());
                                        }
                                        self.sites = Some(list);
                                        Ok(SitesOutcome::Loaded(copy))
                                    },
                                }
                            },
                        }
                    },
                }
            },
        }
    }

    /// Adopts a freshly fetched full list — wholesale, never merged —
    /// and returns the text to persist over the cache file.
    ///
    /// The returned text is the canonical encoding of exactly the
    /// fetched list, so a later cold load of the written file yields
    /// the same list back.
    pub fn update_sites(&mut self, fetched: Vec<Site>) -> (out: String)
        ensures
            final(self)@ == Some(fetched.deep_view()),
            out@ == render_sites_s(fetched.deep_view()),
            cache_decode(encode_utf8(out@)) == Some(fetched.deep_view()),
    {
        proof {
            lemma_cache_round_trip(fetched.deep_view());
            vstd::utf8::encode_utf8_valid_utf8(render_sites_s(fetched.deep_view()));
            vstd::utf8::encode_utf8_decode_utf8(render_sites_s(fetched.deep_view()));
        }
        let chars = render_sites(&fetched);
        let out = chars_to_string(&chars);
        self.sites = Some(fetched);
        out
    }

    /// Whether `site_code` is the code of some loaded site.
    ///
    /// An empty loaded list is a failure of the registry, not an
    /// unrecognised code: it reports `EmptySites` rather than `false`.
    pub fn validate_site(&self, site_code: &str) -> (r: Result<bool, Error>)
        requires
            self@ is Some,
        ensures
            self@ matches Some(l) && match r {
                Ok(b) => l.len() > 0 && b == site_in(l, site_code@),
                Err(e) => l.len() == 0 && e.kind == ErrorKind::EmptySites,
            },
    {
        let list = match &self.sites {
            Some(list) => list,
            None => {
                proof {
                    assert(false);
                }
                return Err(Error::new(ErrorKind::EmptySites, String::new()));
            },
        };
        if list.is_empty() {
            return Err(Error::new(ErrorKind::EmptySites, String::new()));
        }
        let ghost l = list.deep_view();
        let n = list.len();
        let mut i: usize = 0;
        while i < n
            invariant
                0 <= i <= n,
                n > 0,
                n == list@.len(),
                l == list.deep_view(),
                self@ == Some(l),
                forall|j: int| 0 <= j < i ==> l[j].api_site_parameter != site_code@,
            decreases n - i,
        {
            if str_eq(list[i].api_site_parameter.as_str(), site_code) {
                assert(l[i as int].api_site_parameter == site_code@);
                return Ok(true);
            }
            i = i + 1;
        }
        Ok(false)
    }
}

} // verus!
