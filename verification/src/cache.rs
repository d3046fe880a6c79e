//! The HTTP cache's records and file names. The cache keeps two files per feed, named after the
//! hash of its URL: one of metadata and one of the body.

use vstd::prelude::*;
use vstd::string::*;
use vstd::utf8::*;

use crate::hash::hash_text;
use crate::json::{
    get, json_opt_text, lemma_arr_elements, lemma_obj_members, put, to_pretty, Json,
};
use crate::record::read_record;
use crate::text::{chars_of, same};

verus! {

/// Cached HTTP metadata for a feed.
#[derive(Debug, Clone)]
pub struct CacheMeta {
    pub feed_url: String,
    pub etag: Option<String>,
    pub last_modified: Option<String>,
    /// RFC-3339 UTC time the entry was written.
    pub fetched_at: String,
    pub content_type: Option<String>,
}

/// A cache entry: metadata and the raw body.
#[derive(Debug, Clone)]
pub struct CacheEntry {
    pub meta: CacheMeta,
    pub body: Vec<u8>,
}

/// Summary of a cache entry.
#[derive(Debug, Clone)]
pub struct CacheListItem {
    pub feed_url: String,
    pub fetched_at: String,
    pub size_bytes: u64,
    pub etag: Option<String>,
}

/// The cache directory.
#[derive(Debug, Clone)]
pub struct Cache {
    pub root: String,
}

/// The path of a file in a directory: a separator stands between the two, unless the directory's
/// path is empty or ends with one.
pub open spec fn path_in(dir: Seq<char>, name: Seq<char>) -> Seq<char> {
    if dir.len() == 0 {
        name
    } else if dir.last() == '/' {
        dir + name
    } else {
        dir + "/"@ + name
    }
}

impl Cache {
    /// The cache directory's path.
    pub fn dir(&self) -> (r: &str)
        ensures
            r@ == self.root@,
    {
        self.root.as_str()
    }

    /// The name that a feed's files go by: the SHA-256 digest of its URL.
    pub fn key(feed_url: &str) -> (r: String)
        ensures
            r@ == crate::hash::full_hash(feed_url@),
    {
        hash_text(feed_url)
    }

    /// Where a feed's metadata is kept.
    pub fn meta_path(&self, feed_url: &str) -> (r: String)
        ensures
            r@ == path_in(self.root@, crate::hash::full_hash(feed_url@) + ".json"@),
    {
        self.path(&Cache::key(feed_url).concat(".json"))
    }

    /// Where a feed's body is kept.
    pub fn body_path(&self, feed_url: &str) -> (r: String)
        ensures
            r@ == path_in(self.root@, crate::hash::full_hash(feed_url@) + ".body"@),
    {
        self.path(&Cache::key(feed_url).concat(".body"))
    }

    fn path(&self, name: &str) -> (r: String)
        ensures
            r@ == path_in(self.root@, name@),
    {
        let v = chars_of(self.root.as_str());
        if v.len() == 0 {
            name.to_owned()
        } else if v[v.len() - 1] == '/' {
            self.root.clone().concat(name)
        } else {
            self.root.clone().concat("/").concat(name)
        }
    }
}

/// The JSON of metadata.
pub open spec fn meta_json(m: CacheMeta) -> crate::json::JsonView {
    crate::json::JsonView::Obj(
        seq![
            ("feed_url"@, crate::json::JsonView::Str(m.feed_url@)),
            ("etag"@, crate::json::text_or_null(m.etag.deep_view())),
            ("last_modified"@, crate::json::text_or_null(m.last_modified.deep_view())),
            ("fetched_at"@, crate::json::JsonView::Str(m.fetched_at@)),
            ("content_type"@, crate::json::text_or_null(m.content_type.deep_view())),
        ],
    )
}

/// The names of metadata's fields.
pub open spec fn meta_names() -> Seq<Seq<char>> {
    seq!["feed_url"@, "etag"@, "last_modified"@, "fetched_at"@, "content_type"@]
}

fn field_names() -> (r: Vec<String>)
    ensures
        r.deep_view() == meta_names(),
{
    let mut r: Vec<String> = Vec::new();
    r.push("feed_url".to_owned());
    r.push("etag".to_owned());
    r.push("last_modified".to_owned());
    r.push("fetched_at".to_owned());
    r.push("content_type".to_owned());
    assert(r.deep_view() =~= meta_names());
    r
}

/// The text that metadata is stored as. It reads as the metadata's JSON again.
pub fn meta_text(m: &CacheMeta) -> (r: String)
    ensures
        r@ == crate::json::pretty_text(crate::json::kept(meta_json(*m))),
        crate::record::record_in(encode_utf8(r@), meta_names()) == Some(meta_json(*m)),
{
    broadcast use lemma_obj_members;

    let mut f: Vec<(String, Json)> = Vec::new();
    assert(crate::json::members(f@) =~= Seq::empty());
    put(&mut f, "feed_url", Json::Str(m.feed_url.clone()));
    put(&mut f, "etag", json_opt_text(&m.etag));
    put(&mut f, "last_modified", json_opt_text(&m.last_modified));
    put(&mut f, "fetched_at", Json::Str(m.fetched_at.clone()));
    put(&mut f, "content_type", json_opt_text(&m.content_type));
    assert(crate::json::members(f@) =~= meta_json(*m)->Obj_0);
    proof {
        lemma_meta_members(*m);
    }
    let r = to_pretty(&Json::Obj(f));
    proof {
        let g = meta_json(*m)->Obj_0;
        assert(meta_names() =~= g.map_values(|x: (Seq<char>, crate::json::JsonView)| x.0));
        crate::record::lemma_record_reads_back(encode_utf8(r@), g, meta_names());
    }
    r
}

pub(crate) proof fn lemma_meta_members(m: CacheMeta)
    ensures
        crate::json::is_flat_record(meta_json(m)),
        is_meta_of(m, meta_json(m)),
{
    reveal_strlit("feed_url");
    reveal_strlit("etag");
    reveal_strlit("last_modified");
    reveal_strlit("fetched_at");
    reveal_strlit("content_type");
    let f = meta_json(m)->Obj_0;
    assert("feed_url"@.len() == 8 && "etag"@.len() == 4 && "last_modified"@.len() == 13
        && "fetched_at"@.len() == 10 && "content_type"@.len() == 12);
    reveal_with_fuel(crate::json::member_in, 6);
    assert(f.skip(1).skip(1) =~= f.skip(2));
    assert(f.skip(2).skip(1) =~= f.skip(3));
    assert(f.skip(3).skip(1) =~= f.skip(4));
    assert(crate::json::member_in(f, "feed_url"@) == Some(f[0].1));
    assert(crate::json::member_in(f, "etag"@) == Some(f[1].1));
    assert(crate::json::member_in(f, "last_modified"@) == Some(f[2].1));
    assert(crate::json::member_in(f, "fetched_at"@) == Some(f[3].1));
    assert(crate::json::member_in(f, "content_type"@) == Some(f[4].1));
}

/// A field of metadata: the member of an object, or the element of a list of the five fields.
pub open spec fn meta_field(j: crate::json::JsonView, name: Seq<char>, at: int) -> Option<
    crate::json::JsonView,
> {
    match j {
        crate::json::JsonView::Arr(a) => if a.len() == 5 {
            Some(a[at])
        } else {
            None
        },
        _ => crate::json::member(j, name),
    }
}

/// A text that a member may hold: absent and `null` are no text; anything else is none that can be
/// read.
pub open spec fn optional_text(j: Option<crate::json::JsonView>) -> Option<Option<Seq<char>>> {
    match j {
        None => Some(None),
        Some(crate::json::JsonView::Null) => Some(None),
        Some(crate::json::JsonView::Str(s)) => Some(Some(s)),
        _ => None,
    }
}

/// The metadata says what the value says.
pub open spec fn is_meta_of(m: CacheMeta, j: crate::json::JsonView) -> bool {
    &&& meta_field(j, "feed_url"@, 0) == Some(crate::json::JsonView::Str(m.feed_url@))
    &&& optional_text(meta_field(j, "etag"@, 1)) == Some(m.etag.deep_view())
    &&& optional_text(meta_field(j, "last_modified"@, 2)) == Some(m.last_modified.deep_view())
    &&& meta_field(j, "fetched_at"@, 3) == Some(crate::json::JsonView::Str(m.fetched_at@))
    &&& optional_text(meta_field(j, "content_type"@, 4)) == Some(m.content_type.deep_view())
}

/// The value is metadata: an object with the texts that metadata must have, and texts or nothing
/// where it may have them, or a list of the five fields.
pub open spec fn holds_meta(j: crate::json::JsonView) -> bool {
    &&& meta_field(j, "feed_url"@, 0) matches Some(crate::json::JsonView::Str(_))
    &&& optional_text(meta_field(j, "etag"@, 1)) is Some
    &&& optional_text(meta_field(j, "last_modified"@, 2)) is Some
    &&& meta_field(j, "fetched_at"@, 3) matches Some(crate::json::JsonView::Str(_))
    &&& optional_text(meta_field(j, "content_type"@, 4)) is Some
}

fn field<'a>(j: &'a Json, name: &str, at: usize) -> (r: Option<&'a Json>)
    requires
        at < 5,
    ensures
        match r {
            Some(v) => meta_field(j@, name@, at as int) == Some(v@),
            None => meta_field(j@, name@, at as int) is None,
        },
{
    broadcast use lemma_arr_elements;

    match j {
        Json::Arr(a) => if a.len() == 5 {
            Some(&a[at])
        } else {
            None
        },
        _ => get(j, name),
    }
}

fn text_field(j: &Json, name: &str, at: usize) -> (r: Option<String>)
    requires
        at < 5,
    ensures
        match r {
            Some(s) => meta_field(j@, name@, at as int) == Some(crate::json::JsonView::Str(s@)),
            None => !(meta_field(j@, name@, at as int) matches Some(crate::json::JsonView::Str(_))),
        },
{
    match field(j, name, at) {
        Some(Json::Str(s)) => Some(s.clone()),
        _ => None,
    }
}

fn optional_field(j: &Json, name: &str, at: usize) -> (r: Option<Option<String>>)
    requires
        at < 5,
    ensures
        match r {
            Some(s) => optional_text(meta_field(j@, name@, at as int)) == Some(s.deep_view()),
            None => optional_text(meta_field(j@, name@, at as int)) is None,
        },
{
    match field(j, name, at) {
        None => Some(None),
        Some(Json::Null) => Some(None),
        Some(Json::Str(s)) => Some(Some(s.clone())),
        _ => None,
    }
}

/// The metadata that a value holds.
pub fn meta_from_json(j: &Json) -> (r: Option<CacheMeta>)
    ensures
        match r {
            Some(m) => is_meta_of(m, j@),
            None => !holds_meta(j@),
        },
{
    match (
        text_field(j, "feed_url", 0),
        optional_field(j, "etag", 1),
        optional_field(j, "last_modified", 2),
        text_field(j, "fetched_at", 3),
        optional_field(j, "content_type", 4),
    ) {
        (Some(feed_url), Some(etag), Some(last_modified), Some(fetched_at), Some(content_type)) => Some(
            CacheMeta { feed_url, etag, last_modified, fetched_at, content_type },
        ),
        _ => None,
    }
}

/// The metadata that stored bytes hold, if they are intact.
pub fn read_meta(bytes: &[u8]) -> (r: Option<CacheMeta>)
    ensures
        match r {
            Some(m) => crate::record::record_in(bytes@, meta_names()) matches Some(j) && is_meta_of(
                m,
                j,
            ),
            None => !(crate::record::record_in(bytes@, meta_names()) matches Some(j) && holds_meta(j)),
        },
{
    match read_record(bytes, &field_names()) {
        Some(j) => meta_from_json(&j),
        None => None,
    }
}

/// Stored metadata is intact, and whatever is read of it says what was stored.
pub proof fn law_stored_metadata_reads_back(stored: CacheMeta, bytes: Seq<u8>)
    requires
        crate::record::record_in(bytes, meta_names()) == Some(meta_json(stored)),
    ensures
        crate::record::record_in(bytes, meta_names()) matches Some(j) && holds_meta(j),
        forall|m: CacheMeta| #[trigger]
            is_meta_of(m, crate::record::record_in(bytes, meta_names())->Some_0) ==> {
                &&& m.feed_url@ == stored.feed_url@
                &&& m.etag.deep_view() == stored.etag.deep_view()
                &&& m.last_modified.deep_view() == stored.last_modified.deep_view()
                &&& m.fetched_at@ == stored.fetched_at@
                &&& m.content_type.deep_view() == stored.content_type.deep_view()
            },
{
    lemma_meta_members(stored);
}

/// A file found in the cache directory: its name's extension, its bytes where they could be read,
/// and the size of the body file beside it, where there is one.
#[derive(Debug)]
pub struct FoundFile {
    pub extension: Option<String>,
    pub bytes: Option<Vec<u8>>,
    pub body_size: Option<u64>,
}

/// The file holds intact metadata.
pub open spec fn is_record(f: FoundFile) -> bool {
    &&& f.extension.deep_view() == Some("json"@)
    &&& f.bytes matches Some(b) && (crate::record::record_in(b@, meta_names()) matches Some(j)
        && holds_meta(j))
}

/// The summary is that of the file.
pub open spec fn is_summary_of(s: CacheListItem, f: FoundFile) -> bool {
    let j = crate::record::record_in(f.bytes->Some_0@, meta_names())->Some_0;
    &&& meta_field(j, "feed_url"@, 0) == Some(crate::json::JsonView::Str(s.feed_url@))
    &&& meta_field(j, "fetched_at"@, 3) == Some(crate::json::JsonView::Str(s.fetched_at@))
    &&& optional_text(meta_field(j, "etag"@, 1)) == Some(s.etag.deep_view())
    &&& s.size_bytes == (match f.body_size {
        Some(n) => n,
        None => 0,
    })
}

fn summarize(f: &FoundFile) -> (r: Option<CacheListItem>)
    ensures
        match r {
            Some(s) => is_record(*f) && is_summary_of(s, *f),
            None => !is_record(*f),
        },
{
    match &f.extension {
        Some(e) => if !same(e.as_str(), "json") {
            return None;
        },
        None => {
            return None;
        },
    }
    let meta = match &f.bytes {
        Some(b) => read_meta(b.as_slice()),
        None => None,
    };
    match meta {
        Some(m) => Some(
            CacheListItem {
                feed_url: m.feed_url,
                fetched_at: m.fetched_at,
                size_bytes: match f.body_size {
                    Some(n) => n,
                    None => 0,
                },
                etag: m.etag,
            },
        ),
        None => None,
    }
}

/// Summarizes the files found in the cache directory, passing over those that hold no intact
/// metadata.
pub fn list_records(files: &Vec<FoundFile>) -> (r: Vec<CacheListItem>)
    ensures
        r@.len() == files@.filter(|f: FoundFile| is_record(f)).len(),
        forall|k: int|
            0 <= k < r@.len() ==> is_summary_of(
                #[trigger] r@[k],
                files@.filter(|f: FoundFile| is_record(f))[k],
            ),
{
    let ghost keep = |f: FoundFile| is_record(f);
    let mut out: Vec<CacheListItem> = Vec::new();
    let mut i: usize = 0;
    proof {
        reveal(Seq::filter);
        assert(files@.take(0).filter(keep) =~= Seq::empty());
    }
    while i < files.len()
        invariant
            i <= files@.len(),
            keep == |f: FoundFile| is_record(f),
            out@.len() == files@.take(i as int).filter(keep).len(),
            forall|k: int|
                0 <= k < out@.len() ==> is_summary_of(
                    #[trigger] out@[k],
                    files@.take(i as int).filter(keep)[k],
                ),
        decreases files@.len() - i,
    {
        proof {
            reveal(Seq::filter);
            assert(files@.take(i + 1).drop_last() =~= files@.take(i as int));
            assert(files@.take(i + 1).last() == files@[i as int]);
        }
        if let Some(s) = summarize(&files[i]) {
            out.push(s);
        }
        i = i + 1;
    }
    assert(files@.take(i as int) =~= files@);
    out
}

/// How many of the files are metadata files: how many feeds a directory with these files holds.
pub open spec fn feed_files(files: Seq<FoundFile>) -> nat
    decreases files.len(),
{
    if files.len() == 0 {
        0
    } else {
        feed_files(files.drop_last()) + (if files.last().extension.deep_view() == Some("json"@) {
            1nat
        } else {
            0nat
        })
    }
}

/// How many feeds the files found in the cache directory are of.
pub fn count_feeds(files: &Vec<FoundFile>) -> (r: usize)
    ensures
        r == feed_files(files@),
{
    let mut n: usize = 0;
    let mut i: usize = 0;
    assert(files@.take(0) =~= Seq::empty());
    while i < files.len()
        invariant
            i <= files@.len(),
            n == feed_files(files@.take(i as int)),
            n <= i,
        decreases files@.len() - i,
    {
        proof {
            assert(files@.take(i + 1).drop_last() =~= files@.take(i as int));
            assert(files@.take(i + 1).last() == files@[i as int]);
        }
        if let Some(e) = &files[i].extension {
            if same(e.as_str(), "json") {
                n = n + 1;
            }
        }
        i = i + 1;
    }
    assert(files@.take(i as int) =~= files@);
    n
}

/// The JSON of a summary.
pub open spec fn summary_json(s: CacheListItem) -> crate::json::JsonView {
    crate::json::JsonView::Obj(
        seq![
            ("feed_url"@, crate::json::JsonView::Str(s.feed_url@)),
            ("fetched_at"@, crate::json::JsonView::Str(s.fetched_at@)),
            ("size_bytes"@, crate::json::JsonView::Int(s.size_bytes as int)),
            ("etag"@, crate::json::text_or_null(s.etag.deep_view())),
        ],
    )
}

fn summary_value(s: &CacheListItem) -> (r: Json)
    ensures
        r@ == summary_json(*s),
{
    broadcast use lemma_obj_members;

    let mut f: Vec<(String, Json)> = Vec::new();
    assert(crate::json::members(f@) =~= Seq::empty());
    put(&mut f, "feed_url", Json::Str(s.feed_url.clone()));
    put(&mut f, "fetched_at", Json::Str(s.fetched_at.clone()));
    put(&mut f, "size_bytes", Json::UInt(s.size_bytes));
    put(&mut f, "etag", json_opt_text(&s.etag));
    assert(crate::json::members(f@) =~= summary_json(*s)->Obj_0);
    Json::Obj(f)
}

/// The JSON of summaries.
pub fn summaries_value(v: &Vec<CacheListItem>) -> (r: Json)
    ensures
        r@ == crate::json::JsonView::Arr(v@.map_values(|s: CacheListItem| summary_json(s))),
{
    broadcast use lemma_arr_elements;

    let mut out: Vec<Json> = Vec::new();
    let mut i: usize = 0;
    while i < v.len()
        invariant
            i <= v@.len(),
            out@.len() == i,
            forall|k: int| 0 <= k < i ==> #[trigger] out@[k]@ == summary_json(v@[k]),
        decreases v@.len() - i,
    {
        out.push(summary_value(&v[i]));
        i = i + 1;
    }
    assert(crate::json::elements(out@) =~= v@.map_values(|s: CacheListItem| summary_json(s)));
    Json::Arr(out)
}

} // verus!
