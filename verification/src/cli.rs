//! The command surface, and what its arguments come to.

use vstd::prelude::*;
use vstd::string::*;

use crate::config::{
    parse_duration, resolve_since, CachePolicy, FetchParams, DEFAULT_USER_AGENT,
};
use crate::error::RssError;
use crate::exit;
use crate::markup::{is_tame, Times};
use crate::model::ContentFormat;
use crate::output::OutputFormat;
use crate::text::{chars_of, same, split_on, trim};
use crate::time::{now_utc, Duration, Timestamp};

verus! {

/// A parsed command line.
#[derive(Debug)]
pub struct Cli {
    pub command: Command,
    /// Overrides the cache directory.
    pub cache_dir: Option<String>,
    /// Suppresses all non-data output.
    pub quiet: bool,
    /// Logging verbosity.
    pub verbose: u8,
    /// Disables color in text output.
    pub no_color: bool,
}

/// A command.
#[derive(Debug)]
pub enum Command {
    Fetch(FetchArgs),
    Discover(DiscoverArgs),
    Show(ShowArgs),
    Schema(SchemaArgs),
    Cache(CacheArgs),
    Mcp,
}

/// Output format, as selected on the command line.
#[derive(Debug, Clone, Copy, PartialEq, Eq, Structural)]
pub enum FormatArg {
    Json,
    Ndjson,
    Text,
}

impl Default for FormatArg {
    fn default() -> (r: Self)
        ensures
            r == FormatArg::Json,
    {
        FormatArg::Json
    }
}

/// The output format that was selected.
pub open spec fn selected_format(f: FormatArg) -> OutputFormat {
    match f {
        FormatArg::Json => OutputFormat::Json,
        FormatArg::Ndjson => OutputFormat::Ndjson,
        FormatArg::Text => OutputFormat::Text,
    }
}

impl vstd::std_specs::convert::FromSpecImpl<FormatArg> for OutputFormat {
    open spec fn obeys_from_spec() -> bool {
        true
    }

    open spec fn from_spec(f: FormatArg) -> Self {
        selected_format(f)
    }
}

impl From<FormatArg> for OutputFormat {
    fn from(f: FormatArg) -> (r: Self) {
        match f {
            FormatArg::Json => OutputFormat::Json,
            FormatArg::Ndjson => OutputFormat::Ndjson,
            FormatArg::Text => OutputFormat::Text,
        }
    }
}

/// Content format, as selected on the command line.
#[derive(Debug, Clone, Copy, PartialEq, Eq, Structural)]
pub enum ContentArg {
    Markdown,
    Text,
    Html,
    /// No content.
    Omit,
}

impl Default for ContentArg {
    fn default() -> (r: Self)
        ensures
            r == ContentArg::Markdown,
    {
        ContentArg::Markdown
    }
}

/// The content format that was selected.
pub open spec fn selected_content(c: ContentArg) -> ContentFormat {
    match c {
        ContentArg::Markdown => ContentFormat::Markdown,
        ContentArg::Text => ContentFormat::Text,
        ContentArg::Html => ContentFormat::Html,
        ContentArg::Omit => ContentFormat::Omit,
    }
}

impl vstd::std_specs::convert::FromSpecImpl<ContentArg> for ContentFormat {
    open spec fn obeys_from_spec() -> bool {
        true
    }

    open spec fn from_spec(c: ContentArg) -> Self {
        selected_content(c)
    }
}

impl From<ContentArg> for ContentFormat {
    fn from(c: ContentArg) -> (r: Self) {
        match c {
            ContentArg::Markdown => ContentFormat::Markdown,
            ContentArg::Text => ContentFormat::Text,
            ContentArg::Html => ContentFormat::Html,
            ContentArg::Omit => ContentFormat::Omit,
        }
    }
}

/// Arguments of `fetch`.
#[derive(Debug)]
pub struct FetchArgs {
    /// Feed URLs; `-` stands for those on standard input, one per line.
    pub urls: Vec<String>,
    /// An OPML file of feed URLs.
    pub opml: Option<String>,
    /// A text file of feed URLs, one per line.
    pub input: Option<String>,
    pub format: FormatArg,
    /// Tagged records in newline-delimited JSON.
    pub ndjson_records: bool,
    pub content: ContentArg,
    /// Maximum items per feed.
    pub limit: Option<usize>,
    /// Maximum characters of an item's content.
    pub max_content_chars: Option<usize>,
    /// Only items at or after this time.
    pub since: Option<String>,
    /// Maximum number of feeds fetched at once.
    pub concurrency: usize,
    /// Timeout of a request, in seconds.
    pub timeout: u64,
    /// Neither reads nor writes the cache.
    pub no_cache: bool,
    /// Serves a cached entry younger than this without asking the server.
    pub max_age: Option<String>,
    /// Forces revalidation.
    pub refresh: bool,
    pub user_agent: Option<String>,
}

/// Arguments of `discover`.
#[derive(Debug)]
pub struct DiscoverArgs {
    pub site_url: String,
    pub format: FormatArg,
    /// Timeout of a request, in seconds.
    pub timeout: u64,
    pub user_agent: Option<String>,
}

/// Arguments of `show`.
#[derive(Debug)]
pub struct ShowArgs {
    pub feed_url: String,
    /// The item's id, guid or url.
    pub id: String,
    pub content: ContentArg,
    /// Maximum characters of the item's content.
    pub max_content_chars: Option<usize>,
    pub format: FormatArg,
    /// Fetches the live feed in place of a cached copy.
    pub refresh: bool,
}

/// Arguments of `schema`.
#[derive(Debug)]
pub struct SchemaArgs {
    /// The command whose output is described.
    pub command: String,
}

/// Arguments of `cache`.
#[derive(Debug)]
pub struct CacheArgs {
    pub action: CacheAction,
}

/// What `cache` does.
#[derive(Debug)]
pub enum CacheAction {
    /// Prints the cache directory.
    Path,
    /// Lists cached feeds.
    List { format: FormatArg },
    /// Removes all entries.
    Clear,
}

/// The user agent given, or the tool's own.
pub open spec fn agent_or_default(agent: Option<Seq<char>>) -> Seq<char> {
    match agent {
        Some(a) => a,
        None => DEFAULT_USER_AGENT@,
    }
}

fn agent(given: &Option<String>) -> (r: String)
    ensures
        r@ == agent_or_default(given.deep_view()),
{
    match given {
        Some(a) => a.clone(),
        None => DEFAULT_USER_AGENT.to_owned(),
    }
}

/// The cache policy that the flags ask for, or what is wrong with them.
pub open spec fn policy_value(no_cache: bool, refresh: bool, max_age: Option<Seq<char>>) -> Result<
    CachePolicy,
    Seq<char>,
> {
    if no_cache {
        Ok(CachePolicy::NoCache)
    } else {
        match max_age {
            Some(ma) => if refresh {
                Ok(CachePolicy::Revalidate)
            } else {
                match crate::config::duration_value(ma) {
                    Ok(d) => Ok(CachePolicy::MaxAge(d)),
                    Err(m) => Err(m),
                }
            },
            None => Ok(CachePolicy::Revalidate),
        }
    }
}

/// The window that `--since` opens, if it is given.
pub open spec fn window_value(since: Option<Seq<char>>, now: Timestamp) -> Result<
    Option<Timestamp>,
    Seq<char>,
> {
    match since {
        None => Ok(None),
        Some(s) => match crate::config::since_value(s, now, "--since"@) {
            Ok(t) => Ok(Some(t)),
            Err(m) => Err(m),
        },
    }
}

impl FetchArgs {
    /// The cache policy that the flags ask for.
    pub fn cache_policy(&self) -> (r: Result<CachePolicy, RssError>)
        ensures
            crate::config::agrees(
                r,
                policy_value(self.no_cache, self.refresh, self.max_age.deep_view()),
            ),
    {
        if self.no_cache {
            return Ok(CachePolicy::NoCache);
        }
        match &self.max_age {
            Some(ma) => if self.refresh {
                Ok(CachePolicy::Revalidate)
            } else {
                match parse_duration(ma.as_str()) {
                    Ok(d) => Ok(CachePolicy::MaxAge(d)),
                    Err(e) => Err(e),
                }
            },
            None => Ok(CachePolicy::Revalidate),
        }
    }

    /// These are the parameters that the arguments ask for at `now`.
    pub open spec fn asks_for(self, p: FetchParams, now: Timestamp) -> bool {
        &&& p.content_format == selected_content(self.content)
        &&& p.limit == self.limit
        &&& p.max_content_chars == self.max_content_chars
        &&& window_value(self.since.deep_view(), now) == Ok::<Option<Timestamp>, Seq<char>>(p.since)
        &&& p.query is None
        &&& p.concurrency == (if self.concurrency >= 1 {
            self.concurrency
        } else {
            1
        })
        &&& p.timeout.millis == self.timeout * 1000
        &&& p.user_agent@ == agent_or_default(self.user_agent.deep_view())
        &&& policy_value(self.no_cache, self.refresh, self.max_age.deep_view()) == Ok::<
            CachePolicy,
            Seq<char>,
        >(p.cache_policy)
        &&& p.deadline is None
    }

    /// The message of what is wrong with the arguments, if anything is: first with the window, then
    /// with the cache flags.
    pub open spec fn fault(self, now: Timestamp) -> Option<Seq<char>> {
        match (
            window_value(self.since.deep_view(), now),
            policy_value(self.no_cache, self.refresh, self.max_age.deep_view()),
        ) {
            (Err(m), _) => Some(m),
            (_, Err(m)) => Some(m),
            _ => None,
        }
    }

    /// The parameters of a fetch, with relative times counted back from `now`.
    pub fn params_at(&self, now: Timestamp) -> (r: Result<FetchParams, RssError>)
        ensures
            match (r, self.fault(now)) {
                (Ok(p), None) => self.asks_for(p, now),
                (Err(RssError::Usage(m)), Some(t)) => m@ == t,
                _ => false,
            },
    {
        let since = match &self.since {
            None => None,
            Some(s) => match resolve_since(s.as_str(), now, "--since") {
                Ok(t) => Some(t),
                Err(e) => {
                    return Err(e);
                },
            },
        };
        let cache_policy = match self.cache_policy() {
            Ok(p) => p,
            Err(e) => {
                return Err(e);
            },
        };
        Ok(
            FetchParams {
                content_format: ContentFormat::from(self.content),
                limit: self.limit,
                max_content_chars: self.max_content_chars,
                since,
                query: None,
                concurrency: if self.concurrency >= 1 {
                    self.concurrency
                } else {
                    1
                },
                timeout: Duration::from_secs(self.timeout),
                user_agent: agent(&self.user_agent),
                cache_policy,
                deadline: None,
            },
        )
    }

    /// The parameters of a fetch, with relative times counted back from the clock's present.
    pub fn to_params(&self) -> (r: Result<FetchParams, RssError>)
        ensures
            exists|now: Timestamp|
                #![trigger self.fault(now)]
                match (r, self.fault(now)) {
                    (Ok(p), None) => self.asks_for(p, now),
                    (Err(RssError::Usage(m)), Some(t)) => m@ == t,
                    _ => false,
                },
    {
        let now = now_utc();
        let r = self.params_at(now);
        assert(match (r, self.fault(now)) {
            (Ok(p), None) => self.asks_for(p, now),
            (Err(RssError::Usage(m)), Some(t)) => m@ == t,
            _ => false,
        });
        r
    }
}

impl DiscoverArgs {
    /// The parameters of a discovery.
    pub fn to_params(&self) -> (r: FetchParams)
        ensures
            r.user_agent@ == agent_or_default(self.user_agent.deep_view()),
            r.timeout.millis == self.timeout * 1000,
            r.content_format == ContentFormat::Markdown,
            r.limit is None,
            r.max_content_chars is None,
            r.since is None,
            r.query is None,
            r.concurrency == 8,
            r.cache_policy == CachePolicy::Revalidate,
            r.deadline is None,
    {
        let mut p = FetchParams::default();
        p.user_agent = agent(&self.user_agent);
        p.timeout = Duration::from_secs(self.timeout);
        p
    }
}

impl ShowArgs {
    /// The parameters of a lookup: cache-first, unless the live feed is asked for.
    pub fn to_params(&self) -> (r: FetchParams)
        ensures
            r.content_format == selected_content(self.content),
            r.max_content_chars == self.max_content_chars,
            r.cache_policy == (if self.refresh {
                CachePolicy::Revalidate
            } else {
                CachePolicy::CacheFirst
            }),
            r.limit is None,
            r.since is None,
            r.query is None,
            r.concurrency == 8,
            r.timeout.millis == 30_000,
            r.user_agent@ == DEFAULT_USER_AGENT@,
            r.deadline is None,
    {
        let mut p = FetchParams::default();
        p.content_format = ContentFormat::from(self.content);
        p.max_content_chars = self.max_content_chars;
        p.cache_policy = if self.refresh {
            CachePolicy::Revalidate
        } else {
            CachePolicy::CacheFirst
        };
        p
    }

    /// The error of a lookup that found nothing.
    pub fn not_found(&self) -> (r: RssError)
        ensures
            r matches RssError::NotFound(m) && m@ == "item '"@ + self.id@ + "' not found in "@
                + self.feed_url@,
    {
        RssError::NotFound(
            "item '".to_owned().concat(self.id.as_str()).concat("' not found in ").concat(
                self.feed_url.as_str(),
            ),
        )
    }
}

/// An outline of an OPML document: its feed's address, and the outlines below it.
#[derive(Debug)]
pub struct FeedOutline {
    pub xml_url: Option<String>,
    pub outlines: Vec<FeedOutline>,
}

/// An outline, as mathematics.
pub enum OutlineView {
    Node { xml_url: Option<Seq<char>>, outlines: Seq<OutlineView> },
}

impl FeedOutline {
    /// The outline, as mathematics.
    pub open spec fn view(&self) -> OutlineView
        decreases self,
    {
        OutlineView::Node {
            xml_url: self.xml_url.deep_view(),
            outlines: Seq::new(
                self.outlines@.len(),
                |i: int|
                    if 0 <= i < self.outlines@.len() {
                        self.outlines@[i].view()
                    } else {
                        arbitrary()
                    },
            ),
        }
    }
}

/// Some outlines, as mathematics.
pub open spec fn outline_views(v: Seq<FeedOutline>) -> Seq<OutlineView> {
    v.map_values(|o: FeedOutline| o@)
}

proof fn lemma_outline_view(o: FeedOutline)
    ensures
        o@ == (OutlineView::Node {
            xml_url: o.xml_url.deep_view(),
            outlines: outline_views(o.outlines@),
        }),
{
    assert(o@->outlines =~= outline_views(o.outlines@));
}

/// The outline of `opml`.
#[verifier::external_type_specification]
#[verifier::external_body]
pub struct ExOutline(opml::Outline);

/// What an `opml::Outline` holds.
pub uninterp spec fn outline_contents(o: opml::Outline) -> OutlineView;

/// The outlines of the body of an OPML document, as `opml::OPML::from_str` reads it, or its error's
/// message.
pub uninterp spec fn outlines_in(text: Seq<char>) -> Result<Seq<OutlineView>, Seq<char>>;

/// What is said of a document whose outlines are not read.
pub const OUTLINES_UNREAD: &'static str = "its outlines nest too deeply, or its tags do not match";

/// The elements of a document do not nest too deeply, each is closed by a tag of its name, and its
/// document type, if it has one, holds no declarations.
pub open spec fn is_shallow(text: Seq<char>) -> bool {
    crate::markup::is_tame_from(text, 0, Seq::empty(), None, crate::markup::Times::Unread)
}

/// The outlines of an OPML document, or what is wrong with it.
pub open spec fn outlines_value(text: Seq<char>) -> Result<Seq<OutlineView>, Seq<char>> {
    if is_shallow(text) {
        outlines_in(text)
    } else {
        Err(OUTLINES_UNREAD@)
    }
}

/// `opml::OPML::from_str`: the outlines of the document's body, or the error's message. The reading
/// recurses with the depth of the outlines and does not always ask what an end tag closes, so its
/// callers keep from it documents that are deep or whose tags do not match.
#[verifier::external_body]
fn read_opml(text: &str) -> (r: Result<Vec<opml::Outline>, String>)
    requires
        is_shallow(text@),
    ensures
        match (r, outlines_in(text@)) {
            (Ok(v), Ok(want)) => v@.map_values(|o: opml::Outline| outline_contents(o)) == want,
            (Err(m), Err(t)) => m@ == t,
            _ => false,
        },
{
    opml::OPML::from_str(text).map(|d| d.body.outlines).map_err(|e| e.to_string())
}

/// The fields `xml_url` and `outlines` of an `opml::Outline`.
#[verifier::external_body]
fn outline_parts(o: opml::Outline) -> (r: (Option<String>, Vec<opml::Outline>))
    ensures
        outline_contents(o) == (OutlineView::Node {
            xml_url: r.0.deep_view(),
            outlines: r.1@.map_values(|c: opml::Outline| outline_contents(c)),
        }),
{
    (o.xml_url, o.outlines)
}

fn own_outline(o: opml::Outline) -> (r: FeedOutline)
    ensures
        r@ == outline_contents(o),
    decreases outline_contents(o),
{
    let ghost whole = outline_contents(o);
    let (xml_url, below) = outline_parts(o);
    let ghost views = below@.map_values(|c: opml::Outline| outline_contents(c));
    let ghost given = below@;
    let mut outlines: Vec<FeedOutline> = Vec::new();
    for c in it: below.into_iter()
        invariant
            it.seq() == given,
            views == given.map_values(|c: opml::Outline| outline_contents(c)),
            whole == outline_contents(o),
            whole == (OutlineView::Node { xml_url: xml_url.deep_view(), outlines: views }),
            outlines@.len() == it.index(),
            forall|k: int| 0 <= k < it.index() ==> #[trigger] outlines@[k]@ == views[k],
    {
        assert(c == given[it.index()]);
        assert(views[it.index()] == outline_contents(c));
        assert(decreases_to!(whole => whole->outlines));
        assert(decreases_to!(whole->outlines => whole->outlines[it.index()]));
        outlines.push(own_outline(c));
    }
    let r = FeedOutline { xml_url, outlines };
    proof {
        lemma_outline_view(r);
        assert(outline_views(r.outlines@) =~= views);
    }
    r
}

/// The outlines of an OPML document, or what is wrong with it.
pub fn parse_opml(text: &str) -> (r: Result<Vec<FeedOutline>, String>)
    ensures
        match (r, outlines_value(text@)) {
            (Ok(v), Ok(want)) => outline_views(v@) == want,
            (Err(m), Err(t)) => m@ == t,
            _ => false,
        },
{
    if !is_tame(&chars_of(text), Times::Unread) {
        return Err(OUTLINES_UNREAD.to_owned());
    }
    match read_opml(text) {
        Ok(v) => {
            let ghost given = v@;
            let mut out: Vec<FeedOutline> = Vec::new();
            for o in it: v.into_iter()
                invariant
                    it.seq() == given,
                    out@.len() == it.index(),
                    forall|k: int|
                        0 <= k < it.index() ==> #[trigger] out@[k]@ == outline_contents(given[k]),
            {
                assert(o == given[it.index()]);
                out.push(own_outline(o));
            }
            assert(outline_views(out@) =~= given.map_values(|o: opml::Outline| outline_contents(o)));
            Ok(out)
        },
        Err(m) => Err(m),
    }
}

/// The addresses in an outline: its own, then those below it.
pub open spec fn addresses_of(o: OutlineView) -> Seq<Seq<char>>
    decreases o,
{
    (match o->xml_url {
        Some(u) => seq![u],
        None => Seq::empty(),
    }) + addresses_in(o->outlines)
}

/// The addresses in some outlines, in the order of the document.
pub open spec fn addresses_in(v: Seq<OutlineView>) -> Seq<Seq<char>>
    decreases v,
{
    if v.len() == 0 {
        Seq::empty()
    } else {
        addresses_of(v[0]) + addresses_in(v.subrange(1, v.len() as int))
    }
}

/// The URL is one to add: it says something, is no comment, and is not there yet.
pub open spec fn is_new_url(urls: Seq<Seq<char>>, u: Seq<char>) -> bool {
    u.len() > 0 && u[0] != '#' && !urls.contains(u)
}

/// The URLs with one more, trimmed, where it is one to add.
pub open spec fn with_url(urls: Seq<Seq<char>>, u: Seq<char>) -> Seq<Seq<char>> {
    if is_new_url(urls, crate::text::trimmed(u)) {
        urls.push(crate::text::trimmed(u))
    } else {
        urls
    }
}

/// The URLs with more, in order.
pub open spec fn with_urls(urls: Seq<Seq<char>>, more: Seq<Seq<char>>) -> Seq<Seq<char>>
    decreases more.len(),
{
    if more.len() == 0 {
        urls
    } else {
        with_url(with_urls(urls, more.drop_last()), more.last())
    }
}

/// What the arguments name: each stands for itself, and `-` for the lines of standard input.
pub open spec fn named(args: Seq<Seq<char>>, stdin: Seq<char>) -> Seq<Seq<char>>
    decreases args.len(),
{
    if args.len() == 0 {
        Seq::empty()
    } else {
        named(args.drop_last(), stdin) + (if args.last() == "-"@ {
            crate::text::pieces(stdin, '\n')
        } else {
            seq![args.last()]
        })
    }
}

/// The lines of a file, if there is one.
pub open spec fn file_lines(text: Option<Seq<char>>) -> Seq<Seq<char>> {
    match text {
        Some(s) => crate::text::pieces(s, '\n'),
        None => Seq::empty(),
    }
}

/// All URLs from all sources, in order, each once.
pub open spec fn gathered_urls(
    args: Seq<Seq<char>>,
    stdin: Seq<char>,
    input: Option<Seq<char>>,
    outlines: Seq<OutlineView>,
) -> Seq<Seq<char>> {
    with_urls(
        Seq::empty(),
        named(args, stdin) + file_lines(input) + addresses_in(outlines),
    )
}

/// What the sources give: their URLs, or what is wrong.
pub open spec fn urls_value(
    args: Seq<Seq<char>>,
    stdin: Seq<char>,
    input: Option<Seq<char>>,
    outlines: Option<Result<Seq<OutlineView>, Seq<char>>>,
) -> Result<Seq<Seq<char>>, Seq<char>> {
    match outlines {
        Some(Err(m)) => Err("invalid OPML: "@ + m),
        _ => {
            let urls = gathered_urls(
                args,
                stdin,
                input,
                match outlines {
                    Some(Ok(v)) => v,
                    _ => Seq::empty(),
                },
            );
            if urls.len() == 0 {
                Err("no feed URLs provided (pass URLs, --input, --opml, or `-` for stdin)"@)
            } else {
                Ok(urls)
            }
        },
    }
}

/// The result gives the URLs wanted, or a usage error with the message wanted.
pub open spec fn gives_urls(r: Result<Vec<String>, RssError>, want: Result<Seq<Seq<char>>, Seq<char>>) -> bool {
    match (r, want) {
        (Ok(v), Ok(urls)) => v.deep_view() == urls,
        (Err(RssError::Usage(m)), Err(t)) => m@ == t,
        _ => false,
    }
}

proof fn lemma_with_more(urls: Seq<Seq<char>>, a: Seq<Seq<char>>, b: Seq<Seq<char>>)
    ensures
        with_urls(urls, a + b) == with_urls(with_urls(urls, a), b),
    decreases b.len(),
{
    if b.len() == 0 {
        assert(a + b =~= a);
    } else {
        lemma_with_more(urls, a, b.drop_last());
        assert((a + b).drop_last() =~= a + b.drop_last());
        assert((a + b).last() == b.last());
    }
}

proof fn lemma_with_one(urls: Seq<Seq<char>>, u: Seq<char>)
    ensures
        with_urls(urls, seq![u]) == with_url(urls, u),
{
    assert(seq![u].drop_last() =~= Seq::<Seq<char>>::empty());
    assert(seq![u].last() == u);
    reveal_with_fuel(with_urls, 2);
}

fn push_url(urls: &mut Vec<String>, u: &str)
    ensures
        final(urls).deep_view() == with_url(old(urls).deep_view(), u@),
{
    let ghost before = urls.deep_view();
    let t = trim(u);
    let v = chars_of(t.as_str());
    if v.len() == 0 || v[0] == '#' {
        return;
    }
    let mut i: usize = 0;
    while i < urls.len()
        invariant
            i <= urls@.len(),
            before == urls.deep_view(),
            before == old(urls).deep_view(),
            t@ == crate::text::trimmed(u@),
            forall|k: int| 0 <= k < i ==> #[trigger] before[k] != t@,
        decreases urls@.len() - i,
    {
        if same(urls[i].as_str(), t.as_str()) {
            assert(before[i as int] == t@);
            assert(before.contains(t@));
            return;
        }
        i = i + 1;
    }
    assert(!before.contains(t@));
    urls.push(t);
    assert(urls.deep_view() =~= before.push(crate::text::trimmed(u@)));
}

fn push_lines(urls: &mut Vec<String>, text: &str)
    ensures
        final(urls).deep_view() == with_urls(old(urls).deep_view(), crate::text::pieces(text@, '\n')),
{
    let lines = split_on(text, '\n');
    let ghost all = lines.deep_view();
    let ghost start = urls.deep_view();
    let mut i: usize = 0;
    assert(all.take(0) =~= Seq::empty());
    while i < lines.len()
        invariant
            all == lines.deep_view(),
            i <= lines@.len(),
            urls.deep_view() == with_urls(start, all.take(i as int)),
        decreases lines@.len() - i,
    {
        proof {
            assert(all.take(i + 1).drop_last() =~= all.take(i as int));
            assert(all.take(i + 1).last() == lines@[i as int]@);
        }
        push_url(urls, lines[i].as_str());
        i = i + 1;
    }
    assert(all.take(i as int) =~= all);
}

/// Adds the addresses in some outlines, in the order of the document.
pub fn collect_opml_urls(outlines: &Vec<FeedOutline>, urls: &mut Vec<String>)
    ensures
        final(urls).deep_view() == with_urls(
            old(urls).deep_view(),
            addresses_in(outline_views(outlines@)),
        ),
    decreases outlines,
{
    let ghost views = outline_views(outlines@);
    let ghost start = urls.deep_view();
    let mut i: usize = 0;
    proof {
        assert(views.subrange(0, views.len() as int) =~= views);
        assert(Seq::<Seq<char>>::empty() + addresses_in(views) =~= addresses_in(views));
        assert(with_urls(start, Seq::empty()) == start);
    }
    let ghost mut seen: Seq<Seq<char>> = Seq::empty();
    while i < outlines.len()
        invariant
            views == outline_views(outlines@),
            i <= outlines@.len(),
            seen + addresses_in(views.subrange(i as int, views.len() as int)) == addresses_in(views),
            urls.deep_view() == with_urls(start, seen),
        decreases outlines@.len() - i,
    {
        let o = &outlines[i];
        let ghost tail = views.subrange(i as int, views.len() as int);
        let ghost own = match o.xml_url.deep_view() {
            Some(u) => seq![u],
            None => Seq::<Seq<char>>::empty(),
        };
        let ghost below = addresses_in(outline_views(o.outlines@));
        proof {
            assert(tail[0] == o@);
            assert(tail.subrange(1, tail.len() as int) =~= views.subrange(
                i + 1,
                views.len() as int,
            ));
            assert(o@->outlines =~= outline_views(o.outlines@));
            assert(addresses_of(o@) == own + below);
            lemma_with_more(start, seen, own);
            lemma_with_more(start, seen + own, below);
            assert(decreases_to!(outlines => outlines@));
            assert(decreases_to!(outlines@ => outlines@[i as int]));
            assert(decreases_to!(outlines@[i as int] => outlines@[i as int].outlines));
        }
        if let Some(u) = &o.xml_url {
            proof {
                lemma_with_one(urls.deep_view(), u@);
            }
            push_url(urls, u.as_str());
        } else {
            assert(seen + own =~= seen);
        }
        collect_opml_urls(&o.outlines, urls);
        proof {
            assert(seen + own + below + addresses_in(views.subrange(i + 1, views.len() as int))
                =~= seen + addresses_in(tail));
            seen = seen + own + below;
        }
        i = i + 1;
    }
    proof {
        assert(views.subrange(i as int, views.len() as int) =~= Seq::empty());
        assert(seen =~= addresses_in(views));
    }
}

fn push_named(urls: &mut Vec<String>, args: &Vec<String>, stdin: &str)
    ensures
        final(urls).deep_view() == with_urls(old(urls).deep_view(), named(args.deep_view(), stdin@)),
{
    let ghost all = args.deep_view();
    let ghost start = urls.deep_view();
    let mut i: usize = 0;
    assert(all.take(0) =~= Seq::empty());
    while i < args.len()
        invariant
            all == args.deep_view(),
            i <= args@.len(),
            urls.deep_view() == with_urls(start, named(all.take(i as int), stdin@)),
        decreases args@.len() - i,
    {
        proof {
            let t = all.take(i + 1);
            assert(t.drop_last() =~= all.take(i as int));
            assert(t.last() == args@[i as int]@);
            let now = named(all.take(i as int), stdin@);
            lemma_with_more(start, now, crate::text::pieces(stdin@, '\n'));
            lemma_with_more(start, now, seq![args@[i as int]@]);
            lemma_with_one(urls.deep_view(), args@[i as int]@);
        }
        if same(args[i].as_str(), "-") {
            push_lines(urls, stdin);
        } else {
            push_url(urls, args[i].as_str());
        }
        i = i + 1;
    }
    assert(all.take(i as int) =~= all);
}

impl FetchArgs {
    /// The feed URLs of all sources, each once, in order. The sources are the arguments and what was
    /// read for them: standard input, the input file, and the outlines of the OPML file.
    pub fn urls_from(
        &self,
        stdin: &str,
        input: Option<&str>,
        outlines: Option<Result<Vec<FeedOutline>, String>>,
    ) -> (r: Result<Vec<String>, RssError>)
        ensures
            gives_urls(
                r,
                urls_value(
                    self.urls.deep_view(),
                    stdin@,
                    crate::identity::chars(input),
                    match outlines {
                        Some(Ok(v)) => Some(Ok(outline_views(v@))),
                        Some(Err(m)) => Some(Err(m@)),
                        None => None,
                    },
                ),
            ),
    {
        let mut urls: Vec<String> = Vec::new();
        let ghost a = named(self.urls.deep_view(), stdin@);
        let ghost b = file_lines(crate::identity::chars(input));
        proof {
            assert(urls.deep_view() =~= Seq::<Seq<char>>::empty());
            lemma_with_more(Seq::empty(), a, b);
            assert(a + b + Seq::<Seq<char>>::empty() =~= a + b);
            assert(addresses_in(Seq::empty()) =~= Seq::<Seq<char>>::empty());
        }
        push_named(&mut urls, &self.urls, stdin);
        if let Some(text) = input {
            push_lines(&mut urls, text);
        } else {
            assert(a + b =~= a);
        }
        if let Some(read) = outlines {
            match read {
                Ok(v) => {
                    proof {
                        lemma_with_more(Seq::empty(), a + b, addresses_in(outline_views(v@)));
                    }
                    collect_opml_urls(&v, &mut urls);
                },
                Err(m) => {
                    return Err(
                        RssError::Usage("invalid OPML: ".to_owned().concat(m.as_str())),
                    );
                },
            }
        }
        if urls.len() == 0 {
            return Err(
                RssError::Usage(
                    "no feed URLs provided (pass URLs, --input, --opml, or `-` for stdin)".to_owned(),
                ),
            );
        }
        Ok(urls)
    }

    /// The feed URLs of all sources, each once, in order. `stdin`, `input` and `opml` are the texts
    /// that were read.
    pub fn collect_urls(&self, stdin: &str, input: Option<&str>, opml: Option<&str>) -> (r: Result<
        Vec<String>,
        RssError,
    >)
        ensures
            gives_urls(
                r,
                urls_value(
                    self.urls.deep_view(),
                    stdin@,
                    crate::identity::chars(input),
                    match opml {
                        Some(text) => Some(outlines_value(text@)),
                        None => None,
                    },
                ),
            ),
    {
        let outlines = match opml {
            Some(text) => Some(parse_opml(text)),
            None => None,
        };
        self.urls_from(stdin, input, outlines)
    }
}

/// Parses a `--since` value: a duration (`2h`, `7d`) that reaches back from now, an RFC-3339
/// instant, or a date.
pub fn parse_since(s: &str) -> (r: Result<Timestamp, RssError>)
    ensures
        exists|now: Timestamp|
            crate::config::agrees(r, crate::config::since_value(s@, now, "--since"@)),
{
    let now = now_utc();
    resolve_since(s, now, "--since")
}

/// The exit code of a command that failed.
pub open spec fn failure_code(e: RssError) -> i32 {
    if e is Usage || e is InvalidUrl {
        exit::USAGE
    } else {
        exit::UNEXPECTED
    }
}

/// The exit code of a command that failed.
pub fn exit_code_of(e: &RssError) -> (r: i32)
    ensures
        r == failure_code(*e),
{
    match e {
        RssError::Usage(_) => exit::USAGE,
        RssError::InvalidUrl(_) => exit::USAGE,
        _ => exit::UNEXPECTED,
    }
}

/// The log level of a verbosity.
pub open spec fn level_text(verbose: u8) -> Seq<char> {
    if verbose == 0 {
        "warn"@
    } else if verbose == 1 {
        "info"@
    } else if verbose == 2 {
        "debug"@
    } else {
        "trace"@
    }
}

/// The log level of a verbosity.
pub fn log_level(verbose: u8) -> (r: &'static str)
    ensures
        r@ == level_text(verbose),
{
    if verbose == 0 {
        "warn"
    } else if verbose == 1 {
        "info"
    } else if verbose == 2 {
        "debug"
    } else {
        "trace"
    }
}

/// No URL is collected twice, none is blank and none is a comment.
pub proof fn law_collected_urls_are_distinct(more: Seq<Seq<char>>)
    ensures
        with_urls(Seq::empty(), more).no_duplicates(),
        forall|k: int|
            #![trigger with_urls(Seq::empty(), more)[k]]
            0 <= k < with_urls(Seq::empty(), more).len() ==> {
                &&& with_urls(Seq::empty(), more)[k].len() > 0
                &&& with_urls(Seq::empty(), more)[k][0] != '#'
            },
    decreases more.len(),
{
    if more.len() > 0 {
        law_collected_urls_are_distinct(more.drop_last());
        let before = with_urls(Seq::empty(), more.drop_last());
        let u = crate::text::trimmed(more.last());
        if is_new_url(before, u) {
            let after = before.push(u);
            assert forall|i: int, j: int| 0 <= i < after.len() && 0 <= j < after.len() && i
                != j implies after[i] != after[j] by {
                if i == before.len() {
                    assert(before.contains(before[j]));
                } else if j == before.len() {
                    assert(before.contains(before[i]));
                }
            }
        }
    }
}

} // verus!
