//! What the command line and its values promise.

use vstd::prelude::*;

use crate::cli::{
    addresses_in, failure_code, gathered_urls, level_text, named, policy_value, urls_value,
    with_urls, FetchArgs, OutlineView,
};
use crate::config::{
    agrees, cache_policy_value, dedupe_value, duration_value, since_value, unit_secs, CachePolicy,
    DedupeMode, FetchParams,
};
use crate::error::RssError;
use crate::text::{all_digits, ascii_lowercase, digit_run, digits_value, is_digit, pieces, trimmed};
use crate::time::{date_day, rfc3339_instant, Duration, Timestamp};

verus! {

/// The length in seconds of a unit: a second, a minute, an hour, a day or a week.
pub open spec fn unit_length(unit: char) -> nat {
    if unit == 's' {
        1
    } else if unit == 'm' {
        60
    } else if unit == 'h' {
        60 * 60
    } else if unit == 'd' {
        24 * 60 * 60
    } else {
        7 * 24 * 60 * 60
    }
}

proof fn lemma_run_is(ds: Seq<char>, rest: Seq<char>)
    requires
        all_digits(ds),
        rest.len() > 0 ==> !is_digit(rest[0]),
    ensures
        digit_run(ds + rest) == ds.len(),
    decreases ds.len(),
{
    let s = ds + rest;
    if ds.len() > 0 {
        assert(is_digit(ds[0]));
        let t = ds.skip(1);
        assert forall|k: int| 0 <= k < t.len() implies is_digit(#[trigger] t[k]) by {
            assert(t[k] == ds[k + 1]);
        }
        lemma_run_is(t, rest);
        assert(s.skip(1) =~= t + rest);
        assert(s[0] == ds[0]);
    } else {
        assert(s =~= rest);
    }
}

/// A duration is a number and a unit: that many seconds, minutes, hours, days or weeks, whatever the white
/// space around it.
pub proof fn law_a_duration_is_a_number_of_units(s: Seq<char>, ds: Seq<char>, unit: char)
    requires
        ds.len() > 0,
        all_digits(ds),
        unit == 's' || unit == 'm' || unit == 'h' || unit == 'd' || unit == 'w',
        trimmed(s) == ds.push(unit),
    ensures
        digits_value(ds) <= u64::MAX && digits_value(ds) * unit_length(unit) <= u64::MAX ==> duration_value(
            s,
        ) == Ok::<Duration, Seq<char>>(
            Duration { millis: (digits_value(ds) * unit_length(unit) * 1000) as u128 },
        ),
        digits_value(ds) > u64::MAX || digits_value(ds) * unit_length(unit) > u64::MAX ==> duration_value(s)
            is Err,
{
    lemma_run_is(ds, seq![unit]);
    assert(ds.push(unit) =~= ds + seq![unit]);
    assert(ds.push(unit).take(ds.len() as int) =~= ds);
    assert(ds.push(unit).skip(ds.len() as int) =~= seq![unit]);
    lemma_units(seq![unit]);
}

proof fn lemma_units(u: Seq<char>)
    ensures
        unit_secs(u) is Some <==> u.len() == 1 && (u[0] == 's' || u[0] == 'm' || u[0] == 'h' || u[0] == 'd'
            || u[0] == 'w'),
        unit_secs(u) matches Some(n) ==> n == unit_length(u[0]),
{
    reveal_strlit("s");
    reveal_strlit("m");
    reveal_strlit("h");
    reveal_strlit("d");
    reveal_strlit("w");
    if u.len() == 1 {
        assert(u[0] == 's' ==> u =~= "s"@);
        assert(u[0] == 'm' ==> u =~= "m"@);
        assert(u[0] == 'h' ==> u =~= "h"@);
        assert(u[0] == 'd' ==> u =~= "d"@);
        assert(u[0] == 'w' ==> u =~= "w"@);
    }
}

/// What has no number, no unit or another unit is no duration.
pub proof fn law_anything_else_is_no_duration(s: Seq<char>, ds: Seq<char>, rest: Seq<char>)
    requires
        all_digits(ds),
        rest.len() > 0 ==> !is_digit(rest[0]),
        trimmed(s) == ds + rest,
        ds.len() == 0 || rest.len() != 1 || !(rest[0] == 's' || rest[0] == 'm' || rest[0] == 'h' || rest[0]
            == 'd' || rest[0] == 'w'),
    ensures
        duration_value(s) is Err,
        ds.len() == 0 || rest.len() == 0 ==> duration_value(s) == Err::<Duration, Seq<char>>(
            "invalid duration '"@ + trimmed(s) + "'"@,
        ),
        ds.len() > 0 && rest.len() > 0 && crate::text::digits_value(ds) <= u64::MAX ==> duration_value(s)
            == Err::<Duration, Seq<char>>("unknown duration unit '"@ + rest + "'"@),
{
    lemma_run_is(ds, rest);
    assert((ds + rest).take(ds.len() as int) =~= ds);
    assert((ds + rest).skip(ds.len() as int) =~= rest);
    lemma_units(rest);
}

/// A start of the window is a duration back from now, an instant, or the beginning of a day, the first of
/// these that it is; anything else is refused.
pub proof fn law_a_window_opens_by_span_instant_or_day(s: Seq<char>, now: Timestamp, label: Seq<char>)
    ensures
        duration_value(trimmed(s)) matches Ok(d) ==> {
            let secs = d.millis as int / 1000;
            &&& since_value(s, now, label) matches Ok(t) ==> t.secs == now.secs - secs && t.nanos == now.nanos
            &&& since_value(s, now, label) is Ok <==> secs <= 9_223_372_036_854_775 && now.secs - secs
                >= -8_334_601_228_800
        },
        duration_value(trimmed(s)) is Err && rfc3339_instant(trimmed(s)) is Some ==> since_value(s, now, label)
            == Ok::<Timestamp, Seq<char>>(rfc3339_instant(trimmed(s))->Some_0),
        duration_value(trimmed(s)) is Err && rfc3339_instant(trimmed(s)) is None ==> (date_day(
            trimmed(s),
            "%Y-%m-%d"@,
        ) matches Some(day) ==> since_value(s, now, label) == Ok::<Timestamp, Seq<char>>(
            Timestamp { secs: ((day - 719_163) * 86_400) as i64, nanos: 0 },
        )),
        duration_value(trimmed(s)) is Err && rfc3339_instant(trimmed(s)) is None && date_day(
            trimmed(s),
            "%Y-%m-%d"@,
        ) is None ==> since_value(s, now, label) == Err::<Timestamp, Seq<char>>(
            "invalid "@ + label + " value '"@ + trimmed(s) + "' (use e.g. '2h', '7d', or '2026-06-01')"@,
        ),
{
}

/// A cache policy is known by its name, whatever its case and the white space around it; nothing stands
/// for the usual one, and anything else is refused.
pub proof fn law_cache_policies_are_known_by_name(s: Seq<char>, dur: Seq<char>)
    ensures
        ({
            let t = ascii_lowercase(trimmed(s));
            &&& t.len() == 0 || t == "revalidate"@ ==> cache_policy_value(s) == Ok::<CachePolicy, Seq<char>>(
                CachePolicy::Revalidate,
            )
            &&& t == "no-cache"@ ==> cache_policy_value(s) == Ok::<CachePolicy, Seq<char>>(
                CachePolicy::NoCache,
            )
            &&& t == "cache-first"@ ==> cache_policy_value(s) == Ok::<CachePolicy, Seq<char>>(
                CachePolicy::CacheFirst,
            )
            &&& t == "max-age:"@ + dur && trimmed(dur).len() > 0 ==> match duration_value(dur) {
                Ok(d) => cache_policy_value(s) == Ok::<CachePolicy, Seq<char>>(CachePolicy::MaxAge(d)),
                Err(_) => cache_policy_value(s) is Err,
            }
            &&& cache_policy_value(s) is Ok ==> t.len() == 0 || t == "revalidate"@ || t == "no-cache"@ || t
                == "cache-first"@ || crate::text::has_prefix(t, "max-age:"@)
            &&& cache_policy_value(s) is Err && !crate::text::has_prefix(t, "max-age:"@)
                ==> cache_policy_value(s) == Err::<CachePolicy, Seq<char>>(
                "invalid cache_policy '"@ + t
                    + "' (expected revalidate | no-cache | cache-first | max-age:<duration>, e.g. max-age:15m)"@,
            )
        }),
{
    let t = ascii_lowercase(trimmed(s));
    reveal_strlit("");
    reveal_strlit("revalidate");
    reveal_strlit("no-cache");
    reveal_strlit("cache-first");
    reveal_strlit("max-age:");
    assert(t.len() == 0 ==> t =~= ""@);
    assert("no-cache"@.len() == 8 && "revalidate"@.len() == 10 && "cache-first"@.len() == 11);
    let p = "max-age:"@;
    assert(p[0] == 'm' && "no-cache"@[0] == 'n' && "revalidate"@[0] == 'r' && "cache-first"@[0] == 'c');
    if t == p + dur {
        assert(t[0] == 'm');
        assert(t.skip(p.len() as int) =~= dur);
        assert(t.subrange(0, p.len() as int) =~= p);
    }
}

/// A dedupe mode is known by its name, whatever its case and the white space around it; nothing stands for
/// reporting, and anything else is refused.
pub proof fn law_dedupe_modes_are_known_by_name(s: Seq<char>)
    ensures
        ({
            let t = ascii_lowercase(trimmed(s));
            &&& dedupe_value(s) == Ok::<DedupeMode, Seq<char>>(DedupeMode::Report) <==> t.len() == 0 || t
                == "report"@
            &&& dedupe_value(s) == Ok::<DedupeMode, Seq<char>>(DedupeMode::Off) <==> t == "off"@
            &&& dedupe_value(s) == Ok::<DedupeMode, Seq<char>>(DedupeMode::Drop) <==> t == "drop"@
            &&& dedupe_value(s) is Err ==> dedupe_value(s) == Err::<DedupeMode, Seq<char>>(
                "invalid dedupe '"@ + t + "' (expected report | off | drop)"@,
            )
        }),
        DedupeMode::Report.spelling() == "report"@,
        DedupeMode::Off.spelling() == "off"@,
        DedupeMode::Drop.spelling() == "drop"@,
{
    let t = ascii_lowercase(trimmed(s));
    reveal_strlit("");
    reveal_strlit("report");
    reveal_strlit("off");
    reveal_strlit("drop");
    assert(t.len() == 0 ==> t =~= ""@);
    assert("report"@.len() == 6 && "off"@.len() == 3 && "drop"@.len() == 4);
}

/// A value that is accepted is the value wanted, and one that is refused is a usage error with the reason.
pub proof fn law_values_are_given_or_refused<T>(r: Result<T, RssError>, want: Result<T, Seq<char>>)
    requires
        agrees(r, want),
    ensures
        want matches Ok(v) ==> r matches Ok(x) && x == v,
        want matches Err(t) ==> r matches Err(RssError::Usage(m)) && m@ == t,
{
}

/// The cache flags: `--no-cache` comes before all others, then `--refresh`, then `--max-age`; without any,
/// the origin is asked.
pub proof fn law_cache_flags(no_cache: bool, refresh: bool, age: Seq<char>)
    ensures
        policy_value(true, refresh, Some(age)) == Ok::<CachePolicy, Seq<char>>(CachePolicy::NoCache),
        policy_value(true, refresh, None) == Ok::<CachePolicy, Seq<char>>(CachePolicy::NoCache),
        policy_value(false, true, Some(age)) == Ok::<CachePolicy, Seq<char>>(CachePolicy::Revalidate),
        policy_value(false, refresh, None) == Ok::<CachePolicy, Seq<char>>(CachePolicy::Revalidate),
        duration_value(age) matches Ok(d) ==> policy_value(false, false, Some(age)) == Ok::<
            CachePolicy,
            Seq<char>,
        >(CachePolicy::MaxAge(d)),
        duration_value(age) is Err ==> policy_value(false, false, Some(age)) is Err,
{
}

/// A fetch is run as its arguments say: each of them has its parameter, no query and no deadline is set,
/// and at least one feed is fetched at a time.
pub proof fn law_arguments_become_parameters(a: FetchArgs, p: FetchParams, now: Timestamp)
    requires
        a.asks_for(p, now),
    ensures
        p.limit == a.limit,
        p.max_content_chars == a.max_content_chars,
        a.concurrency >= 1 ==> p.concurrency == a.concurrency,
        a.concurrency == 0 ==> p.concurrency == 1,
        p.timeout.millis == 1000 * a.timeout,
        a.user_agent matches Some(u) ==> p.user_agent@ == u@,
        a.user_agent is None ==> p.user_agent@ == "rss-cli/0.1.0 (+https://github.com/AnderEnder/rss-cli)"@,
        a.since is None ==> p.since is None,
        a.since matches Some(s) ==> (p.since matches Some(t) && since_value(s@, now, "--since"@) == Ok::<
            Timestamp,
            Seq<char>,
        >(t)),
        p.query is None && p.deadline is None,
        p.content_format == crate::cli::selected_content(a.content),
        policy_value(a.no_cache, a.refresh, a.max_age.deep_view()) == Ok::<CachePolicy, Seq<char>>(
            p.cache_policy,
        ),
{
}

/// Every URL that is named is collected, without the white space around it, unless it is blank or a
/// comment; nothing else is; and what comes first stays first.
pub proof fn law_no_url_is_lost(more: Seq<Seq<char>>) -> (at: Seq<int>)
    ensures
        at.len() == with_urls(Seq::empty(), more).len(),
        forall|k: int|
            0 <= k < at.len() ==> 0 <= #[trigger] at[k] < more.len() && with_urls(Seq::empty(), more)[k]
                == trimmed(more[at[k]]),
        forall|i: int, j: int| 0 <= i < j < at.len() ==> #[trigger] at[i] < #[trigger] at[j],
        forall|x: int|
            0 <= x < more.len() && trimmed(#[trigger] more[x]).len() > 0 && trimmed(more[x])[0] != '#'
                ==> exists|k: int|
                0 <= k < at.len() && at[k] <= x && #[trigger] with_urls(Seq::empty(), more)[k] == trimmed(
                    more[x],
                ),
    decreases more.len(),
{
    let all = with_urls(Seq::empty(), more);
    if more.len() == 0 {
        Seq::empty()
    } else {
        let r = more.drop_last();
        let before = with_urls(Seq::empty(), r);
        let p = law_no_url_is_lost(r);
        let n = more.len() - 1;
        let u = trimmed(more.last());
        assert(more[n] == more.last());
        let at = if crate::cli::is_new_url(before, u) {
            p.push(n)
        } else {
            p
        };
        assert forall|k: int| 0 <= k < at.len() implies 0 <= #[trigger] at[k] < more.len() && all[k] == trimmed(
            more[at[k]],
        ) by {
            if k < p.len() {
                assert(at[k] == p[k]);
                assert(r[p[k]] == more[p[k]]);
            }
        }
        assert forall|x: int|
            0 <= x < more.len() && trimmed(#[trigger] more[x]).len() > 0 && trimmed(more[x])[0]
                != '#' implies exists|k: int|
            0 <= k < at.len() && at[k] <= x && #[trigger] all[k] == trimmed(more[x]) by {
            if x < n {
                assert(r[x] == more[x]);
                let k = choose|k: int|
                    0 <= k < p.len() && p[k] <= x && #[trigger] before[k] == trimmed(r[x]);
                assert(at[k] == p[k] && all[k] == before[k]);
            } else if crate::cli::is_new_url(before, u) {
                assert(all[before.len() as int] == u);
                assert(at[before.len() as int] == n);
            } else {
                let k = choose|k: int| 0 <= k < before.len() && before[k] == u;
                assert(at[k] == p[k] && all[k] == u);
            }
        }
        at
    }
}

/// Where URLs were found they are given, and otherwise a usage error with the reason.
pub proof fn law_urls_are_given_or_refused(
    r: Result<Vec<String>, RssError>,
    want: Result<Seq<Seq<char>>, Seq<char>>,
)
    requires
        crate::cli::gives_urls(r, want),
    ensures
        want is Ok ==> r is Ok && r->Ok_0.deep_view() == want->Ok_0,
        want is Err ==> (r matches Err(RssError::Usage(m)) && m@ == want->Err_0),
{
}

/// No URL that is collected is blank, a comment or there twice.
pub proof fn law_each_url_says_something_once(more: Seq<Seq<char>>)
    ensures
        ({
            let all = with_urls(Seq::empty(), more);
            &&& forall|k: int| 0 <= k < all.len() ==> (#[trigger] all[k]).len() > 0 && all[k][0] != '#'
            &&& forall|i: int, j: int| 0 <= i < j < all.len() ==> #[trigger] all[i] != #[trigger] all[j]
        }),
    decreases more.len(),
{
    if more.len() > 0 {
        law_each_url_says_something_once(more.drop_last());
        let before = with_urls(Seq::empty(), more.drop_last());
        let u = trimmed(more.last());
        if crate::cli::is_new_url(before, u) {
            assert(!before.contains(u));
        }
    }
}

/// Arguments name URLs one by one, but for `-`, which names the lines of standard input.
pub proof fn law_arguments_name_urls(a: Seq<Seq<char>>, b: Seq<Seq<char>>, u: Seq<char>, stdin: Seq<char>)
    ensures
        named(a + b, stdin) == named(a, stdin) + named(b, stdin),
        named(seq!["-"@], stdin) == pieces(stdin, '\n'),
        u != "-"@ ==> named(seq![u], stdin) == seq![u],
        named(Seq::empty(), stdin).len() == 0,
    decreases b.len(),
{
    reveal_with_fuel(named, 2);
    assert(seq!["-"@].drop_last() =~= Seq::empty());
    assert(seq![u].drop_last() =~= Seq::empty());
    assert(named(seq!["-"@], stdin) =~= pieces(stdin, '\n'));
    assert(u != "-"@ ==> named(seq![u], stdin) =~= seq![u]);
    if b.len() == 0 {
        assert(a + b =~= a);
        assert(named(a, stdin) + named(b, stdin) =~= named(a, stdin));
    } else {
        law_arguments_name_urls(a, b.drop_last(), u, stdin);
        assert((a + b).drop_last() =~= a + b.drop_last());
        assert((a + b).last() == b.last());
        assert(named(a + b, stdin) =~= named(a, stdin) + named(b, stdin));
    }
}

/// The addresses in outlines are those of each and of what is below it, in the order of the document.
pub proof fn law_outlines_are_walked_in_order(
    a: Seq<OutlineView>,
    b: Seq<OutlineView>,
    url: Option<Seq<char>>,
    below: Seq<OutlineView>,
)
    ensures
        addresses_in(a + b) == addresses_in(a) + addresses_in(b),
        url is None ==> addresses_in(seq![OutlineView::Node { xml_url: url, outlines: below }])
            == addresses_in(below),
        url matches Some(u) ==> addresses_in(seq![OutlineView::Node { xml_url: url, outlines: below }]) == seq![
            u,
        ] + addresses_in(below),
    decreases a.len(),
{
    reveal_with_fuel(addresses_in, 2);
    let o = OutlineView::Node { xml_url: url, outlines: below };
    let one = seq![o];
    assert(one.subrange(1, 1) =~= Seq::empty());
    assert(addresses_in(one) =~= crate::cli::addresses_of(o));
    assert(Seq::<Seq<char>>::empty() + addresses_in(below) =~= addresses_in(below));
    if a.len() == 0 {
        assert(a + b =~= b);
        assert(addresses_in(a) + addresses_in(b) =~= addresses_in(b));
    } else {
        let r = a.subrange(1, a.len() as int);
        law_outlines_are_walked_in_order(r, b, url, below);
        assert((a + b).subrange(1, (a + b).len() as int) =~= r + b);
        assert((a + b)[0] == a[0]);
        assert(addresses_in(a + b) =~= addresses_in(a) + addresses_in(b));
    }
}

/// Outlines are read of a text without tags, and not of one that begins with an end tag.
pub proof fn law_outlines_are_read_where_tags_match(text: Seq<char>)
    ensures
        !text.contains('<') ==> crate::cli::outlines_value(text) == crate::cli::outlines_in(text),
        text.len() > 1 && text[0] == '<' && text[1] == '/' ==> crate::cli::outlines_value(text) is Err,
{
    if !text.contains('<') {
        lemma_no_tags(text, 0);
    }
    if text.len() > 1 && text[0] == '<' && text[1] == '/' {
        reveal_strlit("<!-");
        reveal_strlit("<![");
        reveal_strlit("<!");
        reveal_strlit("<?");
        reveal_strlit("<!D");
        reveal_strlit("<!d");
        reveal_strlit("</");
        assert forall|t: Seq<char>| t.len() >= 2 && t[1] != '/' implies !#[trigger] crate::text::occurs_at(
            text,
            t,
            0,
        ) by {
            if crate::text::occurs_at(text, t, 0) {
                assert(text.subrange(0, t.len() as int)[1] == t[1]);
            }
        }
        assert(!crate::text::occurs_at(text, "<!-"@, 0));
        assert(!crate::text::occurs_at(text, "<!["@, 0));
        assert(!crate::text::occurs_at(text, "<!"@, 0));
        assert(!crate::text::occurs_at(text, "<?"@, 0));
        assert(!crate::text::occurs_at(text, "<!D"@, 0));
        assert(!crate::text::occurs_at(text, "<!d"@, 0));
        assert(text.subrange(0, 2) =~= "</"@);
    }
}

proof fn lemma_no_tags(text: Seq<char>, i: int)
    requires
        0 <= i,
        !text.contains('<'),
    ensures
        crate::markup::is_tame_from(text, i, Seq::empty(), None, crate::markup::Times::Unread),
    decreases text.len() - i,
{
    if i < text.len() {
        assert(text[i] != '<');
        lemma_no_tags(text, i + 1);
    }
}

/// The URLs of all sources come in order: those that the arguments name, then those of the file, then
/// those of the outlines. An OPML file that cannot be read is a fault, and so is to name none at all.
pub proof fn law_sources_come_in_order(
    args: Seq<Seq<char>>,
    stdin: Seq<char>,
    input: Option<Seq<char>>,
    outlines: Seq<OutlineView>,
    fault: Seq<char>,
)
    ensures
        gathered_urls(args, stdin, input, outlines) == with_urls(
            Seq::empty(),
            named(args, stdin) + (match input {
                Some(text) => pieces(text, '\n'),
                None => Seq::empty(),
            }) + addresses_in(outlines),
        ),
        urls_value(args, stdin, input, Some(Err(fault))) is Err,
        ({
            let urls = gathered_urls(args, stdin, input, outlines);
            &&& urls.len() > 0 ==> urls_value(args, stdin, input, Some(Ok(outlines))) == Ok::<
                Seq<Seq<char>>,
                Seq<char>,
            >(urls)
            &&& urls.len() == 0 ==> urls_value(args, stdin, input, Some(Ok(outlines))) is Err
        }),
        ({
            let urls = gathered_urls(args, stdin, input, Seq::empty());
            &&& urls.len() > 0 ==> urls_value(args, stdin, input, None) == Ok::<Seq<Seq<char>>, Seq<char>>(urls)
            &&& urls.len() == 0 ==> urls_value(args, stdin, input, None) is Err
        }),
{
}

/// Wrong usage exits with 2 and anything else with 1; more verbosity logs more.
pub proof fn law_codes_and_levels(e: RssError, v: u8)
    ensures
        failure_code(e) == (if e is Usage || e is InvalidUrl {
            2i32
        } else {
            1i32
        }),
        level_text(0) == "warn"@,
        level_text(1) == "info"@,
        level_text(2) == "debug"@,
        v >= 3 ==> level_text(v) == "trace"@,
{
}

} // verus!
