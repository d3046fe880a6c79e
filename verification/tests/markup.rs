use rss_cli::cli::{parse_opml, OUTLINES_UNREAD};
use rss_cli::config::FetchParams;
use rss_cli::content::{extract, extract_noting_fallback};
use rss_cli::error::RssError;
use rss_cli::markup::can_be_read;
use rss_cli::model::ContentFormat;
use rss_cli::parse::parse_feed;

fn podcast(extra: &str) -> String {
    format!(
        r#"<?xml version="1.0" encoding="UTF-8"?>
<rss version="2.0" xmlns:itunes="http://www.itunes.com/dtds/podcast-1.0.dtd" xmlns:media="http://search.yahoo.com/mrss/">
<channel><title>T</title><link>https://example.com/</link>
<item><title>One</title><guid>12345678901234567890</guid><link>https://example.com/1</link>{extra}</item>
</channel></rss>"#
    )
}

fn items_of(body: &str) -> Result<usize, RssError> {
    parse_feed(body.as_bytes(), "https://example.com/feed.xml", &FetchParams::default())
        .map(|f| f.items.len())
}

fn refused(body: &str) -> bool {
    match items_of(body) {
        Err(e) => {
            assert_eq!(e.code(), "FEED_PARSE_FAILED");
            e.message().contains("nests too deeply")
        }
        Ok(_) => false,
    }
}

#[test]
fn ordinary_times_are_read() {
    for extra in [
        "<itunes:duration>01:02:03</itunes:duration>",
        "<itunes:duration>3723.5</itunes:duration>",
        "<itunes:duration><![CDATA[00:35:12]]></itunes:duration>",
        "<itunes:duration>25分30秒</itunes:duration>",
        "<itunes:duration/>",
        "<itunes:duration>123456789012345</itunes:duration>",
        "<itunes:duration>01:02:03.123456789012345</itunes:duration>",
        "<itunes:duration >01:02:03</itunes:duration >",
        r#"<media:group><media:text start="00:00:03.000" end="12:00:00">x</media:text></media:group>"#,
        r#"<media:thumbnail url="https://e.com/12345678901234567890.jpg" time="12:05:01.123"/>"#,
    ] {
        assert_eq!(items_of(&podcast(extra)).unwrap(), 1, "{extra}");
    }
}

#[test]
fn a_time_that_cannot_be_read_is_refused() {
    for extra in [
        "<itunes:duration>99999999999999999999</itunes:duration>",
        "<itunes:duration>٣٤</itunes:duration>",
        "<itunes:duration>１２</itunes:duration>",
        "<itunes:duration>&#x0663;</itunes:duration>",
        "<itunes:duration><![CDATA[99999999999999999999]]></itunes:duration>",
        "<itunes:duration>9999999999<!-- -->9999999999</itunes:duration>",
        "<itunes:duration>1:9999999999999999:00:00</itunes:duration>",
        r#"<media:group><media:text start="99999999999999999999">x</media:text></media:group>"#,
        r#"<media:text a"="b" start="99999999999999999999" c"="d">x</media:text>"#,
        r#"<media:text a="1" a="x start='99999999999999999999' ">x</media:text>"#,
        r#"<media:group><media:text end = '٣'>x</media:text></media:group>"#,
        r#"<media:thumbnail url="u" time="99999999999999999999:00:00"/>"#,
    ] {
        assert!(refused(&podcast(extra)), "{extra}");
    }
}

#[test]
fn a_prefix_may_hold_nearly_anything() {
    for prefix in ["m/x", "m\u{a0}x", "m\u{b}x", "m\u{c}x", "m'>'x", "m\"<y/>\"x"] {
        let body = format!(
            r#"<rss version="2.0" xmlns:{prefix}="http://www.itunes.com/dtds/podcast-1.0.dtd"><channel><item><{prefix}:duration>99999999999999999999</{prefix}:duration></item></channel></rss>"#
        );
        assert!(refused(&body), "{prefix}");
        let body = body.replace("99999999999999999999", "99");
        assert!(can_be_read(&body), "{prefix}");
    }
}

#[test]
fn digits_elsewhere_do_not_matter() {
    let body = podcast(
        "<description><![CDATA[<duration>99999999999999999999</duration> ٣]]></description>",
    );
    assert_eq!(items_of(&body).unwrap(), 1);
    let json = r#"{"version":"https://jsonfeed.org/version/1","title":"T","items":[
        {"id":"1","content_text":"<duration>99999999999999999999</duration>"}]}"#;
    assert_eq!(items_of(json).unwrap(), 1);
}

#[test]
fn digits_of_another_encoding_are_not_trusted() {
    let head = r#"<?xml version="1.0" encoding="GBK"?><rss version="2.0"><channel><item>"#;
    assert!(can_be_read(&format!("{head}<duration>12</duration></item></channel></rss>")));
    assert!(!can_be_read(&format!("{head}<duration>é</duration></item></channel></rss>")));
    assert!(can_be_read(&format!("{head}<title>é</title></item></channel></rss>")));
    assert!(!can_be_read(&format!("{head}\u{1b}(J</item></channel></rss>")));
    assert!(can_be_read("<rss>\u{1b}(J</rss>"));
    assert!(can_be_read("<rss>\0</rss>"));
    assert!(!can_be_read("<\0r\0s\0s\0>\0"));
    assert!(!can_be_read("\u{fffd}\u{fffd}<\0r\0>\0"));
    assert!(!can_be_read(&format!("{head}\0</item></channel></rss>")));
    assert!(can_be_read("{\0"));
}

#[test]
fn deep_markup_is_refused() {
    let deep = |n: usize| {
        podcast(&format!("{}{}", "<media:content>".repeat(n), "</media:content>".repeat(n)))
    };
    assert_eq!(items_of(&deep(100)).unwrap(), 1);
    assert!(refused(&deep(200)));
    let flat = format!("<!-- {} -->", "</category>".repeat(300));
    assert!(refused(&podcast(&format!("{flat}{}", "<category>".repeat(300)))));
    let page = |n: usize| {
        podcast(&format!("<x>{}{}</x>", "<div>".repeat(n), "</div>".repeat(n)))
    };
    assert_eq!(items_of(&page(1000)).unwrap(), 1);
    assert!(refused(&page(10000)));
    assert!(refused("<rss><!x><channel/></rss>"));
    assert_eq!(items_of(&podcast(&"<br/>".repeat(500))).unwrap(), 1);
    assert_eq!(items_of(&podcast(&format!("<!-- {} -->", "<x>".repeat(500)))).unwrap(), 1);
    assert_eq!(
        items_of(&podcast(&format!("<description><![CDATA[{}]]></description>", "<p>".repeat(500))))
            .unwrap(),
        1
    );
}

#[test]
fn a_document_type_is_passed_over() {
    let plain = r#"<!DOCTYPE rss PUBLIC "-//Netscape//DTD RSS 0.91//EN" "http://my.netscape.com/rss.dtd">"#;
    let subset = r#"<!DOCTYPE rdf [ <!ENTITY % x PUBLIC "a>b" "c]d"> %x; ]>"#;
    let every = "<!DOCTYPE a [ <!ELEMENT b '> <?p ]> ?> <!-- ]> --> <!ATTLIST c d CDATA ']>'> ]>";
    let arrow = "<!DOCTYPE a [ <!-- -> --> ]>";
    let other = "<!DOCTYPE a [ <!OTHER> ]>";
    for (doctype, tame) in [(plain, true), (subset, true), (every, true), (arrow, false), (other, false)] {
        assert_eq!(can_be_read(&format!("{doctype}<rss><channel/></rss>")), tame, "{doctype}");
        let deep = "<category>".repeat(300);
        assert!(!can_be_read(&format!("{doctype}<rss>{deep}</rss>")), "{doctype}");
        assert!(parse_opml(&format!("{doctype}{}", outlines(3))).is_ok() == (doctype == plain));
        assert!(parse_opml(&format!("{doctype}{}", outlines(1000))).is_err());
    }
}

fn outlines(n: usize) -> String {
    format!(
        r#"<opml version="2.0"><head/><body>{}<outline text="a" xmlUrl="https://e.com/f"/>{}</body></opml>"#,
        r#"<outline text="a">"#.repeat(n),
        "</outline>".repeat(n)
    )
}

#[test]
fn deep_outlines_are_refused() {
    assert_eq!(parse_opml(&outlines(3)).unwrap().len(), 1);
    assert_eq!(parse_opml(&outlines(100)).unwrap().len(), 1);
    assert_eq!(parse_opml(&outlines(1000)).unwrap_err(), OUTLINES_UNREAD);
    let hidden = format!(
        r#"<opml version="2.0"><head/><body>{}</body></opml>"#,
        r#"<outline text="a"><x></outline></x>"#.repeat(1000)
    );
    assert_eq!(parse_opml(&hidden).unwrap_err(), OUTLINES_UNREAD);
    let declared = format!(
        "<!DOCTYPE x [<!ATTLIST a \">]><opml version='2.0'><head/><body>{}",
        "<outline text='a'>".repeat(100000)
    );
    assert_eq!(parse_opml(&declared).unwrap_err(), OUTLINES_UNREAD);
    let flat = format!(
        r#"<opml version="2.0"><head/><body>{}</body></opml>"#,
        r#"<outline text="a > b" xmlUrl="https://e.com/f"/>"#.repeat(1000)
    );
    assert_eq!(parse_opml(&flat).unwrap().len(), 1000);
}

#[test]
fn what_cannot_be_rendered_has_its_tags_cut_out() {
    let html = r#"<table><tr><td>a</td><td ROWSPAN="2" colspan="3">b</td></tr></table>"#;
    for format in [ContentFormat::Markdown, ContentFormat::Text] {
        assert_eq!(extract_noting_fallback(html, format), ("ab".to_owned(), true));
    }
    assert_eq!(extract(html, ContentFormat::Html), html);
    let long = "<p>x</p>".repeat(3000);
    assert!(extract_noting_fallback(&long, ContentFormat::Text).1);
    let short = "<p>x</p>".repeat(2000);
    assert!(!extract_noting_fallback(&short, ContentFormat::Text).1);
    for (list, fell) in [
        (r#"<ol start="9223372036854775807"><li>a</li></ol>"#, true),
        (r#"<OL START = '&#57;'><li>a</li></OL>"#, true),
        (r#"<ol start=7><li>a 12345678901234567890</li></ol> start = 1"#, false),
    ] {
        assert_eq!(extract_noting_fallback(list, ContentFormat::Markdown).1, fell, "{list}");
    }
    let plain = "<table><tr><td>a</td><td>b</td></tr></table>";
    let (text, fell) = extract_noting_fallback(plain, ContentFormat::Markdown);
    assert!(!fell && text.contains('a') && text.contains('b'));
}

#[test]
fn a_page_may_speak_of_spans() {
    let html = r#"<table><tr><td colspan="1">a</td><td>colspan and rowspan</td></tr></table>"#;
    let (text, fell) = extract_noting_fallback(html, ContentFormat::Markdown);
    assert!(!fell && text.contains("colspan and rowspan"), "{text}");
    let html = r#"<table><tr><td COLSPAN="2">a</td></tr><tr><td>b</td><td colspan=1>c</td></tr></table>"#;
    let theirs = html2text::config::plain().string_from_read(html.as_bytes(), 100).unwrap();
    assert_eq!(extract(html, ContentFormat::Markdown), theirs.trim());
    for html in ["<td colspan = 1>", "<td ROWSPAN='1'>", r#"<td colspan="0">"#, r#"<td colspan="100">"#] {
        assert!(extract_noting_fallback(html, ContentFormat::Text).1, "{html}");
    }
}

#[test]
fn blank_preformatted_blocks_are_not_laid_out() {
    let quoted = |inside: &str| {
        format!("{}<pre>{inside}</pre>{}", "<blockquote>".repeat(50), "</blockquote>".repeat(50))
    };
    let cell = |inside: &str| {
        format!("<table><tr><td><blockquote><pre>{inside}</pre></blockquote></td></tr></table>")
    };
    for inside in [
        "\t",
        "&#9;",
        "&#x9;",
        "&Tab;",
        " \u{301}",
        "<span title='> x <'>\t</span>",
        "<span a\"=\"> x <\"\">\t</span>",
        "<span=\"a b=\"> x\t\"></span>",
        "<span a=b=\"x c=\"> x\t\"></span>",
    ] {
        for format in [ContentFormat::Markdown, ContentFormat::Text] {
            assert!(extract_noting_fallback(&quoted(inside), format).1, "{inside:?}");
            assert!(extract_noting_fallback(&cell(inside), format).1, "{inside:?}");
        }
    }
    for inside in [
        "",
        " \n ",
        "\tx",
        "\n\t&lt;a&gt;",
        "<code class=\"language-go\">\tfunc main() {}</code>",
        "<span></span><code><span class='k'>\tlet</span></code>",
    ] {
        let html = format!("<p>before</p><blockquote><pre>{inside}</pre></blockquote><p>after</p>");
        let (text, fell) = extract_noting_fallback(&html, ContentFormat::Markdown);
        assert!(!fell && text.contains("before") && text.contains("after"), "{inside:?}");
        // Fifty quotes leave no room for anything that is seen; that is an answer too.
        extract_noting_fallback(&quoted(inside), ContentFormat::Markdown);
        extract_noting_fallback(&cell(inside), ContentFormat::Markdown);
    }
    assert!(!extract_noting_fallback("<prefix>\t</prefix>", ContentFormat::Text).1);
}

#[test]
fn characters_that_join_are_laid_out_by_others() {
    for (text, shown) in [
        ("\u{2764}\u{fe0f}", "\u{2764}\u{fe0f}"),
        ("&#x2764;&#xFE0F;", "\u{2764}\u{fe0f}"),
        ("&#10084;&#65039;", "\u{2764}\u{fe0f}"),
        ("\u{201c}\u{fe01}", "\u{201c}\u{fe01}"),
        ("\u{644}\u{627}", "\u{644}\u{627}"),
        ("&#0001604;\u{627}", "\u{644}\u{627}"),
        ("\u{1f44d}\u{1f3fd}\u{200d}\u{16d67}\u{16d68}", "\u{1f44d}\u{1f3fd}\u{200d}\u{16d67}\u{16d68}"),
        ("&#X1F3FD;\u{6b7}\u{a4f8}\u{a4fd}", "\u{1f3fd}\u{6b7}\u{a4f8}\u{a4fd}"),
    ] {
        let html = format!("<p>{text} <b>x</b></p>");
        let theirs = html2text::config::plain().string_from_read(html.as_bytes(), 100).unwrap();
        let ours = extract_noting_fallback(&html, ContentFormat::Markdown);
        assert_eq!(ours, (format!("{shown} **x**"), false), "{text}");
        assert_eq!(ours.0, theirs.trim());
        let long = format!("<p>{}<b>x</b> {text}</p>", text.repeat(200));
        let (got, fell) = extract_noting_fallback(&long, ContentFormat::Text);
        assert!(!fell);
        let words: String = got.split_whitespace().collect();
        assert_eq!(words, format!("{}x{shown}", shown.repeat(200)));
    }
    assert!(extract_noting_fallback("a&zwj;b", ContentFormat::Text).1);
    // A character that would stand in for another may stand alone, but not beside one it stands for.
    let alone = "<p>\u{e644}</p>";
    assert_eq!(extract_noting_fallback(alone, ContentFormat::Text), ("\u{e644}".to_owned(), false));
    for both in ["\u{e644}\u{644}", "&#xe644;\u{fe0f}", "\u{644}&#58948;"] {
        assert!(extract_noting_fallback(both, ContentFormat::Text).1, "{both}");
    }
    for text in ["\u{2764}", "&#8217;", "&#x1F600;", "&#99999999999999999999;", "caf\u{e9}", "\u{5d0}"] {
        assert!(!extract_noting_fallback(text, ContentFormat::Text).1, "{text}");
    }
    let wide = "\u{4e2d}".repeat(300);
    assert!(!extract_noting_fallback(&wide, ContentFormat::Markdown).1);
}

#[test]
fn many_open_tags_are_taken_apart() {
    for tag in ["<div>", "<b>", "<ul><li>", "<blockquote>", "<table><tr><td>"] {
        let most = 2500 / tag.matches('<').count();
        extract_noting_fallback(&format!("{}x", tag.repeat(most)), ContentFormat::Text);
        let (_, fell) = extract_noting_fallback(&tag.repeat(most + 1), ContentFormat::Text);
        assert!(fell, "{tag}");
    }
}
