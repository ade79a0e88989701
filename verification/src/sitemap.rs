//! The XML sitemap of a generated site.
use vstd::prelude::*;

use crate::routing::SiteUrl;
use crate::text::{
    chars_of, contains_text, lemma_contains_text_extend, lemma_contains_text_self,
    lemma_strip_leading_skip, push_str, string_from_range, strip_leading,
};

verus! {

/// The replacement text that XML escaping gives one character.
pub open spec fn xml_escape_char(c: char) -> Seq<char> {
    if c == '<' {
        seq!['&', 'l', 't', ';']
    } else if c == '>' {
        seq!['&', 'g', 't', ';']
    } else if c == '&' {
        seq!['&', 'a', 'm', 'p', ';']
    } else if c == '\'' {
        seq!['&', 'a', 'p', 'o', 's', ';']
    } else if c == '"' {
        seq!['&', 'q', 'u', 'o', 't', ';']
    } else if c == '\r' {
        seq!['&', '#', '1', '3', ';']
    } else {
        seq![c]
    }
}

/// `s` with each character replaced by its XML escape.
pub open spec fn xml_escaped(s: Seq<char>) -> Seq<char>
    decreases s.len(),
{
    if s.len() == 0 {
        Seq::empty()
    } else {
        xml_escaped(s.drop_last()) + xml_escape_char(s.last())
    }
}

/// Whether `c` is a character that XML escaping removes from text.
pub open spec fn is_xml_markup(c: char) -> bool {
    c == '<' || c == '>' || c == '"' || c == '\'' || c == '\r'
}

/// Escaped text holds no `<`, `>`, quote or carriage return, so a location
/// cannot break out of its element.
pub proof fn law_xml_escaped_is_inert(s: Seq<char>)
    ensures
        forall|i: int| 0 <= i < xml_escaped(s).len() ==> !is_xml_markup(#[trigger] xml_escaped(s)[i]),
    decreases s.len(),
{
    if s.len() > 0 {
        law_xml_escaped_is_inert(s.drop_last());
        let prev = xml_escaped(s.drop_last());
        let tail = xml_escape_char(s.last());
        assert forall|j: int| 0 <= j < tail.len() implies !is_xml_markup(#[trigger] tail[j]) by {
        }
        assert forall|i: int| 0 <= i < xml_escaped(s).len() implies !is_xml_markup(
            #[trigger] xml_escaped(s)[i],
        ) by {
            if i < prev.len() {
                assert(xml_escaped(s)[i] == prev[i]);
            } else {
                assert(xml_escaped(s)[i] == tail[i - prev.len()]);
            }
        }
    }
}

/// Escapes XML text with `quick_xml::escape::escape`.
///
/// Trusted: quick-xml documents (and its source does) that `escape` replaces
/// `<`, `>`, `&`, `'`, `"` and carriage return with `&lt;`, `&gt;`, `&amp;`,
/// `&apos;`, `&quot;` and `&#13;`, and copies every other character.
#[verifier::external_body]
fn escape_xml_text(s: &str) -> (res: String)
    ensures
        res@ == xml_escaped(s@),
{
    quick_xml::escape::escape(s).into_owned()
}

/// The absolute URL of `path` under `site_url`: the site URL followed by the path
/// without its leading `/` characters.
pub open spec fn absolute_url_of(site_url: Seq<char>, path: Seq<char>) -> Seq<char> {
    site_url + strip_leading(path, '/')
}

/// The absolute URL of `path` under `site_url`.
fn absolute_url(site_url: &SiteUrl, path: &str) -> (res: String)
    ensures
        res@ == absolute_url_of(site_url@, path@),
{
    let base = site_url.as_str();
    let v = chars_of(path);
    let mut start: usize = 0;
    while start < v.len() && v[start] == '/'
        invariant
            start <= v@.len(),
            forall|j: int| 0 <= j < start ==> v@[j] == '/',
        decreases v@.len() - start,
    {
        start += 1;
    }
    let rest = string_from_range(&v, start, v.len());
    proof {
        lemma_strip_leading_skip(v@, '/', start as int);
        assert(v@.subrange(start as int, v@.len() as int) == v@.skip(start as int));
        assert(strip_leading(v@.skip(start as int), '/') == v@.skip(start as int));
    }
    let mut res = crate::text::owned(base);
    push_str(&mut res, rest.as_str());
    res
}

/// The `<url>` element of one sitemap entry, on its own indented lines.
pub open spec fn sitemap_entry(url: Seq<char>) -> Seq<char> {
    "\n  <url>\n    <loc>"@ + xml_escaped(url) + "</loc>\n  </url>"@
}

/// The entries of a sitemap for `paths` under `site_url`, in order.
pub open spec fn sitemap_entries(site_url: Seq<char>, paths: Seq<Seq<char>>) -> Seq<char>
    decreases paths.len(),
{
    if paths.len() == 0 {
        Seq::empty()
    } else {
        sitemap_entries(site_url, paths.drop_last()) + sitemap_entry(
            absolute_url_of(site_url, paths.last()),
        )
    }
}

/// The sitemap document: the XML declaration, a `urlset` in the sitemap namespace and
/// one `url` entry per path, indented by two spaces per level.
pub open spec fn sitemap_document(site_url: Seq<char>, paths: Seq<Seq<char>>) -> Seq<char> {
    "<?xml version=\"1.0\" encoding=\"UTF-8\"?>\n<urlset xmlns=\"http://www.sitemaps.org/schemas/sitemap/0.9\">"@
        + sitemap_entries(site_url, paths) + "\n</urlset>"@
}

/// Renders the sitemap of `paths` under `site_url`.
pub fn render(site_url: &SiteUrl, paths: &[&str]) -> (res: String)
    ensures
        res@ == sitemap_document(site_url@, paths@.map_values(|p: &str| p@)),
{
    let ghost views = paths@.map_values(|p: &str| p@);
    let mut out = crate::text::owned(
        "<?xml version=\"1.0\" encoding=\"UTF-8\"?>\n<urlset xmlns=\"http://www.sitemaps.org/schemas/sitemap/0.9\">",
    );
    let mut i: usize = 0;
    while i < paths.len()
        invariant
            i <= paths@.len(),
            views == paths@.map_values(|p: &str| p@),
            out@ == "<?xml version=\"1.0\" encoding=\"UTF-8\"?>\n<urlset xmlns=\"http://www.sitemaps.org/schemas/sitemap/0.9\">"@
                + sitemap_entries(site_url@, views.take(i as int)),
        decreases paths@.len() - i,
    {
        let url = absolute_url(site_url, paths[i]);
        let escaped = escape_xml_text(url.as_str());
        push_str(&mut out, "\n  <url>\n    <loc>");
        push_str(&mut out, escaped.as_str());
        push_str(&mut out, "</loc>\n  </url>");
        proof {
            assert(views.take(i + 1).drop_last() == views.take(i as int));
            assert(views.take(i + 1).last() == paths@[i as int]@);
        }
        i += 1;
    }
    push_str(&mut out, "\n</urlset>");
    proof {
        assert(views.take(paths@.len() as int) == views);
    }
    out
}

/// The sitemap holds one `url` entry for every path, located under the site URL.
pub proof fn law_sitemap_lists_every_path(site_url: Seq<char>, paths: Seq<Seq<char>>, k: int)
    requires
        0 <= k < paths.len(),
    ensures
        contains_text(
            sitemap_document(site_url, paths),
            sitemap_entry(absolute_url_of(site_url, paths[k])),
        ),
{
    lemma_entries_list_path(site_url, paths, k);
    let head = "<?xml version=\"1.0\" encoding=\"UTF-8\"?>\n<urlset xmlns=\"http://www.sitemaps.org/schemas/sitemap/0.9\">"@;
    let entry = sitemap_entry(absolute_url_of(site_url, paths[k]));
    lemma_contains_text_extend(head, sitemap_entries(site_url, paths), entry);
    lemma_contains_text_extend(head + sitemap_entries(site_url, paths), "\n</urlset>"@, entry);
}

proof fn lemma_entries_list_path(site_url: Seq<char>, paths: Seq<Seq<char>>, k: int)
    requires
        0 <= k < paths.len(),
    ensures
        contains_text(sitemap_entries(site_url, paths), sitemap_entry(absolute_url_of(site_url, paths[k]))),
    decreases paths.len(),
{
    let prev = paths.drop_last();
    let last = sitemap_entry(absolute_url_of(site_url, paths.last()));
    let entry = sitemap_entry(absolute_url_of(site_url, paths[k]));
    if k == paths.len() - 1 {
        lemma_contains_text_self(last);
        lemma_contains_text_extend(sitemap_entries(site_url, prev), last, entry);
    } else {
        assert(prev[k] == paths[k]);
        lemma_entries_list_path(site_url, prev, k);
        lemma_contains_text_extend(sitemap_entries(site_url, prev), last, entry);
    }
}

} // verus!
