//! Canonical application and static-output routes for one generated site.
use vstd::prelude::*;

use crate::routing::{BaseHref, Href, RoutePath, SiteUrl, route_href};
use crate::sitemap::{self, sitemap_document};
use crate::text::trim_char;
use vstd::std_specs::cmp::PartialEqSpecImpl;

verus! {

/// `paths` with `path` appended unless it is already present.
pub open spec fn push_unique(paths: Seq<Seq<char>>, path: Seq<char>) -> Seq<Seq<char>> {
    if paths.contains(path) {
        paths
    } else {
        paths.push(path)
    }
}

/// `paths` extended by each of `items` in turn, skipping those already present.
pub open spec fn push_all_unique(paths: Seq<Seq<char>>, items: Seq<Seq<char>>) -> Seq<Seq<char>>
    decreases items.len(),
{
    if items.len() == 0 {
        paths
    } else {
        push_unique(push_all_unique(paths, items.drop_last()), items.last())
    }
}

/// No path occurs twice.
pub open spec fn no_duplicates(paths: Seq<Seq<char>>) -> bool {
    forall|i: int, j: int| 0 <= i < j < paths.len() ==> paths[i] != paths[j]
}

/// The views of a sequence of hrefs.
pub open spec fn href_views(hrefs: Seq<Href>) -> Seq<Seq<char>> {
    hrefs.map_values(|h: Href| h@)
}

proof fn lemma_href_views_push(s: Seq<Href>, h: Href)
    ensures
        href_views(s.push(h)) == href_views(s).push(h@),
{
    assert(href_views(s.push(h)) =~= href_views(s).push(h@));
}

proof fn lemma_take_push<A>(s: Seq<A>, i: int)
    requires
        0 <= i < s.len(),
    ensures
        s.take(i + 1) == s.take(i).push(s[i]),
{
    assert(s.take(i + 1) =~= s.take(i).push(s[i]));
}

proof fn lemma_str_views_push(s: Seq<&str>, p: &str)
    ensures
        s.push(p).map_values(|q: &str| q@) == s.map_values(|q: &str| q@).push(p@),
{
    assert(s.push(p).map_values(|q: &str| q@) =~= s.map_values(|q: &str| q@).push(p@));
}

/// The abstract content of a manifest.
pub struct SiteRouteManifestView {
    pub site_url: Seq<char>,
    pub application_paths: Seq<Seq<char>>,
    pub static_paths: Seq<Seq<char>>,
}

/// Canonical application and static-output routes for one generated site.
///
/// Application routes receive fallback `index.html` files during assembly.
/// Both application and static paths are included in the sitemap.
#[derive(Debug)]
pub struct SiteRouteManifest {
    site_url: SiteUrl,
    application_paths: Vec<Href>,
    static_paths: Vec<Href>,
}

impl View for SiteRouteManifest {
    type V = SiteRouteManifestView;

    closed spec fn view(&self) -> SiteRouteManifestView {
        SiteRouteManifestView {
            site_url: self.site_url@,
            application_paths: href_views(self.application_paths@),
            static_paths: href_views(self.static_paths@),
        }
    }
}

/// The static outputs of every project site: the book and the LLM text files.
pub open spec fn project_static_path_views() -> Seq<Seq<char>> {
    seq!["/book/"@, "/llms.txt"@, "/llms-full.txt"@]
}

fn project_static_paths() -> (res: Vec<Href>)
    ensures
        href_views(res@) == project_static_path_views(),
{
    let res = vec![Href::new("/book/"), Href::new("/llms.txt"), Href::new("/llms-full.txt")];
    assert(href_views(res@) =~= project_static_path_views());
    res
}

fn clone_hrefs(paths: &Vec<Href>) -> (res: Vec<Href>)
    ensures
        href_views(res@) == href_views(paths@),
{
    let mut res: Vec<Href> = Vec::new();
    let mut i: usize = 0;
    while i < paths.len()
        invariant
            i <= paths@.len(),
            href_views(res@) == href_views(paths@).take(i as int),
        decreases paths@.len() - i,
    {
        let h = paths[i].clone();
        let ghost before = res@;
        res.push(h);
        proof {
            lemma_href_views_push(before, h);
            lemma_take_push(href_views(paths@), i as int);
        }
        i += 1;
    }
    proof {
        assert(href_views(paths@).take(paths@.len() as int) =~= href_views(paths@));
    }
    res
}

fn hrefs_eq(a: &Vec<Href>, b: &Vec<Href>) -> (res: bool)
    ensures
        res == (href_views(a@) == href_views(b@)),
{
    if a.len() != b.len() {
        proof {
            assert(href_views(a@).len() != href_views(b@).len());
        }
        return false;
    }
    let mut i: usize = 0;
    while i < a.len()
        invariant
            a@.len() == b@.len(),
            i <= a@.len(),
            forall|j: int| 0 <= j < i ==> a@[j]@ == b@[j]@,
        decreases a@.len() - i,
    {
        if a[i] != b[i] {
            proof {
                assert(href_views(a@)[i as int] != href_views(b@)[i as int]);
            }
            return false;
        }
        i += 1;
    }
    assert(href_views(a@) =~= href_views(b@));
    true
}

impl Clone for SiteRouteManifest {
    fn clone(&self) -> (res: Self)
        ensures
            res@ == self@,
    {
        SiteRouteManifest {
            site_url: self.site_url.clone(),
            application_paths: clone_hrefs(&self.application_paths),
            static_paths: clone_hrefs(&self.static_paths),
        }
    }
}

impl PartialEq for SiteRouteManifest {
    fn eq(&self, other: &Self) -> (res: bool) {
        self.site_url == other.site_url && hrefs_eq(&self.application_paths, &other.application_paths)
            && hrefs_eq(&self.static_paths, &other.static_paths)
    }
}

impl PartialEqSpecImpl for SiteRouteManifest {
    open spec fn obeys_eq_spec() -> bool {
        true
    }

    open spec fn eq_spec(&self, other: &Self) -> bool {
        self@ == other@
    }
}

impl Eq for SiteRouteManifest {}

/// Whether `paths` holds an href equal to `path`.
fn contains_path(paths: &Vec<Href>, path: &Href) -> (res: bool)
    ensures
        res == href_views(paths@).contains(path@),
{
    let mut i: usize = 0;
    while i < paths.len()
        invariant
            i <= paths@.len(),
            forall|j: int| 0 <= j < i ==> paths@[j]@ != path@,
        decreases paths@.len() - i,
    {
        if paths[i] == *path {
            proof {
                assert(href_views(paths@)[i as int] == path@);
            }
            return true;
        }
        i += 1;
    }
    proof {
        if href_views(paths@).contains(path@) {
            let k = choose|k: int| 0 <= k < href_views(paths@).len() && href_views(paths@)[k] == path@;
            assert(paths@[k]@ == path@);
        }
    }
    false
}

fn push_unique_path(paths: &mut Vec<Href>, path: Href)
    ensures
        href_views(final(paths)@) == push_unique(href_views(old(paths)@), path@),
{
    if !contains_path(paths, &path) {
        paths.push(path);
        proof {
            assert(href_views(paths@) =~= href_views(old(paths)@).push(path@));
        }
    }
}

fn push_all_unique_paths(paths: &mut Vec<Href>, items: Vec<Href>)
    ensures
        href_views(final(paths)@) == push_all_unique(href_views(old(paths)@), href_views(items@)),
{
    let ghost start = href_views(paths@);
    let ghost item_views = href_views(items@);
    let mut i: usize = 0;
    while i < items.len()
        invariant
            i <= items@.len(),
            item_views == href_views(items@),
            href_views(paths@) == push_all_unique(start, item_views.take(i as int)),
        decreases items@.len() - i,
    {
        push_unique_path(paths, items[i].clone());
        proof {
            assert(item_views.take(i + 1).drop_last() == item_views.take(i as int));
            assert(item_views.take(i + 1).last() == items@[i as int]@);
        }
        i += 1;
    }
    proof {
        assert(item_views.take(items@.len() as int) == item_views);
    }
}

fn collect_unique_paths(items: Vec<Href>) -> (res: Vec<Href>)
    ensures
        href_views(res@) == push_all_unique(Seq::empty(), href_views(items@)),
{
    let mut collected: Vec<Href> = Vec::new();
    proof {
        assert(href_views(collected@) =~= Seq::<Seq<char>>::empty());
    }
    push_all_unique_paths(&mut collected, items);
    collected
}

impl SiteRouteManifest {
    /// Creates a manifest with no implied generated outputs.
    pub fn new(site_url: SiteUrl, application_paths: Vec<Href>) -> (res: Self)
        ensures
            res@.site_url == site_url@,
            res@.application_paths == push_all_unique(Seq::empty(), href_views(application_paths@)),
            res@.static_paths == Seq::<Seq<char>>::empty(),
    {
        let res = SiteRouteManifest {
            site_url,
            application_paths: collect_unique_paths(application_paths),
            static_paths: Vec::new(),
        };
        assert(href_views(res.static_paths@) =~= Seq::<Seq<char>>::empty());
        res
    }

    /// Creates a project-site manifest including the standard book and LLM outputs.
    pub fn project(site_url: SiteUrl, application_paths: Vec<Href>) -> (res: Self)
        ensures
            res@.site_url == site_url@,
            res@.application_paths == push_all_unique(Seq::empty(), href_views(application_paths@)),
            res@.static_paths == push_all_unique(Seq::empty(), project_static_path_views()),
    {
        Self::new(site_url, application_paths).with_static_paths(project_static_paths())
    }

    /// Adds generated or copied static outputs to the sitemap.
    pub fn with_static_paths(self, paths: Vec<Href>) -> (res: Self)
        ensures
            res@.site_url == self@.site_url,
            res@.application_paths == self@.application_paths,
            res@.static_paths == push_all_unique(self@.static_paths, href_views(paths@)),
    {
        let mut manifest = self;
        push_all_unique_paths(&mut manifest.static_paths, paths);
        manifest
    }

    /// Returns the canonical site URL.
    pub fn site_url(&self) -> (res: &SiteUrl)
        ensures
            res@ == self@.site_url,
    {
        &self.site_url
    }

    /// Returns routes that need generated fallback files.
    pub fn application_paths(&self) -> (res: &[Href])
        ensures
            href_views(res@) == self@.application_paths,
    {
        self.application_paths.as_slice()
    }

    /// Returns copied or generated static-output paths.
    pub fn static_paths(&self) -> (res: &[Href])
        ensures
            href_views(res@) == self@.static_paths,
    {
        self.static_paths.as_slice()
    }

    /// Renders the sitemap represented by this manifest: application paths first,
    /// then static paths.
    pub fn sitemap_xml(&self) -> (res: String)
        ensures
            res@ == sitemap_document(
                self@.site_url,
                self@.application_paths + self@.static_paths,
            ),
    {
        let mut all: Vec<&str> = Vec::new();
        let mut i: usize = 0;
        while i < self.application_paths.len()
            invariant
                i <= self.application_paths@.len(),
                all@.map_values(|p: &str| p@) == href_views(self.application_paths@).take(i as int),
            decreases self.application_paths@.len() - i,
        {
            let p = self.application_paths[i].as_str();
            let ghost before = all@;
            all.push(p);
            proof {
                lemma_str_views_push(before, p);
                lemma_take_push(href_views(self.application_paths@), i as int);
            }
            i += 1;
        }
        let mut k: usize = 0;
        while k < self.static_paths.len()
            invariant
                k <= self.static_paths@.len(),
                all@.map_values(|p: &str| p@) == href_views(self.application_paths@)
                    + href_views(self.static_paths@).take(k as int),
            decreases self.static_paths@.len() - k,
        {
            let p = self.static_paths[k].as_str();
            let ghost before = all@;
            all.push(p);
            proof {
                lemma_str_views_push(before, p);
                lemma_take_push(href_views(self.static_paths@), k as int);
                assert(href_views(self.application_paths@) + href_views(self.static_paths@).take(k + 1)
                    =~= (href_views(self.application_paths@) + href_views(self.static_paths@).take(k as int)).push(p@));
            }
            k += 1;
        }
        proof {
            assert(href_views(self.application_paths@).take(self.application_paths@.len() as int)
                =~= href_views(self.application_paths@));
            assert(href_views(self.static_paths@).take(self.static_paths@.len() as int)
                =~= href_views(self.static_paths@));
        }
        sitemap::render(&self.site_url, all.as_slice())
    }

    /// Creates a rooted path suitable for application or static manifest entries:
    /// `/`, or `/<path>/` with the path's own leading and trailing `/` removed.
    pub fn rooted_path(path: &str) -> (res: Href)
        ensures
            res@ == route_href(seq!['/'], trim_char(path@, '/')),
    {
        Href::from_route(&BaseHref::root(), &RoutePath::new(path))
    }
}

proof fn lemma_push_unique(paths: Seq<Seq<char>>, p: Seq<char>)
    requires
        no_duplicates(paths),
    ensures
        no_duplicates(push_unique(paths, p)),
        forall|x: Seq<char>| push_unique(paths, p).contains(x) <==> (paths.contains(x) || x == p),
{
    if !paths.contains(p) {
        let r = paths.push(p);
        assert forall|i: int, j: int| 0 <= i < j < r.len() implies r[i] != r[j] by {
            if j == paths.len() && r[i] == r[j] {
                assert(paths[i] == p);
            }
        }
        assert forall|x: Seq<char>| r.contains(x) <==> (paths.contains(x) || x == p) by {
            if r.contains(x) {
                let k = choose|k: int| 0 <= k < r.len() && r[k] == x;
                if k < paths.len() {
                    assert(paths[k] == x);
                }
            }
            if paths.contains(x) {
                let k = choose|k: int| 0 <= k < paths.len() && paths[k] == x;
                assert(r[k] == x);
            }
            if x == p {
                assert(r[paths.len() as int] == x);
            }
        }
    }
}

/// Adding paths to a list without repeats never repeats a path, and the result
/// holds exactly the paths of the list and the added ones.
pub proof fn law_push_all_unique(paths: Seq<Seq<char>>, items: Seq<Seq<char>>)
    requires
        no_duplicates(paths),
    ensures
        no_duplicates(push_all_unique(paths, items)),
        forall|x: Seq<char>|
            #[trigger] push_all_unique(paths, items).contains(x) <==> (paths.contains(x)
                || items.contains(x)),
    decreases items.len(),
{
    if items.len() > 0 {
        let prev = items.drop_last();
        law_push_all_unique(paths, prev);
        lemma_push_unique(push_all_unique(paths, prev), items.last());
        assert forall|x: Seq<char>| items.contains(x) <==> (prev.contains(x) || x == items.last()) by {
            if items.contains(x) {
                let k = choose|k: int| 0 <= k < items.len() && items[k] == x;
                if k < prev.len() {
                    assert(prev[k] == x);
                }
            }
            if prev.contains(x) {
                let k = choose|k: int| 0 <= k < prev.len() && prev[k] == x;
                assert(items[k] == x);
            }
            if x == items.last() {
                assert(items[items.len() - 1] == x);
            }
        }
        let q = push_all_unique(paths, prev);
        assert(push_all_unique(paths, items) == push_unique(q, items.last()));
        assert forall|x: Seq<char>| #[trigger] push_all_unique(paths, items).contains(x) <==> (
        paths.contains(x) || items.contains(x)) by {
            assert(push_unique(q, items.last()).contains(x) <==> (q.contains(x) || x == items.last()));
            assert(q.contains(x) <==> (paths.contains(x) || prev.contains(x)));
        }
    }
}

/// A manifest lists each application route once and each static output once,
/// keeps exactly the routes and outputs it was given, and never moves a path from
/// one list to the other.
pub proof fn law_manifest_routes(
    site_url: Seq<char>,
    application_paths: Seq<Seq<char>>,
    static_paths: Seq<Seq<char>>,
)
    ensures
        ({
            let app = push_all_unique(Seq::empty(), application_paths);
            let outputs = push_all_unique(Seq::empty(), static_paths);
            &&& no_duplicates(app)
            &&& no_duplicates(outputs)
            &&& forall|x: Seq<char>| app.contains(x) <==> application_paths.contains(x)
            &&& forall|x: Seq<char>| outputs.contains(x) <==> static_paths.contains(x)
        }),
{
    law_push_all_unique(Seq::empty(), application_paths);
    law_push_all_unique(Seq::empty(), static_paths);
}

} // verus!
