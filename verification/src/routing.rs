//! Base-path-aware routing: base paths, route paths, output directories,
//! hrefs and site URLs.
use vstd::prelude::*;

use crate::text::{
    chars_of, copy_string, ends_with_char, owned, path_segments, push_char, push_str,
    repeat_seq, repeat_str, segments_of, starts_with_char, string_from_chars, strip_leading,
    strip_trailing, trailing_slash, trim_char,
    trim_matches, with_trailing_slash,
};
use vstd::std_specs::cmp::PartialEqSpecImpl;

verus! {

/// A deployment base path, stored without leading or trailing `/`.
#[derive(Debug)]
pub struct BasePath(String);

impl View for BasePath {
    type V = Seq<char>;

    closed spec fn view(&self) -> Seq<char> {
        self.0@
    }
}

impl Clone for BasePath {
    fn clone(&self) -> (res: Self)
        ensures
            res@ == self@,
    {
        BasePath(copy_string(&self.0))
    }
}

impl PartialEq for BasePath {
    fn eq(&self, other: &Self) -> (res: bool) {
        self.0 == other.0
    }
}

impl PartialEqSpecImpl for BasePath {
    open spec fn obeys_eq_spec() -> bool {
        true
    }

    open spec fn eq_spec(&self, other: &Self) -> bool {
        self@ == other@
    }
}

impl Eq for BasePath {}

impl BasePath {
    /// Creates a base path from `value` with every leading and trailing `/` removed.
    pub fn new(value: &str) -> (res: Self)
        ensures
            res@ == trim_char(value@, '/'),
    {
        BasePath(trim_matches(value, '/'))
    }

    pub fn as_str(&self) -> (res: &str)
        ensures
            res@ == self@,
    {
        self.0.as_str()
    }
}


/// The `<base href>` value for a deployment: `/` or `/<base>/`.
#[derive(Debug)]
pub struct BaseHref(String);

impl View for BaseHref {
    type V = Seq<char>;

    closed spec fn view(&self) -> Seq<char> {
        self.0@
    }
}

impl Clone for BaseHref {
    fn clone(&self) -> (res: Self)
        ensures
            res@ == self@,
    {
        BaseHref(copy_string(&self.0))
    }
}

impl PartialEq for BaseHref {
    fn eq(&self, other: &Self) -> (res: bool) {
        self.0 == other.0
    }
}

impl PartialEqSpecImpl for BaseHref {
    open spec fn obeys_eq_spec() -> bool {
        true
    }

    open spec fn eq_spec(&self, other: &Self) -> bool {
        self@ == other@
    }
}

impl Eq for BaseHref {}

/// The base href for an optional base path: `/` when there is none or it is empty,
/// `/<base>/` otherwise.
pub open spec fn base_href_for(base_path: Option<Seq<char>>) -> Seq<char> {
    match base_path {
        Some(b) if b.len() > 0 => seq!['/'] + b + seq!['/'],
        _ => seq!['/'],
    }
}

impl BaseHref {
    pub fn root() -> (res: Self)
        ensures
            res@ == seq!['/'],
    {
        let mut s = String::new();
        push_char(&mut s, '/');
        BaseHref(s)
    }

    pub fn from_base_path(base_path: Option<&BasePath>) -> (res: Self)
        ensures
            res@ == base_href_for(
                match base_path {
                    Some(b) => Some(b@),
                    None => None,
                },
            ),
    {
        match base_path {
            Some(base_path) if !base_path.0.as_str().is_empty() => {
                let mut s = String::new();
                push_char(&mut s, '/');
                push_str(&mut s, base_path.as_str());
                push_char(&mut s, '/');
                BaseHref(s)
            },
            _ => Self::root(),
        }
    }

    pub fn as_str(&self) -> (res: &str)
        ensures
            res@ == self@,
    {
        self.0.as_str()
    }

    /// The text of this base href.
    pub fn to_string(&self) -> (res: String)
        ensures
            res@ == self@,
    {
        copy_string(&self.0)
    }
}

/// An application route, stored without leading or trailing `/`; the root route is empty.
#[derive(Debug)]
pub struct RoutePath(String);

impl View for RoutePath {
    type V = Seq<char>;

    closed spec fn view(&self) -> Seq<char> {
        self.0@
    }
}

impl Clone for RoutePath {
    fn clone(&self) -> (res: Self)
        ensures
            res@ == self@,
    {
        proof {
            use_type_invariant(self);
        }
        RoutePath(copy_string(&self.0))
    }
}

impl PartialEq for RoutePath {
    fn eq(&self, other: &Self) -> (res: bool) {
        self.0 == other.0
    }
}

impl PartialEqSpecImpl for RoutePath {
    open spec fn obeys_eq_spec() -> bool {
        true
    }

    open spec fn eq_spec(&self, other: &Self) -> bool {
        self@ == other@
    }
}

impl Eq for RoutePath {}

impl RoutePath {
    /// The text of a route never starts or ends with `/`.
    #[verifier::type_invariant]
    spec fn is_trimmed(self) -> bool {
        trim_char(self.0@, '/') == self.0@
    }

    /// Creates a route from `value` with every leading and trailing `/` removed.
    pub fn new(value: &str) -> (res: Self)
        ensures
            res@ == trim_char(value@, '/'),
    {
        proof {
            crate::text::law_trim_char(value@, '/');
        }
        RoutePath(trim_matches(value, '/'))
    }

    pub fn root() -> (res: Self)
        ensures
            res@ == Seq::<char>::empty(),
    {
        let res = RoutePath(String::new());
        proof {
            assert(strip_leading(Seq::<char>::empty(), '/') == Seq::<char>::empty());
            assert(strip_trailing(Seq::<char>::empty(), '/') == Seq::<char>::empty());
        }
        res
    }

    /// The route's text, already trimmed of `/`.
    pub fn as_str(&self) -> (res: &str)
        ensures
            res@ == self@,
            trim_char(res@, '/') == res@,
    {
        proof {
            use_type_invariant(self);
        }
        self.0.as_str()
    }

    pub fn is_root(&self) -> (res: bool)
        ensures
            res == (self@.len() == 0),
    {
        self.0.as_str().is_empty()
    }

    /// The output directory that holds this route's generated page: the route's own
    /// text, which is what creating an output directory from that text gives, and
    /// empty exactly for the root route.
    pub fn to_output_dir(&self) -> (res: OutputDir)
        ensures
            res@ == self@,
            res@ == trim_char(self@, '/'),
            (res@.len() == 0) == (self@.len() == 0),
    {
        proof {
            use_type_invariant(self);
        }
        OutputDir(copy_string(&self.0))
    }
}

/// A generated output directory relative to the site root, stored without
/// leading or trailing `/`.
#[derive(Debug)]
pub struct OutputDir(String);

impl View for OutputDir {
    type V = Seq<char>;

    closed spec fn view(&self) -> Seq<char> {
        self.0@
    }
}

impl Clone for OutputDir {
    fn clone(&self) -> (res: Self)
        ensures
            res@ == self@,
    {
        OutputDir(copy_string(&self.0))
    }
}

impl PartialEq for OutputDir {
    fn eq(&self, other: &Self) -> (res: bool) {
        self.0 == other.0
    }
}

impl PartialEqSpecImpl for OutputDir {
    open spec fn obeys_eq_spec() -> bool {
        true
    }

    open spec fn eq_spec(&self, other: &Self) -> bool {
        self@ == other@
    }
}

impl Eq for OutputDir {}

impl OutputDir {
    /// Creates an output directory from `value` with every leading and trailing `/` removed.
    pub fn new(value: &str) -> (res: Self)
        ensures
            res@ == trim_char(value@, '/'),
    {
        OutputDir(trim_matches(value, '/'))
    }

    pub fn as_str(&self) -> (res: &str)
        ensures
            res@ == self@,
    {
        self.0.as_str()
    }

    pub fn is_empty(&self) -> (res: bool)
        ensures
            res == (self@.len() == 0),
    {
        self.0.as_str().is_empty()
    }
}

/// A link target, kept exactly as given.
#[derive(Debug)]
pub struct Href(String);

impl View for Href {
    type V = Seq<char>;

    closed spec fn view(&self) -> Seq<char> {
        self.0@
    }
}

impl Clone for Href {
    fn clone(&self) -> (res: Self)
        ensures
            res@ == self@,
    {
        Href(copy_string(&self.0))
    }
}

impl PartialEq for Href {
    fn eq(&self, other: &Self) -> (res: bool) {
        self.0 == other.0
    }
}

impl PartialEqSpecImpl for Href {
    open spec fn obeys_eq_spec() -> bool {
        true
    }

    open spec fn eq_spec(&self, other: &Self) -> bool {
        self@ == other@
    }
}

impl Eq for Href {}

/// The href of `route` under `base_href`: the base with a trailing `/`, followed,
/// unless the route is the root, by the route and a `/`.
pub open spec fn route_href(base_href: Seq<char>, route: Seq<char>) -> Seq<char> {
    if route.len() == 0 {
        with_trailing_slash(base_href)
    } else {
        with_trailing_slash(base_href) + route + seq!['/']
    }
}

impl Href {
    pub fn new(value: &str) -> (res: Self)
        ensures
            res@ == value@,
    {
        Href(owned(value))
    }

    /// Creates an href from a string it takes over.
    pub fn from_string(value: String) -> (res: Self)
        ensures
            res@ == value@,
    {
        Href(value)
    }

    pub fn from_route(base_href: &BaseHref, route: &RoutePath) -> (res: Self)
        ensures
            res@ == route_href(base_href@, route@),
    {
        let mut value = trailing_slash(base_href.as_str());
        if !route.is_root() {
            push_str(&mut value, route.as_str());
            push_char(&mut value, '/');
        }
        Href(value)
    }

    pub fn as_str(&self) -> (res: &str)
        ensures
            res@ == self@,
    {
        self.0.as_str()
    }

    pub fn into_string(self) -> (res: String)
        ensures
            res@ == self@,
    {
        self.0
    }

    /// The text of this href.
    pub fn to_string(&self) -> (res: String)
        ensures
            res@ == self@,
    {
        copy_string(&self.0)
    }
}

/// The canonical URL of a site, always ending with `/`.
#[derive(Debug)]
pub struct SiteUrl(String);

impl View for SiteUrl {
    type V = Seq<char>;

    closed spec fn view(&self) -> Seq<char> {
        self.0@
    }
}

impl Clone for SiteUrl {
    fn clone(&self) -> (res: Self)
        ensures
            res@ == self@,
    {
        proof {
            use_type_invariant(self);
        }
        SiteUrl(copy_string(&self.0))
    }
}

impl PartialEq for SiteUrl {
    fn eq(&self, other: &Self) -> (res: bool) {
        self.0 == other.0
    }
}

impl PartialEqSpecImpl for SiteUrl {
    open spec fn obeys_eq_spec() -> bool {
        true
    }

    open spec fn eq_spec(&self, other: &Self) -> bool {
        self@ == other@
    }
}

impl Eq for SiteUrl {}

impl SiteUrl {
    /// Creates a site URL from `value`, appending `/` unless it already ends with one.
    pub fn new(value: &str) -> (res: Self)
        ensures
            res@ == with_trailing_slash(value@),
    {
        SiteUrl(trailing_slash(value))
    }

    pub fn as_str(&self) -> (res: &str)
        ensures
            res@ == self@,
            ends_with_char(res@, '/'),
    {
        proof {
            use_type_invariant(self);
        }
        self.0.as_str()
    }

    /// The text of this site URL.
    pub fn to_string(&self) -> (res: String)
        ensures
            res@ == self@,
    {
        copy_string(&self.0)
    }

    #[verifier::type_invariant]
    spec fn ends_with_slash(self) -> bool {
        ends_with_char(self.0@, '/')
    }
}

pub fn base_href(base_path: Option<&BasePath>) -> (res: BaseHref)
    ensures
        res@ == base_href_for(
            match base_path {
                Some(b) => Some(b@),
                None => None,
            },
        ),
{
    BaseHref::from_base_path(base_path)
}

pub fn href(base_href: &BaseHref, route: &RoutePath) -> (res: Href)
    ensures
        res@ == route_href(base_href@, route@),
{
    Href::from_route(base_href, route)
}

/// The relative prefix from an output directory back to the site root:
/// `./` at the root, one `../` per non-empty segment otherwise.
pub open spec fn root_prefix(output_dir: Seq<char>) -> Seq<char> {
    if output_dir.len() == 0 {
        seq!['.', '/']
    } else {
        repeat_seq(seq!['.', '.', '/'], path_segments(output_dir).len())
    }
}

pub fn site_root_prefix(output_dir: &OutputDir) -> (res: String)
    ensures
        res@ == root_prefix(output_dir@),
{
    if output_dir.is_empty() {
        let res = owned("./");
        proof {
            reveal_strlit("./");
            assert("./"@ =~= seq!['.', '/']);
        }
        return res;
    }
    let v = chars_of(output_dir.as_str());
    let segments = segments_of(&v);
    let res = repeat_str("../", segments.len());
    proof {
        reveal_strlit("../");
        assert("../"@ =~= seq!['.', '.', '/']);
    }
    res
}

/// The segments of `path`, without the segments of `base_path` when `path` starts with them.
pub open spec fn normalized_segments(path: Seq<char>, base_path: Option<Seq<char>>) -> Seq<
    Seq<char>,
> {
    let segments = path_segments(path);
    let base_segments = match base_path {
        Some(b) => path_segments(b),
        None => Seq::empty(),
    };
    if base_segments.len() > 0 && base_segments.len() <= segments.len() && segments.take(
        base_segments.len() as int,
    ) == base_segments {
        segments.skip(base_segments.len() as int)
    } else {
        segments
    }
}

pub fn normalized_path_segments(path: &str, base_path: Option<&BasePath>) -> (res: Vec<String>)
    ensures
        res@.len() == normalized_segments(
            path@,
            match base_path {
                Some(b) => Some(b@),
                None => None,
            },
        ).len(),
        forall|i: int|
            0 <= i < res@.len() ==> (#[trigger] res@[i])@ == normalized_segments(
                path@,
                match base_path {
                    Some(b) => Some(b@),
                    None => None,
                },
            )[i],
{
    let pv = chars_of(path);
    let segments = segments_of(&pv);
    let base_segments: Vec<Vec<char>> = match base_path {
        Some(b) => {
            let bv = chars_of(b.as_str());
            segments_of(&bv)
        },
        None => Vec::new(),
    };
    let ghost segs = path_segments(path@);
    let ghost bsegs = match base_path {
        Some(b) => path_segments(b@),
        None => Seq::<Seq<char>>::empty(),
    };
    let mut skip: usize = 0;
    if base_segments.len() > 0 && base_segments.len() <= segments.len() {
        let mut matches = true;
        let mut i: usize = 0;
        while i < base_segments.len()
            invariant
                i <= base_segments@.len() <= segments@.len(),
                segments@.len() == segs.len(),
                base_segments@.len() == bsegs.len(),
                forall|j: int| 0 <= j < segments@.len() ==> (#[trigger] segments@[j])@ == segs[j],
                forall|j: int|
                    0 <= j < base_segments@.len() ==> (#[trigger] base_segments@[j])@ == bsegs[j],
                matches <==> (forall|j: int| 0 <= j < i ==> segs[j] == bsegs[j]),
            decreases base_segments@.len() - i,
        {
            if !crate::text::chars_eq(&segments[i], &base_segments[i]) {
                matches = false;
            }
            i += 1;
        }
        if matches {
            skip = base_segments.len();
            proof {
                assert(segs.take(bsegs.len() as int) =~= bsegs);
            }
        } else {
            proof {
                let j = choose|j: int| 0 <= j < bsegs.len() && segs[j] != bsegs[j];
                assert(segs.take(bsegs.len() as int)[j] == segs[j]);
            }
        }
    }
    let mut res: Vec<String> = Vec::new();
    let mut k: usize = skip;
    while k < segments.len()
        invariant
            skip <= k <= segments@.len(),
            segments@.len() == segs.len(),
            forall|j: int| 0 <= j < segments@.len() ==> (#[trigger] segments@[j])@ == segs[j],
            res@.len() == k - skip,
            forall|j: int| 0 <= j < res@.len() ==> (#[trigger] res@[j])@ == segs[j + skip],
        decreases segments@.len() - k,
    {
        res.push(string_from_chars(&segments[k]));
        k += 1;
    }
    res
}

/// Every href built from a base path and a route starts and ends with `/`.
pub proof fn law_href_is_rooted_directory(base_path: Option<Seq<char>>, route: Seq<char>)
    ensures
        starts_with_char(route_href(base_href_for(base_path), trim_char(route, '/')), '/'),
        ends_with_char(route_href(base_href_for(base_path), trim_char(route, '/')), '/'),
{
    let base = base_href_for(base_path);
    assert(base[0] == '/');
    assert(base.last() == '/');
    assert(with_trailing_slash(base) == base);
}

/// A rooted path is its own rooted path: normalizing twice changes nothing.
pub proof fn law_rooted_path_idempotent(path: Seq<char>)
    ensures
        route_href(seq!['/'], trim_char(route_href(seq!['/'], trim_char(path, '/')), '/'))
            == route_href(seq!['/'], trim_char(path, '/')),
{
    let t = trim_char(path, '/');
    crate::text::law_trim_char(path, '/');
    let r = route_href(seq!['/'], t);
    assert(with_trailing_slash(seq!['/']) == seq!['/']);
    if t.len() == 0 {
        assert(r == seq!['/']);
        assert(strip_leading(r.drop_first(), '/') == r.drop_first());
        assert(strip_leading(r, '/') =~= Seq::<char>::empty());
        assert(trim_char(r, '/') =~= Seq::<char>::empty());
    } else {
        assert(r == seq!['/'] + t + seq!['/']);
        assert(r.drop_first() =~= t.push('/'));
        assert(strip_leading(t.push('/'), '/') == t.push('/'));
        assert(strip_leading(r, '/') == t.push('/'));
        assert(t.push('/').drop_last() =~= t);
        assert(strip_trailing(t, '/') == t);
        assert(trim_char(r, '/') == t);
    }
}

/// When a path's segments begin with the base path's segments (and the base path
/// has some), normalizing removes exactly that prefix: the base segments followed
/// by the result give back the path's segments, so a path equal to the base path
/// has no segments left. When they do not begin with them, or the base path has
/// none, the path's segments are kept whole.
pub proof fn law_base_path_prefix_is_removed(path: Seq<char>, base_path: Seq<char>)
    ensures
        ({
            let segments = path_segments(path);
            let base = path_segments(base_path);
            let result = normalized_segments(path, Some(base_path));
            &&& (base.len() > 0 && base.len() <= segments.len() && forall|i: int|
                0 <= i < base.len() ==> #[trigger] segments[i] == base[i]) ==> base + result
                == segments
            &&& segments == base && base.len() > 0 ==> result.len() == 0
            &&& !(base.len() <= segments.len() && forall|i: int|
                0 <= i < base.len() ==> #[trigger] segments[i] == base[i]) ==> result == segments
            &&& base.len() == 0 ==> result == segments
        }),
{
    let segments = path_segments(path);
    let base = path_segments(base_path);
    if base.len() > 0 && base.len() <= segments.len() && forall|i: int|
        0 <= i < base.len() ==> #[trigger] segments[i] == base[i] {
        assert(segments.take(base.len() as int) =~= base);
        assert(base + segments.skip(base.len() as int) =~= segments);
    }
    if !(base.len() <= segments.len() && forall|i: int|
        0 <= i < base.len() ==> #[trigger] segments[i] == base[i]) {
        if base.len() <= segments.len() && segments.take(base.len() as int) == base {
            assert forall|i: int| 0 <= i < base.len() implies #[trigger] segments[i] == base[i] by {
                assert(segments.take(base.len() as int)[i] == segments[i]);
            }
        }
    }
}

} // verus!
