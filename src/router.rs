use vstd::prelude::*;
use vstd::string::*;

verus! {

/// The pages of the site, one per route.
#[derive(Clone, Copy, Debug, PartialEq, Eq, Structural)]
pub enum Page {
    Home,
    Products,
    Platform,
    Solutions,
    Company,
    Resources,
    Contact,
    Privacy,
    Terms,
}

/// The exact path that the route table maps to `page`.
pub open spec fn route_path(page: Page) -> Seq<char> {
    match page {
        Page::Home => "/"@,
        Page::Products => "/products"@,
        Page::Platform => "/platform"@,
        Page::Solutions => "/solutions"@,
        Page::Company => "/company"@,
        Page::Resources => "/resources"@,
        Page::Contact => "/contact"@,
        Page::Privacy => "/privacy"@,
        Page::Terms => "/terms"@,
    }
}

/// What the route table holds for `path`: the page whose path is exactly
/// `path`, or no match.
pub open spec fn route_of(path: Seq<char>) -> Option<Page> {
    if exists|p: Page| route_path(p) == path {
        Some(choose|p: Page| route_path(p) == path)
    } else {
        None
    }
}

/// The route table's keys are unique: two pages never share a path.
pub proof fn lemma_route_paths_distinct(p: Page, q: Page)
    ensures
        route_path(p) == route_path(q) ==> p == q,
{
    reveal_strlit("/");
    reveal_strlit("/products");
    reveal_strlit("/platform");
    reveal_strlit("/solutions");
    reveal_strlit("/company");
    reveal_strlit("/resources");
    reveal_strlit("/contact");
    reveal_strlit("/privacy");
    reveal_strlit("/terms");
    if route_path(p) == route_path(q) && p != q {
        let a = route_path(p);
        let b = route_path(q);
        assert(a.len() == b.len());
        assert(a[1] == b[1]);
        assert(a[2] == b[2]);
        assert(a[3] == b[3]);
    }
}

/// Resolving the path of a page gives that page back.
pub proof fn lemma_route_of_path(p: Page)
    ensures
        route_of(route_path(p)) == Some(p),
{
    let q = choose|q: Page| route_path(q) == route_path(p);
    lemma_route_paths_distinct(p, q);
}

impl Page {
    /// The path under which this page is mounted.
    pub fn path(self) -> (r: &'static str)
        ensures
            r@ == route_path(self),
    {
        match self {
            Page::Home => "/",
            Page::Products => "/products",
            Page::Platform => "/platform",
            Page::Solutions => "/solutions",
            Page::Company => "/company",
            Page::Resources => "/resources",
            Page::Contact => "/contact",
            Page::Privacy => "/privacy",
            Page::Terms => "/terms",
        }
    }
}

fn same_text(a: &str, b: &str) -> (r: bool)
    ensures
        r == (a@ == b@),
{
    let n = a.unicode_len();
    if n != b.unicode_len() {
        return false;
    }
    let mut i: usize = 0;
    while i < n
        invariant
            n == a@.len(),
            n == b@.len(),
            i <= n,
            forall|j: int| 0 <= j < i ==> a@[j] == b@[j],
        decreases n - i,
    {
        if a.get_char(i) != b.get_char(i) {
            return false;
        }
        i = i + 1;
    }
    assert(a@ =~= b@);
    true
}

/// Looks `path` up in the route table by exact match: no prefix matching,
/// no trailing-slash or case folding. An unknown path is `None`, the
/// defined no-match case.
pub fn resolve(path: &str) -> (r: Option<Page>)
    ensures
        r == route_of(path@),
{
    let pages = [
        Page::Home,
        Page::Products,
        Page::Platform,
        Page::Solutions,
        Page::Company,
        Page::Resources,
        Page::Contact,
        Page::Privacy,
        Page::Terms,
    ];
    let mut i: usize = 0;
    while i < 9
        invariant
            i <= 9,
            pages@ == seq![
                Page::Home,
                Page::Products,
                Page::Platform,
                Page::Solutions,
                Page::Company,
                Page::Resources,
                Page::Contact,
                Page::Privacy,
                Page::Terms,
            ],
            forall|j: int| 0 <= j < i ==> route_path(pages@[j]) != path@,
        decreases 9 - i,
    {
        let page = pages[i];
        if same_text(page.path(), path) {
            proof {
                lemma_route_of_path(page);
            }
            return Some(page);
        }
        i = i + 1;
    }
    assert forall|p: Page| route_path(p) != path@ by {
        match p {
            Page::Home => assert(pages@[0] == p),
            Page::Products => assert(pages@[1] == p),
            Page::Platform => assert(pages@[2] == p),
            Page::Solutions => assert(pages@[3] == p),
            Page::Company => assert(pages@[4] == p),
            Page::Resources => assert(pages@[5] == p),
            Page::Contact => assert(pages@[6] == p),
            Page::Privacy => assert(pages@[7] == p),
            Page::Terms => assert(pages@[8] == p),
        }
    }
    None
}

} // verus!
