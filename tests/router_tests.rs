use voltec_website::router::{resolve, Page};

const ALL: [Page; 9] = [
    Page::Home,
    Page::Products,
    Page::Platform,
    Page::Solutions,
    Page::Company,
    Page::Resources,
    Page::Contact,
    Page::Privacy,
    Page::Terms,
];

#[test]
fn every_route_resolves_to_its_page() {
    assert_eq!(resolve("/"), Some(Page::Home));
    assert_eq!(resolve("/products"), Some(Page::Products));
    assert_eq!(resolve("/platform"), Some(Page::Platform));
    assert_eq!(resolve("/solutions"), Some(Page::Solutions));
    assert_eq!(resolve("/company"), Some(Page::Company));
    assert_eq!(resolve("/resources"), Some(Page::Resources));
    assert_eq!(resolve("/contact"), Some(Page::Contact));
    assert_eq!(resolve("/privacy"), Some(Page::Privacy));
    assert_eq!(resolve("/terms"), Some(Page::Terms));
}

#[test]
fn page_path_round_trips() {
    for page in ALL {
        assert_eq!(resolve(page.path()), Some(page));
    }
}

#[test]
fn paths_are_unique() {
    for a in ALL {
        for b in ALL {
            assert_eq!(a.path() == b.path(), a == b);
        }
    }
}

#[test]
fn unknown_paths_do_not_match() {
    assert_eq!(resolve(""), None);
    assert_eq!(resolve("/about"), None);
    assert_eq!(resolve("/404"), None);
}

#[test]
fn matching_is_exact() {
    assert_eq!(resolve("/products/"), None);
    assert_eq!(resolve("/products/v-cell"), None);
    assert_eq!(resolve("/product"), None);
    assert_eq!(resolve("/Products"), None);
    assert_eq!(resolve("products"), None);
    assert_eq!(resolve("//"), None);
}
