use archivedon::activitypub::model;
use archivedon::fetch::classify_status;
use archivedon::fetch::crawl_page_count;
use archivedon::fetch::extract_trailing_id;
use archivedon::fetch::is_accepted_activity;
use archivedon::fetch::outbox_page_budget;
use archivedon::fetch::FetchClass;
use archivedon::fetch::PageBudget;
use archivedon::redirect_map::RedirectMap;
use archivedon::webfinger::resource::Link as WebfingerLink;
use archivedon::webfinger::resource::Resource;
use archivedon::webfinger::resource::ResolveError;

fn bare_object(typ: Vec<String>) -> model::Object {
    model::Object::new_collection(None, typ, None, None, None, None, Vec::new(), Vec::new())
}

#[test]
fn announce_only_activities_are_skipped() {
    let boost = bare_object(vec![String::from("Announce")]);
    assert!(!is_accepted_activity(&boost));
    let create = bare_object(vec![String::from("Create")]);
    assert!(is_accepted_activity(&create));
    let mixed = bare_object(vec![String::from("Announce"), String::from("Create")]);
    assert!(is_accepted_activity(&mixed));
    let empty = bare_object(Vec::new());
    assert!(!is_accepted_activity(&empty));
}

#[test]
fn trailing_id_extraction() {
    assert_eq!(
        extract_trailing_id("https://example.com/notes/110312"),
        Some(String::from("110312"))
    );
    // No digits at the end.
    assert_eq!(extract_trailing_id("https://example.com/notes/abc"), None);
    // Digits not preceded by a slash.
    assert_eq!(extract_trailing_id("note42"), None);
    assert_eq!(extract_trailing_id(""), None);
    assert_eq!(extract_trailing_id("12345"), None);
}

#[test]
fn status_classification() {
    assert_eq!(classify_status(200), FetchClass::Success);
    assert_eq!(classify_status(301), FetchClass::RedirectUnsupported);
    assert_eq!(classify_status(302), FetchClass::RedirectUnsupported);
    assert_eq!(classify_status(307), FetchClass::RedirectUnsupported);
    assert_eq!(classify_status(404), FetchClass::Failure);
    assert_eq!(classify_status(500), FetchClass::Failure);
}

#[test]
fn page_budget_truncates_long_chains() {
    // A chain of 7 pages under a budget of 3: exactly 3 pages, no error.
    assert_eq!(crawl_page_count(7, 3), 3);
    // A short chain under a large budget: the whole chain.
    assert_eq!(crawl_page_count(2, 1000), 2);
    assert_eq!(crawl_page_count(0, 5), 0);
    assert_eq!(crawl_page_count(4, 4), 4);
}

#[test]
fn page_budget_counts_each_dereference() {
    let mut budget = PageBudget::new(2);
    assert!(budget.try_consume());
    assert!(budget.try_consume());
    assert!(!budget.try_consume());
    assert_eq!(budget.fetched, 2);
}

#[test]
fn declared_total_items_is_the_budget() {
    let outbox = model::Object::new_collection(
        None,
        vec![String::from("OrderedCollection")],
        Some(17),
        None,
        None,
        None,
        Vec::new(),
        Vec::new(),
    );
    assert_eq!(outbox_page_budget(&outbox, 1000), 17);
    let unbounded = model::Object::new_collection(
        None,
        vec![String::from("OrderedCollection")],
        None,
        None,
        None,
        None,
        Vec::new(),
        Vec::new(),
    );
    assert_eq!(outbox_page_budget(&unbounded, 1000), 1000);
}

fn self_link(typ: Option<&str>, href: Option<&str>) -> WebfingerLink {
    WebfingerLink {
        rel: String::from("self"),
        typ: typ.map(String::from),
        href: href.map(String::from),
        titles: Vec::new(),
        properties: Vec::new(),
    }
}

#[test]
fn webfinger_resolution() {
    let resource = Resource {
        subject: String::from("acct:alice@example.com"),
        aliases: None,
        properties: Vec::new(),
        links: Some(vec![
            WebfingerLink {
                rel: String::from("http://webfinger.net/rel/profile-page"),
                typ: Some(String::from("text/html")),
                href: Some(String::from("https://example.com/@alice")),
                titles: Vec::new(),
                properties: Vec::new(),
            },
            self_link(
                Some("application/activity+json"),
                Some("https://example.com/users/alice"),
            ),
        ]),
    };
    assert_eq!(
        resource.actor_url(),
        Ok(String::from("https://example.com/users/alice"))
    );
}

#[test]
fn webfinger_resolution_failures() {
    let no_links = Resource {
        subject: String::from("acct:alice@example.com"),
        aliases: None,
        properties: Vec::new(),
        links: None,
    };
    assert_eq!(no_links.actor_url(), Err(ResolveError::NoSelfLink));

    let wrong_type = Resource {
        subject: String::from("acct:alice@example.com"),
        aliases: None,
        properties: Vec::new(),
        links: Some(vec![self_link(Some("text/html"), Some("https://example.com/@alice"))]),
    };
    assert_eq!(wrong_type.actor_url(), Err(ResolveError::WrongType));

    let no_href = Resource {
        subject: String::from("acct:alice@example.com"),
        aliases: None,
        properties: Vec::new(),
        links: Some(vec![self_link(None, None)]),
    };
    assert_eq!(no_href.actor_url(), Err(ResolveError::NoHref));

    // An absent declared type is accepted.
    let untyped = Resource {
        subject: String::from("acct:alice@example.com"),
        aliases: None,
        properties: Vec::new(),
        links: Some(vec![self_link(None, Some("https://example.com/users/alice"))]),
    };
    assert_eq!(
        untyped.actor_url(),
        Ok(String::from("https://example.com/users/alice"))
    );
}

#[test]
fn paginator_flush_contract() {
    // Feeding page_size * 3 + 2 activities then finishing yields exactly
    // four pages: three full ones and a final page of two; `first` of
    // every page is the first page's URL and `prev` of each page is its
    // predecessor's URL, absent for the first page.
    let page_size = 3;
    let base = String::from("https://mirror.example/static/");
    let mut manager =
        archivedon::fetch::NewOutboxCollectionManager::new(page_size, base.clone());
    let mut pages = Vec::new();
    for k in 0..(page_size * 3 + 2) {
        let base_path = format!("users/example.com/alice/entities/{}/", k);
        let item = bare_object(vec![String::from("Create")]);
        if let Some(page) = manager.add_activity_and_save_if_needed(base_path, item) {
            pages.push(page);
        }
    }
    assert_eq!(pages.len(), 3);
    let (rest, summary) = manager.save_rest_items();
    let rest = rest.unwrap();
    pages.push(rest);
    assert_eq!(pages.len(), 4);
    assert_eq!(summary.total_items_count, page_size * 3 + 2);

    // Pages are stored under the base path of their first activity.
    assert_eq!(
        pages[0].url,
        String::from("https://mirror.example/static/users/example.com/alice/entities/0/page.json")
    );
    assert_eq!(
        pages[1].url,
        String::from("https://mirror.example/static/users/example.com/alice/entities/3/page.json")
    );
    assert_eq!(
        pages[3].url,
        String::from("https://mirror.example/static/users/example.com/alice/entities/9/page.json")
    );
    // Three full pages, a final short one.
    assert_eq!(pages[0].items.len(), page_size);
    assert_eq!(pages[1].items.len(), page_size);
    assert_eq!(pages[2].items.len(), page_size);
    assert_eq!(pages[3].items.len(), 2);
    // `first` of every page is the first page's URL.
    for page in &pages {
        assert_eq!(page.first_page_url_opt.as_ref(), Some(&pages[0].url));
    }
    assert_eq!(summary.first_page_url_opt.as_ref(), Some(&pages[0].url));
    // `prev` of page k is the URL of page k - 1, absent for page 1.
    assert_eq!(pages[0].prev_page_url_opt, None);
    for k in 1..pages.len() {
        assert_eq!(pages[k].prev_page_url_opt.as_ref(), Some(&pages[k - 1].url));
    }
    // The final page is the collection's `last`.
    assert_eq!(summary.last_page_url_opt.as_ref(), Some(&pages[3].url));
}

#[test]
fn paginator_empty_crawl() {
    // Nothing fed: no page is written and the collection has no first or
    // last page.
    let manager = archivedon::fetch::NewOutboxCollectionManager::new(
        5,
        String::from("https://mirror.example/static/"),
    );
    let (rest, summary) = manager.save_rest_items();
    assert!(rest.is_none());
    assert_eq!(summary.total_items_count, 0);
    assert_eq!(summary.first_page_url_opt, None);
    assert_eq!(summary.last_page_url_opt, None);
}

#[test]
fn redirect_media_type_merge() {
    // A resource declaring no media type is recorded under the wildcard.
    let mut map = RedirectMap::new();
    map.insert_media_types(&Vec::new(), "https://mirror.example/a");
    assert_eq!(map.get_entry("*/*"), Some(String::from("https://mirror.example/a")));
    // One declaring media types is recorded under each of them, and the
    // wildcard is left alone.
    let mut map = RedirectMap::new();
    map.insert_media_types(
        &vec![String::from("text/html"), String::from("application/activity+json")],
        "https://mirror.example/b",
    );
    assert_eq!(map.get_entry("text/html"), Some(String::from("https://mirror.example/b")));
    assert_eq!(
        map.get_entry("application/activity+json"),
        Some(String::from("https://mirror.example/b"))
    );
    assert_eq!(map.get_entry("*/*"), None);
}
