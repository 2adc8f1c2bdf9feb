use archivedon::path_helper::component_to_url_safe;
use archivedon::path_helper::component_to_url_safe_with_safe_ext;
use archivedon::path_helper::is_safe_component;
use archivedon::path_helper::split_path_components;
use archivedon::path_helper::to_url_safe;
use archivedon::redirect_map::RedirectMap;
use archivedon::resource_path::ResourcePath;

#[test]
fn safe_component_kept_verbatim() {
    assert!(is_safe_component("example.com"));
    assert_eq!(component_to_url_safe("example.com"), String::from("_example.com"));
    assert_eq!(
        component_to_url_safe_with_safe_ext("alice", "json"),
        String::from("_alice.json")
    );
}

#[test]
fn unsafe_component_escaped() {
    // "a/b" is 0x61 0x2F 0x62, whose padding-free URL-safe base64 is YS9i.
    assert!(!is_safe_component("a/b"));
    assert_eq!(component_to_url_safe("a/b"), String::from("_..YS9i"));
    // The empty component is not safe either.
    assert_eq!(component_to_url_safe(""), String::from("_.."));
    // A leading double dot is not in the safe grammar, so it is escaped:
    // "..a" is 0x2E 0x2E 0x61, base64 Li5h.
    assert!(!is_safe_component("..a"));
    assert_eq!(component_to_url_safe("..a"), String::from("_..Li5h"));
    // A single leading dot before a safe character is safe.
    assert!(is_safe_component(".well-known"));
    assert_eq!(component_to_url_safe(".well-known"), String::from("_.well-known"));
}

#[test]
fn distinct_components_never_collide() {
    let samples = ["a", "b", "a/b", "a%2Fb", "", ".", "..", "..a", ".a", "_a", "a_"];
    for (i, a) in samples.iter().enumerate() {
        for (j, b) in samples.iter().enumerate() {
            let ea = component_to_url_safe(a);
            let eb = component_to_url_safe(b);
            if i == j {
                assert_eq!(ea, eb);
            } else {
                assert_ne!(ea, eb, "collision between {:?} and {:?}", a, b);
            }
        }
    }
}

#[test]
fn split_drops_empty_components() {
    assert_eq!(
        split_path_components("/users//alice/"),
        vec![String::from("users"), String::from("alice")]
    );
    assert_eq!(split_path_components(""), Vec::<String>::new());
    assert_eq!(split_path_components("///"), Vec::<String>::new());
}

#[test]
fn to_url_safe_layout() {
    assert_eq!(
        to_url_safe("map", "example.com", "/users/alice", "json"),
        String::from("map/_example.com/_users/_alice.json")
    );
    // A path with no components is stored as a bare extension file.
    assert_eq!(
        to_url_safe("map", "example.com", "/", "json"),
        String::from("map/_example.com/.json")
    );
}

#[test]
fn resource_path_layout() {
    let paths = ResourcePath::new(String::from("out"));
    assert_eq!(paths.index_html_path, String::from("out/index.html"));
    assert_eq!(paths.static_root_dir, String::from("out/static"));
    assert_eq!(
        paths.webfinger_path("acct:sample@example.com"),
        String::from("out/webfinger/_acct:sample@example.com.json")
    );
    assert_eq!(
        paths.redirect_map_path("example.com", "/@sample"),
        String::from("out/map/_example.com/_@sample.json")
    );
}

#[test]
fn redirect_map_accumulates_media_types() {
    let mut map = RedirectMap::new();
    map.insert_entry(
        String::from("text/html"),
        "https://mirror.example/users/example.com/alice.html",
    );
    map.insert_entry(
        String::from("application/activity+json"),
        "https://mirror.example/users/example.com/alice.json",
    );
    // Two independent entries, neither overwriting the other.
    assert_eq!(
        map.get_entry("text/html"),
        Some(String::from("https://mirror.example/users/example.com/alice.html"))
    );
    assert_eq!(
        map.get_entry("application/activity+json"),
        Some(String::from("https://mirror.example/users/example.com/alice.json"))
    );
    assert_eq!(map.get_entry("*/*"), None);
}

#[test]
fn redirect_map_insert_replaces_same_key() {
    let mut map = RedirectMap::new();
    map.insert_entry(String::from("*/*"), "https://mirror.example/a");
    map.insert_entry(String::from("*/*"), "https://mirror.example/b");
    assert_eq!(map.get_entry("*/*"), Some(String::from("https://mirror.example/b")));
}
