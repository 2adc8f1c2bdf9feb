use archivedon::activitypub::json;
use archivedon::activitypub::model;
use archivedon::wire::from_lax_array;
use archivedon::wire::to_lax_array;
use archivedon::wire::JsonValue;

fn str_val(s: &str) -> JsonValue {
    JsonValue::Str(String::from(s))
}

#[test]
fn lax_array_absent_round_trip() {
    let encoded = to_lax_array(Vec::new());
    assert_eq!(encoded, None);
    let decoded = from_lax_array(encoded);
    assert_eq!(decoded, Vec::<JsonValue>::new());
}

#[test]
fn lax_array_single_round_trip() {
    let encoded = to_lax_array(vec![str_val("a")]);
    assert_eq!(encoded, Some(str_val("a")));
    let decoded = from_lax_array(encoded);
    assert_eq!(decoded, vec![str_val("a")]);
}

#[test]
fn lax_array_many_round_trip() {
    let values = vec![str_val("a"), str_val("b"), str_val("c")];
    let encoded = to_lax_array(vec![str_val("a"), str_val("b"), str_val("c")]);
    assert_eq!(
        encoded,
        Some(JsonValue::Array(vec![str_val("a"), str_val("b"), str_val("c")]))
    );
    let decoded = from_lax_array(encoded);
    assert_eq!(decoded, values);
}

#[test]
fn bare_url_equivalence() {
    // A Link with only href encodes to the bare string.
    let link = model::Link::from_href(String::from("https://example.com/@sample"));
    let wire = json::ool_to_wire(&model::ObjectOrLink::Link(link));
    assert_eq!(wire, str_val("https://example.com/@sample"));

    // Decoding the bare string gives back a Link with only href set.
    let decoded = json::parse_ool(&str_val("https://example.com/@sample")).unwrap();
    match decoded {
        model::ObjectOrLink::Link(l) => {
            assert_eq!(l.href, String::from("https://example.com/@sample"));
            assert_eq!(l.id, None);
            assert_eq!(l.schema_context, None);
            assert_eq!(l.typ, Vec::<String>::new());
            assert_eq!(l.height, None);
            assert_eq!(l.hreflang, None);
            assert_eq!(l.media_type, Vec::<String>::new());
            assert_eq!(l.rel, Vec::<String>::new());
            assert_eq!(l.width, None);
        }
        model::ObjectOrLink::Object(_) => panic!("expected a link"),
    }
}

#[test]
fn empty_ordered_collection_document() {
    let collection = model::Object::new_collection(
        Some(String::from("https://mirror.example/users/example.com/alice/outbox.json")),
        vec![String::from("OrderedCollection")],
        Some(0),
        None,
        None,
        None,
        Vec::new(),
        Vec::new(),
    );
    let wire = collection.from_model();
    assert_eq!(
        wire.get("id"),
        Some(&str_val("https://mirror.example/users/example.com/alice/outbox.json"))
    );
    assert_eq!(wire.get("type"), Some(&str_val("OrderedCollection")));
    assert_eq!(wire.get("totalItems"), Some(&JsonValue::Nat(0)));
    assert_eq!(wire.get("first"), None);
    assert_eq!(wire.get("last"), None);
    assert_eq!(wire.get("items"), None);
    assert_eq!(wire.get("orderedItems"), None);
    assert_eq!(
        wire.get("@context"),
        Some(&str_val("https://www.w3.org/ns/activitystreams"))
    );
}

#[test]
fn decode_actor_document() {
    let doc = JsonValue::Object(vec![
        (String::from("@context"), str_val("https://www.w3.org/ns/activitystreams")),
        (String::from("id"), str_val("https://example.com/users/sample")),
        (String::from("type"), str_val("Person")),
        (String::from("name"), str_val("Name")),
        (String::from("inbox"), str_val("https://example.com/users/sample/inbox")),
        (String::from("outbox"), str_val("https://example.com/users/sample/outbox")),
        (String::from("following"), str_val("https://example.com/users/sample/following")),
        (String::from("followers"), str_val("https://example.com/users/sample/followers")),
        (String::from("preferredUsername"), str_val("sample")),
        (String::from("suspended"), JsonValue::Bool(true)),
        (String::from("movedTo"), str_val("https://other.example/users/sample")),
    ]);
    let o = model::Object::to_model(&doc).unwrap();
    assert_eq!(o.id, Some(String::from("https://example.com/users/sample")));
    assert_eq!(o.typ, vec![String::from("Person")]);
    assert_eq!(o.object_items.name, vec![String::from("Name")]);
    let actor = o.actor_items.as_ref().unwrap();
    assert_eq!(actor.inbox, String::from("https://example.com/users/sample/inbox"));
    assert_eq!(actor.outbox, String::from("https://example.com/users/sample/outbox"));
    assert_eq!(actor.preferred_username, Some(String::from("sample")));
    assert_eq!(o.mastodon_ext_items.suspended, Some(true));
    assert_eq!(
        o.activity_streams_ext_items.moved_to,
        Some(String::from("https://other.example/users/sample"))
    );
}

#[test]
fn decode_rejects_incomplete_actor() {
    // An inbox without the other three collection references is rejected.
    let doc = JsonValue::Object(vec![
        (String::from("id"), str_val("https://example.com/users/sample")),
        (String::from("inbox"), str_val("https://example.com/users/sample/inbox")),
    ]);
    assert!(model::Object::to_model(&doc).is_err());
}

#[test]
fn decode_lax_type_array() {
    let doc = JsonValue::Object(vec![(
        String::from("type"),
        JsonValue::Array(vec![str_val("Create"), str_val("Announce")]),
    )]);
    let o = model::Object::to_model(&doc).unwrap();
    assert_eq!(o.typ, vec![String::from("Create"), String::from("Announce")]);
}

#[test]
fn encode_decode_note_round_trip() {
    let mut object_items = model::ObjectItems::empty();
    object_items.content = vec![String::from("hello")];
    object_items.published = Some(String::from("2023-04-15T11:22:33Z"));
    object_items.url = Some(model::Link::from_href(String::from(
        "https://example.com/notes/42",
    )));
    let note = model::Object {
        schema_context: None,
        id: Some(String::from("https://example.com/notes/42")),
        typ: vec![String::from("Note")],
        object_items,
        actor_items: None,
        activity_items: model::ActivityItems::empty(),
        collection_items: model::CollectionItems::empty(),
        ordered_collection_items: model::OrderedCollectionItems::empty(),
        collection_page_items: model::CollectionPageItems::empty(),
        ordered_collection_page_items: model::OrderedCollectionPageItems::empty(),
        relationship_items: model::RelationshipItems::empty(),
        tombstone_items: model::TombstoneItems::empty(),
        question_items: model::QuestionItems::empty(),
        activity_streams_ext_items: model::ActivityStreamExtItems::empty(),
        mastodon_ext_items: model::MastodonExtItems::empty(),
        security_items: model::SecurityItems::empty(),
    };
    let wire = note.from_model();
    assert_eq!(wire.get("content"), Some(&str_val("hello")));
    assert_eq!(wire.get("url"), Some(&str_val("https://example.com/notes/42")));
    let back = model::Object::to_model(&wire).unwrap();
    assert_eq!(back, note);
}

#[test]
fn deserialize_context() {
    // A context given as a one-element array is a Mix of one entry.
    let doc = JsonValue::Array(vec![str_val("https://www.w3.org/ns/activitystreams")]);
    let ctx = json::parse_ctx(&doc).unwrap();
    assert_eq!(
        ctx,
        model::Context::Mix(vec![model::Context::Single(model::Iri::Direct(String::from(
            "https://www.w3.org/ns/activitystreams"
        )))])
    );
}

#[test]
fn deserialize_term_definitions() {
    let doc = JsonValue::Object(vec![(
        String::from("movedTo"),
        JsonValue::Object(vec![
            (String::from("@id"), str_val("as:movedTo")),
            (String::from("@type"), str_val("@id")),
        ]),
    )]);
    let ctx = json::parse_ctx(&doc).unwrap();
    assert_eq!(
        ctx,
        model::Context::TermDefs(vec![(
            String::from("movedTo"),
            model::Iri::TypeCoercion {
                id: String::from("as:movedTo"),
                typ: Some(String::from("@id")),
            },
        )])
    );
}

#[test]
fn public_key_round_trip() {
    let mut security_items = model::SecurityItems::empty();
    security_items.public_key = Some(model::Key {
        id: String::from("https://example.com/users/sample#main-key"),
        owner: String::from("https://example.com/users/sample"),
        public_key_pem: Some(String::from("-----BEGIN PUBLIC KEY-----")),
    });
    let mut actor = model::Object::new_collection(
        Some(String::from("https://example.com/users/sample")),
        vec![String::from("Person")],
        None,
        None,
        None,
        None,
        Vec::new(),
        Vec::new(),
    );
    actor.security_items = security_items;
    let wire = actor.from_model();
    let back = model::Object::to_model(&wire).unwrap();
    let key = back.security_items.public_key.unwrap();
    assert_eq!(key.id, String::from("https://example.com/users/sample#main-key"));
    assert_eq!(key.owner, String::from("https://example.com/users/sample"));
}

#[test]
fn full_actor_round_trip() {
    // Every extension group populated at once, as on a real archived actor:
    // endpoints, alsoKnownAs, movedTo, the Mastodon fields including a
    // devices collection URL, and a public key.
    let mut object_items = model::ObjectItems::empty();
    object_items.name = vec![String::from("Name")];
    object_items.summary = vec![String::from("Summary")];
    object_items.published = Some(String::from("2023-04-15T11:22:33Z"));
    object_items.url = Some(model::Link::from_href(String::from("https://example.com/@sample")));
    object_items.icon = vec![model::ObjectOrLink::Link(model::Link::from_href(String::from(
        "https://example.com/icon.png",
    )))];
    let actor = model::Object {
        schema_context: Some(model::Context::object_default()),
        id: Some(String::from("https://example.com/users/sample")),
        typ: vec![String::from("Person")],
        object_items,
        actor_items: Some(model::ActorItems {
            inbox: String::from("https://example.com/users/sample/inbox"),
            outbox: String::from("https://example.com/users/sample/outbox"),
            following: String::from("https://example.com/users/sample/following"),
            followers: String::from("https://example.com/users/sample/followers"),
            preferred_username: Some(String::from("sample")),
            endpoints: vec![(
                String::from("sharedInbox"),
                String::from("https://example.com/inbox"),
            )],
        }),
        activity_items: model::ActivityItems::empty(),
        collection_items: model::CollectionItems::empty(),
        ordered_collection_items: model::OrderedCollectionItems::empty(),
        collection_page_items: model::CollectionPageItems::empty(),
        ordered_collection_page_items: model::OrderedCollectionPageItems::empty(),
        relationship_items: model::RelationshipItems::empty(),
        tombstone_items: model::TombstoneItems::empty(),
        question_items: model::QuestionItems::empty(),
        activity_streams_ext_items: model::ActivityStreamExtItems {
            manually_approves_followers: Some(false),
            also_known_as: vec![String::from("https://example.com/users/sample_alias")],
            moved_to: Some(String::from("https://example.com/users/sample_alias")),
        },
        mastodon_ext_items: model::MastodonExtItems {
            featured: Some(String::from("https://example.com/users/sample/collections/featured")),
            featured_tags: Some(String::from("https://example.com/users/sample/collections/tags")),
            discoverable: Some(true),
            suspended: Some(true),
            devices: Some(String::from("https://example.com/users/sample/collections/devices")),
        },
        security_items: model::SecurityItems {
            public_key: Some(model::Key {
                id: String::from("https://example.com/users/sample#main-key"),
                owner: String::from("https://example.com/users/sample"),
                public_key_pem: Some(String::from("-----BEGIN PUBLIC KEY-----")),
            }),
        },
    };
    let wire = actor.from_model();
    assert_eq!(
        wire.get("devices"),
        Some(&str_val("https://example.com/users/sample/collections/devices"))
    );
    let back = model::Object::to_model(&wire).unwrap();
    assert_eq!(back, actor);
}

#[test]
fn decode_devices_url() {
    // A devices collection URL, as Mastodon writes it, decodes as a string.
    let doc = JsonValue::Object(vec![
        (String::from("devices"), str_val("https://example.com/users/sample/collections/devices")),
    ]);
    let o = model::Object::to_model(&doc).unwrap();
    assert_eq!(
        o.mastodon_ext_items.devices,
        Some(String::from("https://example.com/users/sample/collections/devices"))
    );
}
