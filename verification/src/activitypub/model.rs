//! The canonical object model: one tagged structure able to represent any
//! ActivityPub Object, Actor, Activity, Collection or Link, with its fields
//! grouped by vocabulary extension. Multi-valued fields are ordered vectors;
//! timestamps are carried as RFC 3339 strings; term maps are ordered
//! key/value lists.

use vstd::prelude::*;

use crate::wire::JsonValue;

verus! {

/// A JSON-LD context: a single term-expansion IRI, an ordered list of
/// contexts, or a term-definition map.
#[derive(Debug, PartialEq, Eq)]
pub enum Context {
    Single(Iri),
    Mix(Vec<Context>),
    TermDefs(Vec<(String, Iri)>),
}

/// A term-expansion IRI: either given directly, or with a type coercion.
#[derive(Debug, PartialEq, Eq)]
pub enum Iri {
    Direct(String),
    TypeCoercion { id: String, typ: Option<String> },
}

/// Whether a context is the plain ActivityStreams context.
pub open spec fn is_pure_ap(c: Context) -> bool {
    c matches Context::Single(Iri::Direct(s)) && s@ == "https://www.w3.org/ns/activitystreams"@
}

impl Context {
    /// The plain ActivityStreams context.
    pub fn pure_ap() -> (r: Context)
        ensures
            is_pure_ap(r),
    {
        Context::Single(Iri::Direct(String::from_str("https://www.w3.org/ns/activitystreams")))
    }

    /// The default context attached to rewritten documents: ActivityStreams,
    /// the security vocabulary, and the ActivityStreams and Mastodon term
    /// extensions used by archived actors.
    pub fn object_default() -> (r: Context)
        ensures
            is_object_default(r),
    {
        let mut parts: Vec<Context> = Vec::new();
        let p0 = Context::Single(Iri::Direct(String::from_str(
            "https://www.w3.org/ns/activitystreams",
        )));
        parts.push(p0);
        let p1 = Context::Single(Iri::Direct(String::from_str("https://w3id.org/security/v1")));
        parts.push(p1);
        let mut as_ext: Vec<(String, Iri)> = Vec::new();
        as_ext.push(
            (
                String::from_str("alsoKnownAs"),
                Iri::TypeCoercion {
                    id: String::from_str("as:alsoKnownAs"),
                    typ: Some(String::from_str("@id")),
                },
            ),
        );
        as_ext.push(
            (
                String::from_str("manuallyApprovesFollowers"),
                Iri::Direct(String::from_str("as:manuallyApprovesFollowers")),
            ),
        );
        as_ext.push(
            (
                String::from_str("movedTo"),
                Iri::TypeCoercion {
                    id: String::from_str("as:movedTo"),
                    typ: Some(String::from_str("@id")),
                },
            ),
        );
        let p2 = Context::TermDefs(as_ext);
        parts.push(p2);
        let mut toot_ext: Vec<(String, Iri)> = Vec::new();
        toot_ext.push(
            (String::from_str("toot"), Iri::Direct(String::from_str("http://joinmastodon.org/ns#"))),
        );
        toot_ext.push(
            (
                String::from_str("devices"),
                Iri::TypeCoercion {
                    id: String::from_str("toot:devices"),
                    typ: Some(String::from_str("@id")),
                },
            ),
        );
        toot_ext.push(
            (String::from_str("discoverable"), Iri::Direct(String::from_str("toot:discoverable"))),
        );
        toot_ext.push(
            (
                String::from_str("featured"),
                Iri::TypeCoercion {
                    id: String::from_str("toot:featured"),
                    typ: Some(String::from_str("@id")),
                },
            ),
        );
        toot_ext.push(
            (
                String::from_str("featuredTags"),
                Iri::TypeCoercion {
                    id: String::from_str("toot:featuredTags"),
                    typ: Some(String::from_str("@id")),
                },
            ),
        );
        toot_ext.push(
            (String::from_str("suspended"), Iri::Direct(String::from_str("toot:suspended"))),
        );
        let p3 = Context::TermDefs(toot_ext);
        parts.push(p3);
        let r = Context::Mix(parts);
        proof {
            assert(parts@.len() == 4);
            assert(parts@[0] == p0 && parts@[1] == p1 && parts@[2] == p2 && parts@[3] == p3);
            assert(is_as_ext_defs(p2->TermDefs_0@));
            assert(is_toot_ext_defs(p3->TermDefs_0@));
        }
        r
    }
}

/// An `@id`-coerced term definition.
pub open spec fn is_id_coercion(iri: Iri, id: Seq<char>) -> bool {
    iri matches Iri::TypeCoercion { id: i, typ } && i@ == id && (typ matches Some(t) && t@
        == "@id"@)
}

/// The ActivityStreams extension terms carried by rewritten documents:
/// `alsoKnownAs`, `manuallyApprovesFollowers` and `movedTo`.
pub open spec fn is_as_ext_defs(defs: Seq<(String, Iri)>) -> bool {
    &&& defs.len() == 3
    &&& defs[0].0@ == "alsoKnownAs"@ && is_id_coercion(defs[0].1, "as:alsoKnownAs"@)
    &&& defs[1].0@ == "manuallyApprovesFollowers"@ && (defs[1].1 matches Iri::Direct(s) && s@
        == "as:manuallyApprovesFollowers"@)
    &&& defs[2].0@ == "movedTo"@ && is_id_coercion(defs[2].1, "as:movedTo"@)
}

/// The Mastodon extension terms carried by rewritten documents: the
/// `toot` namespace and its `devices`, `discoverable`, `featured`,
/// `featuredTags` and `suspended` terms.
pub open spec fn is_toot_ext_defs(defs: Seq<(String, Iri)>) -> bool {
    &&& defs.len() == 6
    &&& defs[0].0@ == "toot"@ && (defs[0].1 matches Iri::Direct(s) && s@
        == "http://joinmastodon.org/ns#"@)
    &&& defs[1].0@ == "devices"@ && is_id_coercion(defs[1].1, "toot:devices"@)
    &&& defs[2].0@ == "discoverable"@ && (defs[2].1 matches Iri::Direct(s) && s@
        == "toot:discoverable"@)
    &&& defs[3].0@ == "featured"@ && is_id_coercion(defs[3].1, "toot:featured"@)
    &&& defs[4].0@ == "featuredTags"@ && is_id_coercion(defs[4].1, "toot:featuredTags"@)
    &&& defs[5].0@ == "suspended"@ && (defs[5].1 matches Iri::Direct(s) && s@
        == "toot:suspended"@)
}

/// The exact default document context: the ActivityStreams namespace, the
/// security vocabulary, and the two term-definition maps, in that order.
pub open spec fn is_object_default(c: Context) -> bool {
    &&& c matches Context::Mix(parts)
    &&& parts@.len() == 4
    &&& is_pure_ap(parts@[0])
    &&& parts@[1] matches Context::Single(Iri::Direct(s)) && s@ == "https://w3id.org/security/v1"@
    &&& parts@[2] matches Context::TermDefs(defs) && is_as_ext_defs(defs@)
    &&& parts@[3] matches Context::TermDefs(defs) && is_toot_ext_defs(defs@)
}

/// A Link: a URI with optional presentation attributes.
#[derive(Debug, PartialEq, Eq)]
pub struct Link {
    pub schema_context: Option<Context>,
    pub id: Option<String>,
    pub typ: Vec<String>,
    pub href: String,
    pub height: Option<usize>,
    pub hreflang: Option<String>,
    pub media_type: Vec<String>,
    pub rel: Vec<String>,
    pub width: Option<usize>,
}

impl Link {
    /// A bare link: only `href` is set.
    pub fn from_href(href: String) -> (r: Link)
        ensures
            r.href == href,
            r.is_bare(),
    {
        let r = Link {
            schema_context: None,
            id: None,
            typ: Vec::new(),
            href,
            height: None,
            hreflang: None,
            media_type: Vec::new(),
            rel: Vec::new(),
            width: None,
        };
        proof {
            assert(r.typ@ =~= Seq::<String>::empty());
            assert(r.media_type@ =~= Seq::<String>::empty());
            assert(r.rel@ =~= Seq::<String>::empty());
        }
        r
    }

    /// A link with no attribute beyond `href`; such a link is equivalent to
    /// the bare URI string it holds.
    pub open spec fn is_bare(&self) -> bool {
        &&& self.schema_context is None
        &&& self.id is None
        &&& self.typ@ == Seq::<String>::empty()
        &&& self.height is None
        &&& self.hreflang is None
        &&& self.media_type@ == Seq::<String>::empty()
        &&& self.rel@ == Seq::<String>::empty()
        &&& self.width is None
    }
}

/// A reference that is either a Link or an embedded Object.
#[derive(Debug, PartialEq)]
pub enum ObjectOrLink {
    Link(Link),
    Object(Object),
}

/// Core Object properties.
#[derive(Debug, PartialEq)]
pub struct ObjectItems {
    pub attachment: Vec<ObjectOrLink>,
    pub attributed_to: Vec<ObjectOrLink>,
    pub audience: Vec<ObjectOrLink>,
    pub bcc: Vec<ObjectOrLink>,
    pub bto: Vec<ObjectOrLink>,
    pub cc: Vec<ObjectOrLink>,
    pub context: Vec<ObjectOrLink>,
    pub generator: Vec<ObjectOrLink>,
    pub icon: Vec<ObjectOrLink>,
    pub image: Vec<ObjectOrLink>,
    pub in_reply_to: Vec<ObjectOrLink>,
    pub location: Vec<ObjectOrLink>,
    pub preview: Vec<ObjectOrLink>,
    pub replies: Option<Box<Object>>,
    pub tag: Vec<ObjectOrLink>,
    pub to: Vec<ObjectOrLink>,
    pub url: Option<Link>,
    pub content: Vec<String>,
    pub content_map: Vec<(String, String)>,
    pub name: Vec<String>,
    pub name_map: Vec<(String, String)>,
    pub duration: Option<String>,
    pub media_type: Vec<String>,
    pub end_time: Option<String>,
    pub published: Option<String>,
    pub summary: Vec<String>,
    pub summary_map: Vec<(String, String)>,
    pub updated: Option<String>,
    pub describes: Option<Box<Object>>,
}

/// Actor properties. A document carrying any of them must carry the four
/// collection references; that invariant is enforced where a document is
/// decoded or built, not field by field.
#[derive(Debug, PartialEq, Eq)]
pub struct ActorItems {
    pub inbox: String,
    pub outbox: String,
    pub following: String,
    pub followers: String,
    pub preferred_username: Option<String>,
    pub endpoints: Vec<(String, String)>,
}

/// Activity properties.
#[derive(Debug, PartialEq)]
pub struct ActivityItems {
    pub actor: Vec<ObjectOrLink>,
    pub instrument: Vec<ObjectOrLink>,
    pub origin: Vec<ObjectOrLink>,
    pub object: Vec<ObjectOrLink>,
    pub result: Vec<ObjectOrLink>,
    pub target: Vec<ObjectOrLink>,
}

/// Collection properties.
#[derive(Debug, PartialEq)]
pub struct CollectionItems {
    pub total_items: Option<usize>,
    pub current: Option<Box<ObjectOrLink>>,
    pub first: Option<Box<ObjectOrLink>>,
    pub last: Option<Box<ObjectOrLink>>,
    pub items: Vec<ObjectOrLink>,
}

/// OrderedCollection properties.
#[derive(Debug, PartialEq)]
pub struct OrderedCollectionItems {
    pub ordered_items: Vec<ObjectOrLink>,
}

/// CollectionPage properties.
#[derive(Debug, PartialEq)]
pub struct CollectionPageItems {
    pub next: Option<Box<ObjectOrLink>>,
    pub prev: Option<Box<ObjectOrLink>>,
    pub part_of: Option<Box<ObjectOrLink>>,
}

/// OrderedCollectionPage properties.
#[derive(Debug, PartialEq, Eq)]
pub struct OrderedCollectionPageItems {
    pub start_index: Option<usize>,
}

/// Relationship properties.
#[derive(Debug, PartialEq)]
pub struct RelationshipItems {
    pub subject: Option<Box<ObjectOrLink>>,
    pub relationship: Vec<Object>,
}

/// Tombstone properties.
#[derive(Debug, PartialEq)]
pub struct TombstoneItems {
    pub former_type: Vec<Object>,
    pub deleted: Option<String>,
}

/// Question properties. The closed marker is kept as the raw wire value.
#[derive(Debug, PartialEq)]
pub struct QuestionItems {
    pub one_of: Vec<ObjectOrLink>,
    pub any_of: Vec<ObjectOrLink>,
    pub closed: Option<JsonValue>,
}

/// ActivityStreams extension properties used by Mastodon-compatible actors.
#[derive(Debug, PartialEq, Eq)]
pub struct ActivityStreamExtItems {
    pub manually_approves_followers: Option<bool>,
    pub also_known_as: Vec<String>,
    pub moved_to: Option<String>,
}

/// Mastodon extension properties.
#[derive(Debug, PartialEq, Eq)]
pub struct MastodonExtItems {
    pub featured: Option<String>,
    pub featured_tags: Option<String>,
    pub discoverable: Option<bool>,
    pub suspended: Option<bool>,
    pub devices: Option<String>,
}

/// Security vocabulary properties.
#[derive(Debug, PartialEq, Eq)]
pub struct SecurityItems {
    pub public_key: Option<Key>,
}

/// A public key attached to an actor.
#[derive(Debug, PartialEq, Eq)]
pub struct Key {
    pub id: String,
    pub owner: String,
    pub public_key_pem: Option<String>,
}

/// The canonical document: every vocabulary group on one structure, each
/// group independently defaultable.
#[derive(Debug, PartialEq)]
pub struct Object {
    pub schema_context: Option<Context>,
    pub id: Option<String>,
    pub typ: Vec<String>,
    pub object_items: ObjectItems,
    pub actor_items: Option<ActorItems>,
    pub activity_items: ActivityItems,
    pub collection_items: CollectionItems,
    pub ordered_collection_items: OrderedCollectionItems,
    pub collection_page_items: CollectionPageItems,
    pub ordered_collection_page_items: OrderedCollectionPageItems,
    pub relationship_items: RelationshipItems,
    pub tombstone_items: TombstoneItems,
    pub question_items: QuestionItems,
    pub activity_streams_ext_items: ActivityStreamExtItems,
    pub mastodon_ext_items: MastodonExtItems,
    pub security_items: SecurityItems,
}

impl ObjectItems {
    pub open spec fn is_empty_spec(&self) -> bool {
        &&& self.attachment@ == Seq::<ObjectOrLink>::empty()
        &&& self.attributed_to@ == Seq::<ObjectOrLink>::empty()
        &&& self.audience@ == Seq::<ObjectOrLink>::empty()
        &&& self.bcc@ == Seq::<ObjectOrLink>::empty()
        &&& self.bto@ == Seq::<ObjectOrLink>::empty()
        &&& self.cc@ == Seq::<ObjectOrLink>::empty()
        &&& self.context@ == Seq::<ObjectOrLink>::empty()
        &&& self.generator@ == Seq::<ObjectOrLink>::empty()
        &&& self.icon@ == Seq::<ObjectOrLink>::empty()
        &&& self.image@ == Seq::<ObjectOrLink>::empty()
        &&& self.in_reply_to@ == Seq::<ObjectOrLink>::empty()
        &&& self.location@ == Seq::<ObjectOrLink>::empty()
        &&& self.preview@ == Seq::<ObjectOrLink>::empty()
        &&& self.replies is None
        &&& self.tag@ == Seq::<ObjectOrLink>::empty()
        &&& self.to@ == Seq::<ObjectOrLink>::empty()
        &&& self.url is None
        &&& self.content@ == Seq::<String>::empty()
        &&& self.content_map@ == Seq::<(String, String)>::empty()
        &&& self.name@ == Seq::<String>::empty()
        &&& self.name_map@ == Seq::<(String, String)>::empty()
        &&& self.duration is None
        &&& self.media_type@ == Seq::<String>::empty()
        &&& self.end_time is None
        &&& self.published is None
        &&& self.summary@ == Seq::<String>::empty()
        &&& self.summary_map@ == Seq::<(String, String)>::empty()
        &&& self.updated is None
        &&& self.describes is None
    }

    /// A group with every field absent.
    pub fn empty() -> (r: Self)
        ensures
            r.is_empty_spec(),
    {
        let r = ObjectItems {
            attachment: Vec::new(),
            attributed_to: Vec::new(),
            audience: Vec::new(),
            bcc: Vec::new(),
            bto: Vec::new(),
            cc: Vec::new(),
            context: Vec::new(),
            generator: Vec::new(),
            icon: Vec::new(),
            image: Vec::new(),
            in_reply_to: Vec::new(),
            location: Vec::new(),
            preview: Vec::new(),
            replies: None,
            tag: Vec::new(),
            to: Vec::new(),
            url: None,
            content: Vec::new(),
            content_map: Vec::new(),
            name: Vec::new(),
            name_map: Vec::new(),
            duration: None,
            media_type: Vec::new(),
            end_time: None,
            published: None,
            summary: Vec::new(),
            summary_map: Vec::new(),
            updated: None,
            describes: None,
        };
        proof {
            assert(r.attachment@ =~= Seq::<ObjectOrLink>::empty());
            assert(r.attributed_to@ =~= Seq::<ObjectOrLink>::empty());
            assert(r.audience@ =~= Seq::<ObjectOrLink>::empty());
            assert(r.bcc@ =~= Seq::<ObjectOrLink>::empty());
            assert(r.bto@ =~= Seq::<ObjectOrLink>::empty());
            assert(r.cc@ =~= Seq::<ObjectOrLink>::empty());
            assert(r.context@ =~= Seq::<ObjectOrLink>::empty());
            assert(r.generator@ =~= Seq::<ObjectOrLink>::empty());
            assert(r.icon@ =~= Seq::<ObjectOrLink>::empty());
            assert(r.image@ =~= Seq::<ObjectOrLink>::empty());
            assert(r.in_reply_to@ =~= Seq::<ObjectOrLink>::empty());
            assert(r.location@ =~= Seq::<ObjectOrLink>::empty());
            assert(r.preview@ =~= Seq::<ObjectOrLink>::empty());
            assert(r.tag@ =~= Seq::<ObjectOrLink>::empty());
            assert(r.to@ =~= Seq::<ObjectOrLink>::empty());
            assert(r.content@ =~= Seq::<String>::empty());
            assert(r.content_map@ =~= Seq::<(String, String)>::empty());
            assert(r.name@ =~= Seq::<String>::empty());
            assert(r.name_map@ =~= Seq::<(String, String)>::empty());
            assert(r.media_type@ =~= Seq::<String>::empty());
            assert(r.summary@ =~= Seq::<String>::empty());
            assert(r.summary_map@ =~= Seq::<(String, String)>::empty());
        }
        r
    }
}

impl ActivityItems {
    pub open spec fn is_empty_spec(&self) -> bool {
        &&& self.actor@ == Seq::<ObjectOrLink>::empty()
        &&& self.instrument@ == Seq::<ObjectOrLink>::empty()
        &&& self.origin@ == Seq::<ObjectOrLink>::empty()
        &&& self.object@ == Seq::<ObjectOrLink>::empty()
        &&& self.result@ == Seq::<ObjectOrLink>::empty()
        &&& self.target@ == Seq::<ObjectOrLink>::empty()
    }

    /// A group with every field absent.
    pub fn empty() -> (r: Self)
        ensures
            r.is_empty_spec(),
    {
        let r = ActivityItems {
            actor: Vec::new(),
            instrument: Vec::new(),
            origin: Vec::new(),
            object: Vec::new(),
            result: Vec::new(),
            target: Vec::new(),
        };
        proof {
            assert(r.actor@ =~= Seq::<ObjectOrLink>::empty());
            assert(r.instrument@ =~= Seq::<ObjectOrLink>::empty());
            assert(r.origin@ =~= Seq::<ObjectOrLink>::empty());
            assert(r.object@ =~= Seq::<ObjectOrLink>::empty());
            assert(r.result@ =~= Seq::<ObjectOrLink>::empty());
            assert(r.target@ =~= Seq::<ObjectOrLink>::empty());
        }
        r
    }
}

impl CollectionItems {
    pub open spec fn is_empty_spec(&self) -> bool {
        &&& self.total_items is None
        &&& self.current is None
        &&& self.first is None
        &&& self.last is None
        &&& self.items@ == Seq::<ObjectOrLink>::empty()
    }

    /// A group with every field absent.
    pub fn empty() -> (r: Self)
        ensures
            r.is_empty_spec(),
    {
        let r = CollectionItems {
            total_items: None,
            current: None,
            first: None,
            last: None,
            items: Vec::new(),
        };
        proof {
            assert(r.items@ =~= Seq::<ObjectOrLink>::empty());
        }
        r
    }
}

impl OrderedCollectionItems {
    pub open spec fn is_empty_spec(&self) -> bool {
        self.ordered_items@ == Seq::<ObjectOrLink>::empty()
    }

    /// A group with every field absent.
    pub fn empty() -> (r: Self)
        ensures
            r.is_empty_spec(),
    {
        let r = OrderedCollectionItems { ordered_items: Vec::new() };
        proof {
            assert(r.ordered_items@ =~= Seq::<ObjectOrLink>::empty());
        }
        r
    }
}

impl CollectionPageItems {
    pub open spec fn is_empty_spec(&self) -> bool {
        &&& self.next is None
        &&& self.prev is None
        &&& self.part_of is None
    }

    /// A group with every field absent.
    pub fn empty() -> (r: Self)
        ensures
            r.is_empty_spec(),
    {
        CollectionPageItems { next: None, prev: None, part_of: None }
    }
}

impl OrderedCollectionPageItems {
    pub open spec fn is_empty_spec(&self) -> bool {
        self.start_index is None
    }

    /// A group with every field absent.
    pub fn empty() -> (r: Self)
        ensures
            r.is_empty_spec(),
    {
        OrderedCollectionPageItems { start_index: None }
    }
}

impl RelationshipItems {
    pub open spec fn is_empty_spec(&self) -> bool {
        &&& self.subject is None
        &&& self.relationship@ == Seq::<Object>::empty()
    }

    /// A group with every field absent.
    pub fn empty() -> (r: Self)
        ensures
            r.is_empty_spec(),
    {
        let r = RelationshipItems { subject: None, relationship: Vec::new() };
        proof {
            assert(r.relationship@ =~= Seq::<Object>::empty());
        }
        r
    }
}

impl TombstoneItems {
    pub open spec fn is_empty_spec(&self) -> bool {
        &&& self.former_type@ == Seq::<Object>::empty()
        &&& self.deleted is None
    }

    /// A group with every field absent.
    pub fn empty() -> (r: Self)
        ensures
            r.is_empty_spec(),
    {
        let r = TombstoneItems { former_type: Vec::new(), deleted: None };
        proof {
            assert(r.former_type@ =~= Seq::<Object>::empty());
        }
        r
    }
}

impl QuestionItems {
    pub open spec fn is_empty_spec(&self) -> bool {
        &&& self.one_of@ == Seq::<ObjectOrLink>::empty()
        &&& self.any_of@ == Seq::<ObjectOrLink>::empty()
        &&& self.closed is None
    }

    /// A group with every field absent.
    pub fn empty() -> (r: Self)
        ensures
            r.is_empty_spec(),
    {
        let r = QuestionItems { one_of: Vec::new(), any_of: Vec::new(), closed: None };
        proof {
            assert(r.one_of@ =~= Seq::<ObjectOrLink>::empty());
            assert(r.any_of@ =~= Seq::<ObjectOrLink>::empty());
        }
        r
    }
}

impl ActivityStreamExtItems {
    pub open spec fn is_empty_spec(&self) -> bool {
        &&& self.manually_approves_followers is None
        &&& self.also_known_as@ == Seq::<String>::empty()
        &&& self.moved_to is None
    }

    /// A group with every field absent.
    pub fn empty() -> (r: Self)
        ensures
            r.is_empty_spec(),
    {
        let r = ActivityStreamExtItems {
            manually_approves_followers: None,
            also_known_as: Vec::new(),
            moved_to: None,
        };
        proof {
            assert(r.also_known_as@ =~= Seq::<String>::empty());
        }
        r
    }
}

impl MastodonExtItems {
    pub open spec fn is_empty_spec(&self) -> bool {
        &&& self.featured is None
        &&& self.featured_tags is None
        &&& self.discoverable is None
        &&& self.suspended is None
        &&& self.devices is None
    }

    /// A group with every field absent.
    pub fn empty() -> (r: Self)
        ensures
            r.is_empty_spec(),
    {
        MastodonExtItems {
            featured: None,
            featured_tags: None,
            discoverable: None,
            suspended: None,
            devices: None,
        }
    }
}

impl SecurityItems {
    pub open spec fn is_empty_spec(&self) -> bool {
        self.public_key is None
    }

    /// A group with every field absent.
    pub fn empty() -> (r: Self)
        ensures
            r.is_empty_spec(),
    {
        SecurityItems { public_key: None }
    }
}

impl Object {
    /// Every group other than the collection groups is absent.
    pub open spec fn is_plain_collection(&self) -> bool {
        &&& self.object_items.is_empty_spec()
        &&& self.actor_items is None
        &&& self.activity_items.is_empty_spec()
        &&& self.collection_page_items.is_empty_spec()
        &&& self.ordered_collection_page_items.is_empty_spec()
        &&& self.relationship_items.is_empty_spec()
        &&& self.tombstone_items.is_empty_spec()
        &&& self.question_items.is_empty_spec()
        &&& self.activity_streams_ext_items.is_empty_spec()
        &&& self.mastodon_ext_items.is_empty_spec()
        &&& self.security_items.is_empty_spec()
    }

    /// A bare (Ordered)Collection document under the plain ActivityStreams
    /// context.
    pub fn new_collection(
        id: Option<String>,
        typ: Vec<String>,
        total_items: Option<usize>,
        current: Option<Box<ObjectOrLink>>,
        first: Option<Box<ObjectOrLink>>,
        last: Option<Box<ObjectOrLink>>,
        items: Vec<ObjectOrLink>,
        ordered_items: Vec<ObjectOrLink>,
    ) -> (r: Object)
        ensures
            r.is_plain_collection(),
            r.schema_context matches Some(c) && is_pure_ap(c),
            r.id == id,
            r.typ == typ,
            r.collection_items.total_items == total_items,
            r.collection_items.current == current,
            r.collection_items.first == first,
            r.collection_items.last == last,
            r.collection_items.items == items,
            r.ordered_collection_items.ordered_items == ordered_items,
    {
        Object {
            schema_context: Some(Context::pure_ap()),
            id,
            typ,
            object_items: ObjectItems::empty(),
            actor_items: None,
            activity_items: ActivityItems::empty(),
            collection_items: CollectionItems { total_items, current, first, last, items },
            ordered_collection_items: OrderedCollectionItems { ordered_items },
            collection_page_items: CollectionPageItems::empty(),
            ordered_collection_page_items: OrderedCollectionPageItems::empty(),
            relationship_items: RelationshipItems::empty(),
            tombstone_items: TombstoneItems::empty(),
            question_items: QuestionItems::empty(),
            activity_streams_ext_items: ActivityStreamExtItems::empty(),
            mastodon_ext_items: MastodonExtItems::empty(),
            security_items: SecurityItems::empty(),
        }
    }
}

} // verus!
