//! The lax-array wire codec: the bidirectional transform between the
//! canonical model and loose JSON-LD wire documents. A multi-valued field
//! is written as an absent field, a bare value, or an array; a Link with no
//! attribute beyond `href` is written as the bare URI string.

use vstd::prelude::*;

use crate::activitypub::model::Context;
use crate::activitypub::model::Iri;
use crate::activitypub::model::Key;
use crate::activitypub::model::Link;
use crate::activitypub::model::Object;
use crate::activitypub::model::ObjectOrLink;
use crate::wire::lemma_dv_variant;
use crate::wire::spec_field;
use crate::wire::spec_from_lax;
use crate::wire::spec_get;
use crate::wire::spec_to_lax;
use crate::wire::JsonV;
use crate::wire::JsonValue;

verus! {

/// The entry a field contributes to its document: nothing when the value
/// is absent, one key/value pair otherwise.
pub open spec fn opt_entry(key: Seq<char>, v: Option<JsonV>) -> Seq<(Seq<char>, JsonV)> {
    match v {
        None => Seq::empty(),
        Some(x) => seq![(key, x)],
    }
}

/// String values as wire values.
pub open spec fn jv_strs(ss: Seq<Seq<char>>) -> Seq<JsonV> {
    ss.map_values(|s: Seq<char>| JsonV::Str(s))
}

/// The lax encoding of a multi-valued string field.
pub open spec fn str_lax(ss: Seq<Seq<char>>) -> Option<JsonV> {
    spec_to_lax(jv_strs(ss))
}

/// An optional string as a wire value.
pub open spec fn opt_str_jv(s: Option<Seq<char>>) -> Option<JsonV> {
    match s {
        None => None,
        Some(x) => Some(JsonV::Str(x)),
    }
}

/// An optional count as a wire value.
pub open spec fn opt_nat_jv(n: Option<usize>) -> Option<JsonV> {
    match n {
        None => None,
        Some(x) => Some(JsonV::Nat(x as u64)),
    }
}

/// An optional flag as a wire value.
pub open spec fn opt_bool_jv(b: Option<bool>) -> Option<JsonV> {
    match b {
        None => None,
        Some(x) => Some(JsonV::Bool(x)),
    }
}

/// A term map as a wire object; an empty map is omitted.
pub open spec fn strmap_jv(m: Seq<(Seq<char>, Seq<char>)>) -> Option<JsonV> {
    if m.len() == 0 {
        None
    } else {
        Some(JsonV::Object(m.map_values(|e: (Seq<char>, Seq<char>)| (e.0, JsonV::Str(e.1)))))
    }
}

/// A term-expansion IRI on the wire: the bare IRI string, or an object
/// with `@id` and an optional `@type`.
pub open spec fn iri_wire(iri: Iri) -> JsonV {
    match iri {
        Iri::Direct(s) => JsonV::Str(s@),
        Iri::TypeCoercion { id, typ } => JsonV::Object(
            seq![("@id"@, JsonV::Str(id@))] + opt_entry("@type"@, opt_str_jv(typ.deep_view())),
        ),
    }
}

/// A public key on the wire.
pub open spec fn key_wire(k: Key) -> JsonV {
    JsonV::Object(
        seq![("id"@, JsonV::Str(k.id@)), ("owner"@, JsonV::Str(k.owner@))] + opt_entry(
            "publicKeyPem"@,
            opt_str_jv(k.public_key_pem.deep_view()),
        ),
    )
}

#[via_fn]
proof fn ctx_wire_decreases(c: Context) {
    broadcast use vstd::std_specs::vec::group_vec_axioms;

    match c {
        Context::Mix(parts) => {
            assert(decreases_to!(parts => parts@));
        },
        _ => {},
    }
}

/// A JSON-LD context on the wire: a single IRI, an array of contexts, or
/// a term-definition object.
pub open spec fn ctx_wire(c: Context) -> JsonV
    decreases c, 1int,
    via ctx_wire_decreases
{
    match c {
        Context::Single(iri) => iri_wire(iri),
        Context::Mix(parts) => JsonV::Array(ctx_list_wire(parts@)),
        Context::TermDefs(defs) => JsonV::Object(
            defs@.map_values(|e: (String, Iri)| (e.0@, iri_wire(e.1))),
        ),
    }
}

#[via_fn]
proof fn ctx_list_wire_decreases(parts: Seq<Context>) {
    broadcast use vstd::std_specs::vec::group_vec_axioms;

    if parts.len() > 0 {
        assert(decreases_to!(parts => parts[0]));
    }
}

/// Contexts of a context list, in order, on the wire.
pub open spec fn ctx_list_wire(parts: Seq<Context>) -> Seq<JsonV>
    decreases parts, 2int,
    via ctx_list_wire_decreases
{
    if parts.len() == 0 {
        Seq::empty()
    } else {
        seq![ctx_wire(parts[0])] + ctx_list_wire(parts.subrange(1, parts.len() as int))
    }
}

/// An optional context as a wire value.
pub open spec fn opt_ctx_jv(c: Option<Context>) -> Option<JsonV>
    decreases c, 2int,
{
    match c {
        None => None,
        Some(x) => Some(ctx_wire(x)),
    }
}

/// A Link document's entries on the wire.
pub open spec fn link_entries(l: Link) -> Seq<(Seq<char>, JsonV)>
    decreases l, 2int,
{
    opt_entry("schema_context"@, opt_ctx_jv(l.schema_context)) + opt_entry(
        "id"@,
        opt_str_jv(l.id.deep_view()),
    ) + opt_entry("typ"@, str_lax(l.typ.deep_view())) + seq![("href"@, JsonV::Str(l.href@))]
        + opt_entry("height"@, opt_nat_jv(l.height)) + opt_entry(
        "hreflang"@,
        opt_str_jv(l.hreflang.deep_view()),
    ) + opt_entry("media_type"@, str_lax(l.media_type.deep_view())) + opt_entry(
        "rel"@,
        str_lax(l.rel.deep_view()),
    ) + opt_entry("width"@, opt_nat_jv(l.width))
}

/// A Link on the wire, as a full Link object.
pub open spec fn link_wire(l: Link) -> JsonV
    decreases l, 3int,
{
    JsonV::Object(link_entries(l))
}

/// A reference on the wire: a bare Link is the plain URI string; any other
/// Link is a Link object; an embedded Object is its document. This is the
/// Object-or-Link equivalence: a Link with only `href` set and the bare
/// string are the same reference.
pub open spec fn ool_wire(x: ObjectOrLink) -> JsonV
    decreases x, 4int,
{
    match x {
        ObjectOrLink::Link(l) => {
            if l.is_bare() {
                JsonV::Str(l.href@)
            } else {
                link_wire(l)
            }
        },
        ObjectOrLink::Object(o) => obj_wire(o),
    }
}

#[via_fn]
proof fn ool_list_wire_decreases(xs: Seq<ObjectOrLink>) {
    broadcast use vstd::std_specs::vec::group_vec_axioms;

    if xs.len() > 0 {
        assert(decreases_to!(xs => xs[0]));
    }
}

/// References of a multi-valued field, in order, on the wire.
pub open spec fn ool_list_wire(xs: Seq<ObjectOrLink>) -> Seq<JsonV>
    decreases xs, 5int,
    via ool_list_wire_decreases
{
    if xs.len() == 0 {
        Seq::empty()
    } else {
        seq![ool_wire(xs[0])] + ool_list_wire(xs.subrange(1, xs.len() as int))
    }
}

/// The lax encoding of a multi-valued reference field.
pub open spec fn ool_lax(xs: Seq<ObjectOrLink>) -> Option<JsonV>
    decreases xs, 6int,
{
    spec_to_lax(ool_list_wire(xs))
}

#[via_fn]
proof fn obj_list_wire_decreases(os: Seq<Object>) {
    broadcast use vstd::std_specs::vec::group_vec_axioms;

    if os.len() > 0 {
        assert(decreases_to!(os => os[0]));
    }
}

/// Embedded objects of a multi-valued field, in order, on the wire.
pub open spec fn obj_list_wire(os: Seq<Object>) -> Seq<JsonV>
    decreases os, 5int,
    via obj_list_wire_decreases
{
    if os.len() == 0 {
        Seq::empty()
    } else {
        seq![obj_wire(os[0])] + obj_list_wire(os.subrange(1, os.len() as int))
    }
}

/// The lax encoding of a multi-valued embedded-object field.
pub open spec fn obj_lax(os: Seq<Object>) -> Option<JsonV>
    decreases os, 6int,
{
    spec_to_lax(obj_list_wire(os))
}

/// An optional reference as a wire value.
pub open spec fn opt_ool_jv(x: Option<Box<ObjectOrLink>>) -> Option<JsonV>
    decreases x, 5int,
{
    match x {
        None => None,
        Some(b) => Some(ool_wire(*b)),
    }
}

/// An optional embedded object as a wire value.
pub open spec fn opt_obj_jv(o: Option<Box<Object>>) -> Option<JsonV>
    decreases o, 5int,
{
    match o {
        None => None,
        Some(b) => Some(obj_wire(*b)),
    }
}

/// The `url` field on the wire: a bare Link is the plain URI string, any
/// other Link is a Link object.
pub open spec fn opt_url_jv(l: Option<Link>) -> Option<JsonV>
    decreases l, 5int,
{
    match l {
        None => None,
        Some(link) => {
            if link.is_bare() {
                Some(JsonV::Str(link.href@))
            } else {
                Some(link_wire(link))
            }
        },
    }
}

/// An optional raw wire value.
pub open spec fn opt_raw_jv(v: Option<JsonValue>) -> Option<JsonV> {
    match v {
        None => None,
        Some(x) => Some(x.dv()),
    }
}


/// The context, id and type entries of a document.
pub open spec fn head_entries(o: Object) -> Seq<(Seq<char>, JsonV)>
    decreases o, 5int,
{
    opt_entry("@context"@, opt_ctx_jv(o.schema_context)) + opt_entry(
        "id"@,
        opt_str_jv(o.id.deep_view()),
    ) + opt_entry("type"@, str_lax(o.typ.deep_view()))
}

#[via_fn]
proof fn oi_entries_a_decreases(oi: crate::activitypub::model::ObjectItems) {
    broadcast use vstd::std_specs::vec::group_vec_axioms;

    assert(decreases_to!(oi.attachment => oi.attachment@));
    assert(decreases_to!(oi.attributed_to => oi.attributed_to@));
    assert(decreases_to!(oi.audience => oi.audience@));
    assert(decreases_to!(oi.bcc => oi.bcc@));
    assert(decreases_to!(oi.bto => oi.bto@));
    assert(decreases_to!(oi.cc => oi.cc@));
    assert(decreases_to!(oi.context => oi.context@));
    assert(decreases_to!(oi.generator => oi.generator@));
    assert(decreases_to!(oi.icon => oi.icon@));
    assert(decreases_to!(oi.image => oi.image@));
    assert(decreases_to!(oi.in_reply_to => oi.in_reply_to@));
    assert(decreases_to!(oi.location => oi.location@));
    assert(decreases_to!(oi.preview => oi.preview@));
    assert(decreases_to!(oi.tag => oi.tag@));
}

/// The first half of the core Object entries: the reference-valued fields
/// through `tag`.
pub open spec fn oi_entries_a(oi: crate::activitypub::model::ObjectItems) -> Seq<
    (Seq<char>, JsonV),
>
    decreases oi, 5int,
    via oi_entries_a_decreases
{
    opt_entry("attachment"@, ool_lax(oi.attachment@)) + opt_entry(
        "attributeTo"@,
        ool_lax(oi.attributed_to@),
    ) + opt_entry("audience"@, ool_lax(oi.audience@)) + opt_entry("bcc"@, ool_lax(oi.bcc@))
        + opt_entry("bto"@, ool_lax(oi.bto@)) + opt_entry("cc"@, ool_lax(oi.cc@)) + opt_entry(
        "context"@,
        ool_lax(oi.context@),
    ) + opt_entry("generator"@, ool_lax(oi.generator@)) + opt_entry("icon"@, ool_lax(oi.icon@))
        + opt_entry("image"@, ool_lax(oi.image@)) + opt_entry("inReplyTo"@, ool_lax(oi.in_reply_to@))
        + opt_entry("location"@, ool_lax(oi.location@)) + opt_entry(
        "preview"@,
        ool_lax(oi.preview@),
    ) + opt_entry("replies"@, opt_obj_jv(oi.replies)) + opt_entry("tag"@, ool_lax(oi.tag@))
}

#[via_fn]
proof fn oi_entries_b_decreases(oi: crate::activitypub::model::ObjectItems) {
    broadcast use vstd::std_specs::vec::group_vec_axioms;

    assert(decreases_to!(oi.to => oi.to@));
}

/// The second half of the core Object entries: `to` through `describes`.
pub open spec fn oi_entries_b(oi: crate::activitypub::model::ObjectItems) -> Seq<
    (Seq<char>, JsonV),
>
    decreases oi, 5int,
    via oi_entries_b_decreases
{
    opt_entry("to"@, ool_lax(oi.to@)) + opt_entry("url"@, opt_url_jv(oi.url)) + opt_entry(
        "content"@,
        str_lax(oi.content.deep_view()),
    ) + opt_entry("contentMap"@, strmap_jv(oi.content_map.deep_view())) + opt_entry(
        "name"@,
        str_lax(oi.name.deep_view()),
    ) + opt_entry("nameMap"@, strmap_jv(oi.name_map.deep_view())) + opt_entry(
        "duration"@,
        opt_str_jv(oi.duration.deep_view()),
    ) + opt_entry("mediaType"@, str_lax(oi.media_type.deep_view())) + opt_entry(
        "endTime"@,
        opt_str_jv(oi.end_time.deep_view()),
    ) + opt_entry("published"@, opt_str_jv(oi.published.deep_view())) + opt_entry(
        "summary"@,
        str_lax(oi.summary.deep_view()),
    ) + opt_entry("summaryMap"@, strmap_jv(oi.summary_map.deep_view())) + opt_entry(
        "updated"@,
        opt_str_jv(oi.updated.deep_view()),
    ) + opt_entry("describes"@, opt_obj_jv(oi.describes))
}

/// The core Object entries of a document.
pub open spec fn oi_entries(oi: crate::activitypub::model::ObjectItems) -> Seq<(Seq<char>, JsonV)>
    decreases oi, 6int,
{
    oi_entries_a(oi) + oi_entries_b(oi)
}

/// The Actor entries of a document.
pub open spec fn actor_entries(a: Option<crate::activitypub::model::ActorItems>) -> Seq<
    (Seq<char>, JsonV),
> {
    opt_entry(
        "inbox"@,
        opt_str_jv(
            match a {
                Some(x) => Some(x.inbox@),
                None => None,
            },
        ),
    ) + opt_entry(
        "outbox"@,
        opt_str_jv(
            match a {
                Some(x) => Some(x.outbox@),
                None => None,
            },
        ),
    ) + opt_entry(
        "following"@,
        opt_str_jv(
            match a {
                Some(x) => Some(x.following@),
                None => None,
            },
        ),
    ) + opt_entry(
        "followers"@,
        opt_str_jv(
            match a {
                Some(x) => Some(x.followers@),
                None => None,
            },
        ),
    ) + opt_entry(
        "preferredUsername"@,
        opt_str_jv(
            match a {
                Some(x) => x.preferred_username.deep_view(),
                None => None,
            },
        ),
    ) + opt_entry(
        "endpoints"@,
        match a {
            Some(x) => strmap_jv(x.endpoints.deep_view()),
            None => None,
        },
    )
}

#[via_fn]
proof fn act_entries_decreases(a: crate::activitypub::model::ActivityItems) {
    broadcast use vstd::std_specs::vec::group_vec_axioms;

    assert(decreases_to!(a.actor => a.actor@));
    assert(decreases_to!(a.instrument => a.instrument@));
    assert(decreases_to!(a.origin => a.origin@));
    assert(decreases_to!(a.object => a.object@));
    assert(decreases_to!(a.result => a.result@));
    assert(decreases_to!(a.target => a.target@));
}

/// The Activity entries of a document.
pub open spec fn act_entries(a: crate::activitypub::model::ActivityItems) -> Seq<
    (Seq<char>, JsonV),
>
    decreases a, 5int,
    via act_entries_decreases
{
    opt_entry("actor"@, ool_lax(a.actor@)) + opt_entry("instrument"@, ool_lax(a.instrument@))
        + opt_entry("origin"@, ool_lax(a.origin@)) + opt_entry("object"@, ool_lax(a.object@))
        + opt_entry("result"@, ool_lax(a.result@)) + opt_entry("target"@, ool_lax(a.target@))
}

#[via_fn]
proof fn coll_entries_decreases(c: crate::activitypub::model::CollectionItems) {
    broadcast use vstd::std_specs::vec::group_vec_axioms;

    assert(decreases_to!(c.items => c.items@));
}

/// The Collection entries of a document.
pub open spec fn coll_entries(c: crate::activitypub::model::CollectionItems) -> Seq<
    (Seq<char>, JsonV),
>
    decreases c, 5int,
    via coll_entries_decreases
{
    opt_entry("totalItems"@, opt_nat_jv(c.total_items)) + opt_entry("current"@, opt_ool_jv(c.current))
        + opt_entry("first"@, opt_ool_jv(c.first)) + opt_entry("last"@, opt_ool_jv(c.last))
        + opt_entry("items"@, ool_lax(c.items@))
}

#[via_fn]
proof fn ocoll_entries_decreases(c: crate::activitypub::model::OrderedCollectionItems) {
    broadcast use vstd::std_specs::vec::group_vec_axioms;

    assert(decreases_to!(c.ordered_items => c.ordered_items@));
}

/// The OrderedCollection entries of a document.
pub open spec fn ocoll_entries(c: crate::activitypub::model::OrderedCollectionItems) -> Seq<
    (Seq<char>, JsonV),
>
    decreases c, 5int,
    via ocoll_entries_decreases
{
    opt_entry("orderedItems"@, ool_lax(c.ordered_items@))
}

/// The CollectionPage entries of a document.
pub open spec fn page_entries(p: crate::activitypub::model::CollectionPageItems) -> Seq<
    (Seq<char>, JsonV),
>
    decreases p, 5int,
{
    opt_entry("next"@, opt_ool_jv(p.next)) + opt_entry("prev"@, opt_ool_jv(p.prev)) + opt_entry(
        "partOf"@,
        opt_ool_jv(p.part_of),
    )
}

#[via_fn]
proof fn rel_entries_decreases(sp: Option<usize>, x: crate::activitypub::model::RelationshipItems) {
    broadcast use vstd::std_specs::vec::group_vec_axioms;

    assert(decreases_to!(x.relationship => x.relationship@));
}

/// The OrderedCollectionPage, Relationship and Tombstone entries of a
/// document.
pub open spec fn rel_entries(
    sp: Option<usize>,
    x: crate::activitypub::model::RelationshipItems,
) -> Seq<(Seq<char>, JsonV)>
    decreases x, 5int,
    via rel_entries_decreases
{
    opt_entry("startIndex"@, opt_nat_jv(sp)) + opt_entry("subject"@, opt_ool_jv(x.subject))
        + opt_entry("relationship"@, obj_lax(x.relationship@))
}

#[via_fn]
proof fn tomb_entries_decreases(t: crate::activitypub::model::TombstoneItems) {
    broadcast use vstd::std_specs::vec::group_vec_axioms;

    assert(decreases_to!(t.former_type => t.former_type@));
}

/// The Tombstone entries of a document.
pub open spec fn tomb_entries(t: crate::activitypub::model::TombstoneItems) -> Seq<
    (Seq<char>, JsonV),
>
    decreases t, 5int,
    via tomb_entries_decreases
{
    opt_entry("former_type"@, obj_lax(t.former_type@)) + opt_entry(
        "deleted"@,
        opt_str_jv(t.deleted.deep_view()),
    )
}

#[via_fn]
proof fn q_entries_decreases(q: crate::activitypub::model::QuestionItems) {
    broadcast use vstd::std_specs::vec::group_vec_axioms;

    assert(decreases_to!(q.one_of => q.one_of@));
    assert(decreases_to!(q.any_of => q.any_of@));
}

/// The Question entries of a document.
pub open spec fn q_entries(q: crate::activitypub::model::QuestionItems) -> Seq<(Seq<char>, JsonV)>
    decreases q, 5int,
    via q_entries_decreases
{
    opt_entry("oneOf"@, ool_lax(q.one_of@)) + opt_entry("anyOf"@, ool_lax(q.any_of@)) + opt_entry(
        "closed"@,
        opt_raw_jv(q.closed),
    )
}

/// The extension and security entries of a document.
pub open spec fn ext_entries(
    e: crate::activitypub::model::ActivityStreamExtItems,
    m: crate::activitypub::model::MastodonExtItems,
    sec: crate::activitypub::model::SecurityItems,
) -> Seq<(Seq<char>, JsonV)> {
    opt_entry("manuallyApprovesFollowers"@, opt_bool_jv(e.manually_approves_followers))
        + opt_entry("alsoKnownAs"@, str_lax(e.also_known_as.deep_view())) + opt_entry(
        "movedTo"@,
        opt_str_jv(e.moved_to.deep_view()),
    ) + opt_entry("featured"@, opt_str_jv(m.featured.deep_view())) + opt_entry(
        "featuredTags"@,
        opt_str_jv(m.featured_tags.deep_view()),
    ) + opt_entry("discoverable"@, opt_bool_jv(m.discoverable)) + opt_entry(
        "suspended"@,
        opt_bool_jv(m.suspended),
    ) + opt_entry("devices"@, opt_str_jv(m.devices.deep_view())) + opt_entry(
        "publicKey"@,
        match sec.public_key {
            Some(k) => Some(key_wire(k)),
            None => None,
        },
    )
}

/// The entry list of a canonical document on the wire: the vocabulary
/// groups in their fixed output order.
pub open spec fn obj_entries(o: Object) -> Seq<(Seq<char>, JsonV)>
    decreases o, 6int,
{
    head_entries(o) + oi_entries(o.object_items) + actor_entries(o.actor_items) + act_entries(
        o.activity_items,
    ) + coll_entries(o.collection_items) + ocoll_entries(o.ordered_collection_items) + page_entries(
        o.collection_page_items,
    ) + rel_entries(o.ordered_collection_page_items.start_index, o.relationship_items)
        + tomb_entries(o.tombstone_items) + q_entries(o.question_items) + ext_entries(
        o.activity_streams_ext_items,
        o.mastodon_ext_items,
        o.security_items,
    )
}

/// A canonical document on the wire.
pub open spec fn obj_wire(o: Object) -> JsonV
    decreases o, 7int,
{
    JsonV::Object(obj_entries(o))
}

/// Object-or-Link equivalence, stated both ways: a Link carrying only an
/// `href` encodes to the bare URI string, and the bare string stands for
/// exactly that Link — one with every other attribute absent.
pub proof fn lemma_bare_link_equivalence(l: Link)
    requires
        l.is_bare(),
    ensures
        ool_wire(ObjectOrLink::Link(l)) == JsonV::Str(l.href@),
        opt_url_jv(Some(l)) == Some(JsonV::Str(l.href@)),
        forall|l2: Link|
            l2.is_bare() && l2.href@ == l.href@ ==> ool_wire(ObjectOrLink::Link(l2)) == ool_wire(
                ObjectOrLink::Link(l),
            ),
{
}


/// Appending one element to a context list appends its wire value.
proof fn lemma_ctx_list_snoc(s: Seq<Context>, x: Context)
    ensures
        ctx_list_wire(s.push(x)) == ctx_list_wire(s) + seq![ctx_wire(x)],
    decreases s.len(),
{
    let p = s.push(x);
    if s.len() == 0 {
        assert(p.len() == 1);
        assert(p.subrange(1, p.len() as int) =~= Seq::<Context>::empty());
        assert(p[0] == x);
        assert(ctx_list_wire(p.subrange(1, p.len() as int)) == Seq::<JsonV>::empty());
        assert(ctx_list_wire(p) == seq![ctx_wire(p[0])] + ctx_list_wire(p.subrange(1, p.len() as int)));
        assert(ctx_list_wire(s) == Seq::<JsonV>::empty());
        assert(ctx_list_wire(p) =~= ctx_list_wire(s) + seq![ctx_wire(x)]);
    } else {
        let sub = s.subrange(1, s.len() as int);
        assert(p.subrange(1, p.len() as int) =~= sub.push(x));
        lemma_ctx_list_snoc(sub, x);
        assert(p[0] == s[0]);
        assert(ctx_list_wire(p) == seq![ctx_wire(s[0])] + ctx_list_wire(sub.push(x)));
        assert(ctx_list_wire(s) == seq![ctx_wire(s[0])] + ctx_list_wire(sub));
        assert(ctx_list_wire(sub.push(x)) == ctx_list_wire(sub) + seq![ctx_wire(x)]);
        assert(ctx_list_wire(p) =~= ctx_list_wire(s) + seq![ctx_wire(x)]);
    }
}

/// Appending one reference to a reference list appends its wire value.
proof fn lemma_ool_list_snoc(s: Seq<ObjectOrLink>, x: ObjectOrLink)
    ensures
        ool_list_wire(s.push(x)) == ool_list_wire(s) + seq![ool_wire(x)],
    decreases s.len(),
{
    let p = s.push(x);
    if s.len() == 0 {
        assert(p.len() == 1);
        assert(p.subrange(1, p.len() as int) =~= Seq::<ObjectOrLink>::empty());
        assert(p[0] == x);
        assert(ool_list_wire(p.subrange(1, p.len() as int)) == Seq::<JsonV>::empty());
        assert(ool_list_wire(p) == seq![ool_wire(p[0])] + ool_list_wire(p.subrange(1, p.len() as int)));
        assert(ool_list_wire(s) == Seq::<JsonV>::empty());
        assert(ool_list_wire(p) =~= ool_list_wire(s) + seq![ool_wire(x)]);
    } else {
        let sub = s.subrange(1, s.len() as int);
        assert(p.subrange(1, p.len() as int) =~= sub.push(x));
        lemma_ool_list_snoc(sub, x);
        assert(p[0] == s[0]);
        assert(ool_list_wire(p) == seq![ool_wire(s[0])] + ool_list_wire(sub.push(x)));
        assert(ool_list_wire(s) == seq![ool_wire(s[0])] + ool_list_wire(sub));
        assert(ool_list_wire(sub.push(x)) == ool_list_wire(sub) + seq![ool_wire(x)]);
        assert(ool_list_wire(p) =~= ool_list_wire(s) + seq![ool_wire(x)]);
    }
}

/// Appending one object to an object list appends its wire value.
proof fn lemma_obj_list_snoc(s: Seq<Object>, x: Object)
    ensures
        obj_list_wire(s.push(x)) == obj_list_wire(s) + seq![obj_wire(x)],
    decreases s.len(),
{
    let p = s.push(x);
    if s.len() == 0 {
        assert(p.len() == 1);
        assert(p.subrange(1, p.len() as int) =~= Seq::<Object>::empty());
        assert(p[0] == x);
        assert(obj_list_wire(p.subrange(1, p.len() as int)) == Seq::<JsonV>::empty());
        assert(obj_list_wire(p) == seq![obj_wire(p[0])] + obj_list_wire(p.subrange(1, p.len() as int)));
        assert(obj_list_wire(s) == Seq::<JsonV>::empty());
        assert(obj_list_wire(p) =~= obj_list_wire(s) + seq![obj_wire(x)]);
    } else {
        let sub = s.subrange(1, s.len() as int);
        assert(p.subrange(1, p.len() as int) =~= sub.push(x));
        lemma_obj_list_snoc(sub, x);
        assert(p[0] == s[0]);
        assert(obj_list_wire(p) == seq![obj_wire(s[0])] + obj_list_wire(sub.push(x)));
        assert(obj_list_wire(s) == seq![obj_wire(s[0])] + obj_list_wire(sub));
        assert(obj_list_wire(sub.push(x)) == obj_list_wire(sub) + seq![obj_wire(x)]);
        assert(obj_list_wire(p) =~= obj_list_wire(s) + seq![obj_wire(x)]);
    }
}

/// Records one field of a document under construction: nothing when the
/// field's value is absent, the key and value otherwise.
fn put_opt(entries: &mut Vec<(String, JsonValue)>, key: &str, v: Option<JsonValue>)
    ensures
        final(entries).deep_view() == old(entries).deep_view() + opt_entry(key@, v.deep_view()),
{
    let ghost pre = entries.deep_view();
    match v {
        None => {
            proof {
                assert(pre + opt_entry(key@, None) =~= pre);
            }
        },
        Some(x) => {
            let ghost xv = x.deep_view();
            let k = key.to_owned();
            entries.push((k, x));
            proof {
                assert(entries.deep_view() =~= pre + opt_entry(key@, Some(xv)));
            }
        },
    }
}

/// Pushing an element onto a vector pushes its view onto the vector's view.
proof fn lemma_vec_deep_view_push<T: DeepView>(pre: Vec<T>, post: Vec<T>, x: T)
    requires
        post@ == pre@.push(x),
    ensures
        post.deep_view() == pre.deep_view().push(x.deep_view()),
{
    assert forall|j: int| 0 <= j < post@.len() implies post.deep_view()[j]
        == pre.deep_view().push(x.deep_view())[j] by {
        assert(post@[j] == pre@.push(x)[j]);
    }
    assert(post.deep_view() =~= pre.deep_view().push(x.deep_view()));
}

/// A deep copy of a wire value.
pub fn jv_clone(v: &JsonValue) -> (r: JsonValue)
    ensures
        r.deep_view() == v.deep_view(),
    decreases *v,
{
    match v {
        JsonValue::Null => JsonValue::Null,
        JsonValue::Bool(b) => JsonValue::Bool(*b),
        JsonValue::Nat(n) => JsonValue::Nat(*n),
        JsonValue::Str(s) => JsonValue::Str(s.clone()),
        JsonValue::Array(items) => {
            let mut out: Vec<JsonValue> = Vec::new();
            let n = items.len();
            let mut i: usize = 0;
            proof {
                assert(out.deep_view() =~= items.deep_view().take(0));
            }
            while i < n
                invariant
                    0 <= i <= n,
                    n == items@.len(),
                    *v == JsonValue::Array(*items),
                    out.deep_view() == items.deep_view().take(i as int),
                decreases n - i,
            {
                proof {
                    assert(decreases_to!(*v => v->Array_0));
                    assert(v->Array_0 == *items);
                    assert(decreases_to!(*items => items@));
                    assert(decreases_to!(items@ => items@[i as int]));
                }
                let c = jv_clone(&items[i]);
                let ghost pre_out = out;
                let ghost cg = c;
                out.push(c);
                proof {
                    lemma_vec_deep_view_push(pre_out, out, cg);
                    assert(items.deep_view().take(i + 1) =~= items.deep_view().take(
                        i as int,
                    ).push(items.deep_view()[i as int]));
                    assert(cg.deep_view() == items.deep_view()[i as int]);
                }
                i += 1;
            }
            let r = JsonValue::Array(out);
            proof {
                crate::wire::lemma_array_deep_view(out);
                assert(out.deep_view() =~= items.deep_view());
                crate::wire::lemma_array_deep_view(items_ghost_helper(items));
            }
            r
        },
        JsonValue::Object(entries) => {
            let mut out: Vec<(String, JsonValue)> = Vec::new();
            let n = entries.len();
            let mut i: usize = 0;
            proof {
                assert(out.deep_view() =~= entries.deep_view().take(0));
            }
            while i < n
                invariant
                    0 <= i <= n,
                    n == entries@.len(),
                    *v == JsonValue::Object(*entries),
                    out.deep_view() == entries.deep_view().take(i as int),
                decreases n - i,
            {
                proof {
                    assert(decreases_to!(*v => v->Object_0));
                    assert(v->Object_0 == *entries);
                    assert(decreases_to!(*entries => entries@));
                    assert(decreases_to!(entries@ => entries@[i as int]));
                    assert(decreases_to!(entries@[i as int] => entries@[i as int].1));
                }
                let k = entries[i].0.clone();
                let c = jv_clone(&entries[i].1);
                let ghost pre_out = out;
                let ghost eg = (k, c);
                out.push((k, c));
                proof {
                    lemma_vec_deep_view_push(pre_out, out, eg);
                    assert(entries.deep_view().take(i + 1) =~= entries.deep_view().take(
                        i as int,
                    ).push(entries.deep_view()[i as int]));
                    assert(eg.deep_view() == entries.deep_view()[i as int]);
                }
                i += 1;
            }
            let r = JsonValue::Object(out);
            proof {
                crate::wire::lemma_object_deep_view(out);
                assert(out.deep_view() =~= entries.deep_view());
                crate::wire::lemma_object_deep_view(entries_ghost_helper(entries));
            }
            r
        },
    }
}

#[verifier::inline]
pub open spec fn items_ghost_helper(items: &Vec<JsonValue>) -> Vec<JsonValue> {
    *items
}

#[verifier::inline]
pub open spec fn entries_ghost_helper(entries: &Vec<(String, JsonValue)>) -> Vec<
    (String, JsonValue),
> {
    *entries
}

/// An optional string field's wire value.
fn opt_str_to_jv(s: &Option<String>) -> (r: Option<JsonValue>)
    ensures
        r.deep_view() == opt_str_jv(s.deep_view()),
{
    match s {
        None => None,
        Some(x) => Some(JsonValue::Str(x.clone())),
    }
}

/// An optional count field's wire value.
fn opt_nat_to_jv(n: &Option<usize>) -> (r: Option<JsonValue>)
    ensures
        r.deep_view() == opt_nat_jv(*n),
{
    match n {
        None => None,
        Some(x) => Some(JsonValue::Nat(*x as u64)),
    }
}

/// An optional flag field's wire value.
fn opt_bool_to_jv(b: &Option<bool>) -> (r: Option<JsonValue>)
    ensures
        r.deep_view() == opt_bool_jv(*b),
{
    match b {
        None => None,
        Some(x) => Some(JsonValue::Bool(*x)),
    }
}

/// A multi-valued string field's wire value, by the lax-array convention.
fn strs_to_lax(v: &Vec<String>) -> (r: Option<JsonValue>)
    ensures
        r.deep_view() == str_lax(v.deep_view()),
{
    let mut out: Vec<JsonValue> = Vec::new();
    let n = v.len();
    let mut i: usize = 0;
    proof {
        assert(out.deep_view() =~= jv_strs(v.deep_view()).take(0));
    }
    while i < n
        invariant
            0 <= i <= n,
            n == v@.len(),
            out.deep_view() == jv_strs(v.deep_view()).take(i as int),
        decreases n - i,
    {
        let sc = JsonValue::Str(v[i].clone());
        let ghost pre_out = out;
        let ghost scg = sc;
        out.push(sc);
        proof {
            lemma_vec_deep_view_push(pre_out, out, scg);
            assert(jv_strs(v.deep_view()).take(i + 1) =~= jv_strs(v.deep_view()).take(
                i as int,
            ).push(jv_strs(v.deep_view())[i as int]));
            assert(scg.deep_view() == jv_strs(v.deep_view())[i as int]);
        }
        i += 1;
    }
    proof {
        assert(jv_strs(v.deep_view()).take(n as int) =~= jv_strs(v.deep_view()));
    }
    crate::wire::to_lax_array(out)
}

/// A term-map field's wire value; an empty map is omitted.
fn strmap_to_jv(m: &Vec<(String, String)>) -> (r: Option<JsonValue>)
    ensures
        r.deep_view() == strmap_jv(m.deep_view()),
{
    if m.len() == 0 {
        None
    } else {
        let ghost target = m.deep_view().map_values(
            |e: (Seq<char>, Seq<char>)| (e.0, JsonV::Str(e.1)),
        );
        let mut out: Vec<(String, JsonValue)> = Vec::new();
        let n = m.len();
        let mut i: usize = 0;
        proof {
            assert(out.deep_view() =~= target.take(0));
        }
        while i < n
            invariant
                0 <= i <= n,
                n == m@.len(),
                target == m.deep_view().map_values(
                    |e: (Seq<char>, Seq<char>)| (e.0, JsonV::Str(e.1)),
                ),
                target.len() == n,
                out.deep_view() == target.take(i as int),
            decreases n - i,
        {
            let e = (m[i].0.clone(), JsonValue::Str(m[i].1.clone()));
            let ghost pre_out = out;
            let ghost eg = e;
            out.push(e);
            proof {
                lemma_vec_deep_view_push(pre_out, out, eg);
                assert(target.take(i + 1) =~= target.take(i as int).push(target[i as int]));
                assert(eg.deep_view() == target[i as int]);
            }
            i += 1;
        }
        let r = JsonValue::Object(out);
        proof {
            crate::wire::lemma_object_deep_view(out);
            assert(out.deep_view() =~= target);
        }
        Some(r)
    }
}

/// A term-expansion IRI's wire value.
fn iri_to_wire(iri: &Iri) -> (r: JsonValue)
    ensures
        r.deep_view() == iri_wire(*iri),
{
    match iri {
        Iri::Direct(s) => JsonValue::Str(s.clone()),
        Iri::TypeCoercion { id, typ } => {
            let mut entries: Vec<(String, JsonValue)> = Vec::new();
            entries.push((String::from_str("@id"), JsonValue::Str(id.clone())));
            proof {
                assert(entries.deep_view() =~= seq![("@id"@, JsonV::Str(id@))]);
            }
            put_opt(&mut entries, "@type", opt_str_to_jv(typ));
            let r = JsonValue::Object(entries);
            proof {
                crate::wire::lemma_object_deep_view(entries);
            }
            r
        },
    }
}

/// A public key's wire value.
fn key_to_wire(k: &Key) -> (r: JsonValue)
    ensures
        r.deep_view() == key_wire(*k),
{
    let mut entries: Vec<(String, JsonValue)> = Vec::new();
    entries.push((String::from_str("id"), JsonValue::Str(k.id.clone())));
    entries.push((String::from_str("owner"), JsonValue::Str(k.owner.clone())));
    proof {
        assert(entries.deep_view() =~= seq![
            ("id"@, JsonV::Str(k.id@)),
            ("owner"@, JsonV::Str(k.owner@)),
        ]);
    }
    put_opt(&mut entries, "publicKeyPem", opt_str_to_jv(&k.public_key_pem));
    let r = JsonValue::Object(entries);
    proof {
        crate::wire::lemma_object_deep_view(entries);
    }
    r
}

/// A JSON-LD context's wire value.
pub fn ctx_to_wire(c: &Context) -> (r: JsonValue)
    ensures
        r.deep_view() == ctx_wire(*c),
    decreases *c,
{
    match c {
        Context::Single(iri) => iri_to_wire(iri),
        Context::Mix(parts) => {
            let mut out: Vec<JsonValue> = Vec::new();
            let n = parts.len();
            let mut i: usize = 0;
            proof {
                assert(ctx_list_wire(parts@.take(0)) =~= Seq::<JsonV>::empty());
                assert(out.deep_view() =~= Seq::<JsonV>::empty());
            }
            while i < n
                invariant
                    0 <= i <= n,
                    n == parts@.len(),
                    *c == Context::Mix(*parts),
                    out.deep_view() == ctx_list_wire(parts@.take(i as int)),
                decreases n - i,
            {
                proof {
                    assert(decreases_to!(*c => c->Mix_0));
                    assert(c->Mix_0 == *parts);
                    assert(decreases_to!(*parts => parts@));
                    assert(decreases_to!(parts@ => parts@[i as int]));
                }
                let w = ctx_to_wire(&parts[i]);
                out.push(w);
                proof {
                    assert(parts@.take(i + 1) =~= parts@.take(i as int).push(parts@[i as int]));
                    lemma_ctx_list_snoc(parts@.take(i as int), parts@[i as int]);
                    assert(out.deep_view() =~= ctx_list_wire(parts@.take(i + 1)));
                }
                i += 1;
            }
            let r = JsonValue::Array(out);
            proof {
                crate::wire::lemma_array_deep_view(out);
                assert(parts@.take(n as int) =~= parts@);
            }
            r
        },
        Context::TermDefs(defs) => {
            let ghost target = defs@.map_values(|e: (String, Iri)| (e.0@, iri_wire(e.1)));
            let mut out: Vec<(String, JsonValue)> = Vec::new();
            let n = defs.len();
            let mut i: usize = 0;
            proof {
                assert(out.deep_view() =~= target.take(0));
            }
            while i < n
                invariant
                    0 <= i <= n,
                    n == defs@.len(),
                    target == defs@.map_values(|e: (String, Iri)| (e.0@, iri_wire(e.1))),
                    target.len() == n,
                    out.deep_view() == target.take(i as int),
                decreases n - i,
            {
                let w = iri_to_wire(&defs[i].1);
                let e = (defs[i].0.clone(), w);
                let ghost pre_out = out;
                let ghost eg = e;
                out.push(e);
                proof {
                    lemma_vec_deep_view_push(pre_out, out, eg);
                    assert(target.take(i + 1) =~= target.take(i as int).push(target[i as int]));
                    assert(eg.deep_view() == target[i as int]);
                }
                i += 1;
            }
            let r = JsonValue::Object(out);
            proof {
                crate::wire::lemma_object_deep_view(out);
                assert(out.deep_view() =~= target);
            }
            r
        },
    }
}

/// An optional context field's wire value.
fn opt_ctx_to_jv(c: &Option<Context>) -> (r: Option<JsonValue>)
    ensures
        r.deep_view() == opt_ctx_jv(*c),
{
    match c {
        None => None,
        Some(x) => Some(ctx_to_wire(x)),
    }
}


/// The empty entry list is the identity for concatenation.
proof fn lemma_empty_add<T>(s: Seq<T>)
    ensures
        Seq::<T>::empty() + s == s,
{
    assert(Seq::<T>::empty() + s =~= s);
}

/// Whether a link carries no attribute beyond `href`.
fn link_is_bare(l: &Link) -> (r: bool)
    ensures
        r == l.is_bare(),
{
    let r = l.schema_context.is_none() && l.id.is_none() && l.typ.len() == 0 && l.height.is_none()
        && l.hreflang.is_none() && l.media_type.len() == 0 && l.rel.len() == 0
        && l.width.is_none();
    proof {
        if l.typ@.len() == 0 {
            assert(l.typ@ =~= Seq::<String>::empty());
        }
        if l.media_type@.len() == 0 {
            assert(l.media_type@ =~= Seq::<String>::empty());
        }
        if l.rel@.len() == 0 {
            assert(l.rel@ =~= Seq::<String>::empty());
        }
    }
    r
}

impl Link {
    /// This link as a full Link object on the wire.
    pub fn from_model(&self) -> (r: JsonValue)
        ensures
            r.deep_view() == link_wire(*self),
    {
        let mut entries: Vec<(String, JsonValue)> = Vec::new();
        proof {
            assert(entries.deep_view() =~= Seq::<(Seq<char>, JsonV)>::empty());
        }
        put_opt(&mut entries, "schema_context", opt_ctx_to_jv(&self.schema_context));
        proof {
            lemma_empty_add(opt_entry("schema_context"@, opt_ctx_jv(self.schema_context)));
        }
        put_opt(&mut entries, "id", opt_str_to_jv(&self.id));
        put_opt(&mut entries, "typ", strs_to_lax(&self.typ));
        let ghost pre_href = entries;
        let href_entry = (String::from_str("href"), JsonValue::Str(self.href.clone()));
        let ghost href_entry_g = href_entry;
        entries.push(href_entry);
        proof {
            lemma_vec_deep_view_push(pre_href, entries, href_entry_g);
            assert(pre_href.deep_view().push(("href"@, JsonV::Str(self.href@)))
                =~= pre_href.deep_view() + seq![("href"@, JsonV::Str(self.href@))]);
        }
        put_opt(&mut entries, "height", opt_nat_to_jv(&self.height));
        put_opt(&mut entries, "hreflang", opt_str_to_jv(&self.hreflang));
        put_opt(&mut entries, "media_type", strs_to_lax(&self.media_type));
        put_opt(&mut entries, "rel", strs_to_lax(&self.rel));
        put_opt(&mut entries, "width", opt_nat_to_jv(&self.width));
        let r = JsonValue::Object(entries);
        proof {
            crate::wire::lemma_object_deep_view(entries);
            assert(entries.deep_view() == link_entries(*self));
        }
        r
    }
}

/// The `url` field's wire value: a bare link is the plain string.
fn url_to_jv(l: &Option<Link>) -> (r: Option<JsonValue>)
    ensures
        r.deep_view() == opt_url_jv(*l),
{
    match l {
        None => None,
        Some(link) => {
            if link_is_bare(link) {
                Some(JsonValue::Str(link.href.clone()))
            } else {
                Some(link.from_model())
            }
        },
    }
}

/// A reference's wire value: the bare string, a Link object, or the
/// embedded document.
pub fn ool_to_wire(x: &ObjectOrLink) -> (r: JsonValue)
    ensures
        r.deep_view() == ool_wire(*x),
    decreases *x, 1int,
{
    match x {
        ObjectOrLink::Link(l) => {
            if link_is_bare(l) {
                Some(JsonValue::Str(l.href.clone())).unwrap()
            } else {
                l.from_model()
            }
        },
        ObjectOrLink::Object(o) => {
            proof {
                assert(decreases_to!(*x => x->Object_0));
            }
            o.from_model()
        },
    }
}

/// The wire values of a multi-valued reference field, by the lax-array
/// convention.
fn ool_vec_to_lax(xs: &Vec<ObjectOrLink>) -> (r: Option<JsonValue>)
    ensures
        r.deep_view() == ool_lax(xs@),
    decreases *xs, 2int,
{
    let mut out: Vec<JsonValue> = Vec::new();
    let n = xs.len();
    let mut i: usize = 0;
    proof {
        assert(ool_list_wire(xs@.take(0)) =~= Seq::<JsonV>::empty());
        assert(out.deep_view() =~= Seq::<JsonV>::empty());
    }
    while i < n
        invariant
            0 <= i <= n,
            n == xs@.len(),
            out.deep_view() == ool_list_wire(xs@.take(i as int)),
        decreases n - i,
    {
        proof {
            assert(decreases_to!(*xs => xs@));
            assert(decreases_to!(xs@ => xs@[i as int]));
        }
        let w = ool_to_wire(&xs[i]);
        let ghost pre_out = out;
        let ghost wg = w;
        out.push(w);
        proof {
            lemma_vec_deep_view_push(pre_out, out, wg);
            assert(xs@.take(i + 1) =~= xs@.take(i as int).push(xs@[i as int]));
            lemma_ool_list_snoc(xs@.take(i as int), xs@[i as int]);
        }
        i += 1;
    }
    proof {
        assert(xs@.take(n as int) =~= xs@);
    }
    crate::wire::to_lax_array(out)
}

/// The wire values of a multi-valued embedded-object field, by the
/// lax-array convention.
fn obj_vec_to_lax(os: &Vec<Object>) -> (r: Option<JsonValue>)
    ensures
        r.deep_view() == obj_lax(os@),
    decreases *os, 2int,
{
    let mut out: Vec<JsonValue> = Vec::new();
    let n = os.len();
    let mut i: usize = 0;
    proof {
        assert(obj_list_wire(os@.take(0)) =~= Seq::<JsonV>::empty());
        assert(out.deep_view() =~= Seq::<JsonV>::empty());
    }
    while i < n
        invariant
            0 <= i <= n,
            n == os@.len(),
            out.deep_view() == obj_list_wire(os@.take(i as int)),
        decreases n - i,
    {
        proof {
            assert(decreases_to!(*os => os@));
            assert(decreases_to!(os@ => os@[i as int]));
        }
        let w = os[i].from_model();
        let ghost pre_out = out;
        let ghost wg = w;
        out.push(w);
        proof {
            lemma_vec_deep_view_push(pre_out, out, wg);
            assert(os@.take(i + 1) =~= os@.take(i as int).push(os@[i as int]));
            lemma_obj_list_snoc(os@.take(i as int), os@[i as int]);
        }
        i += 1;
    }
    proof {
        assert(os@.take(n as int) =~= os@);
    }
    crate::wire::to_lax_array(out)
}


/// The first half of the core Object entries, under construction.
#[verifier::rlimit(100)]
fn oi_a_to_entries(oi: &crate::activitypub::model::ObjectItems) -> (entries: Vec<
    (String, JsonValue),
>)
    ensures
        entries.deep_view() == oi_entries_a(*oi),
    decreases *oi, 6int,
{
    let mut entries: Vec<(String, JsonValue)> = Vec::new();
    proof {
        assert(entries.deep_view() =~= Seq::<(Seq<char>, JsonV)>::empty());
    }
    proof {
        assert(decreases_to!(*oi => oi.attachment));
    }
    put_opt(&mut entries, "attachment", ool_vec_to_lax(&oi.attachment));
    proof {
        lemma_empty_add(opt_entry("attachment"@, ool_lax(oi.attachment@)));
    }
    proof {
        assert(decreases_to!(*oi => oi.attributed_to));
    }
    put_opt(&mut entries, "attributeTo", ool_vec_to_lax(&oi.attributed_to));
    proof {
        assert(decreases_to!(*oi => oi.audience));
    }
    put_opt(&mut entries, "audience", ool_vec_to_lax(&oi.audience));
    proof {
        assert(decreases_to!(*oi => oi.bcc));
    }
    put_opt(&mut entries, "bcc", ool_vec_to_lax(&oi.bcc));
    proof {
        assert(decreases_to!(*oi => oi.bto));
    }
    put_opt(&mut entries, "bto", ool_vec_to_lax(&oi.bto));
    proof {
        assert(decreases_to!(*oi => oi.cc));
    }
    put_opt(&mut entries, "cc", ool_vec_to_lax(&oi.cc));
    proof {
        assert(decreases_to!(*oi => oi.context));
    }
    put_opt(&mut entries, "context", ool_vec_to_lax(&oi.context));
    proof {
        assert(decreases_to!(*oi => oi.generator));
    }
    put_opt(&mut entries, "generator", ool_vec_to_lax(&oi.generator));
    proof {
        assert(decreases_to!(*oi => oi.icon));
    }
    put_opt(&mut entries, "icon", ool_vec_to_lax(&oi.icon));
    proof {
        assert(decreases_to!(*oi => oi.image));
    }
    put_opt(&mut entries, "image", ool_vec_to_lax(&oi.image));
    proof {
        assert(decreases_to!(*oi => oi.in_reply_to));
    }
    put_opt(&mut entries, "inReplyTo", ool_vec_to_lax(&oi.in_reply_to));
    proof {
        assert(decreases_to!(*oi => oi.location));
    }
    put_opt(&mut entries, "location", ool_vec_to_lax(&oi.location));
    proof {
        assert(decreases_to!(*oi => oi.preview));
    }
    put_opt(&mut entries, "preview", ool_vec_to_lax(&oi.preview));
    let replies_jv = match &oi.replies {
        None => None,
        Some(b) => {
            proof {
                assert(decreases_to!(*oi => oi.replies));
                assert(decreases_to!(oi.replies => oi.replies->Some_0));
            }
            Some(b.from_model())
        },
    };
    put_opt(&mut entries, "replies", replies_jv);
    proof {
        assert(decreases_to!(*oi => oi.tag));
    }
    put_opt(&mut entries, "tag", ool_vec_to_lax(&oi.tag));
    proof {
        assert(entries.deep_view() == oi_entries_a(*oi));
    }
    entries
}

/// The second half of the core Object entries, under construction.
#[verifier::rlimit(100)]
fn oi_b_to_entries(oi: &crate::activitypub::model::ObjectItems) -> (entries: Vec<
    (String, JsonValue),
>)
    ensures
        entries.deep_view() == oi_entries_b(*oi),
    decreases *oi, 6int,
{
    let mut entries: Vec<(String, JsonValue)> = Vec::new();
    proof {
        assert(entries.deep_view() =~= Seq::<(Seq<char>, JsonV)>::empty());
    }
    proof {
        assert(decreases_to!(*oi => oi.to));
    }
    put_opt(&mut entries, "to", ool_vec_to_lax(&oi.to));
    proof {
        lemma_empty_add(opt_entry("to"@, ool_lax(oi.to@)));
    }
    put_opt(&mut entries, "url", url_to_jv(&oi.url));
    put_opt(&mut entries, "content", strs_to_lax(&oi.content));
    put_opt(&mut entries, "contentMap", strmap_to_jv(&oi.content_map));
    put_opt(&mut entries, "name", strs_to_lax(&oi.name));
    put_opt(&mut entries, "nameMap", strmap_to_jv(&oi.name_map));
    put_opt(&mut entries, "duration", opt_str_to_jv(&oi.duration));
    put_opt(&mut entries, "mediaType", strs_to_lax(&oi.media_type));
    put_opt(&mut entries, "endTime", opt_str_to_jv(&oi.end_time));
    put_opt(&mut entries, "published", opt_str_to_jv(&oi.published));
    put_opt(&mut entries, "summary", strs_to_lax(&oi.summary));
    put_opt(&mut entries, "summaryMap", strmap_to_jv(&oi.summary_map));
    put_opt(&mut entries, "updated", opt_str_to_jv(&oi.updated));
    let describes_jv = match &oi.describes {
        None => None,
        Some(b) => {
            proof {
                assert(decreases_to!(*oi => oi.describes));
                assert(decreases_to!(oi.describes => oi.describes->Some_0));
            }
            Some(b.from_model())
        },
    };
    put_opt(&mut entries, "describes", describes_jv);
    proof {
        assert(entries.deep_view() == oi_entries_b(*oi));
    }
    entries
}

/// The Actor entries of a document under construction.
fn actor_to_entries(a: &Option<crate::activitypub::model::ActorItems>) -> (entries: Vec<
    (String, JsonValue),
>)
    ensures
        entries.deep_view() == actor_entries(*a),
{
    let mut entries: Vec<(String, JsonValue)> = Vec::new();
    proof {
        assert(entries.deep_view() =~= Seq::<(Seq<char>, JsonV)>::empty());
    }
    let inbox_jv = match a {
        None => None,
        Some(x) => Some(JsonValue::Str(x.inbox.clone())),
    };
    put_opt(&mut entries, "inbox", inbox_jv);
    proof {
        lemma_empty_add(opt_entry(
            "inbox"@,
            opt_str_jv(
                match a {
                    Some(x) => Some(x.inbox@),
                    None => None,
                },
            ),
        ));
    }
    let outbox_jv = match a {
        None => None,
        Some(x) => Some(JsonValue::Str(x.outbox.clone())),
    };
    put_opt(&mut entries, "outbox", outbox_jv);
    let following_jv = match a {
        None => None,
        Some(x) => Some(JsonValue::Str(x.following.clone())),
    };
    put_opt(&mut entries, "following", following_jv);
    let followers_jv = match a {
        None => None,
        Some(x) => Some(JsonValue::Str(x.followers.clone())),
    };
    put_opt(&mut entries, "followers", followers_jv);
    let preferred_username_jv = match a {
        None => None,
        Some(x) => opt_str_to_jv(&x.preferred_username),
    };
    put_opt(&mut entries, "preferredUsername", preferred_username_jv);
    let endpoints_jv = match a {
        None => None,
        Some(x) => strmap_to_jv(&x.endpoints),
    };
    put_opt(&mut entries, "endpoints", endpoints_jv);
    proof {
        assert(entries.deep_view() == actor_entries(*a));
    }
    entries
}

/// The Activity entries of a document under construction.
fn act_to_entries(a: &crate::activitypub::model::ActivityItems) -> (entries: Vec<
    (String, JsonValue),
>)
    ensures
        entries.deep_view() == act_entries(*a),
    decreases *a, 6int,
{
    let mut entries: Vec<(String, JsonValue)> = Vec::new();
    proof {
        assert(entries.deep_view() =~= Seq::<(Seq<char>, JsonV)>::empty());
    }
    proof {
        assert(decreases_to!(*a => a.actor));
    }
    put_opt(&mut entries, "actor", ool_vec_to_lax(&a.actor));
    proof {
        lemma_empty_add(opt_entry("actor"@, ool_lax(a.actor@)));
    }
    proof {
        assert(decreases_to!(*a => a.instrument));
    }
    put_opt(&mut entries, "instrument", ool_vec_to_lax(&a.instrument));
    proof {
        assert(decreases_to!(*a => a.origin));
    }
    put_opt(&mut entries, "origin", ool_vec_to_lax(&a.origin));
    proof {
        assert(decreases_to!(*a => a.object));
    }
    put_opt(&mut entries, "object", ool_vec_to_lax(&a.object));
    proof {
        assert(decreases_to!(*a => a.result));
    }
    put_opt(&mut entries, "result", ool_vec_to_lax(&a.result));
    proof {
        assert(decreases_to!(*a => a.target));
    }
    put_opt(&mut entries, "target", ool_vec_to_lax(&a.target));
    proof {
        assert(entries.deep_view() == act_entries(*a));
    }
    entries
}

/// The Collection entries of a document under construction.
fn coll_to_entries(c: &crate::activitypub::model::CollectionItems) -> (entries: Vec<
    (String, JsonValue),
>)
    ensures
        entries.deep_view() == coll_entries(*c),
    decreases *c, 6int,
{
    let mut entries: Vec<(String, JsonValue)> = Vec::new();
    proof {
        assert(entries.deep_view() =~= Seq::<(Seq<char>, JsonV)>::empty());
    }
    put_opt(&mut entries, "totalItems", opt_nat_to_jv(&c.total_items));
    proof {
        lemma_empty_add(opt_entry("totalItems"@, opt_nat_jv(c.total_items)));
    }
    let current_jv = match &c.current {
        None => None,
        Some(b) => {
            proof {
                assert(decreases_to!(*c => c.current));
                assert(decreases_to!(c.current => c.current->Some_0));
            }
            Some(ool_to_wire(b))
        },
    };
    put_opt(&mut entries, "current", current_jv);
    let first_jv = match &c.first {
        None => None,
        Some(b) => {
            proof {
                assert(decreases_to!(*c => c.first));
                assert(decreases_to!(c.first => c.first->Some_0));
            }
            Some(ool_to_wire(b))
        },
    };
    put_opt(&mut entries, "first", first_jv);
    let last_jv = match &c.last {
        None => None,
        Some(b) => {
            proof {
                assert(decreases_to!(*c => c.last));
                assert(decreases_to!(c.last => c.last->Some_0));
            }
            Some(ool_to_wire(b))
        },
    };
    put_opt(&mut entries, "last", last_jv);
    proof {
        assert(decreases_to!(*c => c.items));
    }
    put_opt(&mut entries, "items", ool_vec_to_lax(&c.items));
    proof {
        assert(entries.deep_view() == coll_entries(*c));
    }
    entries
}

/// The CollectionPage entries of a document under construction.
fn page_to_entries(p: &crate::activitypub::model::CollectionPageItems) -> (entries: Vec<
    (String, JsonValue),
>)
    ensures
        entries.deep_view() == page_entries(*p),
    decreases *p, 6int,
{
    let mut entries: Vec<(String, JsonValue)> = Vec::new();
    proof {
        assert(entries.deep_view() =~= Seq::<(Seq<char>, JsonV)>::empty());
    }
    let next_jv = match &p.next {
        None => None,
        Some(b) => {
            proof {
                assert(decreases_to!(*p => p.next));
                assert(decreases_to!(p.next => p.next->Some_0));
            }
            Some(ool_to_wire(b))
        },
    };
    put_opt(&mut entries, "next", next_jv);
    proof {
        lemma_empty_add(opt_entry("next"@, opt_ool_jv(p.next)));
    }
    let prev_jv = match &p.prev {
        None => None,
        Some(b) => {
            proof {
                assert(decreases_to!(*p => p.prev));
                assert(decreases_to!(p.prev => p.prev->Some_0));
            }
            Some(ool_to_wire(b))
        },
    };
    put_opt(&mut entries, "prev", prev_jv);
    let part_of_jv = match &p.part_of {
        None => None,
        Some(b) => {
            proof {
                assert(decreases_to!(*p => p.part_of));
                assert(decreases_to!(p.part_of => p.part_of->Some_0));
            }
            Some(ool_to_wire(b))
        },
    };
    put_opt(&mut entries, "partOf", part_of_jv);
    proof {
        assert(entries.deep_view() == page_entries(*p));
    }
    entries
}

/// The OrderedCollectionPage and Relationship entries of a document under
/// construction.
fn rel_to_entries(sp: &Option<usize>, x: &crate::activitypub::model::RelationshipItems) -> (entries:
    Vec<(String, JsonValue)>)
    ensures
        entries.deep_view() == rel_entries(*sp, *x),
    decreases *x, 6int,
{
    let mut entries: Vec<(String, JsonValue)> = Vec::new();
    proof {
        assert(entries.deep_view() =~= Seq::<(Seq<char>, JsonV)>::empty());
    }
    put_opt(&mut entries, "startIndex", opt_nat_to_jv(sp));
    proof {
        lemma_empty_add(opt_entry("startIndex"@, opt_nat_jv(*sp)));
    }
    let subject_jv = match &x.subject {
        None => None,
        Some(b) => {
            proof {
                assert(decreases_to!(*x => x.subject));
                assert(decreases_to!(x.subject => x.subject->Some_0));
            }
            Some(ool_to_wire(b))
        },
    };
    put_opt(&mut entries, "subject", subject_jv);
    proof {
        assert(decreases_to!(*x => x.relationship));
    }
    put_opt(&mut entries, "relationship", obj_vec_to_lax(&x.relationship));
    proof {
        assert(entries.deep_view() == rel_entries(*sp, *x));
    }
    entries
}

/// The Tombstone entries of a document under construction.
fn tomb_to_entries(t: &crate::activitypub::model::TombstoneItems) -> (entries: Vec<
    (String, JsonValue),
>)
    ensures
        entries.deep_view() == tomb_entries(*t),
    decreases *t, 6int,
{
    let mut entries: Vec<(String, JsonValue)> = Vec::new();
    proof {
        assert(entries.deep_view() =~= Seq::<(Seq<char>, JsonV)>::empty());
    }
    proof {
        assert(decreases_to!(*t => t.former_type));
    }
    put_opt(&mut entries, "former_type", obj_vec_to_lax(&t.former_type));
    proof {
        lemma_empty_add(opt_entry("former_type"@, obj_lax(t.former_type@)));
    }
    put_opt(&mut entries, "deleted", opt_str_to_jv(&t.deleted));
    proof {
        assert(entries.deep_view() == tomb_entries(*t));
    }
    entries
}

/// The Question entries of a document under construction.
fn q_to_entries(q: &crate::activitypub::model::QuestionItems) -> (entries: Vec<
    (String, JsonValue),
>)
    ensures
        entries.deep_view() == q_entries(*q),
    decreases *q, 6int,
{
    let mut entries: Vec<(String, JsonValue)> = Vec::new();
    proof {
        assert(entries.deep_view() =~= Seq::<(Seq<char>, JsonV)>::empty());
    }
    proof {
        assert(decreases_to!(*q => q.one_of));
    }
    put_opt(&mut entries, "oneOf", ool_vec_to_lax(&q.one_of));
    proof {
        lemma_empty_add(opt_entry("oneOf"@, ool_lax(q.one_of@)));
    }
    proof {
        assert(decreases_to!(*q => q.any_of));
    }
    put_opt(&mut entries, "anyOf", ool_vec_to_lax(&q.any_of));
    let closed_jv = match &q.closed {
        None => None,
        Some(jv) => Some(jv_clone(jv)),
    };
    put_opt(&mut entries, "closed", closed_jv);
    proof {
        assert(entries.deep_view() == q_entries(*q));
    }
    entries
}

/// The extension and security entries of a document under construction.
fn ext_to_entries(
    e: &crate::activitypub::model::ActivityStreamExtItems,
    m: &crate::activitypub::model::MastodonExtItems,
    sec: &crate::activitypub::model::SecurityItems,
) -> (entries: Vec<(String, JsonValue)>)
    ensures
        entries.deep_view() == ext_entries(*e, *m, *sec),
{
    let mut entries: Vec<(String, JsonValue)> = Vec::new();
    proof {
        assert(entries.deep_view() =~= Seq::<(Seq<char>, JsonV)>::empty());
    }
    put_opt(
        &mut entries,
        "manuallyApprovesFollowers",
        opt_bool_to_jv(&e.manually_approves_followers),
    );
    proof {
        lemma_empty_add(opt_entry(
            "manuallyApprovesFollowers"@,
            opt_bool_jv(e.manually_approves_followers),
        ));
    }
    put_opt(&mut entries, "alsoKnownAs", strs_to_lax(&e.also_known_as));
    put_opt(&mut entries, "movedTo", opt_str_to_jv(&e.moved_to));
    put_opt(&mut entries, "featured", opt_str_to_jv(&m.featured));
    put_opt(&mut entries, "featuredTags", opt_str_to_jv(&m.featured_tags));
    put_opt(&mut entries, "discoverable", opt_bool_to_jv(&m.discoverable));
    put_opt(&mut entries, "suspended", opt_bool_to_jv(&m.suspended));
    put_opt(&mut entries, "devices", opt_str_to_jv(&m.devices));
    let public_key_jv = match &sec.public_key {
        None => None,
        Some(k) => Some(key_to_wire(k)),
    };
    put_opt(&mut entries, "publicKey", public_key_jv);
    proof {
        assert(entries.deep_view() == ext_entries(*e, *m, *sec));
    }
    entries
}

/// Appends a block of entries to a document under construction.
fn extend_entries(entries: &mut Vec<(String, JsonValue)>, more: Vec<(String, JsonValue)>)
    ensures
        final(entries).deep_view() == old(entries).deep_view() + more.deep_view(),
{
    let ghost predv = entries.deep_view();
    let ghost morev = more.deep_view();
    let mut more = more;
    let n = more.len();
    let mut i: usize = 0;
    proof {
        assert(predv + morev.take(0) =~= predv);
        assert(more.deep_view() =~= morev.subrange(0, morev.len() as int));
    }
    while i < n
        invariant
            0 <= i <= n,
            n == morev.len(),
            more@.len() == n - i,
            more.deep_view() == morev.subrange(i as int, morev.len() as int),
            entries.deep_view() == predv + morev.take(i as int),
        decreases n - i,
    {
        let ghost pre_entries = *entries;
        let ghost pre_more = more;
        let e = more.remove(0);
        let ghost eg = e;
        entries.push(e);
        proof {
            assert(eg.deep_view() == morev[i as int]) by {
                assert(pre_more.deep_view()[0] == pre_more@[0].deep_view());
            }
            lemma_vec_deep_view_push(pre_entries, *entries, eg);
            assert(morev.take(i + 1) =~= morev.take(i as int).push(morev[i as int]));
            assert(entries.deep_view() == predv + morev.take(i + 1)) by {
                assert(predv + morev.take(i as int).push(morev[i as int]) =~= (predv + morev.take(
                    i as int,
                )).push(morev[i as int]));
            }
            assert forall|j: int| 0 <= j < more@.len() implies more.deep_view()[j] == morev.subrange(
                i + 1,
                morev.len() as int,
            )[j] by {
                assert(more@[j] == pre_more@.remove(0)[j]);
                assert(more@[j] == pre_more@[j + 1]);
                assert(pre_more.deep_view()[j + 1] == pre_more@[j + 1].deep_view());
            }
            assert(more.deep_view() =~= morev.subrange(i + 1, morev.len() as int));
        }
        i += 1;
    }
    proof {
        assert(morev.take(n as int) =~= morev);
    }
}

impl Object {
    /// This document on the wire: each field written under its key in the
    /// fixed output order, the multi-valued fields by the lax-array
    /// convention.
    #[verifier::rlimit(100)]
    pub fn from_model(&self) -> (r: JsonValue)
        ensures
            r.deep_view() == obj_wire(*self),
        decreases *self, 7int,
    {
        let mut entries: Vec<(String, JsonValue)> = Vec::new();
        proof {
            assert(entries.deep_view() =~= Seq::<(Seq<char>, JsonV)>::empty());
        }
        put_opt(&mut entries, "@context", opt_ctx_to_jv(&self.schema_context));
        proof {
            lemma_empty_add(opt_entry("@context"@, opt_ctx_jv(self.schema_context)));
        }
        put_opt(&mut entries, "id", opt_str_to_jv(&self.id));
        put_opt(&mut entries, "type", strs_to_lax(&self.typ));
        proof {
            assert(entries.deep_view() == head_entries(*self));
        }
        proof {
            assert(decreases_to!(*self => self.object_items));
        }
        let oi_a = oi_a_to_entries(&self.object_items);
        extend_entries(&mut entries, oi_a);
        let oi_b = oi_b_to_entries(&self.object_items);
        extend_entries(&mut entries, oi_b);
        proof {
            assert(head_entries(*self) + oi_entries_a(self.object_items) + oi_entries_b(
                self.object_items,
            ) =~= head_entries(*self) + oi_entries(self.object_items));
        }
        let a = actor_to_entries(&self.actor_items);
        extend_entries(&mut entries, a);
        proof {
            assert(decreases_to!(*self => self.activity_items));
        }
        let act = act_to_entries(&self.activity_items);
        extend_entries(&mut entries, act);
        proof {
            assert(decreases_to!(*self => self.collection_items));
        }
        let coll = coll_to_entries(&self.collection_items);
        extend_entries(&mut entries, coll);
        proof {
            assert(decreases_to!(*self => self.ordered_collection_items));
            assert(decreases_to!(self.ordered_collection_items
                => self.ordered_collection_items.ordered_items));
        }
        put_opt(
            &mut entries,
            "orderedItems",
            ool_vec_to_lax(&self.ordered_collection_items.ordered_items),
        );
        proof {
            lemma_empty_add(opt_entry(
                "orderedItems"@,
                ool_lax(self.ordered_collection_items.ordered_items@),
            ));
        }
        proof {
            assert(decreases_to!(*self => self.collection_page_items));
        }
        let page = page_to_entries(&self.collection_page_items);
        extend_entries(&mut entries, page);
        proof {
            assert(decreases_to!(*self => self.relationship_items));
        }
        let rel = rel_to_entries(
            &self.ordered_collection_page_items.start_index,
            &self.relationship_items,
        );
        extend_entries(&mut entries, rel);
        proof {
            assert(decreases_to!(*self => self.tombstone_items));
        }
        let tomb = tomb_to_entries(&self.tombstone_items);
        extend_entries(&mut entries, tomb);
        proof {
            assert(decreases_to!(*self => self.question_items));
        }
        let q = q_to_entries(&self.question_items);
        extend_entries(&mut entries, q);
        let ext = ext_to_entries(
            &self.activity_streams_ext_items,
            &self.mastodon_ext_items,
            &self.security_items,
        );
        extend_entries(&mut entries, ext);
        let r = JsonValue::Object(entries);
        proof {
            crate::wire::lemma_object_deep_view(entries);
            assert(entries.deep_view() == obj_entries(*self));
        }
        r
    }
}


/// A decode failure: the wire document does not have the shape the
/// canonical model requires.
#[derive(Debug, PartialEq, Eq)]
pub enum DecodeError {
    Malformed,
}

/// What an optional string field holds: absent, a string, or a shape the
/// model cannot hold (`None`).
pub open spec fn opt_str_at(doc: JsonV, key: Seq<char>) -> Option<Option<Seq<char>>> {
    match spec_field(doc, key) {
        None => Some(None),
        Some(JsonV::Str(s)) => Some(Some(s)),
        Some(JsonV::Null) => Some(None),
        Some(_) => None,
    }
}

/// What an optional count field holds.
pub open spec fn opt_nat_at(doc: JsonV, key: Seq<char>) -> Option<Option<usize>> {
    match spec_field(doc, key) {
        None => Some(None),
        Some(JsonV::Nat(n)) => if n <= usize::MAX {
            Some(Some(n as usize))
        } else {
            None
        },
        Some(JsonV::Null) => Some(None),
        Some(_) => None,
    }
}

/// What an optional flag field holds.
pub open spec fn opt_bool_at(doc: JsonV, key: Seq<char>) -> Option<Option<bool>> {
    match spec_field(doc, key) {
        None => Some(None),
        Some(JsonV::Bool(b)) => Some(Some(b)),
        Some(JsonV::Null) => Some(None),
        Some(_) => None,
    }
}

/// The strings of a lax element list, when every element is a string.
pub open spec fn strs_of(els: Seq<JsonV>) -> Option<Seq<Seq<char>>>
    decreases els.len(),
{
    if els.len() == 0 {
        Some(Seq::empty())
    } else {
        match els[0] {
            JsonV::Str(s) => match strs_of(els.subrange(1, els.len() as int)) {
                None => None,
                Some(rest) => Some(seq![s] + rest),
            },
            _ => None,
        }
    }
}

/// What a multi-valued string field holds under the lax-array convention.
pub open spec fn lax_strs_at(doc: JsonV, key: Seq<char>) -> Option<Seq<Seq<char>>> {
    strs_of(spec_from_lax(spec_field(doc, key)))
}

/// The key/value strings of a term-map object, when every value is a
/// string.
pub open spec fn strpairs_of(entries: Seq<(Seq<char>, JsonV)>) -> Option<
    Seq<(Seq<char>, Seq<char>)>,
>
    decreases entries.len(),
{
    if entries.len() == 0 {
        Some(Seq::empty())
    } else {
        match entries[0].1 {
            JsonV::Str(s) => match strpairs_of(entries.subrange(1, entries.len() as int)) {
                None => None,
                Some(rest) => Some(seq![(entries[0].0, s)] + rest),
            },
            _ => None,
        }
    }
}

/// What a term-map field holds: an absent field is the empty map.
pub open spec fn strmap_at(doc: JsonV, key: Seq<char>) -> Option<Seq<(Seq<char>, Seq<char>)>> {
    match spec_field(doc, key) {
        None => Some(Seq::empty()),
        Some(JsonV::Object(entries)) => strpairs_of(entries),
        Some(JsonV::Null) => Some(Seq::empty()),
        Some(_) => None,
    }
}

/// Whether a wire IRI stands for the given term-expansion IRI.
pub open spec fn iri_rel(doc: JsonV, iri: Iri) -> bool {
    match doc {
        JsonV::Str(s) => iri matches Iri::Direct(x) && x@ == s,
        JsonV::Object(entries) => {
            &&& iri matches Iri::TypeCoercion { id, typ } && spec_get(entries, "@id"@) == Some(
                JsonV::Str(id@),
            ) && opt_str_at(doc, "@type"@) == Some(typ.deep_view())
        },
        _ => false,
    }
}

/// Whether the entries of a term-definition object stand for the given
/// term definitions, in order.
pub open spec fn termdefs_rel(entries: Seq<(Seq<char>, JsonV)>, defs: Seq<(String, Iri)>) -> bool
    decreases defs.len(),
{
    if defs.len() == 0 {
        entries.len() == 0
    } else {
        &&& entries.len() == defs.len()
        &&& defs[0].0@ == entries[0].0
        &&& iri_rel(entries[0].1, defs[0].1)
        &&& termdefs_rel(
            entries.subrange(1, entries.len() as int),
            defs.subrange(1, defs.len() as int),
        )
    }
}

#[via_fn]
proof fn ctx_rel_decreases(doc: JsonV, c: Context) {
    broadcast use vstd::std_specs::vec::group_vec_axioms;

    match c {
        Context::Mix(parts) => {
            assert(decreases_to!(parts => parts@));
        },
        Context::TermDefs(defs) => {
            assert(decreases_to!(defs => defs@));
        },
        _ => {},
    }
}

/// Whether a wire value stands for the given JSON-LD context.
pub open spec fn ctx_rel(doc: JsonV, c: Context) -> bool
    decreases c, 1int,
    via ctx_rel_decreases
{
    match doc {
        JsonV::Str(s) => c matches Context::Single(Iri::Direct(x)) && x@ == s,
        JsonV::Array(els) => c matches Context::Mix(parts) && ctx_list_rel(els, parts@),
        JsonV::Object(entries) => {
            if spec_get(entries, "@id"@) is Some {
                c matches Context::Single(iri) && iri_rel(doc, iri)
            } else {
                c matches Context::TermDefs(defs) && termdefs_rel(entries, defs@)
            }
        },
        _ => false,
    }
}

#[via_fn]
proof fn ctx_list_rel_decreases(els: Seq<JsonV>, parts: Seq<Context>) {
    broadcast use vstd::std_specs::vec::group_vec_axioms;

    if parts.len() > 0 {
        assert(decreases_to!(parts => parts[0]));
    }
}

/// Whether the elements of a wire array stand for the given contexts, in
/// order.
pub open spec fn ctx_list_rel(els: Seq<JsonV>, parts: Seq<Context>) -> bool
    decreases parts, 2int,
    via ctx_list_rel_decreases
{
    if parts.len() == 0 {
        els.len() == 0
    } else {
        &&& els.len() == parts.len()
        &&& ctx_rel(els[0], parts[0])
        &&& ctx_list_rel(
            els.subrange(1, els.len() as int),
            parts.subrange(1, parts.len() as int),
        )
    }
}

/// Whether an optional context field stands for the given context.
pub open spec fn opt_ctx_rel(doc: JsonV, key: Seq<char>, c: Option<Context>) -> bool
    decreases c, 2int,
{
    match spec_field(doc, key) {
        None => c is None,
        Some(jv) => c matches Some(x) && ctx_rel(jv, x),
    }
}

/// Whether a wire value stands for the given public key.
pub open spec fn key_rel(doc: JsonV, k: Key) -> bool {
    &&& doc is Object
    &&& opt_str_at(doc, "id"@) == Some(Some(k.id@))
    &&& spec_field(doc, "id"@) is Some
    &&& opt_str_at(doc, "owner"@) == Some(Some(k.owner@))
    &&& spec_field(doc, "owner"@) is Some
    &&& opt_str_at(doc, "publicKeyPem"@) == Some(k.public_key_pem.deep_view())
}

/// Whether a wire value stands for the given Link, read as a full Link
/// object.
pub open spec fn link_rel(doc: JsonV, l: Link) -> bool
    decreases l, 3int,
{
    &&& doc is Object
    &&& opt_ctx_rel(doc, "schema_context"@, l.schema_context)
    &&& opt_str_at(doc, "id"@) == Some(l.id.deep_view())
    &&& lax_strs_at(doc, "typ"@) == Some(l.typ.deep_view())
    &&& spec_field(doc, "href"@) == Some(JsonV::Str(l.href@))
    &&& opt_nat_at(doc, "height"@) == Some(l.height)
    &&& opt_str_at(doc, "hreflang"@) == Some(l.hreflang.deep_view())
    &&& lax_strs_at(doc, "media_type"@) == Some(l.media_type.deep_view())
    &&& lax_strs_at(doc, "rel"@) == Some(l.rel.deep_view())
    &&& opt_nat_at(doc, "width"@) == Some(l.width)
}

/// Whether a wire value stands for the given reference: a bare string is
/// the Link holding only that `href`; an object with an `href` entry is a
/// full Link; any other object is an embedded document.
pub open spec fn ool_rel(doc: JsonV, x: ObjectOrLink) -> bool
    decreases x, 4int,
{
    match doc {
        JsonV::Str(s) => x matches ObjectOrLink::Link(l) && l.is_bare() && l.href@ == s,
        JsonV::Object(entries) => {
            if spec_get(entries, "href"@) is Some {
                x matches ObjectOrLink::Link(l) && link_rel(doc, l)
            } else {
                x matches ObjectOrLink::Object(o) && obj_rel(doc, o)
            }
        },
        _ => false,
    }
}

#[via_fn]
proof fn ool_list_rel_decreases(els: Seq<JsonV>, xs: Seq<ObjectOrLink>) {
    broadcast use vstd::std_specs::vec::group_vec_axioms;

    if xs.len() > 0 {
        assert(decreases_to!(xs => xs[0]));
    }
}

/// Whether the elements of a lax element list stand for the given
/// references, in order.
pub open spec fn ool_list_rel(els: Seq<JsonV>, xs: Seq<ObjectOrLink>) -> bool
    decreases xs, 5int,
    via ool_list_rel_decreases
{
    if xs.len() == 0 {
        els.len() == 0
    } else {
        &&& els.len() == xs.len()
        &&& ool_rel(els[0], xs[0])
        &&& ool_list_rel(els.subrange(1, els.len() as int), xs.subrange(1, xs.len() as int))
    }
}

/// Whether a multi-valued reference field stands for the given references.
pub open spec fn lax_ool_rel(doc: JsonV, key: Seq<char>, xs: Seq<ObjectOrLink>) -> bool
    decreases xs, 6int,
{
    ool_list_rel(spec_from_lax(spec_field(doc, key)), xs)
}

#[via_fn]
proof fn obj_list_rel_decreases(els: Seq<JsonV>, os: Seq<Object>) {
    broadcast use vstd::std_specs::vec::group_vec_axioms;

    if os.len() > 0 {
        assert(decreases_to!(os => os[0]));
    }
}

/// Whether the elements of a lax element list stand for the given embedded
/// documents, in order.
pub open spec fn obj_list_rel(els: Seq<JsonV>, os: Seq<Object>) -> bool
    decreases os, 5int,
    via obj_list_rel_decreases
{
    if os.len() == 0 {
        els.len() == 0
    } else {
        &&& els.len() == os.len()
        &&& obj_rel(els[0], os[0])
        &&& obj_list_rel(els.subrange(1, els.len() as int), os.subrange(1, os.len() as int))
    }
}

/// Whether a multi-valued embedded-object field stands for the given
/// documents.
pub open spec fn lax_obj_rel(doc: JsonV, key: Seq<char>, os: Seq<Object>) -> bool
    decreases os, 6int,
{
    obj_list_rel(spec_from_lax(spec_field(doc, key)), os)
}

/// Whether an optional reference field stands for the given reference.
pub open spec fn opt_ool_rel(doc: JsonV, key: Seq<char>, x: Option<Box<ObjectOrLink>>) -> bool
    decreases x, 5int,
{
    match spec_field(doc, key) {
        None => x is None,
        Some(jv) => x matches Some(b) && ool_rel(jv, *b),
    }
}

/// Whether an optional embedded-object field stands for the given
/// document.
pub open spec fn opt_obj_rel(doc: JsonV, key: Seq<char>, o: Option<Box<Object>>) -> bool
    decreases o, 5int,
{
    match spec_field(doc, key) {
        None => o is None,
        Some(jv) => o matches Some(b) && obj_rel(jv, *b),
    }
}

/// Whether the `url` field stands for the given Link: a bare string is the
/// Link holding only that `href`.
pub open spec fn url_rel(doc: JsonV, l: Option<Link>) -> bool
    decreases l, 5int,
{
    match spec_field(doc, "url"@) {
        None => l is None,
        Some(JsonV::Str(s)) => l matches Some(link) && link.is_bare() && link.href@ == s,
        Some(jv) => l matches Some(link) && link_rel(jv, link),
    }
}

/// Whether the Actor entries stand for the given Actor group. A document
/// carrying any Actor-only field must carry all four collection
/// references; one that carries none has no Actor group.
pub open spec fn actor_rel(doc: JsonV, a: Option<crate::activitypub::model::ActorItems>) -> bool {
    match a {
        Some(x) => {
            &&& spec_field(doc, "inbox"@) == Some(JsonV::Str(x.inbox@))
            &&& spec_field(doc, "outbox"@) == Some(JsonV::Str(x.outbox@))
            &&& spec_field(doc, "following"@) == Some(JsonV::Str(x.following@))
            &&& spec_field(doc, "followers"@) == Some(JsonV::Str(x.followers@))
            &&& opt_str_at(doc, "preferredUsername"@) == Some(x.preferred_username.deep_view())
            &&& strmap_at(doc, "endpoints"@) == Some(x.endpoints.deep_view())
        },
        None => {
            &&& spec_field(doc, "inbox"@) is None
            &&& spec_field(doc, "outbox"@) is None
            &&& spec_field(doc, "following"@) is None
            &&& spec_field(doc, "followers"@) is None
            &&& spec_field(doc, "preferredUsername"@) is None
            &&& spec_field(doc, "endpoints"@) is None
        },
    }
}

#[via_fn]
proof fn obj_rel_decreases(doc: JsonV, o: Object) {
    broadcast use vstd::std_specs::vec::group_vec_axioms;

    assert(decreases_to!(o.typ => o.typ@));
    assert(decreases_to!(o.object_items.attachment => o.object_items.attachment@));
    assert(decreases_to!(o.object_items.attributed_to => o.object_items.attributed_to@));
    assert(decreases_to!(o.object_items.audience => o.object_items.audience@));
    assert(decreases_to!(o.object_items.bcc => o.object_items.bcc@));
    assert(decreases_to!(o.object_items.bto => o.object_items.bto@));
    assert(decreases_to!(o.object_items.cc => o.object_items.cc@));
    assert(decreases_to!(o.object_items.context => o.object_items.context@));
    assert(decreases_to!(o.object_items.generator => o.object_items.generator@));
    assert(decreases_to!(o.object_items.icon => o.object_items.icon@));
    assert(decreases_to!(o.object_items.image => o.object_items.image@));
    assert(decreases_to!(o.object_items.in_reply_to => o.object_items.in_reply_to@));
    assert(decreases_to!(o.object_items.location => o.object_items.location@));
    assert(decreases_to!(o.object_items.preview => o.object_items.preview@));
    assert(decreases_to!(o.object_items.tag => o.object_items.tag@));
    assert(decreases_to!(o.object_items.to => o.object_items.to@));
    assert(decreases_to!(o.activity_items.actor => o.activity_items.actor@));
    assert(decreases_to!(o.activity_items.instrument => o.activity_items.instrument@));
    assert(decreases_to!(o.activity_items.origin => o.activity_items.origin@));
    assert(decreases_to!(o.activity_items.object => o.activity_items.object@));
    assert(decreases_to!(o.activity_items.result => o.activity_items.result@));
    assert(decreases_to!(o.activity_items.target => o.activity_items.target@));
    assert(decreases_to!(o.collection_items.items => o.collection_items.items@));
    assert(decreases_to!(o.ordered_collection_items.ordered_items
        => o.ordered_collection_items.ordered_items@));
    assert(decreases_to!(o.relationship_items.relationship => o.relationship_items.relationship@));
    assert(decreases_to!(o.tombstone_items.former_type => o.tombstone_items.former_type@));
    assert(decreases_to!(o.question_items.one_of => o.question_items.one_of@));
    assert(decreases_to!(o.question_items.any_of => o.question_items.any_of@));
}

/// Whether a wire document stands for the given canonical document: for
/// each field, what the document holds under the field's key is exactly
/// the field's value, read by the lax-array convention; fields the model
/// does not know are ignored.
pub open spec fn obj_rel(doc: JsonV, o: Object) -> bool
    decreases o, 6int,
    via obj_rel_decreases
{
    &&& doc is Object
    &&& opt_ctx_rel(doc, "@context"@, o.schema_context)
    &&& opt_str_at(doc, "id"@) == Some(o.id.deep_view())
    &&& lax_strs_at(doc, "type"@) == Some(o.typ.deep_view())
    &&& lax_ool_rel(doc, "attachment"@, o.object_items.attachment@)
    &&& lax_ool_rel(doc, "attributeTo"@, o.object_items.attributed_to@)
    &&& lax_ool_rel(doc, "audience"@, o.object_items.audience@)
    &&& lax_ool_rel(doc, "bcc"@, o.object_items.bcc@)
    &&& lax_ool_rel(doc, "bto"@, o.object_items.bto@)
    &&& lax_ool_rel(doc, "cc"@, o.object_items.cc@)
    &&& lax_ool_rel(doc, "context"@, o.object_items.context@)
    &&& lax_ool_rel(doc, "generator"@, o.object_items.generator@)
    &&& lax_ool_rel(doc, "icon"@, o.object_items.icon@)
    &&& lax_ool_rel(doc, "image"@, o.object_items.image@)
    &&& lax_ool_rel(doc, "inReplyTo"@, o.object_items.in_reply_to@)
    &&& lax_ool_rel(doc, "location"@, o.object_items.location@)
    &&& lax_ool_rel(doc, "preview"@, o.object_items.preview@)
    &&& opt_obj_rel(doc, "replies"@, o.object_items.replies)
    &&& lax_ool_rel(doc, "tag"@, o.object_items.tag@)
    &&& lax_ool_rel(doc, "to"@, o.object_items.to@)
    &&& url_rel(doc, o.object_items.url)
    &&& lax_strs_at(doc, "content"@) == Some(o.object_items.content.deep_view())
    &&& strmap_at(doc, "contentMap"@) == Some(o.object_items.content_map.deep_view())
    &&& lax_strs_at(doc, "name"@) == Some(o.object_items.name.deep_view())
    &&& strmap_at(doc, "nameMap"@) == Some(o.object_items.name_map.deep_view())
    &&& opt_str_at(doc, "duration"@) == Some(o.object_items.duration.deep_view())
    &&& lax_strs_at(doc, "mediaType"@) == Some(o.object_items.media_type.deep_view())
    &&& opt_str_at(doc, "endTime"@) == Some(o.object_items.end_time.deep_view())
    &&& opt_str_at(doc, "published"@) == Some(o.object_items.published.deep_view())
    &&& lax_strs_at(doc, "summary"@) == Some(o.object_items.summary.deep_view())
    &&& strmap_at(doc, "summaryMap"@) == Some(o.object_items.summary_map.deep_view())
    &&& opt_str_at(doc, "updated"@) == Some(o.object_items.updated.deep_view())
    &&& opt_obj_rel(doc, "describes"@, o.object_items.describes)
    &&& actor_rel(doc, o.actor_items)
    &&& lax_ool_rel(doc, "actor"@, o.activity_items.actor@)
    &&& lax_ool_rel(doc, "instrument"@, o.activity_items.instrument@)
    &&& lax_ool_rel(doc, "origin"@, o.activity_items.origin@)
    &&& lax_ool_rel(doc, "object"@, o.activity_items.object@)
    &&& lax_ool_rel(doc, "result"@, o.activity_items.result@)
    &&& lax_ool_rel(doc, "target"@, o.activity_items.target@)
    &&& opt_nat_at(doc, "totalItems"@) == Some(o.collection_items.total_items)
    &&& opt_ool_rel(doc, "current"@, o.collection_items.current)
    &&& opt_ool_rel(doc, "first"@, o.collection_items.first)
    &&& opt_ool_rel(doc, "last"@, o.collection_items.last)
    &&& lax_ool_rel(doc, "items"@, o.collection_items.items@)
    &&& lax_ool_rel(doc, "orderedItems"@, o.ordered_collection_items.ordered_items@)
    &&& opt_ool_rel(doc, "next"@, o.collection_page_items.next)
    &&& opt_ool_rel(doc, "prev"@, o.collection_page_items.prev)
    &&& opt_ool_rel(doc, "partOf"@, o.collection_page_items.part_of)
    &&& opt_nat_at(doc, "startIndex"@) == Some(o.ordered_collection_page_items.start_index)
    &&& opt_ool_rel(doc, "subject"@, o.relationship_items.subject)
    &&& lax_obj_rel(doc, "relationship"@, o.relationship_items.relationship@)
    &&& lax_obj_rel(doc, "former_type"@, o.tombstone_items.former_type@)
    &&& opt_str_at(doc, "deleted"@) == Some(o.tombstone_items.deleted.deep_view())
    &&& lax_ool_rel(doc, "oneOf"@, o.question_items.one_of@)
    &&& lax_ool_rel(doc, "anyOf"@, o.question_items.any_of@)
    &&& (match spec_field(doc, "closed"@) {
        None => o.question_items.closed is None,
        Some(jv) => o.question_items.closed matches Some(c) && c.dv() == jv,
    })
    &&& opt_bool_at(doc, "manuallyApprovesFollowers"@) == Some(
        o.activity_streams_ext_items.manually_approves_followers,
    )
    &&& lax_strs_at(doc, "alsoKnownAs"@) == Some(
        o.activity_streams_ext_items.also_known_as.deep_view(),
    )
    &&& opt_str_at(doc, "movedTo"@) == Some(o.activity_streams_ext_items.moved_to.deep_view())
    &&& opt_str_at(doc, "featured"@) == Some(o.mastodon_ext_items.featured.deep_view())
    &&& opt_str_at(doc, "featuredTags"@) == Some(o.mastodon_ext_items.featured_tags.deep_view())
    &&& opt_bool_at(doc, "discoverable"@) == Some(o.mastodon_ext_items.discoverable)
    &&& opt_bool_at(doc, "suspended"@) == Some(o.mastodon_ext_items.suspended)
    &&& opt_str_at(doc, "devices"@) == Some(o.mastodon_ext_items.devices.deep_view())
    &&& (match spec_field(doc, "publicKey"@) {
        None => o.security_items.public_key is None,
        Some(jv) => o.security_items.public_key matches Some(k) && key_rel(jv, k),
    })
}


/// Reads an optional string field.
fn take_opt_str(v: &JsonValue, key: &str) -> (r: Result<Option<String>, DecodeError>)
    ensures
        match r {
            Ok(s) => opt_str_at(v.deep_view(), key@) == Some(s.deep_view()),
            Err(_) => opt_str_at(v.deep_view(), key@) is None,
        },
{
    match v.get(key) {
        None => Ok(None),
        Some(w) => match w {
            JsonValue::Str(x) => Ok(Some(x.clone())),
            JsonValue::Null => Ok(None),
            _ => Err(DecodeError::Malformed),
        },
    }
}

/// Reads an optional count field.
fn take_opt_nat(v: &JsonValue, key: &str) -> (r: Result<Option<usize>, DecodeError>)
    ensures
        match r {
            Ok(n) => opt_nat_at(v.deep_view(), key@) == Some(n),
            Err(_) => opt_nat_at(v.deep_view(), key@) is None,
        },
{
    match v.get(key) {
        None => Ok(None),
        Some(w) => match w {
            JsonValue::Nat(n) => {
                if *n <= usize::MAX as u64 {
                    Ok(Some(*n as usize))
                } else {
                    Err(DecodeError::Malformed)
                }
            },
            JsonValue::Null => Ok(None),
            _ => Err(DecodeError::Malformed),
        },
    }
}

/// Reads an optional flag field.
fn take_opt_bool(v: &JsonValue, key: &str) -> (r: Result<Option<bool>, DecodeError>)
    ensures
        match r {
            Ok(b) => opt_bool_at(v.deep_view(), key@) == Some(b),
            Err(_) => opt_bool_at(v.deep_view(), key@) is None,
        },
{
    match v.get(key) {
        None => Ok(None),
        Some(w) => match w {
            JsonValue::Bool(b) => Ok(Some(*b)),
            JsonValue::Null => Ok(None),
            _ => Err(DecodeError::Malformed),
        },
    }
}

/// Reads a field's raw wire value, if present.
fn take_opt_raw(v: &JsonValue, key: &str) -> (r: Option<JsonValue>)
    ensures
        match spec_field(v.deep_view(), key@) {
            None => r is None,
            Some(jv) => r matches Some(c) && c.dv() == jv,
        },
{
    match v.get(key) {
        None => None,
        Some(w) => Some(jv_clone(w)),
    }
}

/// Reads a multi-valued string field by the lax-array convention.
fn take_lax_strs(v: &JsonValue, key: &str) -> (r: Result<Vec<String>, DecodeError>)
    ensures
        match r {
            Ok(ss) => lax_strs_at(v.deep_view(), key@) == Some(ss.deep_view()),
            Err(_) => lax_strs_at(v.deep_view(), key@) is None,
        },
{
    let ghost els = spec_from_lax(spec_field(v.deep_view(), key@));
    match v.get(key) {
        None => {
            let r: Vec<String> = Vec::new();
            proof {
                assert(els =~= Seq::<JsonV>::empty());
                assert(r.deep_view() =~= Seq::<Seq<char>>::empty());
                assert(strs_of(els) == Some(Seq::<Seq<char>>::empty()));
            }
            Ok(r)
        },
        Some(w) => match w {
            JsonValue::Array(items) => {
                proof {
                    crate::wire::lemma_array_deep_view(*items);
                    assert(els == items.deep_view());
                }
                let mut out: Vec<String> = Vec::new();
                let n = items.len();
                let mut i: usize = 0;
                proof {
                    assert(els.subrange(0, els.len() as int) =~= els);
                }
                while i < n
                    invariant
                        0 <= i <= n,
                        n == items@.len(),
                        *w == JsonValue::Array(*items),
                        els == spec_from_lax(spec_field(v.deep_view(), key@)),
                        els == items.deep_view(),
                        els.len() == n,
                        out.deep_view().len() == i as int,
                        strs_of(els) == (match strs_of(els.subrange(i as int, els.len() as int)) {
                            Some(rest) => Some(out.deep_view() + rest),
                            None => None::<Seq<Seq<char>>>,
                        }),
                    decreases n - i,
                {
                    let ghost suffix = els.subrange(i as int, els.len() as int);
                    proof {
                        assert(suffix[0] == els[i as int]);
                        assert(suffix.subrange(1, suffix.len() as int) =~= els.subrange(
                            i + 1,
                            els.len() as int,
                        ));
                    }
                    match &items[i] {
                        JsonValue::Str(x) => {
                            let ghost pre_out = out;
                            let xc = x.clone();
                            let ghost xg = xc;
                            out.push(xc);
                            proof {
                                lemma_vec_deep_view_push(pre_out, out, xg);
                                assert(els[i as int] == JsonV::Str(x@));
                                assert forall|rest: Seq<Seq<char>>|
                                    pre_out.deep_view() + (seq![x@] + rest) =~= out.deep_view()
                                        + rest by {}
                            }
                        },
                        _ => {
                            proof {
                                assert(!(els[i as int] is Str));
                                assert(strs_of(suffix) is None);
                            }
                            return Err(DecodeError::Malformed);
                        },
                    }
                    i += 1;
                }
                proof {
                    assert(els.subrange(n as int, els.len() as int).len() == 0);
                    assert(strs_of(els.subrange(n as int, els.len() as int)) == Some(
                        Seq::<Seq<char>>::empty(),
                    ));
                    assert(out.deep_view() + Seq::<Seq<char>>::empty() =~= out.deep_view());
                }
                Ok(out)
            },
            JsonValue::Str(x) => {
                let mut out: Vec<String> = Vec::new();
                out.push(x.clone());
                proof {
                    assert(els =~= seq![JsonV::Str(x@)]);
                    assert(els.subrange(1, els.len() as int) =~= Seq::<JsonV>::empty());
                    assert(strs_of(els.subrange(1, els.len() as int)) == Some(
                        Seq::<Seq<char>>::empty(),
                    ));
                    assert(strs_of(els) == Some(seq![x@] + Seq::<Seq<char>>::empty()));
                    assert(out.deep_view() =~= seq![x@] + Seq::<Seq<char>>::empty());
                }
                Ok(out)
            },
            _ => {
                proof {
                    assert(els =~= seq![w.deep_view()]);
                    assert(!(els[0] is Str));
                }
                Err(DecodeError::Malformed)
            },
        },
    }
}

/// Reads a term-map field; an absent field is the empty map.
fn take_strmap(v: &JsonValue, key: &str) -> (r: Result<Vec<(String, String)>, DecodeError>)
    ensures
        match r {
            Ok(m) => strmap_at(v.deep_view(), key@) == Some(m.deep_view()),
            Err(_) => strmap_at(v.deep_view(), key@) is None,
        },
{
    match v.get(key) {
        None => {
            let r: Vec<(String, String)> = Vec::new();
            proof {
                assert(r.deep_view() =~= Seq::<(Seq<char>, Seq<char>)>::empty());
            }
            Ok(r)
        },
        Some(w) => match w {
            JsonValue::Null => {
                let r: Vec<(String, String)> = Vec::new();
                proof {
                    assert(r.deep_view() =~= Seq::<(Seq<char>, Seq<char>)>::empty());
                }
                Ok(r)
            },
            JsonValue::Object(entries) => {
                let ghost eview = w.deep_view()->Object_0;
                proof {
                    crate::wire::lemma_object_deep_view(*entries);
                    assert(eview == entries.deep_view());
                }
                let mut out: Vec<(String, String)> = Vec::new();
                let n = entries.len();
                let mut i: usize = 0;
                proof {
                    assert(eview.subrange(0, eview.len() as int) =~= eview);
                }
                while i < n
                    invariant
                        0 <= i <= n,
                        n == entries@.len(),
                        *w == JsonValue::Object(*entries),
                        spec_field(v.deep_view(), key@) == Some(w.deep_view()),
                        w.deep_view() == JsonV::Object(eview),
                        eview == entries.deep_view(),
                        eview.len() == n,
                        out.deep_view().len() == i as int,
                        strpairs_of(eview) == (match strpairs_of(
                            eview.subrange(i as int, eview.len() as int),
                        ) {
                            Some(rest) => Some(out.deep_view() + rest),
                            None => None::<Seq<(Seq<char>, Seq<char>)>>,
                        }),
                    decreases n - i,
                {
                    let ghost suffix = eview.subrange(i as int, eview.len() as int);
                    proof {
                        assert(suffix[0] == eview[i as int]);
                        assert(suffix.subrange(1, suffix.len() as int) =~= eview.subrange(
                            i + 1,
                            eview.len() as int,
                        ));
                    }
                    match &entries[i].1 {
                        JsonValue::Str(x) => {
                            let ghost pre_out = out;
                            let e = (entries[i].0.clone(), x.clone());
                            let ghost eg = e;
                            out.push(e);
                            proof {
                                lemma_vec_deep_view_push(pre_out, out, eg);
                                assert(eview[i as int] == (entries@[i as int].0@, JsonV::Str(x@)));
                                assert(eg.deep_view() == (entries@[i as int].0@, x@));
                                assert forall|rest: Seq<(Seq<char>, Seq<char>)>|
                                    pre_out.deep_view() + (seq![(entries@[i as int].0@, x@)] + rest)
                                        =~= out.deep_view() + rest by {}
                            }
                        },
                        _ => {
                            proof {
                                assert(!(eview[i as int].1 is Str));
                                assert(strpairs_of(suffix) is None);
                                assert(strpairs_of(eview) is None);
                                assert(strmap_at(v.deep_view(), key@) is None);
                            }
                            return Err(DecodeError::Malformed);
                        },
                    }
                    i += 1;
                }
                proof {
                    assert(eview.subrange(n as int, eview.len() as int).len() == 0);
                    assert(strpairs_of(eview.subrange(n as int, eview.len() as int)) == Some(
                        Seq::<(Seq<char>, Seq<char>)>::empty(),
                    ));
                    assert(out.deep_view() + Seq::<(Seq<char>, Seq<char>)>::empty()
                        =~= out.deep_view());
                }
                Ok(out)
            },
            _ => Err(DecodeError::Malformed),
        },
    }
}

/// A list element that stands for no reference leaves the whole list
/// standing for no reference sequence.
proof fn lemma_ool_list_rel_err(els: Seq<JsonV>, i: int)
    requires
        0 <= i < els.len(),
        forall|x: ObjectOrLink| !ool_rel(els[i], x),
    ensures
        forall|xs: Seq<ObjectOrLink>| !ool_list_rel(els, xs),
    decreases i,
{
    assert forall|xs: Seq<ObjectOrLink>| !ool_list_rel(els, xs) by {
        if ool_list_rel(els, xs) {
            assert(xs.len() == els.len());
            if i == 0 {
                assert(ool_rel(els[0], xs[0]));
            } else {
                let sub = els.subrange(1, els.len() as int);
                assert(sub[i - 1] == els[i]);
                lemma_ool_list_rel_err(sub, i - 1);
                assert(ool_list_rel(sub, xs.subrange(1, xs.len() as int)));
            }
        }
    }
}

/// A list element that stands for no document leaves the whole list
/// standing for no document sequence.
proof fn lemma_obj_list_rel_err(els: Seq<JsonV>, i: int)
    requires
        0 <= i < els.len(),
        forall|o: Object| !obj_rel(els[i], o),
    ensures
        forall|os: Seq<Object>| !obj_list_rel(els, os),
    decreases i,
{
    assert forall|os: Seq<Object>| !obj_list_rel(els, os) by {
        if obj_list_rel(els, os) {
            assert(os.len() == els.len());
            if i == 0 {
                assert(obj_rel(els[0], os[0]));
            } else {
                let sub = els.subrange(1, els.len() as int);
                assert(sub[i - 1] == els[i]);
                lemma_obj_list_rel_err(sub, i - 1);
                assert(obj_list_rel(sub, os.subrange(1, os.len() as int)));
            }
        }
    }
}

/// A list element that stands for no context leaves the whole list
/// standing for no context sequence.
proof fn lemma_ctx_list_rel_err(els: Seq<JsonV>, i: int)
    requires
        0 <= i < els.len(),
        forall|c: Context| !ctx_rel(els[i], c),
    ensures
        forall|parts: Seq<Context>| !ctx_list_rel(els, parts),
    decreases i,
{
    assert forall|parts: Seq<Context>| !ctx_list_rel(els, parts) by {
        if ctx_list_rel(els, parts) {
            assert(parts.len() == els.len());
            if i == 0 {
                assert(ctx_rel(els[0], parts[0]));
            } else {
                let sub = els.subrange(1, els.len() as int);
                assert(sub[i - 1] == els[i]);
                lemma_ctx_list_rel_err(sub, i - 1);
                assert(ctx_list_rel(sub, parts.subrange(1, parts.len() as int)));
            }
        }
    }
}

/// An entry value that stands for no IRI leaves the whole object standing
/// for no term-definition list.
proof fn lemma_termdefs_rel_err(entries: Seq<(Seq<char>, JsonV)>, i: int)
    requires
        0 <= i < entries.len(),
        forall|iri: Iri| !iri_rel(entries[i].1, iri),
    ensures
        forall|defs: Seq<(String, Iri)>| !termdefs_rel(entries, defs),
    decreases i,
{
    assert forall|defs: Seq<(String, Iri)>| !termdefs_rel(entries, defs) by {
        if termdefs_rel(entries, defs) {
            assert(defs.len() == entries.len());
            if i == 0 {
                assert(iri_rel(entries[0].1, defs[0].1));
            } else {
                let sub = entries.subrange(1, entries.len() as int);
                assert(sub[i - 1] == entries[i]);
                lemma_termdefs_rel_err(sub, i - 1);
                assert(termdefs_rel(sub, defs.subrange(1, defs.len() as int)));
            }
        }
    }
}

/// Reads a wire IRI.
fn parse_iri(v: &JsonValue) -> (r: Result<Iri, DecodeError>)
    ensures
        match r {
            Ok(iri) => iri_rel(v.deep_view(), iri),
            Err(_) => forall|iri: Iri| !iri_rel(v.deep_view(), iri),
        },
{
    match v {
        JsonValue::Str(s) => Ok(Iri::Direct(s.clone())),
        JsonValue::Object(entries) => {
            proof {
                crate::wire::lemma_object_deep_view(*entries);
            }
            let id = match v.get("@id") {
                Some(w) => match w {
                    JsonValue::Str(x) => x.clone(),
                    _ => {
                        proof {
                            lemma_dv_variant(w);
                        }
                        return Err(DecodeError::Malformed);
                    },
                },
                None => {
                    return Err(DecodeError::Malformed);
                },
            };
            let typ = match take_opt_str(v, "@type") {
                Ok(t) => t,
                Err(e) => {
                    return Err(e);
                },
            };
            Ok(Iri::TypeCoercion { id, typ })
        },
        _ => {
            proof {
                lemma_dv_variant(v);
            }
            Err(DecodeError::Malformed)
        },
    }
}

/// Reads a wire public key.
fn parse_key(v: &JsonValue) -> (r: Result<Key, DecodeError>)
    ensures
        match r {
            Ok(k) => key_rel(v.deep_view(), k),
            Err(_) => forall|k: Key| !key_rel(v.deep_view(), k),
        },
{
    match v {
        JsonValue::Object(_) => {
            proof {
                lemma_dv_variant(v);
            }
            let id = match v.get("id") {
                Some(w) => match w {
                    JsonValue::Str(x) => x.clone(),
                    _ => {
                        proof {
                            lemma_dv_variant(w);
                        }
                        return Err(DecodeError::Malformed);
                    },
                },
                None => {
                    return Err(DecodeError::Malformed);
                },
            };
            let owner = match v.get("owner") {
                Some(w) => match w {
                    JsonValue::Str(x) => x.clone(),
                    _ => {
                        proof {
                            lemma_dv_variant(w);
                        }
                        return Err(DecodeError::Malformed);
                    },
                },
                None => {
                    return Err(DecodeError::Malformed);
                },
            };
            let public_key_pem = match take_opt_str(v, "publicKeyPem") {
                Ok(t) => t,
                Err(e) => {
                    return Err(e);
                },
            };
            Ok(Key { id, owner, public_key_pem })
        },
        _ => {
            proof {
                lemma_dv_variant(v);
            }
            Err(DecodeError::Malformed)
        },
    }
}

/// Appending a related element keeps a context list related.
proof fn lemma_ctx_list_rel_snoc(els: Seq<JsonV>, parts: Seq<Context>, e: JsonV, c: Context)
    requires
        ctx_list_rel(els, parts),
        ctx_rel(e, c),
    ensures
        ctx_list_rel(els.push(e), parts.push(c)),
    decreases parts.len(),
{
    let pe = els.push(e);
    let pc = parts.push(c);
    if parts.len() == 0 {
        assert(els.len() == 0);
        assert(pe[0] == e && pc[0] == c);
        assert(pe.subrange(1, pe.len() as int) =~= Seq::<JsonV>::empty());
        assert(pc.subrange(1, pc.len() as int) =~= Seq::<Context>::empty());
        assert(ctx_list_rel(Seq::<JsonV>::empty(), Seq::<Context>::empty()));
    } else {
        assert(pe[0] == els[0] && pc[0] == parts[0]);
        assert(pe.subrange(1, pe.len() as int) =~= els.subrange(1, els.len() as int).push(e));
        assert(pc.subrange(1, pc.len() as int) =~= parts.subrange(1, parts.len() as int).push(c));
        lemma_ctx_list_rel_snoc(
            els.subrange(1, els.len() as int),
            parts.subrange(1, parts.len() as int),
            e,
            c,
        );
    }
}

/// Appending a related term definition keeps a term-definition list
/// related.
proof fn lemma_termdefs_rel_snoc(
    entries: Seq<(Seq<char>, JsonV)>,
    defs: Seq<(String, Iri)>,
    e: (Seq<char>, JsonV),
    d: (String, Iri),
)
    requires
        termdefs_rel(entries, defs),
        d.0@ == e.0,
        iri_rel(e.1, d.1),
    ensures
        termdefs_rel(entries.push(e), defs.push(d)),
    decreases defs.len(),
{
    let pe = entries.push(e);
    let pd = defs.push(d);
    if defs.len() == 0 {
        assert(entries.len() == 0);
        assert(pe[0] == e && pd[0] == d);
        assert(pe.subrange(1, pe.len() as int) =~= Seq::<(Seq<char>, JsonV)>::empty());
        assert(pd.subrange(1, pd.len() as int) =~= Seq::<(String, Iri)>::empty());
        assert(termdefs_rel(Seq::<(Seq<char>, JsonV)>::empty(), Seq::<(String, Iri)>::empty()));
    } else {
        assert(pe[0] == entries[0] && pd[0] == defs[0]);
        assert(pe.subrange(1, pe.len() as int) =~= entries.subrange(
            1,
            entries.len() as int,
        ).push(e));
        assert(pd.subrange(1, pd.len() as int) =~= defs.subrange(1, defs.len() as int).push(d));
        lemma_termdefs_rel_snoc(
            entries.subrange(1, entries.len() as int),
            defs.subrange(1, defs.len() as int),
            e,
            d,
        );
    }
}

/// Reads a wire JSON-LD context.
pub fn parse_ctx(v: &JsonValue) -> (r: Result<Context, DecodeError>)
    ensures
        match r {
            Ok(c) => ctx_rel(v.deep_view(), c),
            Err(_) => forall|c: Context| !ctx_rel(v.deep_view(), c),
        },
    decreases *v,
{
    match v {
        JsonValue::Str(s) => Ok(Context::Single(Iri::Direct(s.clone()))),
        JsonValue::Array(items) => {
            proof {
                crate::wire::lemma_array_deep_view(*items);
            }
            let ghost els = items.deep_view();
            let mut parts: Vec<Context> = Vec::new();
            let n = items.len();
            let mut i: usize = 0;
            proof {
                assert(parts@ =~= Seq::<Context>::empty());
                assert(els.take(0) =~= Seq::<JsonV>::empty());
                assert(ctx_list_rel(els.take(0), parts@));
            }
            while i < n
                invariant
                    0 <= i <= n,
                    n == items@.len(),
                    *v == JsonValue::Array(*items),
                    v.deep_view() == JsonV::Array(els),
                    els == items.deep_view(),
                    els.len() == n,
                    ctx_list_rel(els.take(i as int), parts@),
                decreases n - i,
            {
                proof {
                    assert(decreases_to!(*v => v->Array_0));
                    assert(v->Array_0 == *items);
                    assert(decreases_to!(*items => items@));
                    assert(decreases_to!(items@ => items@[i as int]));
                }
                let c = match parse_ctx(&items[i]) {
                    Ok(c) => c,
                    Err(e) => {
                        proof {
                            assert(els[i as int] == items@[i as int].deep_view());
                            lemma_ctx_list_rel_err(els, i as int);
                            assert forall|c2: Context| !ctx_rel(v.deep_view(), c2) by {
                                if ctx_rel(v.deep_view(), c2) {
                                    match c2 {
                                        Context::Mix(parts2) => {
                                            assert(ctx_list_rel(els, parts2@));
                                        },
                                        _ => {},
                                    }
                                }
                            }
                        }
                        return Err(e);
                    },
                };
                let ghost cg = c;
                let ghost pre_parts = parts@;
                parts.push(c);
                proof {
                    assert(els.take(i + 1) =~= els.take(i as int).push(els[i as int]));
                    lemma_ctx_list_rel_snoc(els.take(i as int), pre_parts, els[i as int], cg);
                    assert(parts@ == pre_parts.push(cg));
                }
                i += 1;
            }
            proof {
                assert(els.take(n as int) =~= els);
            }
            Ok(Context::Mix(parts))
        },
        JsonValue::Object(entries) => {
            proof {
                crate::wire::lemma_object_deep_view(*entries);
            }
            let ghost eview = entries.deep_view();
            match v.get("@id") {
                Some(_) => {
                    let iri = match parse_iri(v) {
                        Ok(x) => x,
                        Err(e) => {
                            proof {
                                assert forall|c: Context| !ctx_rel(v.deep_view(), c) by {
                                    if ctx_rel(v.deep_view(), c) {
                                        match c {
                                            Context::Single(iri) => {
                                                assert(iri_rel(v.deep_view(), iri));
                                            },
                                            _ => {},
                                        }
                                    }
                                }
                            }
                            return Err(e);
                        },
                    };
                    proof {
                        lemma_dv_variant(v);
                    }
                    Ok(Context::Single(iri))
                },
                None => {
                    let mut defs: Vec<(String, Iri)> = Vec::new();
                    let n = entries.len();
                    let mut i: usize = 0;
                    proof {
                        assert(defs@ =~= Seq::<(String, Iri)>::empty());
                        assert(eview.take(0) =~= Seq::<(Seq<char>, JsonV)>::empty());
                        assert(termdefs_rel(eview.take(0), defs@));
                    }
                    while i < n
                        invariant
                            0 <= i <= n,
                            n == entries@.len(),
                            *v == JsonValue::Object(*entries),
                            v.deep_view() == JsonV::Object(eview),
                            spec_get(eview, "@id"@) is None,
                            eview == entries.deep_view(),
                            eview.len() == n,
                            termdefs_rel(eview.take(i as int), defs@),
                        decreases n - i,
                    {
                        let iri = match parse_iri(&entries[i].1) {
                            Ok(x) => x,
                            Err(e) => {
                                proof {
                                    assert(eview[i as int].1 == entries@[i as int].1.deep_view());
                                    lemma_termdefs_rel_err(eview, i as int);
                                    assert forall|c2: Context| !ctx_rel(v.deep_view(), c2) by {
                                        if ctx_rel(v.deep_view(), c2) {
                                            match c2 {
                                                Context::TermDefs(defs2) => {
                                                    assert(termdefs_rel(eview, defs2@));
                                                },
                                                _ => {},
                                            }
                                        }
                                    }
                                }
                                return Err(e);
                            },
                        };
                        let d = (entries[i].0.clone(), iri);
                        let ghost dg = d;
                        let ghost pre_defs = defs@;
                        defs.push(d);
                        proof {
                            assert(eview.take(i + 1) =~= eview.take(i as int).push(
                                eview[i as int],
                            ));
                            assert(eview[i as int] == (
                                entries@[i as int].0@,
                                entries@[i as int].1.deep_view(),
                            ));
                            lemma_termdefs_rel_snoc(
                                eview.take(i as int),
                                pre_defs,
                                eview[i as int],
                                dg,
                            );
                            assert(defs@ == pre_defs.push(dg));
                        }
                        i += 1;
                    }
                    proof {
                        assert(eview.take(n as int) =~= eview);
                    }
                    Ok(Context::TermDefs(defs))
                },
            }
        },
        _ => {
            proof {
                lemma_dv_variant(v);
            }
            Err(DecodeError::Malformed)
        },
    }
}

/// Reads an optional context field.
fn take_opt_ctx(v: &JsonValue, key: &str) -> (r: Result<Option<Context>, DecodeError>)
    ensures
        match r {
            Ok(c) => opt_ctx_rel(v.deep_view(), key@, c),
            Err(_) => forall|c: Option<Context>| !opt_ctx_rel(v.deep_view(), key@, c),
        },
{
    match v.get(key) {
        None => Ok(None),
        Some(w) => match parse_ctx(w) {
            Ok(c) => Ok(Some(c)),
            Err(e) => Err(e),
        },
    }
}

/// Reads a wire Link object.
fn parse_link(v: &JsonValue) -> (r: Result<Link, DecodeError>)
    ensures
        match r {
            Ok(l) => link_rel(v.deep_view(), l),
            Err(_) => forall|l: Link| !link_rel(v.deep_view(), l),
        },
{
    match v {
        JsonValue::Object(_) => {
            proof {
                lemma_dv_variant(v);
            }
            let schema_context = match take_opt_ctx(v, "schema_context") {
                Ok(x) => x,
                Err(e) => {
                    return Err(e);
                },
            };
            let id = match take_opt_str(v, "id") {
                Ok(x) => x,
                Err(e) => {
                    return Err(e);
                },
            };
            let typ = match take_lax_strs(v, "typ") {
                Ok(x) => x,
                Err(e) => {
                    return Err(e);
                },
            };
            let href = match v.get("href") {
                Some(w) => match w {
                    JsonValue::Str(x) => x.clone(),
                    _ => {
                        proof {
                            lemma_dv_variant(w);
                        }
                        return Err(DecodeError::Malformed);
                    },
                },
                None => {
                    return Err(DecodeError::Malformed);
                },
            };
            let height = match take_opt_nat(v, "height") {
                Ok(x) => x,
                Err(e) => {
                    return Err(e);
                },
            };
            let hreflang = match take_opt_str(v, "hreflang") {
                Ok(x) => x,
                Err(e) => {
                    return Err(e);
                },
            };
            let media_type = match take_lax_strs(v, "media_type") {
                Ok(x) => x,
                Err(e) => {
                    return Err(e);
                },
            };
            let rel = match take_lax_strs(v, "rel") {
                Ok(x) => x,
                Err(e) => {
                    return Err(e);
                },
            };
            let width = match take_opt_nat(v, "width") {
                Ok(x) => x,
                Err(e) => {
                    return Err(e);
                },
            };
            Ok(Link { schema_context, id, typ, href, height, hreflang, media_type, rel, width })
        },
        _ => {
            proof {
                lemma_dv_variant(v);
            }
            Err(DecodeError::Malformed)
        },
    }
}

/// Appending a related element keeps a reference list related.
proof fn lemma_ool_list_rel_snoc(els: Seq<JsonV>, xs: Seq<ObjectOrLink>, e: JsonV, x: ObjectOrLink)
    requires
        ool_list_rel(els, xs),
        ool_rel(e, x),
    ensures
        ool_list_rel(els.push(e), xs.push(x)),
    decreases xs.len(),
{
    let pe = els.push(e);
    let px = xs.push(x);
    if xs.len() == 0 {
        assert(els.len() == 0);
        assert(pe[0] == e && px[0] == x);
        assert(pe.subrange(1, pe.len() as int) =~= Seq::<JsonV>::empty());
        assert(px.subrange(1, px.len() as int) =~= Seq::<ObjectOrLink>::empty());
        assert(ool_list_rel(Seq::<JsonV>::empty(), Seq::<ObjectOrLink>::empty()));
    } else {
        assert(pe[0] == els[0] && px[0] == xs[0]);
        assert(pe.subrange(1, pe.len() as int) =~= els.subrange(1, els.len() as int).push(e));
        assert(px.subrange(1, px.len() as int) =~= xs.subrange(1, xs.len() as int).push(x));
        lemma_ool_list_rel_snoc(
            els.subrange(1, els.len() as int),
            xs.subrange(1, xs.len() as int),
            e,
            x,
        );
    }
}

/// Appending a related document keeps an embedded-object list related.
proof fn lemma_obj_list_rel_snoc(els: Seq<JsonV>, os: Seq<Object>, e: JsonV, o: Object)
    requires
        obj_list_rel(els, os),
        obj_rel(e, o),
    ensures
        obj_list_rel(els.push(e), os.push(o)),
    decreases os.len(),
{
    let pe = els.push(e);
    let po = os.push(o);
    if os.len() == 0 {
        assert(els.len() == 0);
        assert(pe[0] == e && po[0] == o);
        assert(pe.subrange(1, pe.len() as int) =~= Seq::<JsonV>::empty());
        assert(po.subrange(1, po.len() as int) =~= Seq::<Object>::empty());
        assert(obj_list_rel(Seq::<JsonV>::empty(), Seq::<Object>::empty()));
    } else {
        assert(pe[0] == els[0] && po[0] == os[0]);
        assert(pe.subrange(1, pe.len() as int) =~= els.subrange(1, els.len() as int).push(e));
        assert(po.subrange(1, po.len() as int) =~= os.subrange(1, os.len() as int).push(o));
        lemma_obj_list_rel_snoc(
            els.subrange(1, els.len() as int),
            os.subrange(1, os.len() as int),
            e,
            o,
        );
    }
}

/// Reads a wire reference: a bare string, a Link object, or an embedded
/// document.
pub fn parse_ool(v: &JsonValue) -> (r: Result<ObjectOrLink, DecodeError>)
    ensures
        match r {
            Ok(x) => ool_rel(v.deep_view(), x),
            Err(_) => forall|x: ObjectOrLink| !ool_rel(v.deep_view(), x),
        },
    decreases *v, 11int,
{
    match v {
        JsonValue::Str(s) => {
            let l = Link::from_href(s.clone());
            Ok(ObjectOrLink::Link(l))
        },
        JsonValue::Object(entries) => {
            proof {
                crate::wire::lemma_object_deep_view(*entries);
            }
            match v.get("href") {
                Some(_) => match parse_link(v) {
                    Ok(l) => Ok(ObjectOrLink::Link(l)),
                    Err(e) => {
                        proof {
                            assert forall|x: ObjectOrLink| !ool_rel(v.deep_view(), x) by {
                                if ool_rel(v.deep_view(), x) {
                                    match x {
                                        ObjectOrLink::Link(l) => {
                                            assert(link_rel(v.deep_view(), l));
                                        },
                                        ObjectOrLink::Object(_) => {},
                                    }
                                }
                            }
                        }
                        Err(e)
                    },
                },
                None => match Object::to_model(v) {
                    Ok(o) => Ok(ObjectOrLink::Object(o)),
                    Err(e) => {
                        proof {
                            assert forall|x: ObjectOrLink| !ool_rel(v.deep_view(), x) by {
                                if ool_rel(v.deep_view(), x) {
                                    match x {
                                        ObjectOrLink::Object(o) => {
                                            assert(obj_rel(v.deep_view(), o));
                                        },
                                        ObjectOrLink::Link(_) => {},
                                    }
                                }
                            }
                        }
                        Err(e)
                    },
                },
            }
        },
        _ => {
            proof {
                lemma_dv_variant(v);
            }
            Err(DecodeError::Malformed)
        },
    }
}

/// Reads a multi-valued reference field by the lax-array convention.
fn take_lax_ool(v: &JsonValue, key: &str) -> (r: Result<Vec<ObjectOrLink>, DecodeError>)
    ensures
        match r {
            Ok(xs) => lax_ool_rel(v.deep_view(), key@, xs@),
            Err(_) => forall|xs: Seq<ObjectOrLink>| !lax_ool_rel(v.deep_view(), key@, xs),
        },
    decreases *v, 5int,
{
    let ghost els = spec_from_lax(spec_field(v.deep_view(), key@));
    match v.get(key) {
        None => {
            let r: Vec<ObjectOrLink> = Vec::new();
            proof {
                assert(els =~= Seq::<JsonV>::empty());
                assert(r@ =~= Seq::<ObjectOrLink>::empty());
            }
            Ok(r)
        },
        Some(w) => match w {
            JsonValue::Array(items) => {
                proof {
                    crate::wire::lemma_array_deep_view(*items);
                    assert(els == items.deep_view());
                }
                let mut out: Vec<ObjectOrLink> = Vec::new();
                let n = items.len();
                let mut i: usize = 0;
                proof {
                    assert(out@ =~= Seq::<ObjectOrLink>::empty());
                    assert(ool_list_rel(els.take(0), out@));
                }
                while i < n
                    invariant
                        0 <= i <= n,
                        n == items@.len(),
                        *w == JsonValue::Array(*items),
                        decreases_to!(*v => *w),
                        els == spec_from_lax(spec_field(v.deep_view(), key@)),
                        els == items.deep_view(),
                        els.len() == n,
                        ool_list_rel(els.take(i as int), out@),
                    decreases n - i,
                {
                    proof {
                        assert(decreases_to!(*w => w->Array_0));
                        assert(w->Array_0 == *items);
                        assert(decreases_to!(*items => items@));
                        assert(decreases_to!(items@ => items@[i as int]));
                    }
                    let x = match parse_ool(&items[i]) {
                        Ok(x) => x,
                        Err(e) => {
                            proof {
                                assert(els[i as int] == items@[i as int].deep_view());
                                lemma_ool_list_rel_err(els, i as int);
                                assert forall|xs: Seq<ObjectOrLink>|
                                    !lax_ool_rel(v.deep_view(), key@, xs) by {
                                    if lax_ool_rel(v.deep_view(), key@, xs) {
                                        assert(ool_list_rel(els, xs));
                                    }
                                }
                            }
                            return Err(e);
                        },
                    };
                    let ghost xg = x;
                    let ghost pre_out = out@;
                    out.push(x);
                    proof {
                        assert(els.take(i + 1) =~= els.take(i as int).push(els[i as int]));
                        lemma_ool_list_rel_snoc(els.take(i as int), pre_out, els[i as int], xg);
                        assert(out@ == pre_out.push(xg));
                    }
                    i += 1;
                }
                proof {
                    assert(els.take(n as int) =~= els);
                }
                Ok(out)
            },
            _ => {
                let x = match parse_ool(w) {
                    Ok(x) => x,
                    Err(e) => {
                        proof {
                            lemma_dv_variant(w);
                            assert(els =~= seq![w.deep_view()]);
                            assert(els[0] == w.deep_view());
                            lemma_ool_list_rel_err(els, 0);
                            assert forall|xs: Seq<ObjectOrLink>|
                                !lax_ool_rel(v.deep_view(), key@, xs) by {
                                if lax_ool_rel(v.deep_view(), key@, xs) {
                                    assert(ool_list_rel(els, xs));
                                }
                            }
                        }
                        return Err(e);
                    },
                };
                let mut out: Vec<ObjectOrLink> = Vec::new();
                let ghost xg = x;
                out.push(x);
                proof {
                    assert(!(w.deep_view() is Array)) by {
                        match w {
                            JsonValue::Array(_) => {
                                assert(false);
                            },
                            _ => {},
                        }
                    }
                    assert(els =~= seq![w.deep_view()]);
                    assert(out@ =~= seq![xg]);
                    assert(els.subrange(1, els.len() as int) =~= Seq::<JsonV>::empty());
                    assert(out@.subrange(1, out@.len() as int) =~= Seq::<ObjectOrLink>::empty());
                    assert(ool_list_rel(Seq::<JsonV>::empty(), Seq::<ObjectOrLink>::empty()));
                    assert(ool_list_rel(els, out@));
                }
                Ok(out)
            },
        },
    }
}

/// Reads a multi-valued embedded-object field by the lax-array convention.
fn take_lax_obj(v: &JsonValue, key: &str) -> (r: Result<Vec<Object>, DecodeError>)
    ensures
        match r {
            Ok(os) => lax_obj_rel(v.deep_view(), key@, os@),
            Err(_) => forall|os: Seq<Object>| !lax_obj_rel(v.deep_view(), key@, os),
        },
    decreases *v, 5int,
{
    let ghost els = spec_from_lax(spec_field(v.deep_view(), key@));
    match v.get(key) {
        None => {
            let r: Vec<Object> = Vec::new();
            proof {
                assert(els =~= Seq::<JsonV>::empty());
                assert(r@ =~= Seq::<Object>::empty());
            }
            Ok(r)
        },
        Some(w) => match w {
            JsonValue::Array(items) => {
                proof {
                    crate::wire::lemma_array_deep_view(*items);
                    assert(els == items.deep_view());
                }
                let mut out: Vec<Object> = Vec::new();
                let n = items.len();
                let mut i: usize = 0;
                proof {
                    assert(out@ =~= Seq::<Object>::empty());
                    assert(obj_list_rel(els.take(0), out@));
                }
                while i < n
                    invariant
                        0 <= i <= n,
                        n == items@.len(),
                        *w == JsonValue::Array(*items),
                        decreases_to!(*v => *w),
                        els == spec_from_lax(spec_field(v.deep_view(), key@)),
                        els == items.deep_view(),
                        els.len() == n,
                        obj_list_rel(els.take(i as int), out@),
                    decreases n - i,
                {
                    proof {
                        assert(decreases_to!(*w => w->Array_0));
                        assert(w->Array_0 == *items);
                        assert(decreases_to!(*items => items@));
                        assert(decreases_to!(items@ => items@[i as int]));
                    }
                    let o = match Object::to_model(&items[i]) {
                        Ok(o) => o,
                        Err(e) => {
                            proof {
                                assert(els[i as int] == items@[i as int].deep_view());
                                lemma_obj_list_rel_err(els, i as int);
                                assert forall|os: Seq<Object>|
                                    !lax_obj_rel(v.deep_view(), key@, os) by {
                                    if lax_obj_rel(v.deep_view(), key@, os) {
                                        assert(obj_list_rel(els, os));
                                    }
                                }
                            }
                            return Err(e);
                        },
                    };
                    let ghost og = o;
                    let ghost pre_out = out@;
                    out.push(o);
                    proof {
                        assert(els.take(i + 1) =~= els.take(i as int).push(els[i as int]));
                        lemma_obj_list_rel_snoc(els.take(i as int), pre_out, els[i as int], og);
                        assert(out@ == pre_out.push(og));
                    }
                    i += 1;
                }
                proof {
                    assert(els.take(n as int) =~= els);
                }
                Ok(out)
            },
            _ => {
                let o = match Object::to_model(w) {
                    Ok(o) => o,
                    Err(e) => {
                        proof {
                            lemma_dv_variant(w);
                            assert(els =~= seq![w.deep_view()]);
                            assert(els[0] == w.deep_view());
                            lemma_obj_list_rel_err(els, 0);
                            assert forall|os: Seq<Object>|
                                !lax_obj_rel(v.deep_view(), key@, os) by {
                                if lax_obj_rel(v.deep_view(), key@, os) {
                                    assert(obj_list_rel(els, os));
                                }
                            }
                        }
                        return Err(e);
                    },
                };
                let mut out: Vec<Object> = Vec::new();
                let ghost og = o;
                out.push(o);
                proof {
                    assert(!(w.deep_view() is Array)) by {
                        match w {
                            JsonValue::Array(_) => {
                                assert(false);
                            },
                            _ => {},
                        }
                    }
                    assert(els =~= seq![w.deep_view()]);
                    assert(out@ =~= seq![og]);
                    assert(els.subrange(1, els.len() as int) =~= Seq::<JsonV>::empty());
                    assert(out@.subrange(1, out@.len() as int) =~= Seq::<Object>::empty());
                    assert(obj_list_rel(Seq::<JsonV>::empty(), Seq::<Object>::empty()));
                    assert(obj_list_rel(els, out@));
                }
                Ok(out)
            },
        },
    }
}

/// Reads an optional reference field.
fn take_opt_ool(v: &JsonValue, key: &str) -> (r: Result<Option<Box<ObjectOrLink>>, DecodeError>)
    ensures
        match r {
            Ok(x) => opt_ool_rel(v.deep_view(), key@, x),
            Err(_) => forall|x: Option<Box<ObjectOrLink>>| !opt_ool_rel(v.deep_view(), key@, x),
        },
    decreases *v, 5int,
{
    match v.get(key) {
        None => Ok(None),
        Some(w) => {
            let x = match parse_ool(w) {
                Ok(x) => x,
                Err(e) => {
                    proof {
                        assert forall|xo: Option<Box<ObjectOrLink>>|
                            !opt_ool_rel(v.deep_view(), key@, xo) by {
                            if opt_ool_rel(v.deep_view(), key@, xo) {
                                match xo {
                                    Some(b) => {
                                        assert(ool_rel(w.deep_view(), *b));
                                    },
                                    None => {},
                                }
                            }
                        }
                    }
                    return Err(e);
                },
            };
            Ok(Some(Box::new(x)))
        },
    }
}

/// Reads an optional embedded-object field.
fn take_opt_obj(v: &JsonValue, key: &str) -> (r: Result<Option<Box<Object>>, DecodeError>)
    ensures
        match r {
            Ok(o) => opt_obj_rel(v.deep_view(), key@, o),
            Err(_) => forall|o: Option<Box<Object>>| !opt_obj_rel(v.deep_view(), key@, o),
        },
    decreases *v, 5int,
{
    match v.get(key) {
        None => Ok(None),
        Some(w) => {
            let o = match Object::to_model(w) {
                Ok(o) => o,
                Err(e) => {
                    proof {
                        assert forall|bo: Option<Box<Object>>|
                            !opt_obj_rel(v.deep_view(), key@, bo) by {
                            if opt_obj_rel(v.deep_view(), key@, bo) {
                                match bo {
                                    Some(b) => {
                                        assert(obj_rel(w.deep_view(), *b));
                                    },
                                    None => {},
                                }
                            }
                        }
                    }
                    return Err(e);
                },
            };
            Ok(Some(Box::new(o)))
        },
    }
}

/// Reads the `url` field: a bare string is a Link holding only that
/// `href`.
fn take_url(v: &JsonValue) -> (r: Result<Option<Link>, DecodeError>)
    ensures
        match r {
            Ok(l) => url_rel(v.deep_view(), l),
            Err(_) => forall|l: Option<Link>| !url_rel(v.deep_view(), l),
        },
{
    match v.get("url") {
        None => Ok(None),
        Some(w) => match w {
            JsonValue::Str(s) => {
                let l = Link::from_href(s.clone());
                Ok(Some(l))
            },
            _ => {
                let l = match parse_link(w) {
                    Ok(l) => l,
                    Err(e) => {
                        proof {
                            lemma_dv_variant(w);
                        }
                        return Err(e);
                    },
                };
                proof {
                    lemma_dv_variant(w);
                }
                Ok(Some(l))
            },
        },
    }
}

/// Reads the Actor group: a document carrying any Actor-only field must
/// carry all four collection references.
fn take_actor(v: &JsonValue) -> (r: Result<
    Option<crate::activitypub::model::ActorItems>,
    DecodeError,
>)
    ensures
        match r {
            Ok(a) => actor_rel(v.deep_view(), a),
            Err(_) => forall|a: Option<crate::activitypub::model::ActorItems>|
                !actor_rel(v.deep_view(), a),
        },
{
    let inbox = match take_opt_str(v, "inbox") {
        Ok(x) => x,
        Err(e) => {
            return Err(e);
        },
    };
    let outbox = match take_opt_str(v, "outbox") {
        Ok(x) => x,
        Err(e) => {
            return Err(e);
        },
    };
    let following = match take_opt_str(v, "following") {
        Ok(x) => x,
        Err(e) => {
            return Err(e);
        },
    };
    let followers = match take_opt_str(v, "followers") {
        Ok(x) => x,
        Err(e) => {
            return Err(e);
        },
    };
    let preferred_username = match take_opt_str(v, "preferredUsername") {
        Ok(x) => x,
        Err(e) => {
            return Err(e);
        },
    };
    let endpoints = match take_strmap(v, "endpoints") {
        Ok(x) => x,
        Err(e) => {
            return Err(e);
        },
    };
    let any_present = v.get("inbox").is_some() || v.get("outbox").is_some() || v.get(
        "following",
    ).is_some() || v.get("followers").is_some() || v.get("preferredUsername").is_some() || v.get(
        "endpoints",
    ).is_some();
    if !any_present {
        return Ok(None);
    }
    match (inbox, outbox, following, followers) {
        (Some(inbox), Some(outbox), Some(following), Some(followers)) => {
            if v.get("inbox").is_some() && v.get("outbox").is_some() && v.get("following").is_some()
                && v.get("followers").is_some() {
                Ok(
                    Some(
                        crate::activitypub::model::ActorItems {
                            inbox,
                            outbox,
                            following,
                            followers,
                            preferred_username,
                            endpoints,
                        },
                    ),
                )
            } else {
                Err(DecodeError::Malformed)
            }
        },
        _ => Err(DecodeError::Malformed),
    }
}



/// A multi-valued reference field that stands for no sequence leaves the
/// document standing for no canonical object.
proof fn lemma_no_obj_lax_ool(doc: JsonV, key: Seq<char>)
    requires
        forall|xs: Seq<ObjectOrLink>| !lax_ool_rel(doc, key, xs),
        key == "attachment"@ || key == "attributeTo"@ || key == "audience"@ || key == "bcc"@ || key
            == "bto"@ || key == "cc"@ || key == "context"@ || key == "generator"@ || key == "icon"@
            || key == "image"@ || key == "inReplyTo"@ || key == "location"@ || key == "preview"@
            || key == "tag"@ || key == "to"@ || key == "actor"@ || key == "instrument"@ || key
            == "origin"@ || key == "object"@ || key == "result"@ || key == "target"@ || key
            == "items"@ || key == "orderedItems"@ || key == "oneOf"@ || key == "anyOf"@,
    ensures
        forall|o: Object| !obj_rel(doc, o),
{
    assert forall|o: Object| !obj_rel(doc, o) by {
        if obj_rel(doc, o) {
            if key == "attachment"@ {
                assert(lax_ool_rel(doc, "attachment"@, o.object_items.attachment@));
            } else if key == "attributeTo"@ {
                assert(lax_ool_rel(doc, "attributeTo"@, o.object_items.attributed_to@));
            } else if key == "audience"@ {
                assert(lax_ool_rel(doc, "audience"@, o.object_items.audience@));
            } else if key == "bcc"@ {
                assert(lax_ool_rel(doc, "bcc"@, o.object_items.bcc@));
            } else if key == "bto"@ {
                assert(lax_ool_rel(doc, "bto"@, o.object_items.bto@));
            } else if key == "cc"@ {
                assert(lax_ool_rel(doc, "cc"@, o.object_items.cc@));
            } else if key == "context"@ {
                assert(lax_ool_rel(doc, "context"@, o.object_items.context@));
            } else if key == "generator"@ {
                assert(lax_ool_rel(doc, "generator"@, o.object_items.generator@));
            } else if key == "icon"@ {
                assert(lax_ool_rel(doc, "icon"@, o.object_items.icon@));
            } else if key == "image"@ {
                assert(lax_ool_rel(doc, "image"@, o.object_items.image@));
            } else if key == "inReplyTo"@ {
                assert(lax_ool_rel(doc, "inReplyTo"@, o.object_items.in_reply_to@));
            } else if key == "location"@ {
                assert(lax_ool_rel(doc, "location"@, o.object_items.location@));
            } else if key == "preview"@ {
                assert(lax_ool_rel(doc, "preview"@, o.object_items.preview@));
            } else if key == "tag"@ {
                assert(lax_ool_rel(doc, "tag"@, o.object_items.tag@));
            } else if key == "to"@ {
                assert(lax_ool_rel(doc, "to"@, o.object_items.to@));
            } else if key == "actor"@ {
                assert(lax_ool_rel(doc, "actor"@, o.activity_items.actor@));
            } else if key == "instrument"@ {
                assert(lax_ool_rel(doc, "instrument"@, o.activity_items.instrument@));
            } else if key == "origin"@ {
                assert(lax_ool_rel(doc, "origin"@, o.activity_items.origin@));
            } else if key == "object"@ {
                assert(lax_ool_rel(doc, "object"@, o.activity_items.object@));
            } else if key == "result"@ {
                assert(lax_ool_rel(doc, "result"@, o.activity_items.result@));
            } else if key == "target"@ {
                assert(lax_ool_rel(doc, "target"@, o.activity_items.target@));
            } else if key == "items"@ {
                assert(lax_ool_rel(doc, "items"@, o.collection_items.items@));
            } else if key == "orderedItems"@ {
                assert(lax_ool_rel(doc, "orderedItems"@, o.ordered_collection_items.ordered_items@));
            } else if key == "oneOf"@ {
                assert(lax_ool_rel(doc, "oneOf"@, o.question_items.one_of@));
            } else {
                assert(lax_ool_rel(doc, "anyOf"@, o.question_items.any_of@));
            }
        }
    }
}

/// An optional string field of an unreadable shape leaves the document
/// standing for no canonical object.
proof fn lemma_no_obj_opt_str(doc: JsonV, key: Seq<char>)
    requires
        opt_str_at(doc, key) is None,
        key == "id"@ || key == "duration"@ || key == "endTime"@ || key == "published"@ || key
            == "updated"@ || key == "deleted"@ || key == "movedTo"@ || key == "featured"@ || key
            == "featuredTags"@ || key == "devices"@,
    ensures
        forall|o: Object| !obj_rel(doc, o),
{
    assert forall|o: Object| !obj_rel(doc, o) by {
        if obj_rel(doc, o) {
            if key == "id"@ {
                assert(opt_str_at(doc, "id"@) == Some(o.id.deep_view()));
            } else if key == "duration"@ {
                assert(opt_str_at(doc, "duration"@) == Some(o.object_items.duration.deep_view()));
            } else if key == "endTime"@ {
                assert(opt_str_at(doc, "endTime"@) == Some(o.object_items.end_time.deep_view()));
            } else if key == "published"@ {
                assert(opt_str_at(doc, "published"@) == Some(o.object_items.published.deep_view()));
            } else if key == "updated"@ {
                assert(opt_str_at(doc, "updated"@) == Some(o.object_items.updated.deep_view()));
            } else if key == "deleted"@ {
                assert(opt_str_at(doc, "deleted"@) == Some(o.tombstone_items.deleted.deep_view()));
            } else if key == "movedTo"@ {
                assert(opt_str_at(doc, "movedTo"@) == Some(
                    o.activity_streams_ext_items.moved_to.deep_view(),
                ));
            } else if key == "featured"@ {
                assert(opt_str_at(doc, "featured"@) == Some(
                    o.mastodon_ext_items.featured.deep_view(),
                ));
            } else if key == "featuredTags"@ {
                assert(opt_str_at(doc, "featuredTags"@) == Some(
                    o.mastodon_ext_items.featured_tags.deep_view(),
                ));
            } else {
                assert(opt_str_at(doc, "devices"@) == Some(
                    o.mastodon_ext_items.devices.deep_view(),
                ));
            }
        }
    }
}

/// A multi-valued string field of an unreadable shape leaves the document
/// standing for no canonical object.
proof fn lemma_no_obj_lax_strs(doc: JsonV, key: Seq<char>)
    requires
        lax_strs_at(doc, key) is None,
        key == "type"@ || key == "content"@ || key == "name"@ || key == "mediaType"@ || key
            == "summary"@ || key == "alsoKnownAs"@,
    ensures
        forall|o: Object| !obj_rel(doc, o),
{
    assert forall|o: Object| !obj_rel(doc, o) by {
        if obj_rel(doc, o) {
            if key == "type"@ {
                assert(lax_strs_at(doc, "type"@) == Some(o.typ.deep_view()));
            } else if key == "content"@ {
                assert(lax_strs_at(doc, "content"@) == Some(o.object_items.content.deep_view()));
            } else if key == "name"@ {
                assert(lax_strs_at(doc, "name"@) == Some(o.object_items.name.deep_view()));
            } else if key == "mediaType"@ {
                assert(lax_strs_at(doc, "mediaType"@) == Some(
                    o.object_items.media_type.deep_view(),
                ));
            } else if key == "summary"@ {
                assert(lax_strs_at(doc, "summary"@) == Some(o.object_items.summary.deep_view()));
            } else {
                assert(lax_strs_at(doc, "alsoKnownAs"@) == Some(
                    o.activity_streams_ext_items.also_known_as.deep_view(),
                ));
            }
        }
    }
}

/// A term-map field of an unreadable shape leaves the document standing
/// for no canonical object.
proof fn lemma_no_obj_strmap(doc: JsonV, key: Seq<char>)
    requires
        strmap_at(doc, key) is None,
        key == "contentMap"@ || key == "nameMap"@ || key == "summaryMap"@,
    ensures
        forall|o: Object| !obj_rel(doc, o),
{
    assert forall|o: Object| !obj_rel(doc, o) by {
        if obj_rel(doc, o) {
            if key == "contentMap"@ {
                assert(strmap_at(doc, "contentMap"@) == Some(
                    o.object_items.content_map.deep_view(),
                ));
            } else if key == "nameMap"@ {
                assert(strmap_at(doc, "nameMap"@) == Some(o.object_items.name_map.deep_view()));
            } else {
                assert(strmap_at(doc, "summaryMap"@) == Some(
                    o.object_items.summary_map.deep_view(),
                ));
            }
        }
    }
}

/// An optional count field of an unreadable shape leaves the document
/// standing for no canonical object.
proof fn lemma_no_obj_opt_nat(doc: JsonV, key: Seq<char>)
    requires
        opt_nat_at(doc, key) is None,
        key == "totalItems"@ || key == "startIndex"@,
    ensures
        forall|o: Object| !obj_rel(doc, o),
{
    assert forall|o: Object| !obj_rel(doc, o) by {
        if obj_rel(doc, o) {
            if key == "totalItems"@ {
                assert(opt_nat_at(doc, "totalItems"@) == Some(o.collection_items.total_items));
            } else {
                assert(opt_nat_at(doc, "startIndex"@) == Some(
                    o.ordered_collection_page_items.start_index,
                ));
            }
        }
    }
}

/// An optional flag field of an unreadable shape leaves the document
/// standing for no canonical object.
proof fn lemma_no_obj_opt_bool(doc: JsonV, key: Seq<char>)
    requires
        opt_bool_at(doc, key) is None,
        key == "manuallyApprovesFollowers"@ || key == "discoverable"@ || key == "suspended"@,
    ensures
        forall|o: Object| !obj_rel(doc, o),
{
    assert forall|o: Object| !obj_rel(doc, o) by {
        if obj_rel(doc, o) {
            if key == "manuallyApprovesFollowers"@ {
                assert(opt_bool_at(doc, "manuallyApprovesFollowers"@) == Some(
                    o.activity_streams_ext_items.manually_approves_followers,
                ));
            } else if key == "discoverable"@ {
                assert(opt_bool_at(doc, "discoverable"@) == Some(
                    o.mastodon_ext_items.discoverable,
                ));
            } else {
                assert(opt_bool_at(doc, "suspended"@) == Some(o.mastodon_ext_items.suspended));
            }
        }
    }
}

/// An optional reference field that stands for no reference leaves the
/// document standing for no canonical object.
proof fn lemma_no_obj_opt_ool(doc: JsonV, key: Seq<char>)
    requires
        forall|x: Option<Box<ObjectOrLink>>| !opt_ool_rel(doc, key, x),
        key == "current"@ || key == "first"@ || key == "last"@ || key == "next"@ || key == "prev"@
            || key == "partOf"@ || key == "subject"@,
    ensures
        forall|o: Object| !obj_rel(doc, o),
{
    assert forall|o: Object| !obj_rel(doc, o) by {
        if obj_rel(doc, o) {
            if key == "current"@ {
                assert(opt_ool_rel(doc, "current"@, o.collection_items.current));
            } else if key == "first"@ {
                assert(opt_ool_rel(doc, "first"@, o.collection_items.first));
            } else if key == "last"@ {
                assert(opt_ool_rel(doc, "last"@, o.collection_items.last));
            } else if key == "next"@ {
                assert(opt_ool_rel(doc, "next"@, o.collection_page_items.next));
            } else if key == "prev"@ {
                assert(opt_ool_rel(doc, "prev"@, o.collection_page_items.prev));
            } else if key == "partOf"@ {
                assert(opt_ool_rel(doc, "partOf"@, o.collection_page_items.part_of));
            } else {
                assert(opt_ool_rel(doc, "subject"@, o.relationship_items.subject));
            }
        }
    }
}

/// An optional embedded-object field that stands for no document leaves
/// the document standing for no canonical object.
proof fn lemma_no_obj_opt_obj(doc: JsonV, key: Seq<char>)
    requires
        forall|b: Option<Box<Object>>| !opt_obj_rel(doc, key, b),
        key == "replies"@ || key == "describes"@,
    ensures
        forall|o: Object| !obj_rel(doc, o),
{
    assert forall|o: Object| !obj_rel(doc, o) by {
        if obj_rel(doc, o) {
            if key == "replies"@ {
                assert(opt_obj_rel(doc, "replies"@, o.object_items.replies));
            } else {
                assert(opt_obj_rel(doc, "describes"@, o.object_items.describes));
            }
        }
    }
}

/// A multi-valued embedded-object field that stands for no sequence leaves
/// the document standing for no canonical object.
proof fn lemma_no_obj_lax_obj(doc: JsonV, key: Seq<char>)
    requires
        forall|os: Seq<Object>| !lax_obj_rel(doc, key, os),
        key == "relationship"@ || key == "former_type"@,
    ensures
        forall|o: Object| !obj_rel(doc, o),
{
    assert forall|o: Object| !obj_rel(doc, o) by {
        if obj_rel(doc, o) {
            if key == "relationship"@ {
                assert(lax_obj_rel(doc, "relationship"@, o.relationship_items.relationship@));
            } else {
                assert(lax_obj_rel(doc, "former_type"@, o.tombstone_items.former_type@));
            }
        }
    }
}

/// A context, url, Actor-group or key field that admits no value leaves
/// the document standing for no canonical object.
proof fn lemma_no_obj_special(doc: JsonV, which: int)
    requires
        which == 0 ==> forall|c: Option<Context>| !opt_ctx_rel(doc, "@context"@, c),
        which == 1 ==> forall|l: Option<Link>| !url_rel(doc, l),
        which == 2 ==> forall|a: Option<crate::activitypub::model::ActorItems>|
            !actor_rel(doc, a),
        which == 3 ==> (spec_field(doc, "publicKey"@) matches Some(jv) && (forall|k: Key|
            !key_rel(jv, k))),
        0 <= which <= 3,
    ensures
        forall|o: Object| !obj_rel(doc, o),
{
    assert forall|o: Object| !obj_rel(doc, o) by {
        if obj_rel(doc, o) {
            if which == 0 {
                assert(opt_ctx_rel(doc, "@context"@, o.schema_context));
            } else if which == 1 {
                assert(url_rel(doc, o.object_items.url));
            } else if which == 2 {
                assert(actor_rel(doc, o.actor_items));
            } else {
                let jv = spec_field(doc, "publicKey"@)->Some_0;
                assert(o.security_items.public_key matches Some(k) && key_rel(jv, k));
            }
        }
    }
}

impl Object {
    /// Reads a wire document into the canonical model: each field taken
    /// from its key, the multi-valued fields by the lax-array convention,
    /// unknown keys ignored. A document whose fields do not fit the model
    /// is rejected.
    #[verifier::rlimit(100)]
    pub fn to_model(v: &JsonValue) -> (r: Result<Object, DecodeError>)
        ensures
            match r {
                Ok(o) => obj_rel(v.deep_view(), o),
                Err(_) => forall|o: Object| !obj_rel(v.deep_view(), o),
            },
        decreases *v, 10int,
    {
        match v {
            JsonValue::Object(_) => {},
            _ => {
                proof {
                    lemma_dv_variant(v);
                }
                return Err(DecodeError::Malformed);
            },
        }
        let schema_context = match take_opt_ctx(v, "@context") {
            Ok(x) => x,
            Err(e) => {
                proof {
                    lemma_no_obj_special(v.deep_view(), 0);
                }
                return Err(e);
            },
        };
        let id = match take_opt_str(v, "id") {
            Ok(x) => x,
            Err(e) => {
                proof {
                    lemma_no_obj_opt_str(v.deep_view(), "id"@);
                }
                return Err(e);
            },
        };
        let typ = match take_lax_strs(v, "type") {
            Ok(x) => x,
            Err(e) => {
                proof {
                    lemma_no_obj_lax_strs(v.deep_view(), "type"@);
                }
                return Err(e);
            },
        };
        let attachment = match take_lax_ool(v, "attachment") {
            Ok(x) => x,
            Err(e) => {
                proof {
                    lemma_no_obj_lax_ool(v.deep_view(), "attachment"@);
                }
                return Err(e);
            },
        };
        let attributed_to = match take_lax_ool(v, "attributeTo") {
            Ok(x) => x,
            Err(e) => {
                proof {
                    lemma_no_obj_lax_ool(v.deep_view(), "attributeTo"@);
                }
                return Err(e);
            },
        };
        let audience = match take_lax_ool(v, "audience") {
            Ok(x) => x,
            Err(e) => {
                proof {
                    lemma_no_obj_lax_ool(v.deep_view(), "audience"@);
                }
                return Err(e);
            },
        };
        let bcc = match take_lax_ool(v, "bcc") {
            Ok(x) => x,
            Err(e) => {
                proof {
                    lemma_no_obj_lax_ool(v.deep_view(), "bcc"@);
                }
                return Err(e);
            },
        };
        let bto = match take_lax_ool(v, "bto") {
            Ok(x) => x,
            Err(e) => {
                proof {
                    lemma_no_obj_lax_ool(v.deep_view(), "bto"@);
                }
                return Err(e);
            },
        };
        let cc = match take_lax_ool(v, "cc") {
            Ok(x) => x,
            Err(e) => {
                proof {
                    lemma_no_obj_lax_ool(v.deep_view(), "cc"@);
                }
                return Err(e);
            },
        };
        let context_f = match take_lax_ool(v, "context") {
            Ok(x) => x,
            Err(e) => {
                proof {
                    lemma_no_obj_lax_ool(v.deep_view(), "context"@);
                }
                return Err(e);
            },
        };
        let generator = match take_lax_ool(v, "generator") {
            Ok(x) => x,
            Err(e) => {
                proof {
                    lemma_no_obj_lax_ool(v.deep_view(), "generator"@);
                }
                return Err(e);
            },
        };
        let icon = match take_lax_ool(v, "icon") {
            Ok(x) => x,
            Err(e) => {
                proof {
                    lemma_no_obj_lax_ool(v.deep_view(), "icon"@);
                }
                return Err(e);
            },
        };
        let image = match take_lax_ool(v, "image") {
            Ok(x) => x,
            Err(e) => {
                proof {
                    lemma_no_obj_lax_ool(v.deep_view(), "image"@);
                }
                return Err(e);
            },
        };
        let in_reply_to = match take_lax_ool(v, "inReplyTo") {
            Ok(x) => x,
            Err(e) => {
                proof {
                    lemma_no_obj_lax_ool(v.deep_view(), "inReplyTo"@);
                }
                return Err(e);
            },
        };
        let location = match take_lax_ool(v, "location") {
            Ok(x) => x,
            Err(e) => {
                proof {
                    lemma_no_obj_lax_ool(v.deep_view(), "location"@);
                }
                return Err(e);
            },
        };
        let preview = match take_lax_ool(v, "preview") {
            Ok(x) => x,
            Err(e) => {
                proof {
                    lemma_no_obj_lax_ool(v.deep_view(), "preview"@);
                }
                return Err(e);
            },
        };
        let tag = match take_lax_ool(v, "tag") {
            Ok(x) => x,
            Err(e) => {
                proof {
                    lemma_no_obj_lax_ool(v.deep_view(), "tag"@);
                }
                return Err(e);
            },
        };
        let to = match take_lax_ool(v, "to") {
            Ok(x) => x,
            Err(e) => {
                proof {
                    lemma_no_obj_lax_ool(v.deep_view(), "to"@);
                }
                return Err(e);
            },
        };
        let replies = match take_opt_obj(v, "replies") {
            Ok(x) => x,
            Err(e) => {
                proof {
                    lemma_no_obj_opt_obj(v.deep_view(), "replies"@);
                }
                return Err(e);
            },
        };
        let url = match take_url(v) {
            Ok(x) => x,
            Err(e) => {
                proof {
                    lemma_no_obj_special(v.deep_view(), 1);
                }
                return Err(e);
            },
        };
        let content = match take_lax_strs(v, "content") {
            Ok(x) => x,
            Err(e) => {
                proof {
                    lemma_no_obj_lax_strs(v.deep_view(), "content"@);
                }
                return Err(e);
            },
        };
        let content_map = match take_strmap(v, "contentMap") {
            Ok(x) => x,
            Err(e) => {
                proof {
                    lemma_no_obj_strmap(v.deep_view(), "contentMap"@);
                }
                return Err(e);
            },
        };
        let name = match take_lax_strs(v, "name") {
            Ok(x) => x,
            Err(e) => {
                proof {
                    lemma_no_obj_lax_strs(v.deep_view(), "name"@);
                }
                return Err(e);
            },
        };
        let name_map = match take_strmap(v, "nameMap") {
            Ok(x) => x,
            Err(e) => {
                proof {
                    lemma_no_obj_strmap(v.deep_view(), "nameMap"@);
                }
                return Err(e);
            },
        };
        let duration = match take_opt_str(v, "duration") {
            Ok(x) => x,
            Err(e) => {
                proof {
                    lemma_no_obj_opt_str(v.deep_view(), "duration"@);
                }
                return Err(e);
            },
        };
        let media_type = match take_lax_strs(v, "mediaType") {
            Ok(x) => x,
            Err(e) => {
                proof {
                    lemma_no_obj_lax_strs(v.deep_view(), "mediaType"@);
                }
                return Err(e);
            },
        };
        let end_time = match take_opt_str(v, "endTime") {
            Ok(x) => x,
            Err(e) => {
                proof {
                    lemma_no_obj_opt_str(v.deep_view(), "endTime"@);
                }
                return Err(e);
            },
        };
        let published = match take_opt_str(v, "published") {
            Ok(x) => x,
            Err(e) => {
                proof {
                    lemma_no_obj_opt_str(v.deep_view(), "published"@);
                }
                return Err(e);
            },
        };
        let summary = match take_lax_strs(v, "summary") {
            Ok(x) => x,
            Err(e) => {
                proof {
                    lemma_no_obj_lax_strs(v.deep_view(), "summary"@);
                }
                return Err(e);
            },
        };
        let summary_map = match take_strmap(v, "summaryMap") {
            Ok(x) => x,
            Err(e) => {
                proof {
                    lemma_no_obj_strmap(v.deep_view(), "summaryMap"@);
                }
                return Err(e);
            },
        };
        let updated = match take_opt_str(v, "updated") {
            Ok(x) => x,
            Err(e) => {
                proof {
                    lemma_no_obj_opt_str(v.deep_view(), "updated"@);
                }
                return Err(e);
            },
        };
        let describes = match take_opt_obj(v, "describes") {
            Ok(x) => x,
            Err(e) => {
                proof {
                    lemma_no_obj_opt_obj(v.deep_view(), "describes"@);
                }
                return Err(e);
            },
        };
        let actor_items = match take_actor(v) {
            Ok(x) => x,
            Err(e) => {
                proof {
                    lemma_no_obj_special(v.deep_view(), 2);
                }
                return Err(e);
            },
        };
        let actor = match take_lax_ool(v, "actor") {
            Ok(x) => x,
            Err(e) => {
                proof {
                    lemma_no_obj_lax_ool(v.deep_view(), "actor"@);
                }
                return Err(e);
            },
        };
        let instrument = match take_lax_ool(v, "instrument") {
            Ok(x) => x,
            Err(e) => {
                proof {
                    lemma_no_obj_lax_ool(v.deep_view(), "instrument"@);
                }
                return Err(e);
            },
        };
        let origin = match take_lax_ool(v, "origin") {
            Ok(x) => x,
            Err(e) => {
                proof {
                    lemma_no_obj_lax_ool(v.deep_view(), "origin"@);
                }
                return Err(e);
            },
        };
        let object_f = match take_lax_ool(v, "object") {
            Ok(x) => x,
            Err(e) => {
                proof {
                    lemma_no_obj_lax_ool(v.deep_view(), "object"@);
                }
                return Err(e);
            },
        };
        let result_f = match take_lax_ool(v, "result") {
            Ok(x) => x,
            Err(e) => {
                proof {
                    lemma_no_obj_lax_ool(v.deep_view(), "result"@);
                }
                return Err(e);
            },
        };
        let target = match take_lax_ool(v, "target") {
            Ok(x) => x,
            Err(e) => {
                proof {
                    lemma_no_obj_lax_ool(v.deep_view(), "target"@);
                }
                return Err(e);
            },
        };
        let total_items = match take_opt_nat(v, "totalItems") {
            Ok(x) => x,
            Err(e) => {
                proof {
                    lemma_no_obj_opt_nat(v.deep_view(), "totalItems"@);
                }
                return Err(e);
            },
        };
        let current = match take_opt_ool(v, "current") {
            Ok(x) => x,
            Err(e) => {
                proof {
                    lemma_no_obj_opt_ool(v.deep_view(), "current"@);
                }
                return Err(e);
            },
        };
        let first = match take_opt_ool(v, "first") {
            Ok(x) => x,
            Err(e) => {
                proof {
                    lemma_no_obj_opt_ool(v.deep_view(), "first"@);
                }
                return Err(e);
            },
        };
        let last = match take_opt_ool(v, "last") {
            Ok(x) => x,
            Err(e) => {
                proof {
                    lemma_no_obj_opt_ool(v.deep_view(), "last"@);
                }
                return Err(e);
            },
        };
        let items = match take_lax_ool(v, "items") {
            Ok(x) => x,
            Err(e) => {
                proof {
                    lemma_no_obj_lax_ool(v.deep_view(), "items"@);
                }
                return Err(e);
            },
        };
        let ordered_items = match take_lax_ool(v, "orderedItems") {
            Ok(x) => x,
            Err(e) => {
                proof {
                    lemma_no_obj_lax_ool(v.deep_view(), "orderedItems"@);
                }
                return Err(e);
            },
        };
        let next = match take_opt_ool(v, "next") {
            Ok(x) => x,
            Err(e) => {
                proof {
                    lemma_no_obj_opt_ool(v.deep_view(), "next"@);
                }
                return Err(e);
            },
        };
        let prev = match take_opt_ool(v, "prev") {
            Ok(x) => x,
            Err(e) => {
                proof {
                    lemma_no_obj_opt_ool(v.deep_view(), "prev"@);
                }
                return Err(e);
            },
        };
        let part_of = match take_opt_ool(v, "partOf") {
            Ok(x) => x,
            Err(e) => {
                proof {
                    lemma_no_obj_opt_ool(v.deep_view(), "partOf"@);
                }
                return Err(e);
            },
        };
        let start_index = match take_opt_nat(v, "startIndex") {
            Ok(x) => x,
            Err(e) => {
                proof {
                    lemma_no_obj_opt_nat(v.deep_view(), "startIndex"@);
                }
                return Err(e);
            },
        };
        let subject = match take_opt_ool(v, "subject") {
            Ok(x) => x,
            Err(e) => {
                proof {
                    lemma_no_obj_opt_ool(v.deep_view(), "subject"@);
                }
                return Err(e);
            },
        };
        let relationship = match take_lax_obj(v, "relationship") {
            Ok(x) => x,
            Err(e) => {
                proof {
                    lemma_no_obj_lax_obj(v.deep_view(), "relationship"@);
                }
                return Err(e);
            },
        };
        let former_type = match take_lax_obj(v, "former_type") {
            Ok(x) => x,
            Err(e) => {
                proof {
                    lemma_no_obj_lax_obj(v.deep_view(), "former_type"@);
                }
                return Err(e);
            },
        };
        let deleted = match take_opt_str(v, "deleted") {
            Ok(x) => x,
            Err(e) => {
                proof {
                    lemma_no_obj_opt_str(v.deep_view(), "deleted"@);
                }
                return Err(e);
            },
        };
        let one_of = match take_lax_ool(v, "oneOf") {
            Ok(x) => x,
            Err(e) => {
                proof {
                    lemma_no_obj_lax_ool(v.deep_view(), "oneOf"@);
                }
                return Err(e);
            },
        };
        let any_of = match take_lax_ool(v, "anyOf") {
            Ok(x) => x,
            Err(e) => {
                proof {
                    lemma_no_obj_lax_ool(v.deep_view(), "anyOf"@);
                }
                return Err(e);
            },
        };
        let closed = take_opt_raw(v, "closed");
        let manually_approves_followers = match take_opt_bool(v, "manuallyApprovesFollowers") {
            Ok(x) => x,
            Err(e) => {
                proof {
                    lemma_no_obj_opt_bool(v.deep_view(), "manuallyApprovesFollowers"@);
                }
                return Err(e);
            },
        };
        let also_known_as = match take_lax_strs(v, "alsoKnownAs") {
            Ok(x) => x,
            Err(e) => {
                proof {
                    lemma_no_obj_lax_strs(v.deep_view(), "alsoKnownAs"@);
                }
                return Err(e);
            },
        };
        let moved_to = match take_opt_str(v, "movedTo") {
            Ok(x) => x,
            Err(e) => {
                proof {
                    lemma_no_obj_opt_str(v.deep_view(), "movedTo"@);
                }
                return Err(e);
            },
        };
        let featured = match take_opt_str(v, "featured") {
            Ok(x) => x,
            Err(e) => {
                proof {
                    lemma_no_obj_opt_str(v.deep_view(), "featured"@);
                }
                return Err(e);
            },
        };
        let featured_tags = match take_opt_str(v, "featuredTags") {
            Ok(x) => x,
            Err(e) => {
                proof {
                    lemma_no_obj_opt_str(v.deep_view(), "featuredTags"@);
                }
                return Err(e);
            },
        };
        let discoverable = match take_opt_bool(v, "discoverable") {
            Ok(x) => x,
            Err(e) => {
                proof {
                    lemma_no_obj_opt_bool(v.deep_view(), "discoverable"@);
                }
                return Err(e);
            },
        };
        let suspended = match take_opt_bool(v, "suspended") {
            Ok(x) => x,
            Err(e) => {
                proof {
                    lemma_no_obj_opt_bool(v.deep_view(), "suspended"@);
                }
                return Err(e);
            },
        };
        let devices = match take_opt_str(v, "devices") {
            Ok(x) => x,
            Err(e) => {
                proof {
                    lemma_no_obj_opt_str(v.deep_view(), "devices"@);
                }
                return Err(e);
            },
        };
        let public_key = match v.get("publicKey") {
            None => None,
            Some(w) => match parse_key(w) {
                Ok(k) => Some(k),
                Err(e) => {
                    proof {
                        lemma_no_obj_special(v.deep_view(), 3);
                    }
                    return Err(e);
                },
            },
        };
        let o = Object {
            schema_context,
            id,
            typ,
            object_items: crate::activitypub::model::ObjectItems {
                attachment,
                attributed_to,
                audience,
                bcc,
                bto,
                cc,
                context: context_f,
                generator,
                icon,
                image,
                in_reply_to,
                location,
                preview,
                replies,
                tag,
                to,
                url,
                content,
                content_map,
                name,
                name_map,
                duration,
                media_type,
                end_time,
                published,
                summary,
                summary_map,
                updated,
                describes,
            },
            actor_items,
            activity_items: crate::activitypub::model::ActivityItems {
                actor,
                instrument,
                origin,
                object: object_f,
                result: result_f,
                target,
            },
            collection_items: crate::activitypub::model::CollectionItems {
                total_items,
                current,
                first,
                last,
                items,
            },
            ordered_collection_items: crate::activitypub::model::OrderedCollectionItems {
                ordered_items,
            },
            collection_page_items: crate::activitypub::model::CollectionPageItems {
                next,
                prev,
                part_of,
            },
            ordered_collection_page_items:
                crate::activitypub::model::OrderedCollectionPageItems { start_index },
            relationship_items: crate::activitypub::model::RelationshipItems {
                subject,
                relationship,
            },
            tombstone_items: crate::activitypub::model::TombstoneItems { former_type, deleted },
            question_items: crate::activitypub::model::QuestionItems {
                one_of,
                any_of,
                closed,
            },
            activity_streams_ext_items: crate::activitypub::model::ActivityStreamExtItems {
                manually_approves_followers,
                also_known_as,
                moved_to,
            },
            mastodon_ext_items: crate::activitypub::model::MastodonExtItems {
                featured,
                featured_tags,
                discoverable,
                suspended,
                devices,
            },
            security_items: crate::activitypub::model::SecurityItems { public_key },
        };
        proof {
            assert(obj_rel(v.deep_view(), o));
        }
        Ok(o)
    }
}

} // verus!
