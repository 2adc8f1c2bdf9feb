//! The WebFinger resource: `subject`, `aliases`, `properties` and `links`,
//! and the scan that resolves the `self` relation to the actor document
//! URL.

use vstd::prelude::*;

use crate::wire::str_eq;

verus! {

/// One WebFinger link.
#[derive(Debug, PartialEq, Eq)]
pub struct Link {
    pub rel: String,
    pub typ: Option<String>,
    pub href: Option<String>,
    pub titles: Vec<(String, String)>,
    pub properties: Vec<(String, Option<String>)>,
}

/// A WebFinger resource document.
#[derive(Debug, PartialEq, Eq)]
pub struct Resource {
    pub subject: String,
    pub aliases: Option<Vec<String>>,
    pub properties: Vec<(String, Option<String>)>,
    pub links: Option<Vec<Link>>,
}

/// Why a resource does not resolve to an actor URL.
#[derive(Debug, PartialEq, Eq)]
pub enum ResolveError {
    /// No link carries the `self` relation.
    NoSelfLink,
    /// The `self` link declares a content type other than the ActivityPub
    /// document type.
    WrongType,
    /// The `self` link has no `href`.
    NoHref,
}

/// The first link whose relation is `self`, if any.
pub open spec fn find_self(links: Seq<Link>) -> Option<Link>
    decreases links.len(),
{
    if links.len() == 0 {
        None
    } else if links[0].rel@ == "self"@ {
        Some(links[0])
    } else {
        find_self(links.drop_first())
    }
}

/// The links of a resource; a resource without a `links` member has none.
pub open spec fn links_of(r: Resource) -> Seq<Link> {
    match r.links {
        None => Seq::empty(),
        Some(links) => links@,
    }
}

/// Whether a `self` link's declared type admits it as an ActivityPub
/// actor: an absent type is accepted, a present one must be the
/// ActivityPub document type.
pub open spec fn self_type_ok(l: Link) -> bool {
    match l.typ {
        None => true,
        Some(t) => t@ == "application/activity+json"@,
    }
}

impl Resource {
    /// Resolves this resource to its actor document URL: the first link
    /// with the `self` relation, provided its declared type (if any) is
    /// the ActivityPub document type and it carries an `href`.
    pub fn actor_url(&self) -> (r: Result<String, ResolveError>)
        ensures
            match r {
                Ok(href) => {
                    &&& find_self(links_of(*self)) matches Some(l)
                    &&& self_type_ok(l)
                    &&& l.href matches Some(h) && href@ == h@
                },
                Err(ResolveError::NoSelfLink) => find_self(links_of(*self)) is None,
                Err(ResolveError::WrongType) => find_self(links_of(*self)) matches Some(l)
                    && !self_type_ok(l),
                Err(ResolveError::NoHref) => find_self(links_of(*self)) matches Some(l)
                    && self_type_ok(l) && l.href is None,
            },
    {
        let links = match &self.links {
            None => {
                proof {
                    assert(links_of(*self) =~= Seq::<Link>::empty());
                }
                return Err(ResolveError::NoSelfLink);
            },
            Some(links) => links,
        };
        let n = links.len();
        let mut i: usize = 0;
        proof {
            assert(links@.skip(0) =~= links@);
        }
        while i < n
            invariant
                0 <= i <= n,
                n == links@.len(),
                self.links matches Some(ls) && ls == *links,
                find_self(links_of(*self)) == find_self(links@.skip(i as int)),
            decreases n - i,
        {
            if str_eq(links[i].rel.as_str(), "self") {
                proof {
                    assert(links@.skip(i as int)[0] == links@[i as int]);
                }
                let link = &links[i];
                match &link.typ {
                    None => {},
                    Some(t) => {
                        if !str_eq(t.as_str(), "application/activity+json") {
                            return Err(ResolveError::WrongType);
                        }
                    },
                }
                match &link.href {
                    None => {
                        return Err(ResolveError::NoHref);
                    },
                    Some(h) => {
                        return Ok(h.clone());
                    },
                }
            }
            proof {
                assert(links@.skip(i as int).drop_first() =~= links@.skip(i + 1));
            }
            i += 1;
        }
        proof {
            assert(links@.skip(i as int).len() == 0);
        }
        Err(ResolveError::NoSelfLink)
    }
}

} // verus!
