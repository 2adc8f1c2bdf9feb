//! The crawl-side rules: which fetched activities are archived, how a new
//! identity is extracted from a legacy object id, how fetch responses are
//! classified by status, and the page budget that bounds how many outbox
//! pages one crawl will dereference.

use vstd::prelude::*;

use crate::activitypub::model::Object;
use crate::path_helper::push_char;
use crate::wire::str_eq;

verus! {

/// An activity is archived only if at least one of its `type` values is
/// not `Announce`: boosts are skipped.
pub open spec fn spec_accepted_activity(typ: Seq<Seq<char>>) -> bool {
    exists|i: int| 0 <= i < typ.len() && typ[i] != "Announce"@
}

/// Whether an activity is archived: true when some `type` value is not
/// `Announce`.
pub fn is_accepted_activity(activity: &Object) -> (r: bool)
    ensures
        r == spec_accepted_activity(activity.typ.deep_view()),
{
    let n = activity.typ.len();
    let mut i: usize = 0;
    while i < n
        invariant
            0 <= i <= n,
            n == activity.typ@.len(),
            forall|j: int| 0 <= j < i ==> #[trigger] activity.typ.deep_view()[j] == "Announce"@,
        decreases n - i,
    {
        if !str_eq(activity.typ[i].as_str(), "Announce") {
            proof {
                assert(activity.typ.deep_view()[i as int] != "Announce"@);
            }
            return true;
        }
        i += 1;
    }
    false
}

/// Whether `c` is a decimal digit.
pub open spec fn is_digit(c: char) -> bool {
    '0' <= c && c <= '9'
}

/// Extracts the trailing numeric id of a legacy object id: the digits after
/// the last `/`, provided the id ends in at least one digit right after
/// that `/`.
pub fn extract_trailing_id(id: &str) -> (r: Option<String>)
    ensures
        r matches Some(s) ==> {
            &&& s@.len() >= 1
            &&& forall|j: int| 0 <= j < s@.len() ==> is_digit(#[trigger] s@[j])
            &&& id@.len() > s@.len()
            &&& id@[id@.len() - s@.len() - 1] == '/'
            &&& s@ == id@.subrange(id@.len() - s@.len(), id@.len() as int)
        },
        r is None ==> !(exists|k: int|
            0 <= k < id@.len() && id@[k] == '/' && k + 1 < id@.len() && (forall|j: int|
                k < j < id@.len() ==> is_digit(#[trigger] id@[j]))),
{
    let n = id.unicode_len();
    if n == 0 {
        return None;
    }
    // The boundary: the smallest index from which every character to the
    // end is a digit.
    let mut start: usize = 0;
    let mut i: usize = 0;
    while i < n
        invariant
            0 <= start <= i <= n,
            n == id@.len(),
            forall|j: int| start <= j < i ==> is_digit(#[trigger] id@[j]),
            start > 0 ==> !is_digit(id@[start - 1]),
        decreases n - i,
    {
        let c = id.get_char(i);
        if !('0' <= c && c <= '9') {
            start = i + 1;
        }
        i += 1;
    }
    if start == n {
        // No digit at the end.
        proof {
            assert(!is_digit(id@[n - 1]));
            assert forall|k: int|
                !(0 <= k < id@.len() && id@[k] == '/' && k + 1 < id@.len() && (forall|j: int|
                    k < j < id@.len() ==> is_digit(#[trigger] id@[j]))) by {
                if 0 <= k < id@.len() && id@[k] == '/' && k + 1 < id@.len() && (forall|j: int|
                    k < j < id@.len() ==> is_digit(#[trigger] id@[j])) {
                    assert(is_digit(id@[id@.len() - 1]));
                }
            }
        }
        return None;
    }
    if start == 0 {
        // The id is all digits, with no `/` before them.
        proof {
            assert forall|k: int|
                !(0 <= k < id@.len() && id@[k] == '/' && k + 1 < id@.len() && (forall|j: int|
                    k < j < id@.len() ==> is_digit(#[trigger] id@[j]))) by {
                if 0 <= k < id@.len() {
                    assert(is_digit(id@[k]));
                    assert(id@[k] != '/');
                }
            }
        }
        return None;
    }
    let sep = id.get_char(start - 1);
    if sep != '/' {
        proof {
            assert(!is_digit(id@[start - 1]));
            assert forall|k: int|
                !(0 <= k < id@.len() && id@[k] == '/' && k + 1 < id@.len() && (forall|j: int|
                    k < j < id@.len() ==> is_digit(#[trigger] id@[j]))) by {
                if 0 <= k < id@.len() && id@[k] == '/' && k + 1 < id@.len() && (forall|j: int|
                    k < j < id@.len() ==> is_digit(#[trigger] id@[j])) {
                    if k < start - 1 {
                        assert(is_digit(id@[start - 1]));
                    } else if k == start - 1 {
                        assert(id@[k] != '/');
                    } else {
                        assert(is_digit(id@[k]));
                    }
                }
            }
        }
        return None;
    }
    let mut digits = String::new();
    let mut i: usize = start;
    while i < n
        invariant
            start <= i <= n,
            n == id@.len(),
            digits@ == id@.subrange(start as int, i as int),
        decreases n - i,
    {
        let c = id.get_char(i);
        push_char(&mut digits, c);
        proof {
            assert(digits@ =~= id@.subrange(start as int, i + 1));
        }
        i += 1;
    }
    proof {
        assert(digits@ == id@.subrange(start as int, n as int));
        assert(digits@.len() == n - start);
        assert forall|j: int| 0 <= j < digits@.len() implies is_digit(#[trigger] digits@[j]) by {
            assert(digits@[j] == id@[start + j]);
        }
    }
    Some(digits)
}

/// How a fetch response is treated, by its HTTP status code.
#[derive(Debug, PartialEq, Eq)]
pub enum FetchClass {
    /// 200: the body is decoded.
    Success,
    /// Any 3xx: redirection is categorically unsupported; the crawl fails.
    RedirectUnsupported,
    /// Anything else: the crawl fails with the status carried along.
    Failure,
}

/// Classifies an HTTP status: 200 succeeds, any 3xx is the unsupported
/// redirection failure, anything else is a plain failure.
pub fn classify_status(status: u16) -> (r: FetchClass)
    ensures
        r == FetchClass::Success <==> status == 200,
        r == FetchClass::RedirectUnsupported <==> (300 <= status && status <= 399),
        r == FetchClass::Failure <==> (status != 200 && !(300 <= status && status <= 399)),
{
    if status == 200 {
        FetchClass::Success
    } else if 300 <= status && status <= 399 {
        FetchClass::RedirectUnsupported
    } else {
        FetchClass::Failure
    }
}

/// The page budget of an outbox crawl: the collection's declared
/// `totalItems` when present, else the caller's default bound.
pub fn outbox_page_budget(collection: &Object, default_max_pages: usize) -> (r: usize)
    ensures
        r == match collection.collection_items.total_items {
            Some(t) => t,
            None => default_max_pages,
        },
{
    match &collection.collection_items.total_items {
        Some(t) => *t,
        None => default_max_pages,
    }
}

/// The remaining page budget of one outbox crawl. Each page dereference
/// spends one unit; when the budget is exhausted the crawl stops cleanly
/// and the partial archive is kept.
pub struct PageBudget {
    pub remaining: usize,
    pub fetched: usize,
}

impl PageBudget {
    /// A fresh budget of `bound` pages.
    pub fn new(bound: usize) -> (r: PageBudget)
        ensures
            r.remaining == bound,
            r.fetched == 0,
    {
        PageBudget { remaining: bound, fetched: 0 }
    }

    /// Spends one unit for the next page dereference; false once the
    /// budget is exhausted. Page-budget termination: starting from bound
    /// `B`, exactly `min(B, K)` dereferences succeed against a chain of
    /// `K` pages, since each success decrements the remainder by one and
    /// an exhausted budget never grants another page.
    pub fn try_consume(&mut self) -> (r: bool)
        requires
            old(self).remaining + old(self).fetched <= usize::MAX,
        ensures
            r <==> old(self).remaining > 0,
            r ==> final(self).remaining == old(self).remaining - 1 && final(self).fetched == old(
                self,
            ).fetched + 1,
            !r ==> *final(self) == *old(self),
            final(self).remaining + final(self).fetched == old(self).remaining + old(self).fetched,
    {
        if self.remaining > 0 {
            self.remaining = self.remaining - 1;
            self.fetched = self.fetched + 1;
            true
        } else {
            false
        }
    }
}

/// Page-budget termination: a crawl over a chain of `chain_len` pages,
/// spending one budget unit per page, fetches exactly the smaller of the
/// budget and the chain length, and stops without error.
pub fn crawl_page_count(chain_len: usize, bound: usize) -> (r: usize)
    ensures
        r == if bound < chain_len {
            bound
        } else {
            chain_len
        },
{
    let mut budget = PageBudget::new(bound);
    let mut page: usize = 0;
    while page < chain_len
        invariant
            0 <= page <= chain_len,
            budget.fetched == page,
            budget.remaining + budget.fetched == bound,
            page <= bound,
        decreases chain_len - page,
    {
        if !budget.try_consume() {
            return budget.fetched;
        }
        page += 1;
    }
    budget.fetched
}


/// What one flushed page held, for the flush history: its URL, its
/// `first`/`prev` links and its item count.
pub struct FlushedPage {
    pub url: Seq<char>,
    pub first: Option<Seq<char>>,
    pub prev: Option<Seq<char>>,
    pub count: nat,
}

/// One page ready to be written: its save path below the static root, its
/// absolute URL, its `first`/`prev` links and its activities in order.
pub struct PageToWrite {
    pub path: String,
    pub url: String,
    pub first_page_url_opt: Option<String>,
    pub prev_page_url_opt: Option<String>,
    pub items: Vec<Object>,
}

/// The final state of a rebuilt outbox: its item count and its first and
/// last page URLs.
pub struct NewOutboxCollection {
    pub total_items_count: usize,
    pub first_page_url_opt: Option<String>,
    pub last_page_url_opt: Option<String>,
}

/// The streaming re-paginator: buffers rewritten activities and flushes a
/// fixed-size page whenever the buffer fills; the caller writes each
/// flushed page. `first` is fixed at the very first page written and
/// `prev` is the previously flushed page's URL.
pub struct NewOutboxCollectionManager {
    pub page_items_count: usize,
    pub static_base_url: String,
    pub first_page_url_opt: Option<String>,
    pub prev_page_url_opt: Option<String>,
    pub head_object_base_path_opt: Option<String>,
    pub total_items_count: usize,
    pub items: Vec<Object>,
    pub flushed: Ghost<Seq<FlushedPage>>,
}

impl NewOutboxCollectionManager {
    /// The builder's invariant, which carries the paginator flush
    /// contract: every flushed page is full, every page's `first` is the
    /// first page's URL, and every page's `prev` is its predecessor's URL
    /// (absent for the first page).
    pub open spec fn wf(&self) -> bool {
        &&& self.page_items_count > 0
        &&& self.items@.len() < self.page_items_count
        &&& self.total_items_count == self.flushed@.len() * self.page_items_count
            + self.items@.len()
        &&& (self.head_object_base_path_opt is Some <==> self.items@.len() > 0)
        &&& (self.flushed@.len() == 0 ==> self.first_page_url_opt is None
            && self.prev_page_url_opt is None)
        &&& (self.flushed@.len() > 0 ==> (self.first_page_url_opt matches Some(f) && f@
            == self.flushed@[0].url) && (self.prev_page_url_opt matches Some(p) && p@
            == self.flushed@.last().url))
        &&& forall|k: int|
            0 <= k < self.flushed@.len() ==> (#[trigger] self.flushed@[k]).count
                == self.page_items_count
        &&& forall|k: int|
            0 <= k < self.flushed@.len() ==> (#[trigger] self.flushed@[k]).first == Some(
                self.flushed@[0].url,
            )
        &&& forall|k: int|
            0 <= k < self.flushed@.len() ==> (#[trigger] self.flushed@[k]).prev == (if k == 0 {
                None
            } else {
                Some(self.flushed@[k - 1].url)
            })
    }

    /// A fresh builder for one outbox crawl.
    pub fn new(page_items_count: usize, static_base_url: String) -> (r: NewOutboxCollectionManager)
        requires
            page_items_count > 0,
        ensures
            r.wf(),
            r.page_items_count == page_items_count,
            r.static_base_url == static_base_url,
            r.total_items_count == 0,
            r.flushed@.len() == 0,
            r.items@.len() == 0,
    {
        let r = NewOutboxCollectionManager {
            page_items_count,
            static_base_url,
            first_page_url_opt: None,
            prev_page_url_opt: None,
            head_object_base_path_opt: None,
            total_items_count: 0,
            items: Vec::new(),
            flushed: Ghost(Seq::empty()),
        };
        proof {
            assert(r.items@ =~= Seq::<Object>::empty());
        }
        r
    }

    /// The base path the next flushed page is stored under: the first
    /// buffered activity's object base path.
    pub open spec fn flush_head(&self, object_base_path: Seq<char>) -> Seq<char> {
        if self.items@.len() == 0 {
            object_base_path
        } else {
            self.head_object_base_path_opt->Some_0@
        }
    }

    /// Buffers one rewritten activity; when the buffer reaches the page
    /// size, hands back the filled page and starts a new one. The flushed
    /// page holds exactly the buffered activities in order; its `first`
    /// link is the first page's URL (its own, for the very first page) and
    /// its `prev` link is the previously flushed page's URL.
    pub fn add_activity_and_save_if_needed(
        &mut self,
        object_base_path: String,
        item: Object,
    ) -> (r: Option<PageToWrite>)
        requires
            old(self).wf(),
            old(self).total_items_count < usize::MAX,
        ensures
            final(self).wf(),
            final(self).page_items_count == old(self).page_items_count,
            final(self).static_base_url == old(self).static_base_url,
            final(self).total_items_count == old(self).total_items_count + 1,
            r is Some <==> old(self).items@.len() + 1 == old(self).page_items_count,
            r matches Some(p) ==> {
                &&& p.items@ == old(self).items@.push(item)
                &&& p.items@.len() == old(self).page_items_count
                &&& p.path@ == old(self).flush_head(object_base_path@) + "page.json"@
                &&& p.url@ == old(self).static_base_url@ + p.path@
                &&& final(self).flushed@.len() == old(self).flushed@.len() + 1
                &&& final(self).flushed@.take(old(self).flushed@.len() as int)
                    == old(self).flushed@
                &&& final(self).flushed@.last().url == p.url@
                &&& (p.first_page_url_opt matches Some(f) && Some(f@)
                    == final(self).flushed@.last().first)
                &&& (match p.prev_page_url_opt {
                    None => final(self).flushed@.last().prev is None,
                    Some(pp) => final(self).flushed@.last().prev == Some(pp@),
                })
                &&& final(self).items@.len() == 0
            },
            r is None ==> {
                &&& final(self).flushed@ == old(self).flushed@
                &&& final(self).items@ == old(self).items@.push(item)
                &&& final(self).first_page_url_opt == old(self).first_page_url_opt
                &&& final(self).prev_page_url_opt == old(self).prev_page_url_opt
            },
    {
        let ghost pre = *self;
        let head = match &self.head_object_base_path_opt {
            None => object_base_path,
            Some(h) => h.clone(),
        };
        self.items.push(item);
        self.total_items_count = self.total_items_count + 1;
        if self.items.len() < self.page_items_count {
            self.head_object_base_path_opt = Some(head);
            proof {
                assert(self.items@ == pre.items@.push(item));
            }
            return None;
        }
        let mut save_page_path = head;
        save_page_path.append("page.json");
        let mut page_url = self.static_base_url.clone();
        page_url.append(save_page_path.as_str());
        let first_for_page = match &self.first_page_url_opt {
            None => page_url.clone(),
            Some(f) => f.clone(),
        };
        let mut flushed_items: Vec<Object> = Vec::new();
        core::mem::swap(&mut flushed_items, &mut self.items);
        let page = PageToWrite {
            path: save_page_path,
            url: page_url.clone(),
            first_page_url_opt: Some(first_for_page.clone()),
            prev_page_url_opt: match &self.prev_page_url_opt {
                None => None,
                Some(p) => Some(p.clone()),
            },
            items: flushed_items,
        };
        let ghost record = FlushedPage {
            url: page_url@,
            first: Some(first_for_page@),
            prev: match pre.prev_page_url_opt {
                None => None,
                Some(p) => Some(p@),
            },
            count: pre.page_items_count as nat,
        };
        proof {
            self.flushed@ = pre.flushed@.push(record);
        }
        self.head_object_base_path_opt = None;
        self.first_page_url_opt = Some(first_for_page);
        self.prev_page_url_opt = Some(page_url);
        proof {
            assert(self.items@ =~= Seq::<Object>::empty());
            assert(page.items@ == pre.items@.push(item));
            assert(self.flushed@.take(pre.flushed@.len() as int) =~= pre.flushed@);
            assert(self.flushed@.last() == record);
            assert(self.flushed@[0] == if pre.flushed@.len() == 0 {
                record
            } else {
                pre.flushed@[0]
            });
            assert((pre.flushed@.len() + 1) * pre.page_items_count == pre.flushed@.len()
                * pre.page_items_count + pre.page_items_count) by (nonlinear_arith);
        }
        Some(page)
    }

    /// Flushes any remaining buffered activities as a final, possibly
    /// short page and hands back the rebuilt collection's summary: its
    /// total item count, its first page and — when a final page was
    /// written — that page as `last`.
    pub fn save_rest_items(self) -> (r: (Option<PageToWrite>, NewOutboxCollection))
        requires
            self.wf(),
        ensures
            r.1.total_items_count == self.total_items_count,
            self.items@.len() == 0 ==> {
                &&& r.0 is None
                &&& r.1.first_page_url_opt == self.first_page_url_opt
                &&& r.1.last_page_url_opt is None
            },
            self.items@.len() > 0 ==> (r.0 matches Some(p) && {
                &&& p.items@ == self.items@
                &&& p.path@ == self.head_object_base_path_opt->Some_0@ + "page.json"@
                &&& p.url@ == self.static_base_url@ + p.path@
                &&& (r.1.last_page_url_opt matches Some(l) && l@ == p.url@)
                &&& (self.flushed@.len() == 0 ==> (p.first_page_url_opt matches Some(f) && f@
                    == p.url@) && (r.1.first_page_url_opt matches Some(f2) && f2@ == p.url@))
                &&& (self.flushed@.len() > 0 ==> p.first_page_url_opt
                    == self.first_page_url_opt && r.1.first_page_url_opt
                    == self.first_page_url_opt)
                &&& p.prev_page_url_opt == self.prev_page_url_opt
            }),
    {
        let NewOutboxCollectionManager {
            page_items_count: _,
            static_base_url,
            first_page_url_opt,
            prev_page_url_opt,
            head_object_base_path_opt,
            total_items_count,
            items,
            flushed,
        } = self;
        let head = match head_object_base_path_opt {
            None => {
                return (
                    None,
                    NewOutboxCollection {
                        total_items_count,
                        first_page_url_opt,
                        last_page_url_opt: None,
                    },
                );
            },
            Some(h) => h,
        };
        let mut save_page_path = head;
        save_page_path.append("page.json");
        let mut page_url = static_base_url.clone();
        page_url.append(save_page_path.as_str());
        let first_for_page = match &first_page_url_opt {
            None => page_url.clone(),
            Some(f) => f.clone(),
        };
        let page = PageToWrite {
            path: save_page_path,
            url: page_url.clone(),
            first_page_url_opt: Some(first_for_page.clone()),
            prev_page_url_opt,
            items,
        };
        let summary = NewOutboxCollection {
            total_items_count,
            first_page_url_opt: Some(first_for_page),
            last_page_url_opt: Some(page_url),
        };
        (Some(page), summary)
    }
}

/// The paginator flush contract, read off the builder's invariant: after
/// feeding any number of activities at page size `s`, exactly
/// `total / s` pages have been flushed, each holding exactly `s`
/// activities; the `first` link of every flushed page is the first page's
/// URL, and the `prev` link of each page is the previous page's URL,
/// absent for the first page. A final short page of `total % s`
/// activities remains buffered for `save_rest_items`.
pub proof fn lemma_paginator_flush_contract(m: NewOutboxCollectionManager)
    requires
        m.wf(),
    ensures
        m.flushed@.len() == m.total_items_count as int / m.page_items_count as int,
        m.items@.len() == m.total_items_count as int % m.page_items_count as int,
        forall|k: int|
            0 <= k < m.flushed@.len() ==> (#[trigger] m.flushed@[k]).count == m.page_items_count,
        forall|k: int|
            0 <= k < m.flushed@.len() ==> (#[trigger] m.flushed@[k]).first == Some(
                m.flushed@[0].url,
            ),
        forall|k: int|
            0 <= k < m.flushed@.len() ==> (#[trigger] m.flushed@[k]).prev == (if k == 0 {
                None
            } else {
                Some(m.flushed@[k - 1].url)
            }),
{
    vstd::arithmetic::div_mod::lemma_fundamental_div_mod_converse(
        m.total_items_count as int,
        m.page_items_count as int,
        m.flushed@.len() as int,
        m.items@.len() as int,
    );
}

} // verus!
