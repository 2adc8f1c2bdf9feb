//! The redirect map: for one legacy resource path, a table from media-type
//! token (or the `*/*` wildcard) to the destination URL its requests are
//! redirected to. Entries accumulate as objects sharing the legacy path are
//! archived; inserting under a present key replaces only that key's URL.

use vstd::prelude::*;

verus! {

/// The first URL recorded under `key`, if any.
pub open spec fn lookup(entries: Seq<(Seq<char>, Seq<char>)>, key: Seq<char>) -> Option<
    Seq<char>,
>
    decreases entries.len(),
{
    if entries.len() == 0 {
        None
    } else if entries[0].0 == key {
        Some(entries[0].1)
    } else {
        lookup(entries.drop_first(), key)
    }
}

/// The table a list of entries stands for: each media type maps to the
/// first URL recorded under it.
pub open spec fn map_of(entries: Seq<(Seq<char>, Seq<char>)>) -> Map<Seq<char>, Seq<char>> {
    Map::new(
        |k: Seq<char>| lookup(entries, k) is Some,
        |k: Seq<char>| lookup(entries, k)->Some_0,
    )
}

/// Media-type to destination-URL table for one legacy path.
pub struct RedirectMap {
    pub type_to_url: Vec<(String, String)>,
}

impl RedirectMap {
    /// The entry list as key/value character sequences.
    pub open spec fn entries(&self) -> Seq<(Seq<char>, Seq<char>)> {
        self.type_to_url.deep_view()
    }

    /// No media type occurs twice.
    pub open spec fn wf(&self) -> bool {
        forall|i: int, j: int|
            0 <= i < j < self.entries().len() ==> (#[trigger] self.entries()[i]).0 != (
            #[trigger] self.entries()[j]).0
    }

    /// The table as a map from media type to destination URL.
    pub open spec fn view(&self) -> Map<Seq<char>, Seq<char>> {
        map_of(self.entries())
    }

    /// An empty table.
    pub fn new() -> (r: RedirectMap)
        ensures
            r@ == Map::<Seq<char>, Seq<char>>::empty(),
            r.wf(),
            r.entries().len() == 0,
    {
        let r = RedirectMap { type_to_url: Vec::new() };
        proof {
            assert(r.entries() =~= Seq::<(Seq<char>, Seq<char>)>::empty());
            assert(r@ =~= Map::<Seq<char>, Seq<char>>::empty());
        }
        r
    }

    /// Records that requests for this path with media type `typ` redirect
    /// to `new_url`, replacing any URL previously recorded under `typ`.
    pub fn insert_entry(&mut self, typ: String, new_url: &str)
        requires
            old(self).wf(),
        ensures
            final(self).wf(),
            final(self)@ == old(self)@.insert(typ@, new_url@),
    {
        let ghost pre = self.entries();
        let n = self.type_to_url.len();
        let mut i: usize = 0;
        while i < n
            invariant
                0 <= i <= n,
                n == self.type_to_url@.len(),
                self.wf(),
                self.entries() == pre,
                pre == old(self).entries(),
                forall|j: int| 0 <= j < i ==> (#[trigger] self.entries()[j]).0 != typ@,
            decreases n - i,
        {
            if crate::wire::str_eq(self.type_to_url[i].0.as_str(), typ.as_str()) {
                let url = new_url.to_owned();
                self.type_to_url.set(i, (typ, url));
                proof {
                    let post = self.entries();
                    assert(post =~= pre.update(i as int, (typ@, new_url@)));
                    lemma_lookup_update(pre, i as int, typ@, new_url@);
                    assert forall|q: Seq<char>|
                        #[trigger] lookup(post, q) == if q == typ@ {
                            Some(new_url@)
                        } else {
                            lookup(pre, q)
                        } by {
                        assert(lookup(pre.update(i as int, (typ@, new_url@)), q) == if q == typ@ {
                            Some(new_url@)
                        } else {
                            lookup(pre, q)
                        });
                    }
                    assert forall|a: int, b: int|
                        0 <= a < b < post.len() implies (#[trigger] post[a]).0 != (
                    #[trigger] post[b]).0 by {
                        assert(pre[i as int].0 == typ@);
                        assert(post[a].0 == pre[a].0);
                        assert(post[b].0 == pre[b].0);
                    }
                    let mnew = map_of(post);
                    let mtarget = map_of(pre).insert(typ@, new_url@);
                    assert forall|q: Seq<char>| mnew.dom().contains(q) == mtarget.dom().contains(q) by {
                        assert(lookup(post, q) == if q == typ@ { Some(new_url@) } else { lookup(pre, q) });
                    }
                    assert(mnew.dom() =~= mtarget.dom());
                    assert forall|q: Seq<char>| mtarget.dom().contains(q) implies mnew[q] == mtarget[q] by {
                        assert(lookup(post, q) == if q == typ@ { Some(new_url@) } else { lookup(pre, q) });
                    }
                    assert(mnew =~= mtarget);
                }
                return ;
            }
            i += 1;
        }
        let url = new_url.to_owned();
        self.type_to_url.push((typ, url));
        proof {
            let post = self.entries();
            assert(post =~= pre.push((typ@, new_url@)));
            lemma_lookup_push(pre, typ@, new_url@);
            assert forall|q: Seq<char>|
                #[trigger] lookup(post, q) == if q == typ@ {
                    Some(new_url@)
                } else {
                    lookup(pre, q)
                } by {
                assert(lookup(pre.push((typ@, new_url@)), q) == if q == typ@ {
                    Some(new_url@)
                } else {
                    lookup(pre, q)
                });
            }
            assert forall|a: int, b: int|
                0 <= a < b < post.len() implies (#[trigger] post[a]).0 != (#[trigger] post[b]).0 by {
                assert(b < post.len());
                if b == post.len() - 1 {
                    assert(post[a].0 == pre[a].0);
                    assert(post[b].0 == typ@);
                } else {
                    assert(post[a].0 == pre[a].0);
                    assert(post[b].0 == pre[b].0);
                }
            }
            let mnew = map_of(post);
            let mtarget = map_of(pre).insert(typ@, new_url@);
            assert forall|q: Seq<char>| mnew.dom().contains(q) == mtarget.dom().contains(q) by {
                assert(lookup(post, q) == if q == typ@ { Some(new_url@) } else { lookup(pre, q) });
            }
            assert(mnew.dom() =~= mtarget.dom());
            assert forall|q: Seq<char>| mtarget.dom().contains(q) implies mnew[q] == mtarget[q] by {
                assert(lookup(post, q) == if q == typ@ { Some(new_url@) } else { lookup(pre, q) });
            }
            assert(mnew =~= mtarget);
        }
    }

    /// The URL recorded under `typ`, if any.
    pub fn get_entry(&self, typ: &str) -> (r: Option<String>)
        ensures
            match r {
                Some(url) => self@.contains_key(typ@) && self@[typ@] == url@,
                None => !self@.contains_key(typ@),
            },
    {
        let ghost pre = self.entries();
        let n = self.type_to_url.len();
        let mut i: usize = 0;
        proof {
            assert(pre.skip(0) =~= pre);
        }
        while i < n
            invariant
                0 <= i <= n,
                n == self.type_to_url@.len(),
                pre == self.entries(),
                lookup(pre, typ@) == lookup(pre.skip(i as int), typ@),
            decreases n - i,
        {
            if crate::wire::str_eq(self.type_to_url[i].0.as_str(), typ) {
                proof {
                    assert(pre.skip(i as int)[0] == pre[i as int]);
                }
                return Some(self.type_to_url[i].1.clone());
            }
            proof {
                assert(pre.skip(i as int).drop_first() =~= pre.skip(i + 1));
            }
            i += 1;
        }
        proof {
            assert(pre.skip(i as int).len() == 0);
        }
        None
    }
}

proof fn lemma_lookup_update(entries: Seq<(Seq<char>, Seq<char>)>, i: int, k: Seq<char>, v: Seq<
    char,
>)
    requires
        0 <= i < entries.len(),
        entries[i].0 == k,
        forall|j: int| 0 <= j < i ==> (#[trigger] entries[j]).0 != k,
    ensures
        forall|q: Seq<char>|
            #[trigger] lookup(entries.update(i, (k, v)), q) == if q == k {
                Some(v)
            } else {
                lookup(entries, q)
            },
    decreases entries.len(),
{
    let post = entries.update(i, (k, v));
    if i == 0 {
        assert forall|q: Seq<char>|
            #[trigger] lookup(post, q) == if q == k {
                Some(v)
            } else {
                lookup(entries, q)
            } by {
            assert(post[0] == (k, v));
            if q != k {
                assert(post.drop_first() =~= entries.drop_first());
            }
        }
    } else {
        lemma_lookup_update(entries.drop_first(), i - 1, k, v);
        assert forall|q: Seq<char>|
            #[trigger] lookup(post, q) == if q == k {
                Some(v)
            } else {
                lookup(entries, q)
            } by {
            assert(post[0] == entries[0]);
            assert(post.drop_first() =~= entries.drop_first().update(i - 1, (k, v)));
            assert(entries[0].0 != k);
            assert(lookup(entries.drop_first().update(i - 1, (k, v)), q) == if q == k {
                Some(v)
            } else {
                lookup(entries.drop_first(), q)
            });
        }
    }
}

proof fn lemma_lookup_push(entries: Seq<(Seq<char>, Seq<char>)>, k: Seq<char>, v: Seq<char>)
    requires
        forall|j: int| 0 <= j < entries.len() ==> (#[trigger] entries[j]).0 != k,
    ensures
        forall|q: Seq<char>|
            #[trigger] lookup(entries.push((k, v)), q) == if q == k {
                Some(v)
            } else {
                lookup(entries, q)
            },
    decreases entries.len(),
{
    let post = entries.push((k, v));
    if entries.len() == 0 {
        assert forall|q: Seq<char>|
            #[trigger] lookup(post, q) == if q == k {
                Some(v)
            } else {
                lookup(entries, q)
            } by {
            assert(post[0] == (k, v));
            assert(post.drop_first() =~= Seq::<(Seq<char>, Seq<char>)>::empty());
            assert(lookup(Seq::<(Seq<char>, Seq<char>)>::empty(), q) is None);
        }
    } else {
        lemma_lookup_push(entries.drop_first(), k, v);
        assert forall|q: Seq<char>|
            #[trigger] lookup(post, q) == if q == k {
                Some(v)
            } else {
                lookup(entries, q)
            } by {
            assert(post[0] == entries[0]);
            assert(post.drop_first() =~= entries.drop_first().push((k, v)));
            assert(lookup(entries.drop_first().push((k, v)), q) == if q == k {
                Some(v)
            } else {
                lookup(entries.drop_first(), q)
            });
        }
    }
}

/// Redirect-map accumulation: registering one media type and then another,
/// different one for the same legacy path, against different destination
/// URLs, leaves two independent entries; each resolves to its own URL and
/// neither registration overwrites the other.
pub proof fn lemma_redirect_accumulation(
    m: Map<Seq<char>, Seq<char>>,
    typ1: Seq<char>,
    url1: Seq<char>,
    typ2: Seq<char>,
    url2: Seq<char>,
)
    requires
        typ1 != typ2,
    ensures
        m.insert(typ1, url1).insert(typ2, url2)[typ1] == url1,
        m.insert(typ1, url1).insert(typ2, url2)[typ2] == url2,
        m.insert(typ1, url1).insert(typ2, url2).contains_key(typ1),
        m.insert(typ1, url1).insert(typ2, url2).contains_key(typ2),
{
}


/// The map after recording every listed media type against one URL, in
/// order.
pub open spec fn insert_all(
    m: Map<Seq<char>, Seq<char>>,
    types: Seq<Seq<char>>,
    url: Seq<char>,
) -> Map<Seq<char>, Seq<char>>
    decreases types.len(),
{
    if types.len() == 0 {
        m
    } else {
        insert_all(m.insert(types[0], url), types.subrange(1, types.len() as int), url)
    }
}

proof fn lemma_insert_all_snoc(
    m: Map<Seq<char>, Seq<char>>,
    types: Seq<Seq<char>>,
    t: Seq<char>,
    url: Seq<char>,
)
    ensures
        insert_all(m, types.push(t), url) == insert_all(m, types, url).insert(t, url),
    decreases types.len(),
{
    let p = types.push(t);
    if types.len() == 0 {
        assert(p[0] == t);
        assert(p.subrange(1, p.len() as int) =~= Seq::<Seq<char>>::empty());
        assert(insert_all(m.insert(t, url), p.subrange(1, p.len() as int), url) == m.insert(
            t,
            url,
        ));
    } else {
        assert(p[0] == types[0]);
        assert(p.subrange(1, p.len() as int) =~= types.subrange(1, types.len() as int).push(t));
        lemma_insert_all_snoc(
            m.insert(types[0], url),
            types.subrange(1, types.len() as int),
            t,
            url,
        );
    }
}

impl RedirectMap {
    /// Records one archived resource's redirect entries: each of its
    /// declared media types maps to the new URL; a resource declaring no
    /// media type is recorded under the `*/*` wildcard instead.
    pub fn insert_media_types(&mut self, media_type: &Vec<String>, new_url: &str)
        requires
            old(self).wf(),
        ensures
            final(self).wf(),
            media_type@.len() == 0 ==> final(self)@ == old(self)@.insert("*/*"@, new_url@),
            media_type@.len() > 0 ==> final(self)@ == insert_all(
                old(self)@,
                media_type.deep_view(),
                new_url@,
            ),
    {
        if media_type.len() == 0 {
            self.insert_entry(String::from_str("*/*"), new_url);
            return ;
        }
        let ghost m0 = self@;
        let ghost mtv = media_type.deep_view();
        let n = media_type.len();
        let mut i: usize = 0;
        proof {
            assert(mtv.take(0) =~= Seq::<Seq<char>>::empty());
        }
        while i < n
            invariant
                0 <= i <= n,
                n == media_type@.len(),
                mtv == media_type.deep_view(),
                mtv.len() == n,
                self.wf(),
                self@ == insert_all(m0, mtv.take(i as int), new_url@),
            decreases n - i,
        {
            self.insert_entry(media_type[i].clone(), new_url);
            proof {
                assert(mtv.take(i + 1) =~= mtv.take(i as int).push(mtv[i as int]));
                lemma_insert_all_snoc(m0, mtv.take(i as int), mtv[i as int], new_url@);
            }
            i += 1;
        }
        proof {
            assert(mtv.take(n as int) =~= mtv);
        }
    }
}

} // verus!
