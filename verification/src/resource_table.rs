//! The resource table: resources keyed by resource ids, the runtime's
//! counterpart of file descriptors.
use vstd::prelude::*;
use crate::error::JsNativeError;
use std::collections::BTreeMap;
use vstd::std_specs::btree::increasing_seq;
use vstd::std_specs::cmp::OrdSpec;
use vstd::std_specs::iter::IteratorSpec;

verus! {

broadcast use vstd::std_specs::btree::group_btree_axioms;

/// Ids in increasing order of the map's key order are in increasing order.
proof fn lemma_increasing_ids(s: Seq<&ResourceId>)
    requires
        increasing_seq(s),
    ensures
        forall|i: int, j: int| 0 <= i < j < s.len() ==> *s[i] < *s[j],
{
    broadcast use vstd::laws_cmp::group_laws_cmp;
    assert forall|i: int, j: int| 0 <= i < j < s.len() implies *s[i] < *s[j] by {
        assert(OrdSpec::cmp_spec(&s[i], &s[j]) is Less);
    }
}

/// An integer that names a resource.
pub type ResourceId = u32;

/// The error for a resource id that names no resource.
pub open spec fn is_bad_resource_id(e: JsNativeError) -> bool {
    e.spec_class()@ == "BadResource"@ && e.spec_message() == "Bad resource ID"@
}

fn bad_resource_id() -> (e: JsNativeError)
    ensures
        is_bad_resource_id(e),
{
    JsNativeError::new("BadResource", "Bad resource ID")
}

/// Resources by resource id, in a `BTreeMap`. Each added resource gets an
/// id that was never handed out before.
pub struct ResourceTable<R> {
    index: BTreeMap<ResourceId, R>,
    next_rid: ResourceId,
}

impl<R> View for ResourceTable<R> {
    type V = Map<ResourceId, R>;

    open spec fn view(&self) -> Map<ResourceId, R> {
        self.spec_contents()
    }
}

impl<R> ResourceTable<R> {
    /// The resources, by id.
    pub closed spec fn spec_contents(&self) -> Map<ResourceId, R> {
        self.index@
    }

    /// The id the next added resource gets.
    pub closed spec fn spec_next_rid(&self) -> ResourceId {
        self.next_rid
    }

    /// Every id in the table is below the next id.
    pub closed spec fn wf(&self) -> bool {
        forall|k: ResourceId| #[trigger] self.index@.contains_key(k) ==> k < self.next_rid
    }

    /// Every id in the table is below the next id.
    pub proof fn lemma_ids_below_next(&self)
        requires
            self.wf(),
        ensures
            forall|k: ResourceId| #[trigger] self@.contains_key(k) ==> k < self.spec_next_rid(),
    {
    }

    /// An empty table; ids start at 0.
    pub fn new() -> (r: Self)
        ensures
            r.wf(),
            r@ == Map::<ResourceId, R>::empty(),
            r.spec_next_rid() == 0,
    {
        ResourceTable { index: BTreeMap::new(), next_rid: 0 }
    }

    /// Adds `resource` under a new id and returns the id: the next id, which
    /// no resource in the table has.
    pub fn add(&mut self, resource: R) -> (rid: ResourceId)
        requires
            old(self).wf(),
            old(self).spec_next_rid() < ResourceId::MAX,
        ensures
            final(self).wf(),
            rid == old(self).spec_next_rid(),
            !old(self)@.contains_key(rid),
            final(self)@ == old(self)@.insert(rid, resource),
            final(self).spec_next_rid() == rid + 1,
    {
        let rid = self.next_rid;
        let _removed = self.index.insert(rid, resource);
        self.next_rid = rid + 1;
        rid
    }

    /// Whether a resource has id `rid`.
    pub fn has(&self, rid: ResourceId) -> (r: bool)
        ensures
            r == self@.contains_key(rid),
    {
        self.index.contains_key(&rid)
    }

    /// The resource with id `rid`; a `BadResource` error when there is
    /// none.
    pub fn get(&self, rid: ResourceId) -> (r: Result<&R, JsNativeError>)
        ensures
            match r {
                Ok(v) => self@.contains_key(rid) && *v == self@[rid],
                Err(e) => !self@.contains_key(rid) && is_bad_resource_id(e),
            },
    {
        match self.index.get(&rid) {
            Some(v) => Ok(v),
            None => Err(bad_resource_id()),
        }
    }

    /// Replaces the resource with id `rid`, which must be in the table.
    pub fn replace(&mut self, rid: ResourceId, resource: R)
        requires
            old(self).wf(),
            old(self)@.contains_key(rid),
        ensures
            final(self).wf(),
            final(self)@ == old(self)@.insert(rid, resource),
            final(self).spec_next_rid() == old(self).spec_next_rid(),
    {
        let _replaced = self.index.insert(rid, resource);
    }

    /// Takes the resource with id `rid` out of the table; a `BadResource`
    /// error when there is none. The id is not handed out again.
    pub fn take(&mut self, rid: ResourceId) -> (r: Result<R, JsNativeError>)
        requires
            old(self).wf(),
        ensures
            final(self).wf(),
            final(self)@ == old(self)@.remove(rid),
            final(self).spec_next_rid() == old(self).spec_next_rid(),
            match r {
                Ok(v) => old(self)@.contains_key(rid) && v == old(self)@[rid],
                Err(e) => !old(self)@.contains_key(rid) && is_bad_resource_id(e),
            },
    {
        match self.index.remove(&rid) {
            Some(v) => Ok(v),
            None => Err(bad_resource_id()),
        }
    }

    /// The ids of the resources, in increasing order.
    pub fn ids(&self) -> (r: Vec<ResourceId>)
        ensures
            forall|i: int, j: int| 0 <= i < j < r@.len() ==> r@[i] < r@[j],
            forall|i: int| 0 <= i < r@.len() ==> self@.contains_key(#[trigger] r@[i]),
            forall|k: ResourceId| #[trigger] self@.contains_key(k) ==> r@.contains(k),
    {
        let mut r: Vec<ResourceId> = Vec::new();
        let keys = self.index.keys();
        let ghost all = keys.remaining();
        for k in it: keys
            invariant
                all == it.seq(),
                r@ == it.seq().take(it.index() as int).map_values(|x: &ResourceId| *x),
        {
            r.push(*k);
        }
        proof {
            let s = all.map_values(|x: &ResourceId| *x);
            assert(r@ =~= s);
            assert(s == all.unref());
            lemma_increasing_ids(all);
            assert forall|i: int| 0 <= i < r@.len() implies self@.contains_key(#[trigger] r@[i]) by {
                assert(s.to_set().contains(r@[i]));
            }
            assert forall|k: ResourceId| #[trigger] self@.contains_key(k) implies r@.contains(k) by {
                assert(s.to_set().contains(k));
            }
        }
        r
    }
}

impl<R> Default for ResourceTable<R> {
    fn default() -> (r: Self)
        ensures
            r.wf(),
            r@ == Map::<ResourceId, R>::empty(),
            r.spec_next_rid() == 0,
    {
        Self::new()
    }
}

} // verus!
