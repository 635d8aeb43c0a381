//! The endpoint registry: canonical request key to endpoint descriptor.

use vstd::prelude::*;
use crate::table::StrTable;
use crate::models::Endpoint;

verus! {

/// The table of registered endpoints. In the running server one such value
/// sits behind a lock; each admin or dispatch step works on it alone.
pub struct Endpoints {
    table: StrTable<Endpoint>,
}

impl Endpoints {
    /// The mapping from canonical request key to descriptor.
    pub closed spec fn view(&self) -> Map<Seq<char>, Endpoint> {
        self.table@
    }

    pub closed spec fn wf(&self) -> bool {
        self.table.wf()
    }

    /// The stored entries, in insertion order; this is what a listing walks.
    pub closed spec fn entry_seq(&self) -> Seq<(String, Endpoint)> {
        self.table.entry_seq()
    }

    pub fn new() -> (r: Self)
        ensures
            r.wf(),
            r@ == Map::<Seq<char>, Endpoint>::empty(),
    {
        Endpoints { table: StrTable::new() }
    }

    /// Registers `desc` under `key`, overwriting any earlier descriptor.
    pub fn insert(&mut self, key: String, desc: Endpoint)
        requires
            old(self).wf(),
        ensures
            final(self).wf(),
            final(self)@ == old(self)@.insert(key@, desc),
    {
        self.table.insert(key, desc);
    }

    /// Unregisters `key`, handing back its descriptor if one was there.
    pub fn remove(&mut self, key: &str) -> (r: Option<Endpoint>)
        requires
            old(self).wf(),
        ensures
            final(self).wf(),
            final(self)@ == old(self)@.remove(key@),
            match r {
                Some(d) => old(self)@.contains_key(key@) && old(self)@[key@] == d,
                None => !old(self)@.contains_key(key@),
            },
    {
        self.table.remove(key)
    }

    /// The descriptor registered under `key`, if any.
    pub fn get(&self, key: &str) -> (r: Option<&Endpoint>)
        requires
            self.wf(),
        ensures
            match r {
                Some(d) => self@.contains_key(key@) && self@[key@] == *d,
                None => !self@.contains_key(key@),
            },
    {
        self.table.get(key)
    }

    /// The current contents, for listing.
    pub fn snapshot(&self) -> (r: &Vec<(String, Endpoint)>)
        ensures
            r@ == self.entry_seq(),
    {
        self.table.entries()
    }

    /// The listing is faithful: every entry is registered, everything
    /// registered appears exactly once.
    pub proof fn lemma_snapshot_faithful(&self)
        requires
            self.wf(),
        ensures
            forall|i: int|
                0 <= i < self.entry_seq().len() ==> #[trigger] self@.contains_pair(
                    self.entry_seq()[i].0@,
                    self.entry_seq()[i].1,
                ),
            forall|k: Seq<char>|
                self@.contains_key(k) ==> exists|i: int|
                    0 <= i < self.entry_seq().len() && #[trigger] self.entry_seq()[i].0@ == k,
            forall|i: int, j: int|
                0 <= i < j < self.entry_seq().len() ==> self.entry_seq()[i].0@
                    != self.entry_seq()[j].0@,
    {
        self.table.lemma_entries_model();
        assert forall|k: Seq<char>| self@.contains_key(k) implies exists|i: int|
            0 <= i < self.entry_seq().len() && #[trigger] self.entry_seq()[i].0@ == k by {
            let i = choose|i: int|
                0 <= i < self.table.entry_seq().len() && #[trigger] self.table.entry_seq()[i].0@
                    == k;
            assert(self.entry_seq()[i].0@ == k);
        }
    }
}

/// One step against the registry: what an admin call does to the mapping.
pub enum RegistryOp {
    Insert { key: Seq<char>, desc: Endpoint },
    Remove { key: Seq<char> },
}

pub open spec fn registry_op_key(op: RegistryOp) -> Seq<char> {
    match op {
        RegistryOp::Insert { key, .. } => key,
        RegistryOp::Remove { key } => key,
    }
}

pub open spec fn apply_registry_op(m: Map<Seq<char>, Endpoint>, op: RegistryOp) -> Map<
    Seq<char>,
    Endpoint,
> {
    match op {
        RegistryOp::Insert { key, desc } => m.insert(key, desc),
        RegistryOp::Remove { key } => m.remove(key),
    }
}

pub open spec fn apply_registry_ops(m: Map<Seq<char>, Endpoint>, ops: Seq<RegistryOp>) -> Map<
    Seq<char>,
    Endpoint,
>
    decreases ops.len(),
{
    if ops.len() == 0 {
        m
    } else {
        apply_registry_ops(apply_registry_op(m, ops[0]), ops.drop_first())
    }
}

/// Registry monotonicity: after a key is registered, any sequence of admin
/// steps that touches only other keys leaves it looked up unchanged — a
/// later lookup still returns the registered descriptor.
pub proof fn lemma_register_then_lookup(
    m: Map<Seq<char>, Endpoint>,
    k: Seq<char>,
    d: Endpoint,
    ops: Seq<RegistryOp>,
)
    requires
        forall|i: int| 0 <= i < ops.len() ==> registry_op_key(#[trigger] ops[i]) != k,
    ensures
        apply_registry_ops(m.insert(k, d), ops).contains_key(k),
        apply_registry_ops(m.insert(k, d), ops)[k] == d,
    decreases ops.len(),
{
    if ops.len() > 0 {
        let m1 = apply_registry_op(m.insert(k, d), ops[0]);
        match ops[0] {
            RegistryOp::Insert { key, desc } => {
                assert(m1 =~= m.insert(key, desc).insert(k, d));
            },
            RegistryOp::Remove { key } => {
                assert(m1 =~= m.remove(key).insert(k, d));
            },
        }
        assert(forall|i: int|
            0 <= i < ops.drop_first().len() ==> registry_op_key(#[trigger] ops.drop_first()[i])
                != k);
        match ops[0] {
            RegistryOp::Insert { key, desc } => {
                lemma_register_then_lookup(m.insert(key, desc), k, d, ops.drop_first());
            },
            RegistryOp::Remove { key } => {
                lemma_register_then_lookup(m.remove(key), k, d, ops.drop_first());
            },
        }
    }
}

/// Register then list: a registered binding appears in the listing, with
/// the descriptor it was registered with.
pub proof fn lemma_register_then_list(e: &Endpoints, k: Seq<char>, d: Endpoint)
    requires
        e.wf(),
        e@.contains_pair(k, d),
    ensures
        exists|i: int|
            0 <= i < e.entry_seq().len() && #[trigger] e.entry_seq()[i].0@ == k
                && e.entry_seq()[i].1 == d,
{
    e.lemma_snapshot_faithful();
    let i = choose|i: int| 0 <= i < e.entry_seq().len() && #[trigger] e.entry_seq()[i].0@ == k;
    assert(e@.contains_pair(e.entry_seq()[i].0@, e.entry_seq()[i].1));
    assert(e.entry_seq()[i].1 == d);
}

/// Register, delete, list: once a key is removed, no listing entry carries it.
pub proof fn lemma_delete_then_list(e: &Endpoints, k: Seq<char>)
    requires
        e.wf(),
        !e@.contains_key(k),
    ensures
        forall|i: int| 0 <= i < e.entry_seq().len() ==> #[trigger] e.entry_seq()[i].0@ != k,
{
    e.lemma_snapshot_faithful();
    assert forall|i: int| 0 <= i < e.entry_seq().len() implies #[trigger] e.entry_seq()[i].0@
        != k by {
        assert(e@.contains_pair(e.entry_seq()[i].0@, e.entry_seq()[i].1));
    }
}

} // verus!
