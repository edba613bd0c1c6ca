use vstd::prelude::*;
use dashmap::DashMap;
use crate::ngap::messages::{BroadcastView, PlmnView, SliceView, TaView};
use crate::context::tables::{
    addr_entries, addr_table_get, addr_table_insert, addr_table_new, addr_table_remove,
    ran_entries, ran_table_get, ran_table_insert, ran_table_new, ran_table_remove,
};

verus! {

/// An access node that completed NG Setup. `addr` is the peer address of
/// the association that carries it.
#[derive(Debug, Clone)]
pub struct RanContext {
    pub ran_id: String,
    pub ran_name: String,
    pub addr: String,
    pub state: RanState,
    pub supported_ta_list: Vec<SupportedTa>,
    pub default_paging_drx: Option<u32>,
}

#[derive(Debug, Clone, Copy, PartialEq, Eq, Structural)]
pub enum RanState {
    Disconnected,
    Connected,
    Active,
}

#[derive(Debug, Clone)]
pub struct SupportedTa {
    pub tac: String,
    pub broadcast_plmn_list: Vec<BroadcastPlmn>,
}

#[derive(Debug, Clone)]
pub struct BroadcastPlmn {
    pub plmn_id: PlmnId,
    pub s_nssai_list: Vec<SNssai>,
}

#[derive(Debug, Clone)]
pub struct PlmnId {
    pub mcc: String,
    pub mnc: String,
}

#[derive(Debug, Clone)]
pub struct SNssai {
    pub sst: u8,
    pub sd: Option<String>,
}

impl View for SNssai {
    type V = SliceView;

    open spec fn view(&self) -> SliceView {
        SliceView {
            sst: self.sst,
            sd: match self.sd {
                Some(s) => Some(s@),
                None => None,
            },
        }
    }
}

impl View for BroadcastPlmn {
    type V = BroadcastView;

    open spec fn view(&self) -> BroadcastView {
        BroadcastView {
            plmn: PlmnView { mcc: self.plmn_id.mcc@, mnc: self.plmn_id.mnc@ },
            slices: self.s_nssai_list@.map_values(|s: SNssai| s@),
        }
    }
}

impl View for SupportedTa {
    type V = TaView;

    open spec fn view(&self) -> TaView {
        TaView {
            tac: self.tac@,
            plmns: self.broadcast_plmn_list@.map_values(|b: BroadcastPlmn| b@),
        }
    }
}

/// The RAN contexts, by RAN id, with an index from peer address to RAN id.
pub struct RanContextManager {
    contexts: DashMap<String, RanContext>,
    addr_to_ran_id: DashMap<String, String>,
}

/// The contexts of `m` that survive storing `c`: those on another address,
/// and the one stored under `c`'s own id, which `c` then replaces.
pub open spec fn kept_besides(m: Map<Seq<char>, RanContext>, c: RanContext, k: Seq<char>) -> bool {
    m.contains_key(k) && (k == c.ran_id@ || m[k].addr@ != c.addr@)
}

impl RanContextManager {
    pub closed spec fn contexts(&self) -> Map<Seq<char>, RanContext> {
        ran_entries(self.contexts)
    }

    pub closed spec fn addr_index(&self) -> Map<Seq<char>, Seq<char>> {
        addr_entries(self.addr_to_ran_id)
    }

    /// The index invariants: each context is stored under its own RAN id;
    /// the address index maps each context's address to its RAN id; and
    /// every address in the index leads to a context on that address.
    pub open spec fn wf(&self) -> bool {
        &&& forall|id: Seq<char>| #[trigger]
            self.contexts().contains_key(id) ==> self.contexts()[id].ran_id@ == id
        &&& forall|id: Seq<char>| #[trigger]
            self.contexts().contains_key(id) ==> self.addr_index().contains_key(
                self.contexts()[id].addr@,
            ) && self.addr_index()[self.contexts()[id].addr@] == id
        &&& forall|a: Seq<char>| #[trigger]
            self.addr_index().contains_key(a) ==> self.contexts().contains_key(self.addr_index()[a])
                && self.contexts()[self.addr_index()[a]].addr@ == a
    }

    pub fn new() -> (r: Self)
        ensures
            r.wf(),
            r.contexts() == Map::<Seq<char>, RanContext>::empty(),
    {
        let r = RanContextManager { contexts: ran_table_new(), addr_to_ran_id: addr_table_new() };
        assert(r.addr_index() =~= Map::<Seq<char>, Seq<char>>::empty());
        assert(r.contexts() =~= Map::<Seq<char>, RanContext>::empty());
        r
    }

    /// Stores a context under its RAN id, replacing the one stored there.
    /// A context of another RAN id on the same address is dropped, so that
    /// each address leads to one context.
    pub fn update(&mut self, context: RanContext)
        requires
            old(self).wf(),
        ensures
            final(self).wf(),
            final(self).contexts().contains_key(context.ran_id@),
            final(self).contexts()[context.ran_id@] == context,
            forall|k: Seq<char>| k != context.ran_id@ ==> (#[trigger] final(self).contexts().contains_key(k)
                <==> kept_besides(old(self).contexts(), context, k)),
            forall|k: Seq<char>| k != context.ran_id@ && #[trigger] final(self).contexts().contains_key(k)
                ==> final(self).contexts()[k] == old(self).contexts()[k],
    {
        let ghost c0 = self.contexts();
        let ghost a0 = self.addr_index();
        let id = context.ran_id.clone();
        let addr = context.addr.clone();
        match ran_table_get(&self.contexts, id.as_str()) {
            Some(prev) => {
                if !(prev.addr == addr) {
                    addr_table_remove(&mut self.addr_to_ran_id, prev.addr.as_str());
                }
            },
            None => {},
        }
        match addr_table_get(&self.addr_to_ran_id, addr.as_str()) {
            Some(other) => {
                if !(other == id) {
                    ran_table_remove(&mut self.contexts, other.as_str());
                }
            },
            None => {},
        }
        addr_table_insert(&mut self.addr_to_ran_id, addr, id.clone());
        ran_table_insert(&mut self.contexts, id, context);
        let ghost c3 = self.contexts();
        let ghost a3 = self.addr_index();
        let ghost i = context.ran_id@;
        let ghost a = context.addr@;
        assert forall|k: Seq<char>| k != i implies (#[trigger] c3.contains_key(k) <==> kept_besides(c0, context, k)) by {
            if c0.contains_key(k) && c0[k].addr@ == a {
                assert(a0[a] == k);
            }
        }
        assert forall|k: Seq<char>| #[trigger] c3.contains_key(k) implies a3.contains_key(c3[k].addr@) && a3[c3[k].addr@] == k by {
            if k != i {
                assert(a0[c0[k].addr@] == k);
            }
        }
        assert forall|b: Seq<char>| #[trigger] a3.contains_key(b) implies c3.contains_key(a3[b]) && c3[a3[b]].addr@ == b by {
            if b != a {
                let k = a0[b];
                assert(c0.contains_key(k) && c0[k].addr@ == b);
                if c0.contains_key(i) {
                    assert(a0[c0[i].addr@] == i);
                }
            }
        }
    }

    /// Makes a context for `ran_id` on `addr`, Disconnected, with no TAs
    /// and no paging DRX, and stores it as `update` does.
    pub fn create_ran_context(&mut self, ran_id: String, addr: String) -> (r: RanContext)
        requires
            old(self).wf(),
        ensures
            final(self).wf(),
            r.ran_id@ == ran_id@,
            r.addr@ == addr@,
            r.ran_name@.len() == 0,
            r.state == RanState::Disconnected,
            r.supported_ta_list@.len() == 0,
            r.default_paging_drx is None,
            final(self).contexts().contains_key(ran_id@),
            final(self).contexts()[ran_id@] == r,
            forall|k: Seq<char>| k != ran_id@ ==> (#[trigger] final(self).contexts().contains_key(k)
                <==> kept_besides(old(self).contexts(), r, k)),
            forall|k: Seq<char>| k != ran_id@ && #[trigger] final(self).contexts().contains_key(k)
                ==> final(self).contexts()[k] == old(self).contexts()[k],
    {
        let context = RanContext {
            ran_id: ran_id.clone(),
            ran_name: String::new(),
            addr,
            state: RanState::Disconnected,
            supported_ta_list: Vec::new(),
            default_paging_drx: None,
        };
        self.update(context);
        match self.get(ran_id.as_str()) {
            Some(r) => r,
            None => vstd::pervasive::unreached(),
        }
    }

    pub fn get(&self, ran_id: &str) -> (r: Option<RanContext>)
        ensures
            match r {
                Some(c) => self.contexts().contains_key(ran_id@) && c == self.contexts()[ran_id@],
                None => !self.contexts().contains_key(ran_id@),
            },
    {
        ran_table_get(&self.contexts, ran_id)
    }

    /// The context on peer address `addr`.
    pub fn get_by_addr(&self, addr: &str) -> (r: Option<RanContext>)
        requires
            self.wf(),
        ensures
            match r {
                Some(c) => self.contexts().contains_key(c.ran_id@) && c == self.contexts()[c.ran_id@]
                    && c.addr@ == addr@,
                None => forall|k: Seq<char>| #[trigger]
                    self.contexts().contains_key(k) ==> self.contexts()[k].addr@ != addr@,
            },
    {
        match addr_table_get(&self.addr_to_ran_id, addr) {
            Some(id) => ran_table_get(&self.contexts, id.as_str()),
            None => None,
        }
    }

    /// Drops the context of `ran_id` and its address from the index.
    pub fn remove(&mut self, ran_id: &str) -> (r: Option<RanContext>)
        requires
            old(self).wf(),
        ensures
            final(self).wf(),
            final(self).contexts() == old(self).contexts().remove(ran_id@),
            match r {
                Some(c) => old(self).contexts().contains_key(ran_id@) && c == old(self).contexts()[ran_id@],
                None => !old(self).contexts().contains_key(ran_id@),
            },
    {
        let ghost a0 = self.addr_index();
        let removed = ran_table_remove(&mut self.contexts, ran_id);
        match removed {
            Some(context) => {
                addr_table_remove(&mut self.addr_to_ran_id, context.addr.as_str());
                let ghost c1 = self.contexts();
                let ghost a1 = self.addr_index();
                assert forall|b: Seq<char>| #[trigger] a1.contains_key(b) implies c1.contains_key(a1[b]) && c1[a1[b]].addr@ == b by {
                    assert(a0[b] != ran_id@);
                }
                Some(context)
            },
            None => None,
        }
    }
}

} // verus!
