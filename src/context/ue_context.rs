use vstd::prelude::*;
use dashmap::DashMap;
use crate::context::tables::{
    supi_entries, supi_table_get, supi_table_insert, supi_table_new, supi_table_remove, ue_entries,
    ue_table_get, ue_table_insert, ue_table_keys, ue_table_new, ue_table_remove,
};

verus! {

#[derive(Debug, Clone)]
pub struct UeContext {
    pub amf_ue_ngap_id: u64,
    pub ran_ue_ngap_id: Option<u64>,
    pub supi: Option<String>,
    pub suci: Option<String>,
    pub guti: Option<Guti>,
    pub pei: Option<String>,
    pub state: UeState,
    pub registration_type: Option<RegistrationType>,
    pub security_context: Option<SecurityContext>,
    pub kamf: Option<Vec<u8>>,
    pub kseaf: Option<Vec<u8>>,
    pub nas_uplink_count: u32,
    pub nas_downlink_count: u32,
    pub tai: Option<Tai>,
    pub ecgi: Option<String>,
    pub ran_id: Option<String>,
}

#[derive(Debug, Clone, Copy, PartialEq, Eq, Structural)]
pub enum UeState {
    Deregistered,
    Registered,
    Connected,
    Idle,
}

#[derive(Debug, Clone, Copy, PartialEq, Eq, Structural)]
pub enum RegistrationType {
    Initial,
    MobilityUpdate,
    PeriodicUpdate,
    Emergency,
}

#[derive(Debug, Clone)]
pub struct Guti {
    pub plmn_id: PlmnId,
    pub amf_region_id: String,
    pub amf_set_id: String,
    pub amf_pointer: String,
    pub tmsi: u32,
}

#[derive(Debug, Clone)]
pub struct PlmnId {
    pub mcc: String,
    pub mnc: String,
}

#[derive(Debug, Clone)]
pub struct Tai {
    pub plmn_id: PlmnId,
    pub tac: String,
}

#[derive(Debug, Clone)]
pub struct SecurityContext {
    pub ksi: u8,
    pub abba: Vec<u8>,
    pub k_nas_int: Vec<u8>,
    pub k_nas_enc: Vec<u8>,
    pub integrity_algorithm: IntegrityAlgorithm,
    pub ciphering_algorithm: CipheringAlgorithm,
    pub ue_security_capability: UeSecurityCapability,
}

#[derive(Debug, Clone, Copy, PartialEq, Eq, Structural)]
pub enum IntegrityAlgorithm {
    NIA0,
    NIA1,
    NIA2,
    NIA3,
}

#[derive(Debug, Clone, Copy, PartialEq, Eq, Structural)]
pub enum CipheringAlgorithm {
    NEA0,
    NEA1,
    NEA2,
    NEA3,
}

#[derive(Debug, Clone)]
pub struct UeSecurityCapability {
    pub nr_integrity_protection_algorithms: Vec<IntegrityAlgorithm>,
    pub nr_encryption_algorithms: Vec<CipheringAlgorithm>,
}

/// The UE contexts, by AMF-UE-NGAP-ID, with an index from SUPI to
/// AMF-UE-NGAP-ID and the counter that hands out new AMF-UE-NGAP-IDs.
pub struct UeContextManager {
    contexts: DashMap<u64, UeContext>,
    supi_to_amf_ue_id: DashMap<String, u64>,
    next_amf_ue_ngap_id: u64,
}

/// The SUPI of a context as text, if it has one.
pub open spec fn supi_of(c: UeContext) -> Option<Seq<char>> {
    match c.supi {
        Some(s) => Some(s@),
        None => None,
    }
}

/// The context belongs to the RAN `ran_id`.
pub open spec fn owned_by(c: UeContext, ran_id: Seq<char>) -> bool {
    c.ran_id matches Some(r) && r@ == ran_id
}

/// The contexts of `m` that survive storing `c`: those without `c`'s SUPI,
/// and the one stored under `c`'s own id, which `c` then replaces.
pub open spec fn ue_kept_besides(m: Map<u64, UeContext>, c: UeContext, k: u64) -> bool {
    m.contains_key(k) && (k == c.amf_ue_ngap_id || supi_of(c) is None || supi_of(m[k]) != supi_of(c))
}

/// `id` is the AMF-UE-NGAP-ID handed out between `before` and `after`:
/// the counter's value, which then goes up by one; no context changes.
pub open spec fn allocated(before: UeContextManager, after: UeContextManager, id: u64) -> bool {
    &&& id == before.next_id()
    &&& after.next_id() == before.next_id() + 1
    &&& after.contexts() == before.contexts()
}

impl UeContextManager {
    pub closed spec fn contexts(&self) -> Map<u64, UeContext> {
        ue_entries(self.contexts)
    }

    pub closed spec fn supi_index(&self) -> Map<Seq<char>, u64> {
        supi_entries(self.supi_to_amf_ue_id)
    }

    /// The AMF-UE-NGAP-ID that the next allocation hands out.
    pub closed spec fn next_id(&self) -> u64 {
        self.next_amf_ue_ngap_id
    }

    /// The index invariants: each context is stored under its own
    /// AMF-UE-NGAP-ID; a context with a SUPI is what the SUPI index gives
    /// for it; and every SUPI in the index leads to a context with that
    /// SUPI. Allocation starts at 1.
    pub open spec fn wf(&self) -> bool {
        &&& forall|id: u64| #[trigger]
            self.contexts().contains_key(id) ==> self.contexts()[id].amf_ue_ngap_id == id
        &&& forall|id: u64| #[trigger]
            self.contexts().contains_key(id) && supi_of(self.contexts()[id]) is Some ==> self.supi_index().contains_key(
                supi_of(self.contexts()[id])->0,
            ) && self.supi_index()[supi_of(self.contexts()[id])->0] == id
        &&& forall|s: Seq<char>| #[trigger]
            self.supi_index().contains_key(s) ==> self.contexts().contains_key(self.supi_index()[s])
                && supi_of(self.contexts()[self.supi_index()[s]]) == Some(s)
        &&& self.next_id() >= 1
    }

    pub fn new() -> (r: Self)
        ensures
            r.wf(),
            r.contexts() == Map::<u64, UeContext>::empty(),
            r.next_id() == 1,
    {
        let r = UeContextManager {
            contexts: ue_table_new(),
            supi_to_amf_ue_id: supi_table_new(),
            next_amf_ue_ngap_id: 1,
        };
        assert(r.supi_index() =~= Map::<Seq<char>, u64>::empty());
        assert(r.contexts() =~= Map::<u64, UeContext>::empty());
        r
    }

    /// The AMF-UE-NGAP-ID that the next allocation hands out.
    pub fn next_amf_ue_ngap_id(&self) -> (r: u64)
        ensures
            r == self.next_id(),
    {
        self.next_amf_ue_ngap_id
    }

    /// Hands out the next AMF-UE-NGAP-ID; each call gives one more than
    /// the last.
    pub fn allocate_amf_ue_ngap_id(&mut self) -> (r: u64)
        requires
            old(self).wf(),
            old(self).next_id() < u64::MAX,
        ensures
            final(self).wf(),
            allocated(*old(self), *final(self), r),
    {
        let current = self.next_amf_ue_ngap_id;
        self.next_amf_ue_ngap_id = current + 1;
        current
    }

    /// Stores a context under its AMF-UE-NGAP-ID, replacing the one stored
    /// there. A context of another id with the same SUPI is dropped, so that
    /// each SUPI leads to one context.
    pub fn update(&mut self, context: UeContext)
        requires
            old(self).wf(),
        ensures
            final(self).wf(),
            final(self).next_id() == old(self).next_id(),
            final(self).contexts().contains_key(context.amf_ue_ngap_id),
            final(self).contexts()[context.amf_ue_ngap_id] == context,
            forall|k: u64| k != context.amf_ue_ngap_id ==> (#[trigger] final(self).contexts().contains_key(k)
                <==> ue_kept_besides(old(self).contexts(), context, k)),
            forall|k: u64| k != context.amf_ue_ngap_id && #[trigger] final(self).contexts().contains_key(k)
                ==> final(self).contexts()[k] == old(self).contexts()[k],
    {
        let ghost c0 = self.contexts();
        let ghost s0 = self.supi_index();
        let id = context.amf_ue_ngap_id;
        match ue_table_get(&self.contexts, id) {
            Some(prev) => match prev.supi {
                Some(old_supi) => {
                    let same = match &context.supi {
                        Some(s) => old_supi == *s,
                        None => false,
                    };
                    if !same {
                        supi_table_remove(&mut self.supi_to_amf_ue_id, old_supi.as_str());
                    }
                },
                None => {},
            },
            None => {},
        }
        match &context.supi {
            Some(supi) => {
                match supi_table_get(&self.supi_to_amf_ue_id, supi.as_str()) {
                    Some(other) => {
                        if other != id {
                            ue_table_remove(&mut self.contexts, other);
                        }
                    },
                    None => {},
                }
                supi_table_insert(&mut self.supi_to_amf_ue_id, supi.clone(), id);
            },
            None => {},
        }
        ue_table_insert(&mut self.contexts, id, context);
        let ghost c3 = self.contexts();
        let ghost s3 = self.supi_index();
        assert forall|k: u64| k != id implies (#[trigger] c3.contains_key(k) <==> ue_kept_besides(c0, context, k)) by {
            if c0.contains_key(k) && supi_of(context) is Some && supi_of(c0[k]) == supi_of(context) {
                assert(s0[supi_of(context)->0] == k);
            }
        }
        assert forall|k: u64| #[trigger] c3.contains_key(k) && supi_of(c3[k]) is Some implies s3.contains_key(supi_of(c3[k])->0) && s3[supi_of(c3[k])->0] == k by {
            if k != id {
                assert(s0[supi_of(c0[k])->0] == k);
            }
        }
        assert forall|s: Seq<char>| #[trigger] s3.contains_key(s) implies c3.contains_key(s3[s]) && supi_of(c3[s3[s]]) == Some(s) by {
            if supi_of(context) != Some(s) {
                let k = s0[s];
                assert(c0.contains_key(k) && supi_of(c0[k]) == Some(s));
                if c0.contains_key(id) && supi_of(c0[id]) is Some {
                    assert(s0[supi_of(c0[id])->0] == id);
                }
            }
        }
    }

    /// Makes a Deregistered context for `amf_ue_ngap_id` with no
    /// identifiers, no security context and both NAS counts at 0, and stores
    /// it as `update` does.
    pub fn create_ue_context(&mut self, amf_ue_ngap_id: u64) -> (r: UeContext)
        requires
            old(self).wf(),
        ensures
            final(self).wf(),
            final(self).next_id() == old(self).next_id(),
            r.amf_ue_ngap_id == amf_ue_ngap_id,
            r.ran_ue_ngap_id is None,
            r.supi is None,
            r.suci is None,
            r.guti is None,
            r.pei is None,
            r.state == UeState::Deregistered,
            r.registration_type is None,
            r.security_context is None,
            r.kamf is None,
            r.kseaf is None,
            r.nas_uplink_count == 0,
            r.nas_downlink_count == 0,
            r.tai is None,
            r.ecgi is None,
            r.ran_id is None,
            final(self).contexts() == old(self).contexts().insert(amf_ue_ngap_id, r),
    {
        let context = UeContext {
            amf_ue_ngap_id,
            ran_ue_ngap_id: None,
            supi: None,
            suci: None,
            guti: None,
            pei: None,
            state: UeState::Deregistered,
            registration_type: None,
            security_context: None,
            kamf: None,
            kseaf: None,
            nas_uplink_count: 0,
            nas_downlink_count: 0,
            tai: None,
            ecgi: None,
            ran_id: None,
        };
        self.update(context);
        let ghost c0 = old(self).contexts();
        assert(self.contexts() =~= c0.insert(amf_ue_ngap_id, context));
        match self.get(amf_ue_ngap_id) {
            Some(r) => r,
            None => vstd::pervasive::unreached(),
        }
    }

    pub fn get(&self, amf_ue_ngap_id: u64) -> (r: Option<UeContext>)
        ensures
            match r {
                Some(c) => self.contexts().contains_key(amf_ue_ngap_id) && c == self.contexts()[amf_ue_ngap_id],
                None => !self.contexts().contains_key(amf_ue_ngap_id),
            },
    {
        ue_table_get(&self.contexts, amf_ue_ngap_id)
    }

    /// The context whose SUPI is `supi`.
    pub fn get_by_supi(&self, supi: &str) -> (r: Option<UeContext>)
        requires
            self.wf(),
        ensures
            match r {
                Some(c) => self.contexts().contains_key(c.amf_ue_ngap_id) && c == self.contexts()[c.amf_ue_ngap_id]
                    && supi_of(c) == Some(supi@),
                None => forall|k: u64| #[trigger]
                    self.contexts().contains_key(k) ==> supi_of(self.contexts()[k]) != Some(supi@),
            },
    {
        match supi_table_get(&self.supi_to_amf_ue_id, supi) {
            Some(id) => ue_table_get(&self.contexts, id),
            None => None,
        }
    }

    /// Drops the context of `amf_ue_ngap_id` and its SUPI from the index.
    pub fn remove(&mut self, amf_ue_ngap_id: u64) -> (r: Option<UeContext>)
        requires
            old(self).wf(),
        ensures
            final(self).wf(),
            final(self).next_id() == old(self).next_id(),
            final(self).contexts() == old(self).contexts().remove(amf_ue_ngap_id),
            match r {
                Some(c) => old(self).contexts().contains_key(amf_ue_ngap_id) && c == old(self).contexts()[amf_ue_ngap_id],
                None => !old(self).contexts().contains_key(amf_ue_ngap_id),
            },
    {
        let ghost s0 = self.supi_index();
        let removed = ue_table_remove(&mut self.contexts, amf_ue_ngap_id);
        match removed {
            Some(context) => {
                match &context.supi {
                    Some(supi) => {
                        supi_table_remove(&mut self.supi_to_amf_ue_id, supi.as_str());
                    },
                    None => {},
                }
                let ghost s1 = self.supi_index();
                assert forall|s: Seq<char>| #[trigger] s1.contains_key(s) implies self.contexts().contains_key(s1[s]) && supi_of(self.contexts()[s1[s]]) == Some(s) by {
                    assert(s0[s] != amf_ue_ngap_id);
                }
                Some(context)
            },
            None => None,
        }
    }
}

impl UeContextManager {
    /// Drops every context owned by RAN `ran_id`, with their SUPIs.
    pub fn remove_owned_by(&mut self, ran_id: &str)
        requires
            old(self).wf(),
        ensures
            final(self).wf(),
            final(self).next_id() == old(self).next_id(),
            forall|k: u64| #[trigger] final(self).contexts().contains_key(k) <==> old(self).contexts().contains_key(k)
                && !owned_by(old(self).contexts()[k], ran_id@),
            forall|k: u64| #[trigger] final(self).contexts().contains_key(k) ==> final(self).contexts()[k] == old(self).contexts()[k],
    {
        let keys = ue_table_keys(&self.contexts);
        let target = ran_id.to_owned();
        let ghost c0 = self.contexts();
        let mut i: usize = 0;
        while i < keys.len()
            invariant
                self.wf(),
                self.next_id() == old(self).next_id(),
                c0 == old(self).contexts(),
                target@ == ran_id@,
                i <= keys@.len(),
                forall|k: u64| c0.contains_key(k) <==> keys@.contains(k),
                forall|k: u64| #[trigger] self.contexts().contains_key(k) <==> c0.contains_key(k) && !(owned_by(c0[k], ran_id@)
                    && keys@.subrange(0, i as int).contains(k)),
                forall|k: u64| #[trigger] self.contexts().contains_key(k) ==> self.contexts()[k] == c0[k],
            decreases keys@.len() - i,
        {
            let k = keys[i];
            match self.get(k) {
                Some(c) => {
                    let owned = match &c.ran_id {
                        Some(r) => *r == target,
                        None => false,
                    };
                    if owned {
                        self.remove(k);
                    }
                },
                None => {},
            }
            assert forall|j: u64| #[trigger] self.contexts().contains_key(j) <==> c0.contains_key(j) && !(owned_by(c0[j], ran_id@)
                && keys@.subrange(0, i + 1).contains(j)) by {
                if j != k {
                    if keys@.subrange(0, i + 1).contains(j) {
                        let w = choose|w: int| 0 <= w < i + 1 && #[trigger] keys@.subrange(0, i + 1)[w] == j;
                        assert(keys@.subrange(0, i as int)[w] == j);
                    }
                    if keys@.subrange(0, i as int).contains(j) {
                        let w = choose|w: int| 0 <= w < i && #[trigger] keys@.subrange(0, i as int)[w] == j;
                        assert(keys@.subrange(0, i + 1)[w] == j);
                    }
                } else {
                    assert(keys@.subrange(0, i + 1)[i as int] == k);
                }
            }
            i += 1;
        }
        assert forall|k: u64| #[trigger] self.contexts().contains_key(k) <==> c0.contains_key(k) && !owned_by(c0[k], ran_id@) by {
            assert(keys@.subrange(0, i as int) =~= keys@);
        }
    }
}

} // verus!
