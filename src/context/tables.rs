//! The concurrent maps behind the context store, from the `dashmap` crate.
//! Each map is held by one store, which owns it outright; every change
//! goes through `&mut`.

use vstd::prelude::*;
use dashmap::DashMap;
use crate::context::ran_context::RanContext;
use crate::context::ue_context::UeContext;

verus! {

pub type RanTable = DashMap<String, RanContext>;

pub type AddrTable = DashMap<String, String>;

pub type UeTable = DashMap<u64, UeContext>;

pub type SupiTable = DashMap<String, u64>;

#[verifier::external_type_specification]
#[verifier::external_body]
#[verifier::reject_recursive_types(K)]
#[verifier::reject_recursive_types(V)]
#[verifier::reject_recursive_types(S)]
pub struct ExDashMap<K, V, S>(DashMap<K, V, S>);

/// The entries of the RAN context table, by RAN id.
pub uninterp spec fn ran_entries(m: RanTable) -> Map<Seq<char>, RanContext>;

/// The entries of the address index: peer address to RAN id.
pub uninterp spec fn addr_entries(m: AddrTable) -> Map<Seq<char>, Seq<char>>;

/// The entries of the UE context table, by AMF-UE-NGAP-ID.
pub uninterp spec fn ue_entries(m: UeTable) -> Map<u64, UeContext>;

/// The entries of the SUPI index: SUPI to AMF-UE-NGAP-ID.
pub uninterp spec fn supi_entries(m: SupiTable) -> Map<Seq<char>, u64>;

/// Relies on `DashMap::new`: a new map is empty.
#[verifier::external_body]
pub(crate) fn ran_table_new() -> (r: RanTable)
    ensures
        ran_entries(r).dom() == Set::<Seq<char>>::empty(),
{
    DashMap::new()
}

/// Relies on `DashMap::insert`: the key maps to the value afterwards.
#[verifier::external_body]
pub(crate) fn ran_table_insert(m: &mut RanTable, k: String, v: RanContext)
    ensures
        ran_entries(*final(m)) == ran_entries(*old(m)).insert(k@, v),
{
    m.insert(k, v);
}

/// Relies on `DashMap::get`; the entry found is cloned out.
#[verifier::external_body]
pub(crate) fn ran_table_get(m: &RanTable, k: &str) -> (r: Option<RanContext>)
    ensures
        match r {
            Some(v) => ran_entries(*m).contains_key(k@) && v == ran_entries(*m)[k@],
            None => !ran_entries(*m).contains_key(k@),
        },
{
    m.get(k).map(|e| e.value().clone())
}

/// Relies on `DashMap::remove`: the key is gone, and its value is handed
/// back.
#[verifier::external_body]
pub(crate) fn ran_table_remove(m: &mut RanTable, k: &str) -> (r: Option<RanContext>)
    ensures
        ran_entries(*final(m)) == ran_entries(*old(m)).remove(k@),
        match r {
            Some(v) => ran_entries(*old(m)).contains_key(k@) && v == ran_entries(*old(m))[k@],
            None => !ran_entries(*old(m)).contains_key(k@),
        },
{
    m.remove(k).map(|e| e.1)
}

/// Relies on `DashMap::new`: a new map is empty.
#[verifier::external_body]
pub(crate) fn addr_table_new() -> (r: AddrTable)
    ensures
        addr_entries(r).dom() == Set::<Seq<char>>::empty(),
{
    DashMap::new()
}

/// Relies on `DashMap::insert`: the key maps to the value afterwards.
#[verifier::external_body]
pub(crate) fn addr_table_insert(m: &mut AddrTable, k: String, v: String)
    ensures
        addr_entries(*final(m)) == addr_entries(*old(m)).insert(k@, v@),
{
    m.insert(k, v);
}

/// Relies on `DashMap::get`; the entry found is cloned out.
#[verifier::external_body]
pub(crate) fn addr_table_get(m: &AddrTable, k: &str) -> (r: Option<String>)
    ensures
        match r {
            Some(v) => addr_entries(*m).contains_key(k@) && v@ == addr_entries(*m)[k@],
            None => !addr_entries(*m).contains_key(k@),
        },
{
    m.get(k).map(|e| e.value().clone())
}

/// Relies on `DashMap::remove`: the key is gone.
#[verifier::external_body]
pub(crate) fn addr_table_remove(m: &mut AddrTable, k: &str)
    ensures
        addr_entries(*final(m)) == addr_entries(*old(m)).remove(k@),
{
    m.remove(k);
}

/// Relies on `DashMap::new`: a new map is empty.
#[verifier::external_body]
pub(crate) fn ue_table_new() -> (r: UeTable)
    ensures
        ue_entries(r).dom() == Set::<u64>::empty(),
{
    DashMap::new()
}

/// Relies on `DashMap::insert`: the key maps to the value afterwards.
#[verifier::external_body]
pub(crate) fn ue_table_insert(m: &mut UeTable, k: u64, v: UeContext)
    ensures
        ue_entries(*final(m)) == ue_entries(*old(m)).insert(k, v),
{
    m.insert(k, v);
}

/// Relies on `DashMap::get`; the entry found is cloned out.
#[verifier::external_body]
pub(crate) fn ue_table_get(m: &UeTable, k: u64) -> (r: Option<UeContext>)
    ensures
        match r {
            Some(v) => ue_entries(*m).contains_key(k) && v == ue_entries(*m)[k],
            None => !ue_entries(*m).contains_key(k),
        },
{
    m.get(&k).map(|e| e.value().clone())
}

/// Relies on `DashMap::remove`: the key is gone, and its value is handed
/// back.
#[verifier::external_body]
pub(crate) fn ue_table_remove(m: &mut UeTable, k: u64) -> (r: Option<UeContext>)
    ensures
        ue_entries(*final(m)) == ue_entries(*old(m)).remove(k),
        match r {
            Some(v) => ue_entries(*old(m)).contains_key(k) && v == ue_entries(*old(m))[k],
            None => !ue_entries(*old(m)).contains_key(k),
        },
{
    m.remove(&k).map(|e| e.1)
}

/// Relies on `DashMap::iter`: every key of the map, in no particular
/// order.
#[verifier::external_body]
pub(crate) fn ue_table_keys(m: &UeTable) -> (r: Vec<u64>)
    ensures
        forall|k: u64| ue_entries(*m).contains_key(k) <==> r@.contains(k),
{
    m.iter().map(|e| *e.key()).collect()
}

/// Relies on `DashMap::new`: a new map is empty.
#[verifier::external_body]
pub(crate) fn supi_table_new() -> (r: SupiTable)
    ensures
        supi_entries(r).dom() == Set::<Seq<char>>::empty(),
{
    DashMap::new()
}

/// Relies on `DashMap::insert`: the key maps to the value afterwards.
#[verifier::external_body]
pub(crate) fn supi_table_insert(m: &mut SupiTable, k: String, v: u64)
    ensures
        supi_entries(*final(m)) == supi_entries(*old(m)).insert(k@, v),
{
    m.insert(k, v);
}

/// Relies on `DashMap::get`; the entry found is copied out.
#[verifier::external_body]
pub(crate) fn supi_table_get(m: &SupiTable, k: &str) -> (r: Option<u64>)
    ensures
        match r {
            Some(v) => supi_entries(*m).contains_key(k@) && v == supi_entries(*m)[k@],
            None => !supi_entries(*m).contains_key(k@),
        },
{
    m.get(k).map(|e| *e.value())
}

/// Relies on `DashMap::remove`: the key is gone.
#[verifier::external_body]
pub(crate) fn supi_table_remove(m: &mut SupiTable, k: &str)
    ensures
        supi_entries(*final(m)) == supi_entries(*old(m)).remove(k@),
{
    m.remove(k);
}

} // verus!
