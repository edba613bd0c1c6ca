//! The walk over the information elements (IEs) of a message value: a
//! one-octet extension field, a two-octet IE count, then for each IE a
//! two-octet id, a criticality octet, a length determinant and the content.
//!
//! The criticality octet is not acted on: an IE whose id a message does
//! not know is skipped by its length, whatever its criticality says,
//! including "reject". No Unsuccessful Outcome with diagnostics is raised
//! for an unknown critical IE.

use vstd::prelude::*;
use crate::error::DecodeError;
use crate::ngap::aper::{decode_aper_length, spec_aper_length};

verus! {

/// Where one IE sits in a value: its id and the span of its content.
pub struct IeRef {
    pub id: u16,
    pub start: int,
    pub len: int,
}

/// What reading an IE header at a cursor gives: the end of the walk, a
/// length determinant that cannot be read, or an IE and the cursor after it.
pub enum IeStep {
    Stop,
    Fail(DecodeError),
    Item(IeRef, int),
}

pub open spec fn be16(hi: u8, lo: u8) -> u16 {
    (hi * 256 + lo) as u16
}

pub open spec fn ie_step(data: Seq<u8>, cursor: int) -> IeStep {
    if cursor + 3 >= data.len() {
        IeStep::Stop
    } else {
        match spec_aper_length(data.subrange(cursor + 3, data.len() as int)) {
            Err(e) => IeStep::Fail(e),
            Ok((len, consumed)) => {
                let start = cursor + 3 + consumed;
                if start + len > data.len() {
                    IeStep::Stop
                } else {
                    IeStep::Item(
                        IeRef { id: be16(data[cursor], data[cursor + 1]), start, len: len as int },
                        start + len,
                    )
                }
            },
        }
    }
}

/// The IEs that a walk of at most `n` IEs from `cursor` reads. The walk ends
/// early, keeping what it read, where a header or a content runs past the
/// end; it fails where a length determinant cannot be read.
pub open spec fn ie_walk(data: Seq<u8>, cursor: int, n: nat) -> Result<Seq<IeRef>, DecodeError>
    decreases n,
{
    if n == 0 {
        Ok(seq![])
    } else {
        match ie_step(data, cursor) {
            IeStep::Stop => Ok(seq![]),
            IeStep::Fail(e) => Err(e),
            IeStep::Item(ie, next) => match ie_walk(data, next, (n - 1) as nat) {
                Ok(rest) => Ok(seq![ie] + rest),
                Err(e) => Err(e),
            },
        }
    }
}

/// The IEs of a whole message value, after its three header octets.
pub open spec fn value_ies(data: Seq<u8>) -> Result<Seq<IeRef>, DecodeError>
    recommends
        data.len() >= 3,
{
    ie_walk(data, 3, be16(data[1], data[2]) as nat)
}

pub open spec fn prepend(seen: Seq<IeRef>, r: Result<Seq<IeRef>, DecodeError>) -> Result<
    Seq<IeRef>,
    DecodeError,
> {
    match r {
        Ok(rest) => Ok(seen + rest),
        Err(e) => Err(e),
    }
}

/// The content octets of an IE.
pub open spec fn content(data: Seq<u8>, ie: IeRef) -> Seq<u8> {
    data.subrange(ie.start, ie.start + ie.len)
}

/// The last IE with id `id` whose content has at least `min_len` octets.
pub open spec fn last_ie(ies: Seq<IeRef>, id: u16, min_len: int) -> Option<IeRef>
    decreases ies.len(),
{
    if ies.len() == 0 {
        None
    } else if ies.last().id == id && ies.last().len >= min_len {
        Some(ies.last())
    } else {
        last_ie(ies.drop_last(), id, min_len)
    }
}

pub proof fn lemma_last_ie_push(ies: Seq<IeRef>, ie: IeRef, id: u16, min_len: int)
    ensures
        last_ie(ies.push(ie), id, min_len) == if ie.id == id && ie.len >= min_len {
            Some(ie)
        } else {
            last_ie(ies, id, min_len)
        },
{
    assert(ies.push(ie).drop_last() =~= ies);
}

/// An IE header read from octets.
pub enum IeNext {
    Stop,
    Fail(DecodeError),
    Item { id: u16, start: usize, len: usize, next: usize },
}

pub open spec fn ie_next_matches(r: IeNext, step: IeStep) -> bool {
    match (r, step) {
        (IeNext::Stop, IeStep::Stop) => true,
        (IeNext::Fail(e), IeStep::Fail(f)) => e == f,
        (IeNext::Item { id, start, len, next }, IeStep::Item(ie, n)) => id == ie.id && start
            == ie.start && len == ie.len && next == n,
        _ => false,
    }
}

/// Reads the IE header at `cursor`.
pub fn next_ie(data: &[u8], cursor: usize) -> (r: IeNext)
    requires
        cursor <= data@.len(),
    ensures
        ie_next_matches(r, ie_step(data@, cursor as int)),
        r matches IeNext::Item { next, .. } ==> next <= data@.len(),
{
    if data.len() < 3 || cursor >= data.len() - 3 {
        return IeNext::Stop;
    }
    let id: u16 = data[cursor] as u16 * 256 + data[cursor + 1] as u16;
    let (len, consumed) = match decode_aper_length(&data[cursor + 3..data.len()]) {
        Ok(v) => v,
        Err(e) => return IeNext::Fail(e),
    };
    let start = cursor + 3 + consumed;
    if len > data.len() - start {
        return IeNext::Stop;
    }
    IeNext::Item { id, start, len, next: start + len }
}

} // verus!

verus! {

pub proof fn lemma_prepend_step(seen: Seq<IeRef>, ie: IeRef, r: Result<Seq<IeRef>, DecodeError>)
    ensures
        prepend(
            seen,
            match r {
                Ok(rest) => Ok(seq![ie] + rest),
                Err(e) => Err(e),
            },
        ) == prepend(seen.push(ie), r),
{
    match r {
        Ok(rest) => {
            assert(seen + (seq![ie] + rest) =~= seen.push(ie) + rest);
        },
        Err(e) => {},
    }
}

pub proof fn lemma_prepend_stop(seen: Seq<IeRef>)
    ensures
        prepend(seen, Ok(seq![])) == Ok::<Seq<IeRef>, DecodeError>(seen),
{
    assert(seen + seq![] =~= seen);
}

} // verus!
