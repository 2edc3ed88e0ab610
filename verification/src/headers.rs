//! The inbound header mapping and its sanitization: an ordered list of
//! name/value pairs from which every `Host` entry is removed before the
//! request is forwarded, all other entries kept unchanged and in order.

use vstd::prelude::*;
use vstd::slice::slice_to_vec;

verus! {

/// One header entry: a name and a value, both as raw bytes.
pub struct Header {
    pub name: Vec<u8>,
    pub value: Vec<u8>,
}

/// The mathematical view of one header entry.
pub struct HeaderModel {
    pub name: Seq<u8>,
    pub value: Seq<u8>,
}

impl View for Header {
    type V = HeaderModel;

    open spec fn view(&self) -> HeaderModel {
        HeaderModel { name: self.name@, value: self.value@ }
    }
}

/// The views of a whole header list, in order.
pub open spec fn models(hs: Seq<Header>) -> Seq<HeaderModel> {
    hs.map_values(|h: Header| h@)
}

/// ASCII lower-casing of one byte.
pub open spec fn ascii_lower(b: u8) -> u8 {
    if 65 <= b && b <= 90 {
        (b + 32) as u8
    } else {
        b
    }
}

/// Whether a header name is `Host`, compared case-insensitively.
pub open spec fn is_host_name(name: Seq<u8>) -> bool {
    &&& name.len() == 4
    &&& ascii_lower(name[0]) == 104
    &&& ascii_lower(name[1]) == 111
    &&& ascii_lower(name[2]) == 115
    &&& ascii_lower(name[3]) == 116
}

/// The header list with every `Host` entry removed: exactly the subsequence
/// of entries whose name is not `Host`, unchanged and in order.
pub open spec fn sans_host(hs: Seq<HeaderModel>) -> Seq<HeaderModel> {
    hs.filter(|h: HeaderModel| !is_host_name(h.name))
}

fn lower_byte(b: u8) -> (r: u8)
    ensures
        r == ascii_lower(b),
{
    if 65 <= b && b <= 90 {
        b + 32
    } else {
        b
    }
}

/// Whether this name names the `Host` header, case-insensitively.
pub fn name_is_host(name: &Vec<u8>) -> (r: bool)
    ensures
        r == is_host_name(name@),
{
    name.len() == 4 && lower_byte(name[0]) == 104 && lower_byte(name[1]) == 111
        && lower_byte(name[2]) == 115 && lower_byte(name[3]) == 116
}

impl Header {
    /// An identical copy of this header.
    pub fn duplicate(&self) -> (r: Header)
        ensures
            r@ == self@,
    {
        Header { name: slice_to_vec(self.name.as_slice()), value: slice_to_vec(self.value.as_slice()) }
    }
}

/// Remove every `Host` header, keeping all other headers unchanged, in
/// order. The transport recomputes its own `Host` from the target URL, so
/// the original caller's must not be forwarded.
pub fn strip_host(headers: &Vec<Header>) -> (r: Vec<Header>)
    ensures
        models(r@) == sans_host(models(headers@)),
{
    let mut out: Vec<Header> = Vec::new();
    let mut i: usize = 0;
    proof {
        assert(models(out@) =~= sans_host(models(headers@.take(0))));
    }
    while i < headers.len()
        invariant
            i <= headers.len(),
            models(out@) == sans_host(models(headers@.take(i as int))),
        decreases headers.len() - i,
    {
        let keep = !name_is_host(&headers[i].name);
        if keep {
            let h = headers[i].duplicate();
            out.push(h);
        }
        proof {
            let pred = |h: HeaderModel| !is_host_name(h.name);
            let prev = models(headers@.take(i as int));
            let cur = models(headers@.take(i + 1));
            assert(cur.drop_last() =~= prev);
            assert(cur.last() == headers@[i as int]@);
            reveal(Seq::filter);
            assert(cur.filter(pred) == if pred(cur.last()) {
                prev.filter(pred).push(cur.last())
            } else {
                prev.filter(pred)
            });
            assert(models(out@) =~= sans_host(cur));
        }
        i += 1;
    }
    proof {
        assert(headers@.take(headers@.len() as int) =~= headers@);
    }
    out
}

/// Sanitizing removes every `Host` header and keeps every other header:
/// no entry of the result is named `Host`, every non-`Host` entry of the
/// input appears in the result unchanged, and nothing new is added.
pub proof fn lemma_sans_host(hs: Seq<HeaderModel>)
    ensures
        forall|i: int|
            0 <= i < sans_host(hs).len() ==> !is_host_name(#[trigger] sans_host(hs)[i].name),
        forall|i: int|
            0 <= i < hs.len() && !is_host_name(hs[i].name) ==> sans_host(hs).contains(#[trigger] hs[i]),
        forall|i: int| 0 <= i < sans_host(hs).len() ==> hs.contains(#[trigger] sans_host(hs)[i]),
        sans_host(hs).len() <= hs.len(),
{
    broadcast use vstd::seq_lib::group_filter_ensures;

    let pred = |h: HeaderModel| !is_host_name(h.name);
    assert forall|i: int| 0 <= i < sans_host(hs).len() implies hs.contains(
        #[trigger] sans_host(hs)[i],
    ) by {
        let e = sans_host(hs)[i];
        assert(sans_host(hs).contains(e));
        hs.lemma_filter_contains_rev(pred, e);
    }
}

} // verus!
