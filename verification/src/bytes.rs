//! Byte strings and lists of them: their views and verified copies.
use vstd::prelude::*;

verus! {

/// The byte strings of a list of identifiers.
pub open spec fn ids_view(ids: Seq<Vec<u8>>) -> Seq<Seq<u8>> {
    ids.map_values(|v: Vec<u8>| v@)
}

/// A copy of a byte string.
pub fn copy_bytes(v: &Vec<u8>) -> (r: Vec<u8>)
    ensures
        r@ == v@,
{
    let mut r: Vec<u8> = Vec::new();
    let mut i: usize = 0;
    while i < v.len()
        invariant
            i <= v@.len(),
            r@ == v@.take(i as int),
        decreases v@.len() - i,
    {
        r.push(v[i]);
        i = i + 1;
        assert(r@ =~= v@.take(i as int));
    }
    assert(v@.take(i as int) =~= v@);
    r
}

/// A copy of a list of accounts.
pub fn copy_accounts(v: &Vec<u64>) -> (r: Vec<u64>)
    ensures
        r@ == v@,
{
    let mut r: Vec<u64> = Vec::new();
    let mut i: usize = 0;
    while i < v.len()
        invariant
            i <= v@.len(),
            r@ == v@.take(i as int),
        decreases v@.len() - i,
    {
        r.push(v[i]);
        i = i + 1;
        assert(r@ =~= v@.take(i as int));
    }
    assert(v@.take(i as int) =~= v@);
    r
}

/// A copy of a list of identifiers.
pub fn copy_ids(v: &Vec<Vec<u8>>) -> (r: Vec<Vec<u8>>)
    ensures
        ids_view(r@) == ids_view(v@),
{
    let mut r: Vec<Vec<u8>> = Vec::new();
    let mut i: usize = 0;
    while i < v.len()
        invariant
            i <= v@.len(),
            r@.len() == i,
            forall|j: int| 0 <= j < i ==> #[trigger] r@[j]@ == v@[j]@,
        decreases v@.len() - i,
    {
        let c = copy_bytes(&v[i]);
        r.push(c);
        i = i + 1;
    }
    assert(ids_view(r@) =~= ids_view(v@));
    r
}

/// Appends the bytes of `v`.
pub fn append_bytes(out: &mut Vec<u8>, v: &Vec<u8>)
    ensures
        final(out)@ == old(out)@ + v@,
{
    let ghost start = out@;
    let mut i: usize = 0;
    while i < v.len()
        invariant
            i <= v@.len(),
            out@ == start + v@.take(i as int),
        decreases v@.len() - i,
    {
        out.push(v[i]);
        i = i + 1;
        assert(out@ =~= start + v@.take(i as int));
    }
    assert(v@.take(i as int) =~= v@);
}

/// The 32 zero bytes.
pub open spec fn zero32() -> Seq<u8> {
    Seq::new(32, |_i: int| 0u8)
}

/// Whether a byte string is 32 zero bytes.
pub fn is_zero32(h: &Vec<u8>) -> (r: bool)
    ensures
        r == (h@ == zero32()),
{
    if h.len() != 32 {
        return false;
    }
    let mut i: usize = 0;
    while i < 32
        invariant
            i <= 32,
            h@.len() == 32,
            forall|j: int| 0 <= j < i ==> h@[j] == 0u8,
        decreases 32 - i,
    {
        if h[i] != 0 {
            return false;
        }
        i = i + 1;
    }
    assert(h@ =~= zero32());
    true
}

/// The concatenation of a list of byte strings.
pub open spec fn concat_all(ids: Seq<Seq<u8>>) -> Seq<u8>
    decreases ids.len(),
{
    if ids.len() == 0 {
        Seq::empty()
    } else {
        concat_all(ids.drop_last()) + ids.last()
    }
}

/// Appends each identifier in turn.
pub fn append_all(out: &mut Vec<u8>, ids: &Vec<Vec<u8>>)
    ensures
        final(out)@ == old(out)@ + concat_all(ids_view(ids@)),
{
    let ghost start = out@;
    let mut i: usize = 0;
    assert(ids_view(ids@).take(0) =~= Seq::<Seq<u8>>::empty());
    while i < ids.len()
        invariant
            i <= ids@.len(),
            out@ == start + concat_all(ids_view(ids@).take(i as int)),
        decreases ids@.len() - i,
    {
        append_bytes(out, &ids[i]);
        assert(ids_view(ids@).take(i + 1).drop_last() =~= ids_view(ids@).take(i as int));
        i = i + 1;
        assert(out@ =~= start + concat_all(ids_view(ids@).take(i as int)));
    }
    assert(ids_view(ids@).take(i as int) =~= ids_view(ids@));
}

} // verus!
