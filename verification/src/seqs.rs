use vstd::prelude::*;

verus! {

/// The predicate "differs from `id`", used to drop every occurrence of `id`.
pub open spec fn not_id(id: u64) -> spec_fn(u64) -> bool {
    |x: u64| x != id
}

/// Removes every occurrence of `id` from `v`, keeping the rest in order.
pub fn retain_ne(v: &mut Vec<u64>, id: u64)
    ensures
        final(v)@ == old(v)@.filter(not_id(id)),
{
    let mut kept: Vec<u64> = Vec::new();
    let n = v.len();
    for i in 0..n
        invariant
            n == v.len(),
            kept@ == v@.take(i as int).filter(not_id(id)),
    {
        proof {
            reveal_with_fuel(Seq::filter, 1);
            assert(v@.take(i + 1).drop_last() =~= v@.take(i as int));
        }
        if v[i] != id {
            kept.push(v[i]);
        }
    }
    proof {
        assert(v@.take(n as int) =~= v@);
    }
    *v = kept;
}

} // verus!
