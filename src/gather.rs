//! Collecting the intersection lists of every shape of a world into one list.
use vstd::prelude::*;

verus! {

/// The views of `parts`, one sequence per part.
pub open spec fn part_views<T>(parts: Seq<Vec<T>>) -> Seq<Seq<T>> {
    parts.map_values(|p: Vec<T>| p@)
}

/// All elements of `parts`, part after part, each part in its own order.
pub fn concat_all<T: Copy>(parts: &Vec<Vec<T>>) -> (r: Vec<T>)
    ensures
        r@ == part_views(parts@).flatten(),
{
    let mut out: Vec<T> = Vec::new();
    let mut i: usize = 0;
    assert(part_views(parts@).subrange(0, 0) =~= Seq::<Seq<T>>::empty());
    while i < parts.len()
        invariant
            i <= parts@.len(),
            out@ == part_views(parts@).subrange(0, i as int).flatten(),
        decreases parts@.len() - i,
    {
        let part = &parts[i];
        let ghost before = out@;
        let mut j: usize = 0;
        while j < part.len()
            invariant
                j <= part@.len(),
                out@ == before + part@.subrange(0, j as int),
            decreases part@.len() - j,
        {
            out.push(part[j]);
            j += 1;
            assert(out@ =~= before + part@.subrange(0, j as int));
        }
        proof {
            let views = part_views(parts@);
            assert(part@.subrange(0, part@.len() as int) =~= part@);
            assert(views.subrange(0, i + 1) =~= views.subrange(0, i as int).push(views[i as int]));
            views.subrange(0, i as int).lemma_flatten_push(views[i as int]);
        }
        i += 1;
    }
    assert(part_views(parts@).subrange(0, parts@.len() as int) =~= part_views(parts@));
    out
}

} // verus!
