use vstd::prelude::*;
use crate::util::{str_views, vec_contains_string};

verus! {

/// The asset references that remain once the policy identifier's echo of
/// itself is removed.
pub open spec fn without_self(refs: Seq<Seq<char>>, policy: Seq<char>) -> Seq<Seq<char>> {
    refs.filter(|a: Seq<char>| a != policy)
}

/// Drop the policy identifier itself from an enumeration result: the backing
/// service echoes the policy identifier back as one pseudo-asset, and that
/// entry must not be handed to extraction. Order is otherwise kept.
pub fn filter_self_reference(assets: &Vec<String>, policy_id: &String) -> (r: Vec<String>)
    ensures
        str_views(r@) == without_self(str_views(assets@), policy_id@),
        forall|k: int| 0 <= k < r@.len() ==> str_views(r@)[k] != policy_id@,
{
    let mut out: Vec<String> = Vec::new();
    let mut i: usize = 0;
    proof {
        assert(str_views(assets@.take(0)) =~= Seq::<Seq<char>>::empty());
        assert(str_views(out@) =~= Seq::<Seq<char>>::empty());
        reveal(Seq::filter);
    }
    while i < assets.len()
        invariant
            i <= assets.len(),
            str_views(out@) == without_self(str_views(assets@.take(i as int)), policy_id@),
        decreases assets.len() - i,
    {
        let ghost prev = str_views(out@);
        let ghost taken = str_views(assets@.take(i as int));
        if !assets[i].eq(policy_id) {
            out.push(assets[i].clone());
        }
        proof {
            reveal(Seq::filter);
            let t1 = str_views(assets@.take(i + 1));
            assert(t1.drop_last() =~= taken);
            assert(t1.last() == assets@[i as int]@);
            if assets@[i as int]@ != policy_id@ {
                assert(str_views(out@) =~= prev.push(assets@[i as int]@));
            }
            assert(without_self(t1, policy_id@) == str_views(out@));
        }
        i += 1;
    }
    proof {
        broadcast use vstd::seq_lib::group_filter_ensures;

        assert(assets@.take(assets@.len() as int) =~= assets@);
    }
    out
}

} // verus!
