use vstd::prelude::*;
use crate::directory::CollectionDirectory;
use crate::errors::{FetchError, PolicyError};
use crate::metadata::{extract_sources, extract_spec, meta_view, MetaEntry};
use crate::sources::{accumulate, accumulate_spec, ImageSourceSet};
use crate::util::str_views;

verus! {

/// What a run does once the directory is in hand: with no policy identifier
/// supplied, the directory alone is emitted; with one that resolves, its
/// assets are enumerated; one that does not resolve stops the run before any
/// asset work.
#[derive(Debug)]
pub enum RunPlan {
    ListDirectory,
    EnumerateAssets(String),
}

/// Decide the run's next stage from the directory and the optionally
/// supplied policy identifier. Enumeration is planned exactly for a supplied
/// identifier that is a member of the directory's id set, so a run that
/// follows the plan never enumerates an unresolved policy.
pub fn plan_run(policy_id: &Option<String>, dir: &CollectionDirectory) -> (r: Result<
    RunPlan,
    PolicyError,
>)
    ensures
        ({
            match *policy_id {
                None => r matches Ok(plan) && plan matches RunPlan::ListDirectory,
                Some(p) => if dir.id_set().contains(p@) {
                    r matches Ok(plan) && plan matches RunPlan::EnumerateAssets(q) && q@ == p@
                } else {
                    r matches Err(e) && e matches PolicyError::NotFound(id) && id@ == p@
                },
            }
        }),
{
    match policy_id {
        None => Ok(RunPlan::ListDirectory),
        Some(p) => match crate::directory::resolve(p, dir) {
            Ok(()) => Ok(RunPlan::EnumerateAssets(p.clone())),
            Err(e) => Err(e),
        },
    }
}

/// The set gathered by walking assets in enumeration order, starting from
/// `acc`: each asset's metadata yields its raw sources, which are folded in
/// with deduplication under the quota; the walk stops at the first asset
/// whose fold reaches the quota, and a metadata shape mismatch anywhere
/// before that aborts the whole walk (`None`).
pub open spec fn collect_spec(
    metas: Seq<Option<Seq<MetaEntry>>>,
    quota: int,
    acc: Set<Seq<char>>,
) -> Option<Set<Seq<char>>>
    decreases metas.len(),
{
    if metas.len() == 0 {
        Some(acc)
    } else {
        match extract_spec(metas[0]) {
            None => None,
            Some(srcs) => {
                let acc2 = accumulate_spec(acc, srcs, quota);
                if acc2.len() >= quota {
                    Some(acc2)
                } else {
                    collect_spec(metas.drop_first(), quota, acc2)
                }
            },
        }
    }
}

/// The per-asset metadata, each either the record's entries or nothing.
pub open spec fn metas_view(metas: Seq<Option<Vec<MetaEntry>>>) -> Seq<Option<Seq<MetaEntry>>> {
    metas.map_values(|m: Option<Vec<MetaEntry>>| meta_view(m))
}

/// Walk the assets' metadata in enumeration order, extracting each asset's
/// sources and folding them into one deduplicated set, until the quota is
/// reached or the assets run out. The first metadata shape mismatch aborts
/// the run with a parse error, and nothing is returned for it.
pub fn collect_image_sources(metas: &Vec<Option<Vec<MetaEntry>>>, quota: usize) -> (r: Result<
    ImageSourceSet,
    FetchError,
>)
    requires
        quota >= 1,
    ensures
        ({
            match r {
                Ok(set) => set.wf() && Some(set@) == collect_spec(
                    metas_view(metas@),
                    quota as int,
                    Set::empty(),
                ) && set@.len() <= quota,
                Err(e) => e == FetchError::ParseError && collect_spec(
                    metas_view(metas@),
                    quota as int,
                    Set::empty(),
                ) is None,
            }
        }),
{
    let mut set = ImageSourceSet::new();
    let mut i: usize = 0;
    let mut stop = false;
    proof {
        assert(metas_view(metas@).skip(0) =~= metas_view(metas@));
    }
    while i < metas.len() && !stop
        invariant
            quota >= 1,
            i <= metas.len(),
            set.wf(),
            set@.len() <= quota,
            !stop ==> set@.len() < quota,
            !stop ==> collect_spec(metas_view(metas@), quota as int, Set::empty())
                == collect_spec(metas_view(metas@).skip(i as int), quota as int, set@),
            stop ==> Some(set@) == collect_spec(metas_view(metas@), quota as int, Set::empty()),
        decreases metas.len() - i,
    {
        let ghost rest = metas_view(metas@).skip(i as int);
        let ghost before = set@;
        proof {
            assert(rest[0] == metas_view(metas@)[i as int]);
            assert(rest.drop_first() =~= metas_view(metas@).skip(i + 1));
        }
        match extract_sources(&metas[i]) {
            Err(_) => {
                proof {
                    assert(extract_spec(rest[0]) is None);
                }
                return Err(FetchError::ParseError);
            },
            Ok(srcs) => {
                stop = accumulate(&srcs, quota, &mut set);
                proof {
                    assert(extract_spec(rest[0]) == Some(str_views(srcs@)));
                    assert(set@ == accumulate_spec(before, str_views(srcs@), quota as int));
                }
            },
        }
        i += 1;
    }
    proof {
        if !stop {
            assert(metas_view(metas@).skip(metas@.len() as int) =~= Seq::<
                Option<Seq<MetaEntry>>,
            >::empty());
        }
    }
    Ok(set)
}

/// With no assets enumerated, the walk gathers nothing: the resulting image
/// source set is empty, whatever the quota.
pub proof fn lemma_no_assets_no_sources(quota: int)
    ensures
        collect_spec(Seq::empty(), quota, Set::empty()) == Some(Set::<Seq<char>>::empty()),
{
}

} // verus!
