use vstd::prelude::*;
use crate::errors::{FetchError, PolicyError};
use crate::util::{lemma_push_no_duplicates, lemma_push_to_set, str_views, vec_contains_string};

verus! {

/// One entry of the catalog's collection listing.
pub struct Collection {
    pub collection_id: String,
    pub description: String,
    pub blockchain: String,
    pub network: String,
}

/// The parsed body of the catalog's collection listing.
pub struct CollectionDirectory {
    pub collection_type: String,
    pub entries: Vec<Collection>,
}

/// The collection identifiers of a sequence of entries, in order.
pub open spec fn entry_ids(entries: Seq<Collection>) -> Seq<Seq<char>> {
    entries.map_values(|c: Collection| c.collection_id@)
}

impl CollectionDirectory {
    /// The set of policy identifiers the directory knows of.
    pub open spec fn id_set(&self) -> Set<Seq<char>> {
        entry_ids(self.entries@).to_set()
    }
}

/// A fetch succeeds only on a status in the 2xx range; any other status is
/// reported as `BadStatus` carrying the observed code.
pub fn check_status(code: u16) -> (r: Result<(), FetchError>)
    ensures
        r is Ok <==> 200 <= code < 300,
        r matches Err(e) ==> e == FetchError::BadStatus(code),
{
    if 200 <= code && code < 300 {
        Ok(())
    } else {
        Err(FetchError::BadStatus(code))
    }
}

/// The distinct collection identifiers of the directory. Duplicate entries
/// collapse: the result holds each identifier once, so its length is the
/// number of distinct identifiers, and membership in it is membership in the
/// directory's id set.
pub fn collection_ids(dir: &CollectionDirectory) -> (r: Vec<String>)
    ensures
        str_views(r@).to_set() == dir.id_set(),
        str_views(r@).no_duplicates(),
        r@.len() == dir.id_set().len(),
{
    let mut out: Vec<String> = Vec::new();
    let mut i: usize = 0;
    while i < dir.entries.len()
        invariant
            i <= dir.entries.len(),
            str_views(out@).no_duplicates(),
            str_views(out@).to_set() == entry_ids(dir.entries@.take(i as int)).to_set(),
        decreases dir.entries.len() - i,
    {
        let id = &dir.entries[i].collection_id;
        let ghost prev = out@;
        if !vec_contains_string(&out, id) {
            out.push(id.clone());
            proof {
                assert(str_views(out@) =~= str_views(prev).push(id@));
                lemma_push_no_duplicates(str_views(prev), id@);
            }
        }
        proof {
            assert(entry_ids(dir.entries@.take(i + 1)) =~= entry_ids(
                dir.entries@.take(i as int),
            ).push(id@));
            lemma_push_to_set(entry_ids(dir.entries@.take(i as int)), id@);
            if str_views(prev).contains(id@) {
                assert(str_views(out@).to_set() =~= entry_ids(dir.entries@.take(i + 1)).to_set());
            } else {
                lemma_push_to_set(str_views(prev), id@);
                assert(str_views(out@).to_set() =~= entry_ids(dir.entries@.take(i + 1)).to_set());
            }
        }
        i += 1;
    }
    proof {
        assert(dir.entries@.take(dir.entries@.len() as int) =~= dir.entries@);
        str_views(out@).unique_seq_to_set();
    }
    out
}

/// Resolution succeeds exactly when the supplied policy identifier is a
/// member of the directory's id set; otherwise it fails with `NotFound`
/// carrying that identifier.
pub fn resolve(policy_id: &String, dir: &CollectionDirectory) -> (r: Result<(), PolicyError>)
    ensures
        r is Ok <==> dir.id_set().contains(policy_id@),
        r matches Err(e) ==> (e matches PolicyError::NotFound(id) && id@ == policy_id@),
{
    let ids = collection_ids(dir);
    if vec_contains_string(&ids, policy_id) {
        Ok(())
    } else {
        Err(PolicyError::NotFound(policy_id.clone()))
    }
}

} // verus!
