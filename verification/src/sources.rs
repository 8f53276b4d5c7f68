use vstd::prelude::*;
use vstd::string::StrSliceExecFns;
use crate::util::{lemma_push_no_duplicates, lemma_push_to_set, str_views};

verus! {

/// Does `s` begin with the scheme prefix `ipfs://`?
pub open spec fn has_ipfs_prefix(s: Seq<char>) -> bool {
    s.len() >= 7 && s.subrange(0, 7) == "ipfs://"@
}

/// Normalization of one image source: a leading `ipfs://` is removed,
/// anything else is kept verbatim.
pub open spec fn normalize_spec(s: Seq<char>) -> Seq<char> {
    if has_ipfs_prefix(s) {
        s.subrange(7, s.len() as int)
    } else {
        s
    }
}

/// Strip a leading `ipfs://` from a source, if present.
pub fn normalize_source(src: &String) -> (r: String)
    ensures
        r@ == normalize_spec(src@),
{
    let s = src.as_str();
    let n = s.unicode_len();
    proof {
        reveal_strlit("ipfs://");
    }
    if n >= 7 && s.get_char(0) == 'i' && s.get_char(1) == 'p' && s.get_char(2) == 'f'
        && s.get_char(3) == 's' && s.get_char(4) == ':' && s.get_char(5) == '/'
        && s.get_char(6) == '/' {
        proof {
            assert(s@.subrange(0, 7) =~= "ipfs://"@);
        }
        s.substring_char(7, n).to_owned()
    } else {
        proof {
            if has_ipfs_prefix(s@) {
                assert(s@.subrange(0, 7)[0] == 'i');
                assert(s@.subrange(0, 7)[1] == 'p');
                assert(s@.subrange(0, 7)[2] == 'f');
                assert(s@.subrange(0, 7)[3] == 's');
                assert(s@.subrange(0, 7)[4] == ':');
                assert(s@.subrange(0, 7)[5] == '/');
                assert(s@.subrange(0, 7)[6] == '/');
            }
        }
        s.to_owned()
    }
}

/// Normalizing an already-normalized source changes nothing: once no
/// `ipfs://` prefix is left, stripping is never reapplied. Sources whose
/// stripped remainder itself begins with `ipfs://` are the one family this
/// does not hold of, and they are excluded by the precondition.
pub proof fn lemma_normalize_idempotent(s: Seq<char>)
    requires
        !has_ipfs_prefix(normalize_spec(s)),
    ensures
        normalize_spec(normalize_spec(s)) == normalize_spec(s),
{
}

/// The deduplicated set of normalized image sources gathered so far.
pub struct ImageSourceSet {
    sources: Vec<String>,
}

impl View for ImageSourceSet {
    type V = Set<Seq<char>>;

    /// The mathematical set of sources held.
    closed spec fn view(&self) -> Set<Seq<char>> {
        str_views(self.sources@).to_set()
    }
}

impl ImageSourceSet {
    /// Well-formedness: the backing storage holds each source once.
    pub closed spec fn wf(&self) -> bool {
        str_views(self.sources@).no_duplicates()
    }

    /// An empty source set.
    pub fn new() -> (s: ImageSourceSet)
        ensures
            s.wf(),
            s@ == Set::<Seq<char>>::empty(),
    {
        let s = ImageSourceSet { sources: Vec::new() };
        proof {
            assert(s@ =~= Set::<Seq<char>>::empty());
        }
        s
    }

    /// The number of distinct sources held.
    pub fn len(&self) -> (n: usize)
        requires
            self.wf(),
        ensures
            n == self@.len(),
    {
        proof {
            str_views(self.sources@).unique_seq_to_set();
        }
        self.sources.len()
    }

    /// Is `x` already held?
    pub fn contains(&self, x: &String) -> (b: bool)
        ensures
            b == self@.contains(x@),
    {
        crate::util::vec_contains_string(&self.sources, x)
    }

    /// Insert a source verbatim; a value already held is left alone.
    pub fn insert(&mut self, x: String)
        requires
            old(self).wf(),
        ensures
            final(self).wf(),
            final(self)@ == old(self)@.insert(x@),
    {
        if !self.contains(&x) {
            let ghost prev = self.sources@;
            proof {
                assert(!str_views(prev).contains(x@));
            }
            self.sources.push(x);
            proof {
                assert(str_views(self.sources@) =~= str_views(prev).push(x@));
                lemma_push_no_duplicates(str_views(prev), x@);
                lemma_push_to_set(str_views(prev), x@);
            }
        } else {
            proof {
                assert(self@.insert(x@) =~= self@);
            }
        }
    }

    /// The sources held, each once, in insertion order.
    pub fn as_vec(&self) -> (r: &Vec<String>)
        requires
            self.wf(),
        ensures
            str_views(r@).to_set() == self@,
            str_views(r@).no_duplicates(),
            r@.len() == self@.len(),
    {
        proof {
            str_views(self.sources@).unique_seq_to_set();
        }
        &self.sources
    }
}

/// The set that results from folding `sources` into `acc`: each source is
/// normalized and inserted in order, and folding stops the moment the set's
/// cardinality reaches `quota` — checked after each insertion, so an
/// insertion that lands exactly on the quota is the last one performed.
pub open spec fn accumulate_spec(acc: Set<Seq<char>>, sources: Seq<Seq<char>>, quota: int) -> Set<
    Seq<char>,
>
    decreases sources.len(),
{
    if sources.len() == 0 {
        acc
    } else {
        let acc2 = acc.insert(normalize_spec(sources[0]));
        if acc2.len() >= quota {
            acc2
        } else {
            accumulate_spec(acc2, sources.drop_first(), quota)
        }
    }
}

/// Fold one asset's raw sources into the set, deduplicating and enforcing
/// the quota. Returns true exactly when the quota is now reached, which
/// tells the caller to stop iterating further assets.
pub fn accumulate(sources: &Vec<String>, quota: usize, into: &mut ImageSourceSet) -> (stop: bool)
    requires
        old(into).wf(),
        old(into)@.len() < quota,
    ensures
        final(into).wf(),
        final(into)@ == accumulate_spec(old(into)@, str_views(sources@), quota as int),
        stop == (final(into)@.len() >= quota),
        final(into)@.len() <= quota,
        old(into)@.subset_of(final(into)@),
{
    let mut i: usize = 0;
    let mut stop = false;
    proof {
        assert(str_views(sources@).skip(0) =~= str_views(sources@));
    }
    while i < sources.len() && !stop
        invariant
            i <= sources.len(),
            into.wf(),
            old(into)@.subset_of(into@),
            into@.len() <= quota,
            !stop ==> into@.len() < quota,
            !stop ==> accumulate_spec(old(into)@, str_views(sources@), quota as int)
                == accumulate_spec(into@, str_views(sources@).skip(i as int), quota as int),
            stop ==> into@ == accumulate_spec(old(into)@, str_views(sources@), quota as int)
                && into@.len() >= quota,
        decreases sources.len() - i,
    {
        let normalized = normalize_source(&sources[i]);
        let ghost before = into@;
        let ghost rest = str_views(sources@).skip(i as int);
        into.insert(normalized);
        if into.len() >= quota {
            stop = true;
        }
        proof {
            assert(rest[0] == str_views(sources@)[i as int]);
            assert(rest.drop_first() =~= str_views(sources@).skip(i + 1));
            assert(accumulate_spec(before, rest, quota as int) == (if into@.len() >= quota {
                into@
            } else {
                accumulate_spec(into@, str_views(sources@).skip(i + 1), quota as int)
            }));
        }
        i += 1;
    }
    proof {
        if !stop {
            assert(str_views(sources@).skip(sources@.len() as int) =~= Seq::<Seq<char>>::empty());
        }
    }
    stop
}

} // verus!
