use vstd::prelude::*;
use crate::errors::FetchError;
use crate::util::{str_eq, str_views};

verus! {

/// A loosely-typed on-chain metadata value: the shapes the extractor reads
/// (strings, lists, and key-value records), with everything else collapsed
/// into `Other`. The surrounding program converts fetched metadata into this
/// form before handing it to the library.
pub enum MetaValue {
    Text(String),
    List(Vec<MetaValue>),
    Record(Vec<MetaEntry>),
    Other,
}

/// One key-value pair of a metadata record.
pub struct MetaEntry {
    pub key: String,
    pub value: MetaValue,
}

/// One entry of the optional "files" list inside on-chain metadata.
pub struct AssetFile {
    pub media_type: String,
    pub name: String,
    pub src: String,
}

/// The value under `key` in a record, first match wins. Converted metadata
/// has each key at most once, so which match wins never matters there.
pub open spec fn lookup(entries: Seq<MetaEntry>, key: Seq<char>) -> Option<MetaValue>
    decreases entries.len(),
{
    if entries.len() == 0 {
        None
    } else if entries[0].key@ == key {
        Some(entries[0].value)
    } else {
        lookup(entries.drop_first(), key)
    }
}

/// Find `key` in a record.
pub fn lookup_value<'a>(entries: &'a Vec<MetaEntry>, key: &str) -> (r: Option<&'a MetaValue>)
    ensures
        match r {
            Some(v) => lookup(entries@, key@) == Some(*v),
            None => lookup(entries@, key@) is None,
        },
{
    let mut i: usize = 0;
    proof {
        assert(entries@.skip(0) =~= entries@);
    }
    while i < entries.len()
        invariant
            i <= entries.len(),
            lookup(entries@, key@) == lookup(entries@.skip(i as int), key@),
        decreases entries.len() - i,
    {
        proof {
            assert(entries@.skip(i as int)[0] == entries@[i as int]);
            assert(entries@.skip(i as int).drop_first() =~= entries@.skip(i + 1));
        }
        if str_eq(entries[i].key.as_str(), key) {
            return Some(&entries[i].value);
        }
        i += 1;
    }
    None
}

/// The fields of one "files" entry, if the value has the expected shape: a
/// record whose `mediaType`, `name` and `src` keys all hold strings.
pub open spec fn file_of_value(v: MetaValue) -> Option<(Seq<char>, Seq<char>, Seq<char>)> {
    match v {
        MetaValue::Record(entries) => match (
            lookup(entries@, "mediaType"@),
            lookup(entries@, "name"@),
            lookup(entries@, "src"@),
        ) {
            (
                Some(MetaValue::Text(media_type)),
                Some(MetaValue::Text(name)),
                Some(MetaValue::Text(src)),
            ) => Some((media_type@, name@, src@)),
            _ => None,
        },
        _ => None,
    }
}

/// The `src` field of one "files" entry, if it has the expected shape.
pub open spec fn file_src(v: MetaValue) -> Option<Seq<char>> {
    match file_of_value(v) {
        Some(fields) => Some(fields.2),
        None => None,
    }
}

/// Every entry of the "files" list has the expected shape.
pub open spec fn files_well_formed(items: Seq<MetaValue>) -> bool {
    forall|i: int| 0 <= i < items.len() ==> file_src(items[i]) is Some
}

/// The `src` fields of a well-formed "files" list, in order.
pub open spec fn file_srcs(items: Seq<MetaValue>) -> Seq<Seq<char>> {
    Seq::new(
        items.len(),
        |i: int|
            match file_src(items[i]) {
                Some(src) => src,
                None => Seq::empty(),
            },
    )
}

/// Parse one entry of the "files" list.
pub fn parse_file(v: &MetaValue) -> (r: Option<AssetFile>)
    ensures
        match r {
            Some(f) => file_of_value(*v) == Some((f.media_type@, f.name@, f.src@)),
            None => file_of_value(*v) is None,
        },
{
    match v {
        MetaValue::Record(entries) => {
            let media_type = lookup_value(entries, "mediaType");
            let name = lookup_value(entries, "name");
            let src = lookup_value(entries, "src");
            match (media_type, name, src) {
                (
                    Some(MetaValue::Text(media_type)),
                    Some(MetaValue::Text(name)),
                    Some(MetaValue::Text(src)),
                ) => Some(
                    AssetFile {
                        media_type: media_type.clone(),
                        name: name.clone(),
                        src: src.clone(),
                    },
                ),
                _ => None,
            }
        },
        _ => None,
    }
}

/// The metadata of one asset, as the record's entries, or nothing where the
/// asset carries no on-chain metadata at all.
pub open spec fn meta_view(meta: Option<Vec<MetaEntry>>) -> Option<Seq<MetaEntry>> {
    match meta {
        None => None,
        Some(entries) => Some(entries@),
    }
}

/// What source extraction yields on one asset's metadata: no metadata or no
/// "files" key yields the empty sequence; a "files" list of the expected
/// shape yields its `src` fields in order; any other shape is a parse
/// failure, modelled as `None`.
pub open spec fn extract_spec(meta: Option<Seq<MetaEntry>>) -> Option<Seq<Seq<char>>> {
    match meta {
        None => Some(Seq::empty()),
        Some(entries) => match lookup(entries, "files"@) {
            None => Some(Seq::empty()),
            Some(MetaValue::List(items)) => if files_well_formed(items@) {
                Some(file_srcs(items@))
            } else {
                None
            },
            Some(_) => None,
        },
    }
}

/// Metadata that lacks a "files" entry yields no sources and no error:
/// extraction returns the empty sequence and the walk over assets goes on.
pub proof fn lemma_missing_files_is_empty(entries: Seq<MetaEntry>)
    requires
        lookup(entries, "files"@) is None,
    ensures
        extract_spec(Some(entries)) == Some(Seq::<Seq<char>>::empty()),
{
}

/// Extract the raw, unnormalized image sources of one asset: the `src`
/// field of each entry of the optional "files" list inside its on-chain
/// metadata. Absence of metadata or of the "files" key yields no sources and
/// no error; a "files" value of any other shape is a parse error.
pub fn extract_sources(meta: &Option<Vec<MetaEntry>>) -> (r: Result<Vec<String>, FetchError>)
    ensures
        ({
            match extract_spec(meta_view(*meta)) {
                Some(srcs) => r matches Ok(v) && str_views(v@) == srcs,
                None => r matches Err(e) && e == FetchError::ParseError,
            }
        }),
{
    match meta {
        None => {
            let out: Vec<String> = Vec::new();
            proof {
                assert(str_views(out@) =~= Seq::<Seq<char>>::empty());
            }
            Ok(out)
        },
        Some(entries) => match lookup_value(entries, "files") {
            None => {
                let out: Vec<String> = Vec::new();
                proof {
                    assert(str_views(out@) =~= Seq::<Seq<char>>::empty());
                }
                Ok(out)
            },
            Some(MetaValue::List(items)) => {
                let mut out: Vec<String> = Vec::new();
                let mut i: usize = 0;
                while i < items.len()
                    invariant
                        meta_view(*meta) == Some(entries@),
                        lookup(entries@, "files"@) == Some(MetaValue::List(*items)),
                        i <= items.len(),
                        forall|k: int| 0 <= k < i ==> file_src(items@[k]) is Some,
                        str_views(out@) =~= file_srcs(items@.take(i as int)),
                    decreases items.len() - i,
                {
                    let ghost prev = out@;
                    match parse_file(&items[i]) {
                        Some(f) => {
                            let ghost srcv = f.src@;
                            out.push(f.src);
                            proof {
                                let t1 = items@.take(i + 1);
                                assert(str_views(out@) =~= str_views(prev).push(srcv));
                                assert(file_src(items@[i as int]) == Some(srcv));
                                assert forall|k: int| 0 <= k < t1.len() implies str_views(
                                    out@,
                                )[k] == file_srcs(t1)[k] by {
                                    assert(t1[k] == items@[k]);
                                    if k < i {
                                        assert(items@.take(i as int)[k] == items@[k]);
                                        assert(str_views(prev)[k] == file_srcs(
                                            items@.take(i as int),
                                        )[k]);
                                    }
                                }
                                assert(str_views(out@) =~= file_srcs(t1));
                            }
                        },
                        None => {
                            proof {
                                assert(file_src(items@[i as int]) is None);
                                assert(!files_well_formed(items@));
                            }
                            return Err(FetchError::ParseError);
                        },
                    }
                    i += 1;
                }
                proof {
                    assert(items@.take(items@.len() as int) =~= items@);
                }
                Ok(out)
            },
            Some(_) => Err(FetchError::ParseError),
        },
    }
}

} // verus!
