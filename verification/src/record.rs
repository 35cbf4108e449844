//! Album records and the filter/upgrade pipeline.
//!
//! One lookup response yields an ordered sequence of records, validated
//! at ingestion into named optional fields.  The pipeline keeps the
//! records whose artist name case-folds to the queried name and
//! annotates each kept record with the derived full-resolution artwork
//! URL.

use vstd::prelude::*;
use crate::artwork::upgrade_artwork_url;
use crate::artwork::upgrade_spec;

verus! {

/// One result record of the album lookup.  Catalog fields that the
/// pipeline never reads stay with the unverified front end.
pub struct AlbumRecord {
    /// The artist credited for this record, when the record names one.
    pub artist_name: Option<String>,
    /// The album title; absent on non-album records.
    pub collection_name: Option<String>,
    /// The thumbnail artwork URL, when present.
    pub artwork_url100: Option<String>,
    /// The derived full-resolution URL; set by the upgrader alone.
    pub artwork_url: Option<String>,
}

/// The mathematical model of an `AlbumRecord`: each field as a
/// character sequence.
pub struct RecordModel {
    pub artist_name: Option<Seq<char>>,
    pub collection_name: Option<Seq<char>>,
    pub artwork_url100: Option<Seq<char>>,
    pub artwork_url: Option<Seq<char>>,
}

impl View for AlbumRecord {
    type V = RecordModel;

    open spec fn view(&self) -> RecordModel {
        RecordModel {
            artist_name: match self.artist_name {
                Some(s) => Some(s@),
                None => None,
            },
            collection_name: match self.collection_name {
                Some(s) => Some(s@),
                None => None,
            },
            artwork_url100: match self.artwork_url100 {
                Some(s) => Some(s@),
                None => None,
            },
            artwork_url: match self.artwork_url {
                Some(s) => Some(s@),
                None => None,
            },
        }
    }
}

/// The models of a sequence of records, in order.
pub open spec fn models(rs: Seq<AlbumRecord>) -> Seq<RecordModel> {
    rs.map_values(|r: AlbumRecord| r@)
}

/// The case-folded form of `s`, as `str::to_lowercase` computes it.
pub uninterp spec fn lower_of(s: Seq<char>) -> Seq<char>;

/// Relies on `str::to_lowercase`: the result depends on the characters
/// of `s` alone.
#[verifier::external_body]
fn fold_case(s: &str) -> (r: String)
    ensures
        r@ == lower_of(s@),
{
    s.to_lowercase()
}

/// The artist-match filter keeps a record iff it names an artist and
/// that name, case-folded, equals the case-folded query name.  A record
/// with no artist name is always dropped.
pub open spec fn keep_spec(r: RecordModel, query: Seq<char>) -> bool {
    match r.artist_name {
        Some(a) => lower_of(a) == lower_of(query),
        None => false,
    }
}

/// Decide the artist-match filter for one record.
pub fn keep_record(rec: &AlbumRecord, query: &str) -> (r: bool)
    ensures
        r == keep_spec(rec@, query@),
{
    match &rec.artist_name {
        Some(a) => {
            let la = fold_case(a.as_str());
            let lq = fold_case(query);
            la == lq
        },
        None => false,
    }
}

/// The record after artwork upgrade: `artwork_url` is set when the
/// thumbnail URL is present and parseable, and the record is otherwise
/// unchanged; when it is not, the record is returned as it came.
pub open spec fn upgrade_record_spec(r: RecordModel) -> RecordModel {
    match r.artwork_url100 {
        Some(u) => match upgrade_spec(u) {
            Some(nu) => RecordModel {
                artist_name: r.artist_name,
                collection_name: r.collection_name,
                artwork_url100: r.artwork_url100,
                artwork_url: Some(nu),
            },
            None => r,
        },
        None => r,
    }
}

/// Annotate one record with its derived full-resolution artwork URL.
pub fn upgrade_record(rec: AlbumRecord) -> (out: AlbumRecord)
    ensures
        out@ == upgrade_record_spec(rec@),
{
    let derived: Option<String> = match &rec.artwork_url100 {
        Some(u) => upgrade_artwork_url(u.as_str()),
        None => None,
    };
    match derived {
        Some(nu) => AlbumRecord {
            artist_name: rec.artist_name,
            collection_name: rec.collection_name,
            artwork_url100: rec.artwork_url100,
            artwork_url: Some(nu),
        },
        None => rec,
    }
}

fn clone_record(rec: &AlbumRecord) -> (out: AlbumRecord)
    ensures
        out@ == rec@,
{
    AlbumRecord {
        artist_name: match &rec.artist_name {
            Some(s) => Some(s.clone()),
            None => None,
        },
        collection_name: match &rec.collection_name {
            Some(s) => Some(s.clone()),
            None => None,
        },
        artwork_url100: match &rec.artwork_url100 {
            Some(s) => Some(s.clone()),
            None => None,
        },
        artwork_url: match &rec.artwork_url {
            Some(s) => Some(s.clone()),
            None => None,
        },
    }
}

/// The pipeline over a whole response: the records that pass the
/// artist-match filter, in response order, each annotated by the
/// upgrader.
pub open spec fn process_spec(rs: Seq<RecordModel>, query: Seq<char>) -> Seq<RecordModel>
    decreases rs.len(),
{
    if rs.len() == 0 {
        Seq::empty()
    } else {
        let init = process_spec(rs.drop_last(), query);
        if keep_spec(rs.last(), query) {
            init.push(upgrade_record_spec(rs.last()))
        } else {
            init
        }
    }
}

/// Filter the lookup records by artist match and annotate each kept
/// record with its derived artwork URL, keeping the response order.
pub fn process_records(records: &Vec<AlbumRecord>, query: &str) -> (out: Vec<AlbumRecord>)
    ensures
        models(out@) == process_spec(models(records@), query@),
{
    let mut out: Vec<AlbumRecord> = Vec::new();
    let mut i: usize = 0;
    proof {
        assert(models(out@) =~= process_spec(models(records@).take(0), query@));
    }
    while i < records.len()
        invariant
            i <= records@.len(),
            models(out@) == process_spec(models(records@).take(i as int), query@),
        decreases records@.len() - i,
    {
        let rec = clone_record(&records[i]);
        proof {
            assert(models(records@).take(i + 1).drop_last() =~= models(records@).take(i as int));
            assert(models(records@).take(i + 1).last() == records@[i as int]@);
        }
        if keep_record(&rec, query) {
            let up = upgrade_record(rec);
            let ghost prev = models(out@);
            out.push(up);
            proof {
                assert(models(out@) =~= prev.push(up@));
            }
        }
        i = i + 1;
    }
    proof {
        assert(models(records@).take(records@.len() as int) =~= models(records@));
    }
    out
}

/// A record eligible for download: artist name, album title and derived
/// artwork URL all present.
pub open spec fn eligible_spec(r: RecordModel) -> bool {
    r.artist_name is Some && r.collection_name is Some && r.artwork_url is Some
}

/// Whether one record is eligible for download.
pub fn eligible_record(rec: &AlbumRecord) -> (r: bool)
    ensures
        r == eligible_spec(rec@),
{
    rec.artist_name.is_some() && rec.collection_name.is_some() && rec.artwork_url.is_some()
}

/// The number of records that carry an album title.
pub open spec fn album_count_spec(rs: Seq<RecordModel>) -> int
    decreases rs.len(),
{
    if rs.len() == 0 {
        0
    } else {
        album_count_spec(rs.drop_last()) + if rs.last().collection_name is Some {
            1int
        } else {
            0int
        }
    }
}

/// Count the records that carry an album title: the total shown by the
/// progress display.
pub fn count_albums(records: &Vec<AlbumRecord>) -> (n: usize)
    ensures
        n == album_count_spec(models(records@)),
{
    let mut n: usize = 0;
    let mut i: usize = 0;
    while i < records.len()
        invariant
            i <= records@.len(),
            n <= i,
            n == album_count_spec(models(records@).take(i as int)),
        decreases records@.len() - i,
    {
        proof {
            assert(models(records@).take(i + 1).drop_last() =~= models(records@).take(i as int));
            assert(models(records@).take(i + 1).last() == records@[i as int]@);
        }
        if records[i].collection_name.is_some() {
            n = n + 1;
        }
        i = i + 1;
    }
    proof {
        assert(models(records@).take(records@.len() as int) =~= models(records@));
    }
    n
}

} // verus!
