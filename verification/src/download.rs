//! The download plan: which covers are fetched, where they are stored.
//!
//! Each record that carries an artist name, an album title and a
//! derived artwork URL yields one task, in sequence order.  The task
//! holds the names as displayed, the sanitized directory segments, and
//! the URL to fetch.  Records lacking any of the three fields are
//! skipped silently: they are policy, not failures.

use vstd::prelude::*;
use crate::record::AlbumRecord;
use crate::record::RecordModel;
use crate::record::eligible_spec;
use crate::record::models;
use crate::sanitize::sanitize_filename;
use crate::sanitize::sanitize_spec;

verus! {

/// One cover download to perform.
pub struct DownloadTask {
    /// Artist name as displayed in progress lines.
    pub artist_name: String,
    /// Album title as displayed in progress lines.
    pub album_name: String,
    /// Sanitized artist directory segment.
    pub artist_dir: String,
    /// Sanitized album directory segment.
    pub album_dir: String,
    /// Full-resolution artwork URL to fetch.
    pub url: String,
}

/// The mathematical model of a `DownloadTask`.
pub struct TaskModel {
    pub artist_name: Seq<char>,
    pub album_name: Seq<char>,
    pub artist_dir: Seq<char>,
    pub album_dir: Seq<char>,
    pub url: Seq<char>,
}

impl View for DownloadTask {
    type V = TaskModel;

    open spec fn view(&self) -> TaskModel {
        TaskModel {
            artist_name: self.artist_name@,
            album_name: self.album_name@,
            artist_dir: self.artist_dir@,
            album_dir: self.album_dir@,
            url: self.url@,
        }
    }
}

/// The models of a sequence of tasks, in order.
pub open spec fn task_models(ts: Seq<DownloadTask>) -> Seq<TaskModel> {
    ts.map_values(|t: DownloadTask| t@)
}

/// The task derived from an eligible record.
pub open spec fn task_of(r: RecordModel) -> TaskModel {
    TaskModel {
        artist_name: r.artist_name->0,
        album_name: r.collection_name->0,
        artist_dir: sanitize_spec(r.artist_name->0),
        album_dir: sanitize_spec(r.collection_name->0),
        url: r.artwork_url->0,
    }
}

/// The ordered download plan of a record sequence: one task per
/// eligible record.
pub open spec fn plan_spec(rs: Seq<RecordModel>) -> Seq<TaskModel>
    decreases rs.len(),
{
    if rs.len() == 0 {
        Seq::empty()
    } else {
        let init = plan_spec(rs.drop_last());
        if eligible_spec(rs.last()) {
            init.push(task_of(rs.last()))
        } else {
            init
        }
    }
}

/// A record that lacks the artist name, the album title or the derived
/// artwork URL adds nothing to the download plan: it is skipped, and
/// the run goes on.
pub proof fn lemma_ineligible_excluded(rs: Seq<RecordModel>, r: RecordModel)
    requires
        !eligible_spec(r),
    ensures
        plan_spec(rs.push(r)) == plan_spec(rs),
{
    assert(rs.push(r).drop_last() =~= rs);
}

/// Build the ordered download plan: one task per eligible record, with
/// sanitized directory segments and the derived URL.  Ineligible
/// records are passed over without error.
pub fn download_plan(records: &Vec<AlbumRecord>) -> (tasks: Vec<DownloadTask>)
    ensures
        task_models(tasks@) == plan_spec(models(records@)),
{
    let mut tasks: Vec<DownloadTask> = Vec::new();
    let mut i: usize = 0;
    proof {
        assert(task_models(tasks@) =~= plan_spec(models(records@).take(0)));
    }
    while i < records.len()
        invariant
            i <= records@.len(),
            task_models(tasks@) == plan_spec(models(records@).take(i as int)),
        decreases records@.len() - i,
    {
        proof {
            assert(models(records@).take(i + 1).drop_last() =~= models(records@).take(i as int));
            assert(models(records@).take(i + 1).last() == records@[i as int]@);
        }
        let rec = &records[i];
        match (&rec.artist_name, &rec.collection_name, &rec.artwork_url) {
            (Some(artist), Some(album), Some(url)) => {
                let task = DownloadTask {
                    artist_name: artist.clone(),
                    album_name: album.clone(),
                    artist_dir: sanitize_filename(artist.as_str()),
                    album_dir: sanitize_filename(album.as_str()),
                    url: url.clone(),
                };
                let ghost prev = task_models(tasks@);
                tasks.push(task);
                proof {
                    assert(task_models(tasks@) =~= prev.push(task_of(records@[i as int]@)));
                }
            },
            _ => {},
        }
        i = i + 1;
    }
    proof {
        assert(models(records@).take(records@.len() as int) =~= models(records@));
    }
    tasks
}

} // verus!
