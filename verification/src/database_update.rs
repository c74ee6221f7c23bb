//! The local SCUnpacked database inbox: which dropped-in archive or folder
//! is the next install candidate, and whether a dataset has the files the
//! scanner needs.
use vstd::prelude::*;

use crate::text::{chars_of, eq_ignore_ascii_case, is_match_at, lower, starts_with};

verus! {

/// The database directory, the installed dataset and the install candidate.
#[derive(Debug, Clone)]
pub struct DatabaseInboxState {
    pub root: String,
    pub installed: Option<String>,
    pub candidate: Option<String>,
}

impl DatabaseInboxState {
    /// `UPDATE` when a dataset is installed, else `INSTALL`.
    pub fn action_label(&self) -> (r: &'static str)
        ensures
            r@ == (if self.installed is Some {
                "UPDATE"@
            } else {
                "INSTALL"@
            }),
    {
        if self.installed.is_some() {
            "UPDATE"
        } else {
            "INSTALL"
        }
    }
}

/// An entry of the database directory, as the file system describes it.
/// `has_dataset` tells whether a directory holds a dataset within four
/// levels; `modified_ns` is the modification time in nanoseconds since the
/// Unix epoch (0 when unknown).
#[derive(Debug, Clone)]
pub struct DatabaseEntry {
    pub path: String,
    pub name: Option<String>,
    pub is_file: bool,
    pub is_dir: bool,
    pub extension: Option<String>,
    pub has_dataset: bool,
    pub modified_ns: i128,
}

/// The installed dataset and the installer's own working directories are
/// never candidates.
pub open spec fn reserved_name(name: Seq<char>) -> bool {
    lower(name) == lower("installed"@) || starts_with(name, ".install-"@) || lower(name) == lower(
        ".installed-new"@,
    )
}

/// A ZIP file, or a directory that holds a dataset, with a name that is not
/// reserved.
pub open spec fn is_candidate(e: DatabaseEntry) -> bool {
    &&& match e.name {
        Some(n) => !reserved_name(n@),
        None => true,
    }
    &&& if e.is_file {
        match e.extension {
            Some(x) => lower(x@) == lower("zip"@),
            None => false,
        }
    } else {
        e.is_dir && e.has_dataset
    }
}

/// `i` is the first candidate with the latest modification time.
pub open spec fn newest_candidate(es: Seq<DatabaseEntry>, n: int, i: int) -> bool {
    &&& 0 <= i < n <= es.len()
    &&& is_candidate(es[i])
    &&& forall|j: int| 0 <= j < n && is_candidate(#[trigger] es[j]) ==> es[j].modified_ns <= es[i].modified_ns
    &&& forall|j: int| 0 <= j < i && is_candidate(#[trigger] es[j]) ==> es[j].modified_ns < es[i].modified_ns
}

pub open spec fn has_candidate(es: Seq<DatabaseEntry>, n: int) -> bool {
    exists|j: int| 0 <= j < n && is_candidate(#[trigger] es[j])
}

fn ext_is(extension: &Option<String>, wanted: &str) -> (r: bool)
    ensures
        r == match *extension {
            Some(x) => lower(x@) == lower(wanted@),
            None => false,
        },
{
    match extension {
        Some(x) => eq_ignore_ascii_case(&chars_of(x.as_str()), &chars_of(wanted)),
        None => false,
    }
}

fn entry_is_candidate(e: &DatabaseEntry) -> (r: bool)
    ensures
        r == is_candidate(*e),
{
    let reserved = match &e.name {
        Some(n) => {
            let nc = chars_of(n.as_str());
            eq_ignore_ascii_case(&nc, &chars_of("installed")) || is_match_at(
                &nc,
                0,
                &chars_of(".install-"),
            ) || eq_ignore_ascii_case(&nc, &chars_of(".installed-new"))
        },
        None => false,
    };
    if reserved {
        return false;
    }
    if e.is_file {
        ext_is(&e.extension, "zip")
    } else {
        e.is_dir && e.has_dataset
    }
}

/// The install candidate: the most recently modified candidate entry, the
/// first of them on a tie; none when there is no candidate.
pub fn pick_candidate(entries: &[DatabaseEntry]) -> (r: Option<String>)
    ensures
        r is None <==> !has_candidate(entries@, entries@.len() as int),
        r is Some ==> exists|i: int|
            newest_candidate(entries@, entries@.len() as int, i) && r->0@ == (
            #[trigger] entries@[i]).path@,
{
    let mut best: Option<usize> = None;
    let mut i: usize = 0;
    while i < entries.len()
        invariant
            i <= entries.len(),
            best is None ==> !has_candidate(entries@, i as int),
            best is Some ==> newest_candidate(entries@, i as int, best->0 as int),
        decreases entries.len() - i,
    {
        let ok = entry_is_candidate(&entries[i]);
        if ok {
            match best {
                None => {
                    best = Some(i);
                    assert(newest_candidate(entries@, i + 1, i as int));
                },
                Some(b) => {
                    if entries[i].modified_ns > entries[b].modified_ns {
                        best = Some(i);
                        assert(newest_candidate(entries@, i + 1, i as int));
                    } else {
                        assert(newest_candidate(entries@, i + 1, b as int));
                    }
                },
            }
        } else {
            proof {
                if best is Some {
                    assert(newest_candidate(entries@, i + 1, best->0 as int));
                }
            }
        }
        i += 1;
    }
    match best {
        Some(b) => {
            let p = entries[b].path.clone();
            assert(p@ == entries@[b as int].path@);
            Some(p)
        },
        None => None,
    }
}

/// Why a folder is not a usable dataset.
#[derive(Debug, Clone, PartialEq, Eq)]
pub enum DatasetProblem {
    /// No directory below it holds `resources/commodities.json`.
    NotFound,
    /// The dataset's `resources` directory lacks this file.
    MissingFile(String),
}

/// A dataset is usable when it was found and its resources hold both the
/// commodity table and the trade-location table; the first missing file is
/// reported.
pub fn validate_dataset(dataset_found: bool, has_commodities: bool, has_trade_locations: bool) -> (r:
    Result<(), DatasetProblem>)
    ensures
        !dataset_found ==> r == Err::<(), DatasetProblem>(DatasetProblem::NotFound),
        dataset_found && !has_commodities ==> (r matches Err(DatasetProblem::MissingFile(f)) && f@
            == "commodities.json"@),
        dataset_found && has_commodities && !has_trade_locations ==> (r matches Err(
            DatasetProblem::MissingFile(f),
        ) && f@ == "commodity_trade_locations.json"@),
        dataset_found && has_commodities && has_trade_locations ==> r is Ok,
{
    if !dataset_found {
        return Err(DatasetProblem::NotFound);
    }
    if !has_commodities {
        return Err(DatasetProblem::MissingFile("commodities.json".to_owned()));
    }
    if !has_trade_locations {
        return Err(DatasetProblem::MissingFile("commodity_trade_locations.json".to_owned()));
    }
    Ok(())
}

} // verus!
