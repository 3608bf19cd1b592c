//! The in-memory capture store: saved `UserChoiceLatest` records, keyed by
//! extension and a user-chosen label.  Loading and saving the store file is
//! the caller's business; the store itself is plain data with unique keys.

use vstd::prelude::*;

use crate::text::has_name;
use crate::text::insert_name_sorted;
use crate::text::names_strictly_sorted;
use crate::text::str_eq;
use vstd::pervasive::VecAdditionalExecFns;

verus! {

/// A captured `UserChoiceLatest` record: the ProgId and opaque hash to
/// replay verbatim, and the raw timestamps seen at capture time.
#[derive(Debug, Clone, PartialEq, Eq)]
pub struct LatestCapture {
    pub prog_id: String,
    pub hash: String,
    pub last_write_time_filetime: Option<u64>,
    pub prog_id_last_write_time_filetime: Option<u64>,
}

/// One stored capture under its (extension, label) key.
#[derive(Debug, Clone)]
pub struct CaptureEntry {
    pub ext: String,
    pub name: String,
    pub capture: LatestCapture,
}

/// The capture store: entries with pairwise distinct keys.
#[derive(Debug)]
pub struct CaptureStore {
    pub entries: Vec<CaptureEntry>,
}

impl CaptureStore {
    pub open spec fn key_at(self, i: int) -> (Seq<char>, Seq<char>) {
        (self.entries@[i].ext@, self.entries@[i].name@)
    }

    /// No two entries share a key.
    pub open spec fn wf(self) -> bool {
        forall|i: int, j: int|
            #![trigger self.key_at(i), self.key_at(j)]
            0 <= i < j < self.entries@.len() ==> self.key_at(i) != self.key_at(j)
    }

    pub open spec fn contains_key(self, ext: Seq<char>, name: Seq<char>) -> bool {
        exists|i: int| 0 <= i < self.entries@.len() && #[trigger] self.key_at(i) == (ext, name)
    }

    /// An empty store.
    pub fn new() -> (r: CaptureStore)
        ensures
            r.wf(),
            r.entries@.len() == 0,
    {
        CaptureStore { entries: Vec::new() }
    }
}

fn find_entry(store: &CaptureStore, ext: &str, name: &str) -> (r: Option<usize>)
    ensures
        match r {
            Some(i) => i < store.entries@.len() && store.key_at(i as int) == (ext@, name@),
            None => !store.contains_key(ext@, name@),
        },
{
    let n = store.entries.len();
    let mut i: usize = 0;
    while i < n
        invariant
            0 <= i <= n == store.entries@.len(),
            forall|k: int| 0 <= k < i ==> #[trigger] store.key_at(k) != (ext@, name@),
        decreases n - i,
    {
        let e = &store.entries[i];
        if str_eq(e.ext.as_str(), ext) && str_eq(e.name.as_str(), name) {
            return Some(i);
        }
        i = i + 1;
    }
    None
}

/// Stores a capture under (extension, label), replacing any capture already
/// stored under that key and touching nothing else.
pub fn upsert_latest_capture(store: &mut CaptureStore, ext: &str, name: &str, cap: LatestCapture)
    requires
        old(store).wf(),
    ensures
        final(store).wf(),
        final(store).contains_key(ext@, name@),
        ({
            let before = old(store).entries@;
            let after = final(store).entries@;
            if old(store).contains_key(ext@, name@) {
                after.len() == before.len() && (exists|i: int|
                    0 <= i < before.len() && old(store).key_at(i) == (ext@, name@)
                        && #[trigger] final(store).key_at(i) == (ext@, name@)
                        && after[i].capture == cap && (forall|j: int|
                        0 <= j < before.len() && j != i ==> after[j] == before[j]))
            } else {
                after.len() == before.len() + 1 && final(store).key_at(before.len() as int) == (
                ext@, name@) && after[before.len() as int].capture == cap && (forall|j: int|
                    0 <= j < before.len() ==> after[j] == before[j])
            }
        }),
{
    let entry = CaptureEntry {
        ext: String::from_str(ext),
        name: String::from_str(name),
        capture: cap,
    };
    match find_entry(store, ext, name) {
        Some(i) => {
            store.entries.set(i, entry);
            proof {
                assert(old(store).key_at(i as int) == (ext@, name@));
                assert(final(store).key_at(i as int) == (ext@, name@));
                assert forall|a: int, b: int|
                    0 <= a < b < final(store).entries@.len() implies #[trigger] final(store).key_at(
                    a,
                ) != #[trigger] final(store).key_at(b) by {
                    assert(final(store).key_at(a) == old(store).key_at(a));
                    assert(final(store).key_at(b) == old(store).key_at(b));
                }
            }
        },
        None => {
            store.entries.push(entry);
            proof {
                let n = old(store).entries@.len() as int;
                assert(final(store).key_at(n) == (ext@, name@));
                assert forall|a: int, b: int|
                    0 <= a < b < final(store).entries@.len() implies #[trigger] final(store).key_at(
                    a,
                ) != #[trigger] final(store).key_at(b) by {
                    if b < n {
                        assert(final(store).key_at(a) == old(store).key_at(a));
                        assert(final(store).key_at(b) == old(store).key_at(b));
                    } else {
                        assert(final(store).key_at(a) == old(store).key_at(a));
                        assert(final(store).key_at(b) == (ext@, name@));
                    }
                }
            }
        },
    }
}

/// Looks a capture up by (extension, label).
pub fn get_latest_capture(store: &CaptureStore, ext: &str, name: &str) -> (r: Option<
    LatestCapture,
>)
    ensures
        match r {
            Some(c) => exists|i: int|
                0 <= i < store.entries@.len() && #[trigger] store.key_at(i) == (ext@, name@)
                    && store.entries@[i].capture == c,
            None => !store.contains_key(ext@, name@),
        },
{
    match find_entry(store, ext, name) {
        Some(i) => {
            let e = &store.entries[i];
            let c = LatestCapture {
                prog_id: e.capture.prog_id.clone(),
                hash: e.capture.hash.clone(),
                last_write_time_filetime: e.capture.last_write_time_filetime,
                prog_id_last_write_time_filetime: e.capture.prog_id_last_write_time_filetime,
            };
            proof {
                assert(store.key_at(i as int) == (ext@, name@));
                assert(store.entries@[i as int].capture == c);
            }
            Some(c)
        },
        None => None,
    }
}

/// The labels stored for one extension, in ascending lexicographic order.
pub fn list_capture_names(store: &CaptureStore, ext: &str) -> (r: Vec<String>)
    requires
        store.wf(),
    ensures
        names_strictly_sorted(r@),
        forall|n: Seq<char>| #[trigger] has_name(r@, n) <==> store.contains_key(ext@, n),
{
    let total = store.entries.len();
    let mut out: Vec<String> = Vec::new();
    let mut i: usize = 0;
    while i < total
        invariant
            store.wf(),
            0 <= i <= total == store.entries@.len(),
            names_strictly_sorted(out@),
            forall|n: Seq<char>| #[trigger]
                has_name(out@, n) <==> (exists|j: int|
                    0 <= j < i && #[trigger] store.key_at(j) == (ext@, n)),
        decreases total - i,
    {
        let e = &store.entries[i];
        if str_eq(e.ext.as_str(), ext) {
            proof {
                assert(!has_name(out@, e.name@)) by {
                    if has_name(out@, e.name@) {
                        let j = choose|j: int|
                            0 <= j < i && #[trigger] store.key_at(j) == (ext@, e.name@);
                        assert(store.key_at(j) != store.key_at(i as int));
                    }
                }
            }
            let ghost oldout = out@;
            insert_name_sorted(&mut out, e.name.clone());
            proof {
                assert forall|n: Seq<char>| #[trigger]
                    has_name(out@, n) <==> (exists|j: int|
                        0 <= j < i + 1 && #[trigger] store.key_at(j) == (ext@, n)) by {
                    if has_name(out@, n) {
                        if has_name(oldout, n) {
                            let j = choose|j: int|
                                0 <= j < i && #[trigger] store.key_at(j) == (ext@, n);
                            assert(store.key_at(j) == (ext@, n));
                        } else {
                            assert(store.key_at(i as int) == (ext@, n));
                        }
                    }
                    if exists|j: int| 0 <= j < i + 1 && #[trigger] store.key_at(j) == (ext@, n) {
                        let j = choose|j: int|
                            0 <= j < i + 1 && #[trigger] store.key_at(j) == (ext@, n);
                        if j < i {
                            assert(has_name(oldout, n));
                        } else {
                            assert(n == e.name@);
                        }
                    }
                }
            }
        } else {
            proof {
                assert forall|n: Seq<char>| #[trigger]
                    has_name(out@, n) <==> (exists|j: int|
                        0 <= j < i + 1 && #[trigger] store.key_at(j) == (ext@, n)) by {
                    if exists|j: int| 0 <= j < i + 1 && #[trigger] store.key_at(j) == (ext@, n) {
                        let j = choose|j: int|
                            0 <= j < i + 1 && #[trigger] store.key_at(j) == (ext@, n);
                        if j == i {
                            assert(store.entries@[i as int].ext@ == ext@);
                            assert(false);
                        }
                    }
                }
            }
        }
        i = i + 1;
    }
    out
}

} // verus!
