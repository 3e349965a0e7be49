//! What the local file system reports when it reads or writes a file,
//! creates a directory, or scans one.
use vstd::prelude::*;
use crate::batch::{lemma_until_stop, until_stop};

verus! {

/// One read from an open file: a chunk of bytes, the end of the file, or a
/// failure.
pub enum ReadResult {
    Chunk(Vec<u8>),
    End,
    Failure(String),
}

/// What reading a file reports: `reached` once it is open, its content as
/// data chunks, `completed` once it is read to its end or `failed` with the
/// errors, and `finished` in every case.
pub struct ReadReport {
    pub reached: bool,
    pub data: Vec<Vec<u8>>,
    pub completed: bool,
    pub failed: bool,
    pub errors: Vec<String>,
    pub finished: bool,
}

/// The number of reads that are taken: up to and including the first that
/// is not a chunk (all where every one is).
pub open spec fn reads_taken(reads: Seq<ReadResult>) -> int {
    until_stop(reads, |r: ReadResult| !(r is Chunk))
}

proof fn lemma_reads_taken(reads: Seq<ReadResult>)
    ensures
        0 <= reads_taken(reads) <= reads.len(),
        forall|k: int| 0 <= k < reads_taken(reads) - 1 ==> (#[trigger] reads[k]) is Chunk,
        reads_taken(reads) < reads.len() ==> reads_taken(reads) > 0 && !(reads[reads_taken(reads) - 1] is Chunk),
        reads_taken(reads) == reads.len() && reads.len() > 0 ==> (!(reads[reads.len() - 1] is Chunk) || forall|k: int| 0 <= k < reads.len() ==> (#[trigger] reads[k]) is Chunk),
{
    lemma_until_stop(reads, |r: ReadResult| !(r is Chunk));
}

/// The chunks among the first `n` reads, in order.
pub open spec fn chunks_of(reads: Seq<ReadResult>, n: int) -> Seq<Seq<u8>>
    decreases n,
{
    if n <= 0 {
        Seq::empty()
    } else {
        match reads[n - 1] {
            ReadResult::Chunk(c) => chunks_of(reads, n - 1).push(c@),
            _ => chunks_of(reads, n - 1),
        }
    }
}

/// Whether one of the first `n` reads failed.
pub open spec fn some_failure(reads: Seq<ReadResult>, n: int) -> bool {
    exists|k: int| 0 <= k < n && (#[trigger] reads[k]) is Failure
}

/// What reading a file reports, given whether it could be opened (the error
/// if not) and the results of the reads from it, which go on up to the end
/// of the file or the first failure.
pub fn read(open_error: Option<String>, reads: &Vec<ReadResult>) -> (r: ReadReport)
    ensures
        r.finished,
        r.reached <==> open_error is None,
        r.failed == !r.completed,
        match open_error {
            Some(m) => r.failed && r.data@.len() == 0 && r.errors@.len() == 1 && r.errors@[0]@ == m@,
            None => {
                &&& r.data@.map_values(|c: Vec<u8>| c@) == chunks_of(reads@, reads_taken(reads@))
                &&& r.failed <==> some_failure(reads@, reads_taken(reads@))
                &&& r.errors@.len() == (if r.failed { 1int } else { 0int })
                &&& r.failed ==> (reads@[reads_taken(reads@) - 1] matches ReadResult::Failure(m) && r.errors@[0]@ == m@)
            },
        },
{
    match open_error {
        Some(m) => {
            let mut errors: Vec<String> = Vec::new();
            errors.push(m);
            return ReadReport {
                reached: false,
                data: Vec::new(),
                completed: false,
                failed: true,
                errors,
                finished: true,
            };
        },
        None => {},
    }
    proof {
        lemma_reads_taken(reads@);
    }
    let ghost taken = reads_taken(reads@);
    let mut data: Vec<Vec<u8>> = Vec::new();
    let mut errors: Vec<String> = Vec::new();
    let mut i: usize = 0;
    let mut done = false;
    while i < reads.len() && !done
        invariant
            i <= reads@.len(),
            taken == reads_taken(reads@),
            0 <= taken <= reads@.len(),
            forall|k: int| 0 <= k < taken - 1 ==> (#[trigger] reads@[k]) is Chunk,
            taken < reads@.len() ==> taken > 0 && !(reads@[taken - 1] is Chunk),
            taken == reads@.len() && reads@.len() > 0 ==> (!(reads@[reads@.len() - 1] is Chunk)
                || forall|k: int| 0 <= k < reads@.len() ==> (#[trigger] reads@[k]) is Chunk),
            !done ==> i <= taken && forall|k: int| 0 <= k < i ==> (#[trigger] reads@[k]) is Chunk,
            done ==> i == taken,
            data@.map_values(|c: Vec<u8>| c@) == chunks_of(reads@, i as int),
            !done ==> errors@.len() == 0,
            done ==> (errors@.len() == 0 <==> !some_failure(reads@, i as int)),
            done && errors@.len() > 0 ==> errors@.len() == 1 && (reads@[i - 1] matches ReadResult::Failure(m) && errors@[0]@ == m@),
        decreases reads@.len() - i,
    {
        let ghost d0 = data@;
        match &reads[i] {
            ReadResult::Chunk(c) => {
                data.push(c.clone());
                assert(data@.map_values(|c: Vec<u8>| c@) =~= d0.map_values(|c: Vec<u8>| c@).push(c@));
                proof {
                    if i + 1 > taken {
                        assert(false);
                    }
                }
            },
            ReadResult::End => {
                done = true;
                proof {
                    assert(i + 1 == taken);
                    assert(!some_failure(reads@, i + 1)) by {
                        assert forall|k: int| 0 <= k < i + 1 implies !((#[trigger] reads@[k]) is Failure) by {
                            if k < i {
                                assert(reads@[k] is Chunk);
                            }
                        }
                    }
                }
            },
            ReadResult::Failure(m) => {
                errors.push(m.clone());
                done = true;
                proof {
                    assert(i + 1 == taken);
                    assert(reads@[i as int] is Failure);
                }
            },
        }
        i = i + 1;
    }
    proof {
        if !done {
            assert(i == reads@.len());
            assert(i == taken);
            assert(!some_failure(reads@, i as int)) by {
                assert forall|k: int| 0 <= k < i implies !((#[trigger] reads@[k]) is Failure) by {
                    assert(reads@[k] is Chunk);
                }
            }
        }
    }
    let failed = errors.len() > 0;
    ReadReport { reached: true, data, completed: !failed, failed, errors, finished: true }
}

/// How a file is opened for writing.
pub struct OpenPlan {
    pub write: bool,
    pub append: bool,
    pub truncate: bool,
    pub create: bool,
    pub create_new: bool,
}

/// How `write` opens its file: for writing; with `append`, the bytes are
/// added after the existing content, else the existing file is replaced
/// (its content cut to nothing first); with `create`, a missing file is
/// created; with `new`, the file must not exist yet.
pub fn open_plan(append: bool, create: bool, new: bool) -> (r: OpenPlan)
    ensures
        r.write,
        r.append == append,
        r.truncate == !append,
        r.create == create,
        r.create_new == new,
{
    OpenPlan { write: true, append, truncate: !append, create, create_new: new }
}

/// The sum of the lengths of the first `n` chunks.
pub open spec fn written(lens: Seq<usize>, n: int) -> int
    decreases n,
{
    if n <= 0 {
        0
    } else {
        written(lens, n - 1) + lens[n - 1]
    }
}

/// What writing a file reports: the amount written so far after each write,
/// `completed` once all data is written or `failed` with the errors, and
/// `finished` in every case.
pub struct WriteReport {
    pub amounts: Vec<u128>,
    pub completed: bool,
    pub failed: bool,
    pub errors: Vec<String>,
    pub finished: bool,
}

/// What writing a file reports, given the error where its directory could
/// not be created or the file could not be opened, the lengths of the data
/// chunks received, and the error of the first write that failed, at the
/// position it failed, if one did.
pub fn write(open_error: Option<String>, lens: &Vec<usize>, write_error: Option<(usize, String)>) -> (r: WriteReport)
    requires
        write_error matches Some(e) ==> e.0 < lens@.len(),
    ensures
        r.finished,
        r.failed == !r.completed,
        r.failed <==> (open_error is Some || write_error is Some),
        match open_error {
            Some(m) => r.amounts@.len() == 0 && r.errors@.len() == 1 && r.errors@[0]@ == m@,
            None => {
                let n = match write_error {
                    Some(e) => e.0 as int,
                    None => lens@.len() as int,
                };
                &&& r.amounts@.len() == n
                &&& forall|k: int| 0 <= k < n ==> #[trigger] r.amounts@[k] == written(lens@, k + 1)
                &&& match write_error {
                    Some(e) => r.errors@.len() == 1 && r.errors@[0]@ == e.1@,
                    None => r.errors@.len() == 0,
                }
            },
        },
{
    let mut errors: Vec<String> = Vec::new();
    match open_error {
        Some(m) => {
            errors.push(m);
            return WriteReport { amounts: Vec::new(), completed: false, failed: true, errors, finished: true };
        },
        None => {},
    }
    let n: usize = match &write_error {
        Some(e) => e.0,
        None => lens.len(),
    };
    let mut amounts: Vec<u128> = Vec::new();
    let mut total: u128 = 0;
    let mut i: usize = 0;
    while i < n
        invariant
            n <= lens@.len(),
            i <= n,
            total == written(lens@, i as int),
            written(lens@, i as int) <= i * (usize::MAX as int),
            amounts@.len() == i,
            forall|k: int| 0 <= k < i ==> #[trigger] amounts@[k] == written(lens@, k + 1),
        decreases n - i,
    {
        proof {
            assert(written(lens@, i + 1) <= (i + 1) * (usize::MAX as int)) by (nonlinear_arith)
                requires
                    written(lens@, i + 1) == written(lens@, i as int) + lens@[i as int],
                    written(lens@, i as int) <= i * (usize::MAX as int),
                    lens@[i as int] <= usize::MAX,
            ;
            assert((i + 1) * (usize::MAX as int) <= u128::MAX) by (nonlinear_arith)
                requires
                    i < usize::MAX,
                    usize::MAX <= u64::MAX,
            ;
        }
        total = total + lens[i] as u128;
        amounts.push(total);
        i = i + 1;
    }
    match write_error {
        Some(e) => {
            errors.push(e.1);
            WriteReport { amounts, completed: false, failed: true, errors, finished: true }
        },
        None => WriteReport { amounts, completed: true, failed: false, errors, finished: true },
    }
}

/// What creating a directory reports: `success`, or `failure` with the
/// error.
pub fn create(result: Result<(), String>) -> (r: (bool, bool, Option<String>))
    ensures
        r.0 <==> result is Ok,
        r.1 <==> result is Err,
        match result {
            Ok(_) => r.2 is None,
            Err(m) => r.2 == Some(m),
        },
{
    match result {
        Ok(_) => (true, false, None),
        Err(m) => (false, true, Some(m)),
    }
}

/// Whether scanning goes into an entry or skips it.
#[derive(Clone, Copy, PartialEq, Eq, Structural)]
pub enum Filtering {
    Continue,
    IgnoreDir,
}

/// Whether a scan goes into an entry: a directory only when recursive, a
/// symbolic link only when following links, any other entry (or one whose
/// type cannot be read) always.
pub fn scan_filtering(file_type: Option<(bool, bool)>, recursive: bool, follow_links: bool) -> (r: Filtering)
    ensures
        r == match file_type {
            Some((is_dir, is_symlink)) => if is_dir {
                if recursive { Filtering::Continue } else { Filtering::IgnoreDir }
            } else if is_symlink {
                if follow_links { Filtering::Continue } else { Filtering::IgnoreDir }
            } else {
                Filtering::Continue
            },
            None => Filtering::Continue,
        },
{
    match file_type {
        Some((is_dir, is_symlink)) => if is_dir {
            if recursive { Filtering::Continue } else { Filtering::IgnoreDir }
        } else if is_symlink {
            if follow_links { Filtering::Continue } else { Filtering::IgnoreDir }
        } else {
            Filtering::Continue
        },
        None => Filtering::Continue,
    }
}

/// Whether a scan goes into the entry of type `file_type` (a directory, a
/// symbolic link), as `scan_filtering` decides it for entries whose type
/// is known.
pub open spec fn goes_into(file_type: Option<(bool, bool)>, recursive: bool, follow_links: bool) -> bool {
    match file_type {
        Some((is_dir, is_symlink)) => (is_dir && recursive) || (!is_dir && is_symlink && follow_links),
        None => false,
    }
}

/// The paths of a directory listing that a scan goes into, in order.
pub open spec fn entered(listing: Seq<(String, Option<(bool, bool)>)>, recursive: bool, follow_links: bool) -> Seq<Seq<char>>
    decreases listing.len(),
{
    if listing.len() == 0 {
        Seq::empty()
    } else if goes_into(listing.last().1, recursive, follow_links) {
        entered(listing.drop_last(), recursive, follow_links).push(listing.last().0@)
    } else {
        entered(listing.drop_last(), recursive, follow_links)
    }
}

/// What a scan does with the entries of one directory: every entry is
/// sent, directories included, in the order they are listed; it goes into
/// the subdirectories only when recursive, and into symbolic links only
/// when following links.
pub fn scan_listing(listing: &Vec<(String, Option<(bool, bool)>)>, recursive: bool, follow_links: bool) -> (r: (
    Vec<String>,
    Vec<String>,
))
    ensures
        r.0@.map_values(|s: String| s@) == listing@.map_values(|e: (String, Option<(bool, bool)>)| e.0@),
        r.1@.map_values(|s: String| s@) == entered(listing@, recursive, follow_links),
{
    let mut sent: Vec<String> = Vec::new();
    let mut into: Vec<String> = Vec::new();
    let mut i: usize = 0;
    while i < listing.len()
        invariant
            i <= listing@.len(),
            sent@.map_values(|s: String| s@) == listing@.map_values(
                |e: (String, Option<(bool, bool)>)| e.0@,
            ).subrange(0, i as int),
            into@.map_values(|s: String| s@) == entered(listing@.subrange(0, i as int), recursive, follow_links),
        decreases listing@.len() - i,
    {
        let ghost s0 = sent@;
        let ghost i0 = into@;
        assert(listing@.subrange(0, i + 1).drop_last() =~= listing@.subrange(0, i as int));
        assert(listing@.subrange(0, i + 1).last() == listing@[i as int]);
        let path = listing[i].0.clone();
        sent.push(path.clone());
        assert(sent@.map_values(|s: String| s@) =~= s0.map_values(|s: String| s@).push(listing@[i as int].0@));
        let decided = scan_filtering(listing[i].1, recursive, follow_links);
        let into_it = match listing[i].1 {
            Some((is_dir, is_symlink)) => (is_dir || is_symlink) && decided == Filtering::Continue,
            None => false,
        };
        if into_it {
            into.push(path);
            assert(into@.map_values(|s: String| s@) =~= i0.map_values(|s: String| s@).push(listing@[i as int].0@));
        }
        i = i + 1;
    }
    assert(listing@.subrange(0, listing@.len() as int) =~= listing@);
    (sent, into)
}

/// What scanning a directory reports: each entry found, each error met,
/// `finished`, then `completed` if no error was met or else `failed`.
pub struct ScanReport {
    pub entries: Vec<String>,
    pub errors: Vec<String>,
    pub completed: bool,
    pub failed: bool,
    pub finished: bool,
}

/// The entries (`Ok`) or the errors (`Err`) of a scan, in order.
pub open spec fn scan_part(results: Seq<Result<String, String>>, ok: bool) -> Seq<Seq<char>>
    decreases results.len(),
{
    if results.len() == 0 {
        Seq::empty()
    } else {
        let rest = scan_part(results.drop_last(), ok);
        match results.last() {
            Ok(e) => if ok { rest.push(e@) } else { rest },
            Err(m) => if ok { rest } else { rest.push(m@) },
        }
    }
}

/// What scanning a directory reports, given what the walk through it met.
pub fn scan(results: &Vec<Result<String, String>>) -> (r: ScanReport)
    ensures
        r.entries@.map_values(|s: String| s@) == scan_part(results@, true),
        r.errors@.map_values(|s: String| s@) == scan_part(results@, false),
        r.completed <==> r.errors@.len() == 0,
        r.failed == !r.completed,
        r.finished,
{
    let mut entries: Vec<String> = Vec::new();
    let mut errors: Vec<String> = Vec::new();
    let mut i: usize = 0;
    while i < results.len()
        invariant
            i <= results@.len(),
            entries@.map_values(|s: String| s@) == scan_part(results@.subrange(0, i as int), true),
            errors@.map_values(|s: String| s@) == scan_part(results@.subrange(0, i as int), false),
        decreases results@.len() - i,
    {
        let ghost e0 = entries@;
        let ghost m0 = errors@;
        assert(results@.subrange(0, i + 1).drop_last() =~= results@.subrange(0, i as int));
        match &results[i] {
            Ok(e) => {
                entries.push(e.clone());
                assert(entries@.map_values(|s: String| s@) =~= e0.map_values(|s: String| s@).push(e@));
            },
            Err(m) => {
                errors.push(m.clone());
                assert(errors@.map_values(|s: String| s@) =~= m0.map_values(|s: String| s@).push(m@));
            },
        }
        i = i + 1;
    }
    assert(results@.subrange(0, results@.len() as int) =~= results@);
    let failed = errors.len() > 0;
    ScanReport { entries, errors, completed: !failed, failed, finished: true }
}

} // verus!
