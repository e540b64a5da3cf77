//! File intake: validating the requested operation, deriving a title
//! from the path, choosing a collision-free target filename, and
//! assembling file metadata. The copies, moves and directory listings
//! themselves are the driver's job.

use vstd::prelude::*;
use crate::search::dec_u;
use crate::text::bytes_eq;
use crate::time::{NaiveStamp, from_epoch_seconds, representable_epoch};

verus! {

/// Ways a file operation can fail.
#[derive(PartialEq, Eq, Structural, Clone, Copy, Debug)]
pub enum FileError {
    DocumentsDirectoryError,
    FileOperationError,
    FileNotFound,
    InvalidPath,
    IoError,
}

/// Metadata recorded for an ingested file.
#[derive(Debug)]
pub struct FileMetadata {
    pub title: Vec<u8>,
    pub mime_type: Option<Vec<u8>>,
    pub file_size: u64,
    pub file_modified_at: NaiveStamp,
    pub final_path: Vec<u8>,
}

/// A request to ingest a file: the source path and the operation, given
/// as the text `copy` or `move`.
#[derive(Debug)]
pub struct FileOperationRequest {
    pub file_path: Vec<u8>,
    pub operation: Vec<u8>,
}

/// The two supported ingest operations.
#[derive(PartialEq, Eq, Structural, Clone, Copy, Debug)]
pub enum FileOp {
    Copy,
    Move,
}

/// The bytes of `copy`.
pub open spec fn copy_bytes() -> Seq<u8> {
    seq![99u8, 111u8, 112u8, 121u8]
}

/// The bytes of `move`.
pub open spec fn move_bytes() -> Seq<u8> {
    seq![109u8, 111u8, 118u8, 101u8]
}

/// The operation an operation text names, if any.
pub open spec fn spec_operation(op: Seq<u8>) -> Option<FileOp> {
    if op == copy_bytes() {
        Some(FileOp::Copy)
    } else if op == move_bytes() {
        Some(FileOp::Move)
    } else {
        None
    }
}

/// Validates the requested operation: exactly the texts `copy` and
/// `move` are accepted; anything else is an invalid operation kind,
/// rejected immediately.
pub fn parse_operation(op: &Vec<u8>) -> (r: Result<FileOp, FileError>)
    ensures
        match r {
            Ok(o) => spec_operation(op@) == Some(o),
            Err(e) => e == FileError::FileOperationError && spec_operation(op@) is None,
        },
{
    let copy = vec![99u8, 111u8, 112u8, 121u8];
    let mv = vec![109u8, 111u8, 118u8, 101u8];
    proof {
        assert(copy@ =~= copy_bytes());
        assert(mv@ =~= move_bytes());
    }
    if bytes_eq(op.as_slice(), copy.as_slice()) {
        Ok(FileOp::Copy)
    } else if bytes_eq(op.as_slice(), mv.as_slice()) {
        Ok(FileOp::Move)
    } else {
        Err(FileError::FileOperationError)
    }
}

/// The final path component: what follows the last slash, empty for a
/// path that ends in a slash.
pub open spec fn basename(p: Seq<u8>) -> Seq<u8>
    decreases p.len(),
{
    if p.len() == 0 {
        Seq::empty()
    } else if p.last() == 47 {
        Seq::empty()
    } else {
        basename(p.drop_last()).push(p.last())
    }
}

/// When everything at or after `k` is slash-free and `k` sits right
/// after a slash (or at the start), the basename is that suffix.
proof fn lemma_basename_suffix(p: Seq<u8>, k: int)
    requires
        0 <= k <= p.len(),
        forall|j: int| k <= j < p.len() ==> p[j] != 47,
        k > 0 ==> p[k - 1] == 47,
    ensures
        basename(p) == p.subrange(k, p.len() as int),
    decreases p.len(),
{
    if k == p.len() {
        if p.len() > 0 {
            assert(p.last() == 47);
        }
        assert(p.subrange(k, p.len() as int) =~= Seq::<u8>::empty());
    } else {
        assert(p.last() != 47);
        let q = p.drop_last();
        lemma_basename_suffix(q, k);
        assert(q.subrange(k, q.len() as int) =~= p.subrange(k, p.len() - 1));
        assert(p.subrange(k, p.len() - 1).push(p.last()) =~= p.subrange(k, p.len() as int));
    }
}

/// The final path component of `path`, exactly `basename`.
pub fn file_name_of(path: &Vec<u8>) -> (r: Vec<u8>)
    ensures
        r@ == basename(path@),
{
    let len = path.len();
    let mut k: usize = len;
    while k > 0 && path[k - 1] != 47
        invariant
            k <= len,
            len == path@.len(),
            forall|j: int| k <= j < len ==> path@[j] != 47,
        decreases k,
    {
        k -= 1;
    }
    proof {
        lemma_basename_suffix(path@, k as int);
    }
    let mut r: Vec<u8> = Vec::new();
    let mut i = k;
    while i < len
        invariant
            k <= i <= len,
            len == path@.len(),
            r@ == path@.subrange(k as int, i as int),
        decreases len - i,
    {
        r.push(path[i]);
        proof {
            assert(path@.subrange(k as int, i as int).push(path@[i as int]) =~= path@.subrange(
                k as int,
                i + 1,
            ));
        }
        i += 1;
    }
    r
}

/// Index of the last dot that separates an extension: the rightmost dot
/// not in the leading position (a name that starts with its only dot,
/// like a hidden file, has no extension).
pub open spec fn last_dot(name: Seq<u8>) -> Option<int>
    decreases name.len(),
{
    if name.len() <= 1 {
        None
    } else if name.last() == 46 {
        Some(name.len() - 1)
    } else {
        last_dot(name.drop_last())
    }
}

/// A dot at `d` with nothing but dot-free bytes after it is the last
/// dot.
proof fn lemma_last_dot_at(p: Seq<u8>, d: int)
    requires
        1 <= d < p.len(),
        p[d] == 46,
        forall|j: int| d < j < p.len() ==> p[j] != 46,
    ensures
        last_dot(p) == Some(d),
    decreases p.len(),
{
    if d == p.len() - 1 {
    } else {
        assert(p.last() != 46);
        lemma_last_dot_at(p.drop_last(), d);
    }
}

/// A name with no dot beyond the leading position has no extension.
proof fn lemma_last_dot_none(p: Seq<u8>)
    requires
        forall|j: int| 1 <= j < p.len() ==> p[j] != 46,
    ensures
        last_dot(p) is None,
    decreases p.len(),
{
    if p.len() > 1 {
        lemma_last_dot_none(p.drop_last());
    }
}

/// The counter decoration ` (c)`.
pub open spec fn paren_counter(c: nat) -> Seq<u8> {
    seq![32u8, 40u8] + dec_u(c) + seq![41u8]
}

/// The `c`-th alternative for a taken filename: the counter decoration
/// goes before the extension when there is one, else at the end.
pub open spec fn spec_candidate(name: Seq<u8>, c: nat) -> Seq<u8> {
    match last_dot(name) {
        Some(d) => name.subrange(0, d) + paren_counter(c) + seq![46u8] + name.subrange(
            d + 1,
            name.len() as int,
        ),
        None => name + paren_counter(c),
    }
}

/// A found extension dot lies past the leading byte and inside the name.
proof fn lemma_last_dot_range(name: Seq<u8>, d: int)
    requires
        last_dot(name) == Some(d),
    ensures
        1 <= d < name.len(),
    decreases name.len(),
{
    if name.len() <= 1 {
    } else if name.last() == 46 {
    } else {
        lemma_last_dot_range(name.drop_last(), d);
    }
}

/// With the same bytes before and after it, a middle segment is pinned
/// by the whole: equal wholes mean equal middles.
proof fn lemma_concat_middle(p: Seq<u8>, x: Seq<u8>, y: Seq<u8>, s: Seq<u8>)
    requires
        p + x + s == p + y + s,
    ensures
        x == y,
{
    assert((p + x + s).len() == p.len() + x.len() + s.len());
    assert((p + y + s).len() == p.len() + y.len() + s.len());
    assert(x.len() == y.len());
    assert forall|k: int| 0 <= k < x.len() implies x[k] == y[k] by {
        assert((p + x + s)[p.len() + k] == x[k]);
        assert((p + y + s)[p.len() + k] == y[k]);
    }
    assert(x =~= y);
}

/// Distinct counters decorate a name to distinct candidates.
proof fn lemma_candidate_injective(name: Seq<u8>, c1: nat, c2: nat)
    requires
        spec_candidate(name, c1) == spec_candidate(name, c2),
    ensures
        c1 == c2,
{
    match last_dot(name) {
        Some(d) => {
            lemma_last_dot_range(name, d);
            let p = name.subrange(0, d);
            let s = seq![46u8] + name.subrange(d + 1, name.len() as int);
            assert(spec_candidate(name, c1) =~= p + paren_counter(c1) + s);
            assert(spec_candidate(name, c2) =~= p + paren_counter(c2) + s);
            lemma_concat_middle(p, paren_counter(c1), paren_counter(c2), s);
        },
        None => {
            let e = Seq::<u8>::empty();
            assert(spec_candidate(name, c1) =~= name + paren_counter(c1) + e);
            assert(spec_candidate(name, c2) =~= name + paren_counter(c2) + e);
            lemma_concat_middle(name, paren_counter(c1), paren_counter(c2), e);
        },
    }
    lemma_concat_middle(seq![32u8, 40u8], dec_u(c1), dec_u(c2), seq![41u8]);
    crate::search::lemma_dec_u_injective(c1, c2);
}

/// A candidate is strictly longer than the name it decorates, so it can
/// never collide with the name itself.
proof fn lemma_candidate_differs(name: Seq<u8>, c: nat)
    ensures
        spec_candidate(name, c) != name,
        spec_candidate(name, c).len() >= name.len() + 4,
{
    crate::search::lemma_dec_u_len(c);
    match last_dot(name) {
        Some(d) => {
            lemma_last_dot_range(name, d);
            assert(spec_candidate(name, c).len() == name.len() + 3 + dec_u(c).len());
        },
        None => {
            assert(spec_candidate(name, c).len() == name.len() + 3 + dec_u(c).len());
        },
    }
}

/// More pairwise-distinct values than a list has entries cannot all be
/// entries of the list.
proof fn lemma_distinct_contained(probes: Seq<Seq<u8>>, pool: Seq<Seq<u8>>)
    requires
        forall|i: int, j: int| 0 <= i < j < probes.len() ==> probes[i] != probes[j],
        forall|i: int| 0 <= i < probes.len() ==> pool.contains(#[trigger] probes[i]),
    ensures
        probes.len() <= pool.len(),
    decreases probes.len(),
{
    if probes.len() > 0 {
        let last = probes.last();
        assert(pool.contains(last));
        let k = choose|k: int| 0 <= k < pool.len() && pool[k] == last;
        let pool2 = pool.remove(k);
        let probes2 = probes.drop_last();
        assert forall|i: int| 0 <= i < probes2.len() implies pool2.contains(
            #[trigger] probes2[i],
        ) by {
            assert(probes2[i] == probes[i]);
            assert(probes[i] != last);
            assert(pool.contains(probes[i]));
            let k2 = choose|k2: int| 0 <= k2 < pool.len() && pool[k2] == probes[i];
            assert(pool[k2] != pool[k]);
            if k2 < k {
                assert(pool2[k2] == pool[k2]);
            } else {
                assert(pool2[k2 - 1] == pool[k2]);
            }
        }
        lemma_distinct_contained(probes2, pool2);
    }
}

/// Builds the `c`-th alternative filename, exactly `spec_candidate`.
fn make_candidate(name: &Vec<u8>, c: u64) -> (r: Vec<u8>)
    ensures
        r@ == spec_candidate(name@, c as nat),
{
    let len = name.len();
    let mut k: usize = len;
    while k > 1 && name[k - 1] != 46
        invariant
            k <= len,
            len == name@.len(),
            forall|j: int| k <= j < len ==> name@[j] != 46,
        decreases k,
    {
        k -= 1;
    }
    let dot: Option<usize> = if k > 1 {
        proof {
            lemma_last_dot_at(name@, k - 1);
        }
        Some(k - 1)
    } else {
        proof {
            lemma_last_dot_none(name@);
        }
        None
    };
    let stem_end = match dot {
        Some(d) => d,
        None => len,
    };
    let mut r: Vec<u8> = Vec::new();
    let mut i: usize = 0;
    while i < stem_end
        invariant
            i <= stem_end <= len,
            len == name@.len(),
            r@ == name@.subrange(0, i as int),
        decreases stem_end - i,
    {
        r.push(name[i]);
        proof {
            assert(name@.subrange(0, i as int).push(name@[i as int]) =~= name@.subrange(0, i + 1));
        }
        i += 1;
    }
    r.push(32u8);
    r.push(40u8);
    let mut digits = crate::search::format_u64(c);
    r.append(&mut digits);
    r.push(41u8);
    proof {
        assert(r@ =~= name@.subrange(0, stem_end as int) + paren_counter(c as nat));
    }
    match dot {
        Some(d) => {
            r.push(46u8);
            let mut i = d + 1;
            let ghost prefix = r@;
            while i < len
                invariant
                    d + 1 <= i <= len,
                    len == name@.len(),
                    r@ == prefix + name@.subrange(d + 1, i as int),
                decreases len - i,
            {
                r.push(name[i]);
                proof {
                    assert(prefix + name@.subrange(d + 1, i as int).push(name@[i as int]) =~= prefix
                        + name@.subrange(d + 1, i + 1));
                    assert((prefix + name@.subrange(d + 1, i as int)).push(name@[i as int]) =~= prefix
                        + name@.subrange(d + 1, i as int).push(name@[i as int]));
                }
                i += 1;
            }
            proof {
                assert(r@ =~= spec_candidate(name@, c as nat));
            }
            r
        },
        None => {
            proof {
                assert(name@.subrange(0, len as int) =~= name@);
                assert(r@ =~= spec_candidate(name@, c as nat));
            }
            r
        },
    }
}

/// Whether the list holds this byte string.
fn list_contains(existing: &Vec<Vec<u8>>, x: &Vec<u8>) -> (r: bool)
    ensures
        r == existing@.map_values(|v: Vec<u8>| v@).contains(x@),
{
    let mut i: usize = 0;
    while i < existing.len()
        invariant
            i <= existing@.len(),
            forall|j: int| 0 <= j < i ==> (#[trigger] existing@[j])@ != x@,
        decreases existing@.len() - i,
    {
        if bytes_eq(existing[i].as_slice(), x.as_slice()) {
            proof {
                assert(existing@.map_values(|v: Vec<u8>| v@)[i as int] == x@);
            }
            return true;
        }
        i += 1;
    }
    proof {
        let mapped = existing@.map_values(|v: Vec<u8>| v@);
        assert forall|j: int| 0 <= j < mapped.len() implies mapped[j] != x@ by {
            assert(mapped[j] == existing@[j]@);
        }
    }
    false
}

/// The file processor: pure planning of file ingest steps.
#[derive(Debug)]
pub struct FileProcessor;

impl FileProcessor {
    /// A file processor.
    pub fn new() -> Self {
        FileProcessor
    }

    /// A target filename that avoids the names already present: the
    /// given name when it is free, else the first counter-decorated
    /// alternative (` (1)`, ` (2)`, …, placed before the extension) not
    /// in the list. The result is never in the list: the candidates are
    /// pairwise distinct, so one past the list's length always suffices.
    pub fn generate_unique_filename(&self, existing: &Vec<Vec<u8>>, filename: &Vec<u8>) -> (r:
        Vec<u8>)
        requires
            existing@.len() < usize::MAX - 1,
        ensures
            !existing@.map_values(|v: Vec<u8>| v@).contains(r@),
            !existing@.map_values(|v: Vec<u8>| v@).contains(filename@) ==> r@ == filename@,
            existing@.map_values(|v: Vec<u8>| v@).contains(filename@) ==> exists|c: nat|
                1 <= c <= existing@.len() + 1 && r@ == spec_candidate(filename@, c) && (forall|
                    c2: nat,
                |
                    1 <= c2 < c ==> existing@.map_values(|v: Vec<u8>| v@).contains(
                        spec_candidate(filename@, c2),
                    )),
    {
        if !list_contains(existing, filename) {
            return crate::item::clone_bytes(filename);
        }
        let bound = existing.len() + 1;
        let mut c: usize = 1;
        while c <= bound
            invariant
                1 <= c <= bound + 1,
                bound == existing@.len() + 1,
                existing@.len() < usize::MAX - 1,
                existing@.map_values(|v: Vec<u8>| v@).contains(filename@),
                forall|c2: nat|
                    1 <= c2 < c ==> existing@.map_values(|v: Vec<u8>| v@).contains(
                        spec_candidate(filename@, c2),
                    ),
            decreases bound + 1 - c,
        {
            let cand = make_candidate(filename, c as u64);
            if !list_contains(existing, &cand) {
                return cand;
            }
            c += 1;
        }
        proof {
            let mapped = existing@.map_values(|v: Vec<u8>| v@);
            let probes = Seq::new(
                (bound + 1) as nat,
                |i: int|
                    if i == 0 {
                        filename@
                    } else {
                        spec_candidate(filename@, i as nat)
                    },
            );
            assert forall|i: int, j: int| 0 <= i < j < probes.len() implies probes[i]
                != probes[j] by {
                if i == 0 {
                    lemma_candidate_differs(filename@, j as nat);
                } else {
                    if probes[i] == probes[j] {
                        lemma_candidate_injective(filename@, i as nat, j as nat);
                    }
                }
            }
            assert forall|i: int| 0 <= i < probes.len() implies mapped.contains(
                #[trigger] probes[i],
            ) by {
                if i > 0 {
                    assert(mapped.contains(spec_candidate(filename@, i as nat)));
                }
            }
            lemma_distinct_contained(probes, mapped);
            assert(false);
        }
        make_candidate(filename, bound as u64)
    }
}

/// What the search for a MIME type yields for a path; the guess is a
/// pure lookup on the path's extension.
pub uninterp spec fn mime_of(path: Seq<u8>) -> Option<Seq<u8>>;

/// Relies on `mime_guess::from_path`: the guessed MIME type is a
/// function of the path text alone. A path that is not valid text gets
/// no guess.
#[verifier::external_body]
fn guess_mime(path: &Vec<u8>) -> (r: Option<Vec<u8>>)
    ensures
        match r {
            Some(m) => mime_of(path@) == Some(m@),
            None => mime_of(path@) is None,
        },
{
    match std::str::from_utf8(path.as_slice()) {
        Ok(s) => mime_guess::from_path(s).first().map(|m| m.to_string().into_bytes()),
        Err(_) => None,
    }
}

/// Metadata for an ingested file: the title is the source path's final
/// component (a path without one is invalid), the MIME type is guessed
/// from the source path, and the modification time converts from epoch
/// seconds (an unrepresentable time is a file-operation failure, checked
/// after the path).
pub fn describe_file(path: &Vec<u8>, final_path: &Vec<u8>, size: u64, modified_epoch: i64) -> (r:
    Result<FileMetadata, FileError>)
    ensures
        match r {
            Ok(m) => {
                &&& basename(path@).len() > 0
                &&& m.title@ == basename(path@)
                &&& (match m.mime_type {
                    Some(t) => mime_of(path@) == Some(t@),
                    None => mime_of(path@) is None,
                })
                &&& m.file_size == size
                &&& m.file_modified_at.wf()
                &&& m.file_modified_at.spec_epoch_seconds() == modified_epoch as int
                &&& m.final_path@ == final_path@
            },
            Err(e) => (e == FileError::InvalidPath && basename(path@).len() == 0) || (e
                == FileError::FileOperationError && basename(path@).len() > 0
                && !representable_epoch(modified_epoch as int)),
        },
{
    let title = file_name_of(path);
    if title.len() == 0 {
        return Err(FileError::InvalidPath);
    }
    let file_modified_at = match from_epoch_seconds(modified_epoch) {
        Some(s) => s,
        None => {
            return Err(FileError::FileOperationError);
        },
    };
    let mime_type = guess_mime(path);
    Ok(
        FileMetadata {
            title,
            mime_type,
            file_size: size,
            file_modified_at,
            final_path: crate::item::clone_bytes(final_path),
        },
    )
}

} // verus!
