use vstd::prelude::*;

use crate::chunker::{
    all_faithful, block_end, blocks_at, chunk_and_hash, faithful, kind_name, lemma_scan_faithful,
    scan, scan_from, skip_blanks, skip_newlines, ChunkView, ChunkWithHash,
};
use crate::hashing::content_hash_of;
use crate::model::Chunk;

verus! {

/// Index of the last of the first `n` records whose content key is `h`.
pub open spec fn last_match(prev: Seq<Chunk>, h: Seq<char>, n: int) -> Option<int>
    decreases n,
{
    if n <= 0 {
        None
    } else if prev[n - 1].content_hash@ == h {
        Some(n - 1)
    } else {
        last_match(prev, h, n - 1)
    }
}

/// The earlier record that a block with key `h` takes its timestamps from:
/// among several with that key, the last one.
pub open spec fn prior_match(prev: Seq<Chunk>, h: Seq<char>) -> Option<int> {
    last_match(prev, h, prev.len() as int)
}

pub open spec fn created_for(prev: Seq<Chunk>, h: Seq<char>, now: Seq<char>) -> Seq<char> {
    match prior_match(prev, h) {
        Some(j) => prev[j].created_at@,
        None => now,
    }
}

pub open spec fn updated_for(prev: Seq<Chunk>, h: Seq<char>, now: Seq<char>) -> Seq<char> {
    match prior_match(prev, h) {
        Some(j) => prev[j].updated_at@,
        None => now,
    }
}

pub open spec fn level_as_i32(l: Option<u8>) -> Option<i32> {
    match l {
        Some(n) => Some(n as i32),
        None => None,
    }
}

/// `r` is the stored form of block `c`, with key `h`, at position `seq` of note
/// `note_id`, with timestamps carried over from `prev` or set to `now`.
pub open spec fn record_of(
    note_id: Seq<char>,
    seq: int,
    c: ChunkView,
    h: Seq<char>,
    prev: Seq<Chunk>,
    now: Seq<char>,
    r: Chunk,
) -> bool {
    &&& r.note_id@ == note_id
    &&& r.sequence == seq
    &&& r.chunk_type@ == kind_name(c.chunk_type)
    &&& r.heading_level == level_as_i32(c.heading_level)
    &&& r.content@ == c.content
    &&& r.content_hash@ == h
    &&& r.start_offset == c.start_offset
    &&& r.end_offset == c.end_offset
    &&& r.created_at@ == created_for(prev, h, now)
    &&& r.updated_at@ == updated_for(prev, h, now)
}

/// `out` is the block set of note `note_id` after its text became `text`, given
/// its earlier records `prev` and the time `now`: one record per block, in scan
/// order, each keyed by the content key of its text.
pub open spec fn reconciled(
    note_id: Seq<char>,
    prev: Seq<Chunk>,
    text: Seq<char>,
    now: Seq<char>,
    out: Seq<Chunk>,
) -> bool {
    &&& out.len() == scan(text).len()
    &&& forall|i: int|
        0 <= i < out.len() ==> #[trigger] record_of(
            note_id,
            i,
            scan(text)[i],
            content_hash_of(scan(text)[i].content),
            prev,
            now,
            out[i],
        )
}

proof fn lemma_last_match(prev: Seq<Chunk>, h: Seq<char>, n: int)
    requires
        0 <= n <= prev.len(),
    ensures
        last_match(prev, h, n) matches Some(j) ==> 0 <= j < n && prev[j].content_hash@ == h,
        last_match(prev, h, n) is None ==> forall|k: int|
            0 <= k < n ==> prev[k].content_hash@ != h,
    decreases n,
{
    if n > 0 {
        lemma_last_match(prev, h, n - 1);
    }
}

/// A scan has at most as many blocks as the text has characters after `i`.
pub proof fn lemma_scan_len(s: Seq<char>, i: int)
    requires
        0 <= i <= s.len(),
    ensures
        scan_from(s, i).len() <= s.len() - i,
    decreases s.len() - i,
{
    let b = skip_newlines(s, skip_blanks(s, i));
    if i < 0 || b >= s.len() || b < i || block_end(s, b) <= b || block_end(s, b) > s.len() {
    } else {
        lemma_scan_len(s, block_end(s, b));
        assert(blocks_at(s, b).len() <= 1);
    }
}

/// Position of the earlier record whose timestamps a block with key `h` keeps.
fn find_prior(previous: &Vec<Chunk>, h: &String) -> (r: Option<usize>)
    ensures
        r matches Some(j) ==> j < previous@.len() && prior_match(previous@, h@) == Some(j as int),
        r is None ==> prior_match(previous@, h@) is None,
{
    proof {
        lemma_last_match(previous@, h@, previous@.len() as int);
    }
    let mut n: usize = previous.len();
    while n > 0
        invariant
            n <= previous@.len(),
            last_match(previous@, h@, n as int) == prior_match(previous@, h@),
        decreases n,
    {
        if previous[n - 1].content_hash == *h {
            return Some(n - 1);
        }
        n = n - 1;
    }
    None
}

/// Relies on `ulid::Ulid::new` and its `to_string`: a fresh identifier for a record.
#[verifier::external_body]
fn new_record_id() -> (r: String) {
    ulid::Ulid::new().to_string()
}

/// The stored form of block `c` at position `seq` of note `note_id`, under
/// identifier `id`: its timestamps come from the last earlier record with the
/// same content key, or are `now` where there is none.
pub fn build_chunk(
    note_id: &str,
    seq: usize,
    c: &ChunkWithHash,
    previous: &Vec<Chunk>,
    now: &str,
    id: String,
) -> (r: Chunk)
    requires
        seq <= i32::MAX,
        c.chunk.start_offset <= i32::MAX,
        c.chunk.end_offset <= i32::MAX,
    ensures
        r.id == id,
        record_of(note_id@, seq as int, c.chunk@, c.content_hash@, previous@, now@, r),
{
    let (created_at, updated_at) = match find_prior(previous, &c.content_hash) {
        Some(j) => (previous[j].created_at.clone(), previous[j].updated_at.clone()),
        None => (now.to_owned(), now.to_owned()),
    };
    let heading_level = match c.chunk.heading_level {
        Some(l) => Some(l as i32),
        None => None,
    };
    Chunk {
        id,
        note_id: note_id.to_owned(),
        sequence: seq as i32,
        chunk_type: c.chunk.chunk_type.as_str().to_owned(),
        heading_level,
        content: c.chunk.content.clone(),
        content_hash: c.content_hash.clone(),
        start_offset: c.chunk.start_offset as i32,
        end_offset: c.chunk.end_offset as i32,
        created_at,
        updated_at,
    }
}

/// The new block set of note `note_id` whose text is now `content`: each block
/// of the scan, in order, with a fresh identifier, keeps the timestamps of the
/// earlier record with the same content key, and gets `now` otherwise.
pub fn reconcile_chunks(
    note_id: &str,
    previous: &Vec<Chunk>,
    content: &str,
    now: &str,
) -> (r: Vec<Chunk>)
    requires
        content@.len() <= i32::MAX,
    ensures
        reconciled(note_id@, previous@, content@, now@, r@),
{
    let hashed = chunk_and_hash(content);
    proof {
        lemma_scan_faithful(content@, 0);
        lemma_scan_len(content@, 0);
    }
    let mut out: Vec<Chunk> = Vec::new();
    let mut i: usize = 0;
    while i < hashed.len()
        invariant
            i <= hashed@.len() == scan(content@).len() <= content@.len() <= i32::MAX,
            all_faithful(content@, scan(content@)),
            forall|j: int|
                #![trigger hashed@[j]]
                0 <= j < hashed@.len() ==> hashed@[j].chunk@ == scan(content@)[j]
                    && hashed@[j].content_hash@ == content_hash_of(hashed@[j].chunk.content@),
            out@.len() == i,
            forall|j: int|
                0 <= j < i ==> #[trigger] record_of(
                    note_id@,
                    j,
                    scan(content@)[j],
                    content_hash_of(scan(content@)[j].content),
                    previous@,
                    now@,
                    out@[j],
                ),
        decreases hashed@.len() - i,
    {
        let c = &hashed[i];
        assert(hashed@[i as int].chunk@ == scan(content@)[i as int]);
        assert(faithful(content@, scan(content@)[i as int]));
        let id = new_record_id();
        let rec = build_chunk(note_id, i, c, previous, now, id);
        out.push(rec);
        i = i + 1;
    }
    out
}

/// Reconciling the same text twice in a row yields records with the same content
/// keys in the same order, and the second pass keeps the timestamps of the first.
pub proof fn lemma_reconcile_idempotent(
    note_id: Seq<char>,
    prev: Seq<Chunk>,
    text: Seq<char>,
    now1: Seq<char>,
    now2: Seq<char>,
    first: Seq<Chunk>,
    second: Seq<Chunk>,
)
    requires
        reconciled(note_id, prev, text, now1, first),
        reconciled(note_id, first, text, now2, second),
    ensures
        second.len() == first.len(),
        forall|i: int|
            #![trigger second[i]]
            0 <= i < second.len() ==> {
                &&& second[i].content_hash@ == first[i].content_hash@
                &&& second[i].sequence == first[i].sequence
                &&& second[i].created_at@ == first[i].created_at@
                &&& second[i].updated_at@ == first[i].updated_at@
            },
{
    let blocks = scan(text);
    assert forall|i: int| #![trigger second[i]] 0 <= i < second.len() implies {
        &&& second[i].content_hash@ == first[i].content_hash@
        &&& second[i].sequence == first[i].sequence
        &&& second[i].created_at@ == first[i].created_at@
        &&& second[i].updated_at@ == first[i].updated_at@
    } by {
        let h = content_hash_of(blocks[i].content);
        assert(record_of(note_id, i, blocks[i], h, prev, now1, first[i]));
        assert(record_of(note_id, i, blocks[i], h, first, now2, second[i]));
        lemma_last_match(first, h, first.len() as int);
        let j = prior_match(first, h)->0;
        assert(record_of(note_id, j, blocks[j], content_hash_of(blocks[j].content), prev, now1, first[j]));
    }
}

/// A block whose content key an earlier record had takes that record's creation
/// time, wherever it now stands (the records with that key agreeing on it).
pub proof fn lemma_timestamp_carry_over(
    note_id: Seq<char>,
    prev: Seq<Chunk>,
    text: Seq<char>,
    now: Seq<char>,
    out: Seq<Chunk>,
    i: int,
    k: int,
)
    requires
        reconciled(note_id, prev, text, now, out),
        0 <= i < out.len(),
        0 <= k < prev.len(),
        prev[k].content_hash@ == out[i].content_hash@,
        forall|m: int|
            0 <= m < prev.len() && #[trigger] prev[m].content_hash@ == prev[k].content_hash@
                ==> prev[m].created_at@ == prev[k].created_at@,
    ensures
        out[i].created_at@ == prev[k].created_at@,
{
    let h = content_hash_of(scan(text)[i].content);
    assert(record_of(note_id, i, scan(text)[i], h, prev, now, out[i]));
    lemma_last_match(prev, h, prev.len() as int);
}

/// A block whose content key no earlier record had is stamped with the time of
/// the update.
pub proof fn lemma_new_content_stamped_now(
    note_id: Seq<char>,
    prev: Seq<Chunk>,
    text: Seq<char>,
    now: Seq<char>,
    out: Seq<Chunk>,
    i: int,
)
    requires
        reconciled(note_id, prev, text, now, out),
        0 <= i < out.len(),
        forall|m: int| 0 <= m < prev.len() ==> #[trigger] prev[m].content_hash@ != out[i].content_hash@,
    ensures
        out[i].created_at@ == now,
        out[i].updated_at@ == now,
{
    let h = content_hash_of(scan(text)[i].content);
    assert(record_of(note_id, i, scan(text)[i], h, prev, now, out[i]));
    lemma_last_match(prev, h, prev.len() as int);
}

} // verus!
