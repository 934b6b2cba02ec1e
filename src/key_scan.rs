//! Offline entropy scan of a key-metadata blob: fixed-size windows whose
//! number of distinct byte values reaches a threshold are key candidates.

use vstd::prelude::*;
use vstd::slice::{slice_subrange, slice_to_vec};

verus! {

/// Window size and distinct-byte threshold of the wide pass.
pub const WIDE_WINDOW: usize = 32;
pub const WIDE_THRESHOLD: usize = 12;
/// Window size and distinct-byte threshold of the narrow pass.
pub const NARROW_WINDOW: usize = 16;
pub const NARROW_THRESHOLD: usize = 6;

/// The byte sequences held by a list of keys.
pub open spec fn keys_view(v: Seq<Vec<u8>>) -> Seq<Seq<u8>> {
    v.map_values(|k: Vec<u8>| k@)
}

/// The number of distinct values in `s`.
pub open spec fn distinct_count(s: Seq<u8>) -> nat
    decreases s.len(),
{
    if s.len() == 0 {
        0
    } else if s.drop_last().contains(s.last()) {
        distinct_count(s.drop_last())
    } else {
        distinct_count(s.drop_last()) + 1
    }
}

/// The qualifying windows of `size` bytes that start before `n`, in order of
/// their start.
pub open spec fn windows_before(blob: Seq<u8>, size: nat, threshold: nat, n: int) -> Seq<Seq<u8>>
    decreases n,
{
    if n <= 0 {
        seq![]
    } else {
        let earlier = windows_before(blob, size, threshold, n - 1);
        let w = blob.subrange(n - 1, n - 1 + size);
        if distinct_count(w) >= threshold {
            earlier.push(w)
        } else {
            earlier
        }
    }
}

/// Every window of `size` bytes of `blob` with at least `threshold` distinct
/// values, in order of its start.
pub open spec fn entropy_windows(blob: Seq<u8>, size: nat, threshold: nat) -> Seq<Seq<u8>> {
    if blob.len() < size {
        seq![]
    } else {
        windows_before(blob, size, threshold, blob.len() - size + 1)
    }
}

/// The candidates of one blob: the wide pass, then the narrow one.
pub open spec fn blob_candidates(blob: Seq<u8>) -> Seq<Seq<u8>> {
    entropy_windows(blob, WIDE_WINDOW as nat, WIDE_THRESHOLD as nat) + entropy_windows(
        blob,
        NARROW_WINDOW as nat,
        NARROW_THRESHOLD as nat,
    )
}

/// `s` with each value kept only at its first occurrence.
pub open spec fn dedup(s: Seq<Seq<u8>>) -> Seq<Seq<u8>>
    decreases s.len(),
{
    if s.len() == 0 {
        seq![]
    } else {
        let d = dedup(s.drop_last());
        if d.contains(s.last()) {
            d
        } else {
            d.push(s.last())
        }
    }
}

/// The candidate lists of several blobs.
pub open spec fn candidate_lists(blobs: Seq<Seq<u8>>) -> Seq<Seq<Seq<u8>>> {
    blobs.map_values(|b: Seq<u8>| blob_candidates(b))
}

/// The candidates of every blob, in order, each kept once.
pub open spec fn all_candidates(blobs: Seq<Seq<u8>>) -> Seq<Seq<u8>> {
    dedup(candidate_lists(blobs).flatten())
}

/// A sequence without repeated values has as many distinct values as elements.
proof fn lemma_distinct_count_no_duplicates(s: Seq<u8>)
    requires
        s.no_duplicates(),
    ensures
        distinct_count(s) == s.len(),
    decreases s.len(),
{
    if s.len() > 0 {
        let d = s.drop_last();
        assert(d.no_duplicates()) by {
            assert forall|i: int, j: int| 0 <= i < d.len() && 0 <= j < d.len() && i != j implies d[i]
                != d[j] by {
                assert(d[i] == s[i] && d[j] == s[j]);
            }
        }
        if d.contains(s.last()) {
            let k = choose|k: int| 0 <= k < d.len() && d[k] == s.last();
            assert(s[k] == s[s.len() - 1]);
        }
        lemma_distinct_count_no_duplicates(d);
    }
}

proof fn lemma_windows_before_contains(blob: Seq<u8>, size: nat, threshold: nat, n: int, start: int)
    requires
        0 <= start < n,
        distinct_count(blob.subrange(start, start + size)) >= threshold,
    ensures
        windows_before(blob, size, threshold, n).contains(blob.subrange(start, start + size)),
    decreases n,
{
    let w = blob.subrange(start, start + size);
    let earlier = windows_before(blob, size, threshold, n - 1);
    if start == n - 1 {
        assert(windows_before(blob, size, threshold, n) == earlier.push(w));
        assert(earlier.push(w)[earlier.len() as int] == w);
    } else {
        lemma_windows_before_contains(blob, size, threshold, n - 1, start);
        let k = choose|k: int| 0 <= k < earlier.len() && earlier[k] == w;
        if distinct_count(blob.subrange(n - 1, n - 1 + size)) >= threshold {
            assert(earlier.push(blob.subrange(n - 1, n - 1 + size))[k] == w);
        }
    }
}

/// A run of 32 pairwise distinct bytes anywhere in a blob is one of the blob's
/// key candidates, byte for byte.
pub proof fn lemma_distinct_window_is_candidate(blob: Seq<u8>, offset: int)
    requires
        0 <= offset,
        offset + 32 <= blob.len(),
        blob.subrange(offset, offset + 32).no_duplicates(),
    ensures
        blob_candidates(blob).contains(blob.subrange(offset, offset + 32)),
{
    let w = blob.subrange(offset, offset + 32);
    lemma_distinct_count_no_duplicates(w);
    lemma_windows_before_contains(blob, 32, 12, blob.len() - 32 + 1, offset);
    let wide = entropy_windows(blob, 32, 12);
    let narrow = entropy_windows(blob, 16, 6);
    let k = choose|k: int| 0 <= k < wide.len() && wide[k] == w;
    assert((wide + narrow)[k] == w);
}

/// The number of distinct byte values in `data`.
pub fn unique_bytes(data: &[u8]) -> (r: usize)
    ensures
        r == distinct_count(data@),
{
    let mut seen: Vec<bool> = vec![false; 256];
    let mut count: usize = 0;
    let mut i: usize = 0;
    while i < data.len()
        invariant
            i <= data.len(),
            seen.len() == 256,
            forall|v: u8| #[trigger] seen@[v as int] == data@.subrange(0, i as int).contains(v),
            count == distinct_count(data@.subrange(0, i as int)),
            count <= i,
        decreases data.len() - i,
    {
        let b = data[i];
        let ghost prefix = data@.subrange(0, i as int);
        let ghost next = data@.subrange(0, i + 1);
        assert(next.drop_last() =~= prefix);
        assert(next.last() == b);
        if !seen[b as usize] {
            seen.set(b as usize, true);
            count = count + 1;
        }
        proof {
            assert forall|v: u8| #[trigger] seen@[v as int] == next.contains(v) by {
                if next.contains(v) {
                    let k = choose|k: int| 0 <= k < next.len() && next[k] == v;
                    if k < i {
                        assert(prefix[k] == v);
                    }
                }
                if prefix.contains(v) {
                    let k = choose|k: int| 0 <= k < prefix.len() && prefix[k] == v;
                    assert(next[k] == v);
                }
                if v == b {
                    assert(next[i as int] == v);
                }
            }
        }
        i = i + 1;
    }
    assert(data@.subrange(0, i as int) =~= data@);
    count
}

/// Every window of `size` bytes with at least `threshold` distinct values.
pub fn extract_windows(blob: &[u8], size: usize, threshold: usize) -> (r: Vec<Vec<u8>>)
    ensures
        keys_view(r@) == entropy_windows(blob@, size as nat, threshold as nat),
{
    let mut out: Vec<Vec<u8>> = Vec::new();
    if blob.len() < size {
        assert(keys_view(out@) =~= Seq::<Seq<u8>>::empty());
        return out;
    }
    let last = blob.len() - size;
    let mut start: usize = 0;
    assert(keys_view(out@) =~= windows_before(blob@, size as nat, threshold as nat, 0));
    loop
        invariant_except_break
            keys_view(out@) == windows_before(blob@, size as nat, threshold as nat, start as int),
        invariant
            last == blob.len() - size,
            start <= last,
        ensures
            keys_view(out@) == windows_before(blob@, size as nat, threshold as nat, last + 1),
        decreases last - start,
    {
        let window = slice_subrange(blob, start, start + size);
        let ghost before = keys_view(out@);
        if unique_bytes(window) >= threshold {
            out.push(slice_to_vec(window));
            assert(keys_view(out@) =~= before.push(window@));
        }
        if start == last {
            break;
        }
        start = start + 1;
    }
    out
}

/// The candidates of one blob: 32-byte windows with at least 12 distinct
/// values, then 16-byte windows with at least 6.
pub fn extract_key_candidates(blob: &[u8]) -> (r: Vec<Vec<u8>>)
    ensures
        keys_view(r@) == blob_candidates(blob@),
{
    let mut wide = extract_windows(blob, WIDE_WINDOW, WIDE_THRESHOLD);
    let mut narrow = extract_windows(blob, NARROW_WINDOW, NARROW_THRESHOLD);
    let ghost w = keys_view(wide@);
    let ghost n = keys_view(narrow@);
    wide.append(&mut narrow);
    assert(keys_view(wide@) =~= w + n);
    wide
}

fn bytes_equal(a: &Vec<u8>, b: &Vec<u8>) -> (r: bool)
    ensures
        r == (a@ == b@),
{
    if a.len() != b.len() {
        return false;
    }
    let mut i: usize = 0;
    while i < a.len()
        invariant
            a.len() == b.len(),
            i <= a.len(),
            forall|j: int| 0 <= j < i ==> a@[j] == b@[j],
        decreases a.len() - i,
    {
        if a[i] != b[i] {
            return false;
        }
        i = i + 1;
    }
    assert(a@ =~= b@);
    true
}

fn contains_key(keys: &Vec<Vec<u8>>, key: &Vec<u8>) -> (r: bool)
    ensures
        r == keys_view(keys@).contains(key@),
{
    let mut i: usize = 0;
    while i < keys.len()
        invariant
            i <= keys.len(),
            forall|j: int| 0 <= j < i ==> keys_view(keys@)[j] != key@,
        decreases keys.len() - i,
    {
        if bytes_equal(&keys[i], key) {
            assert(keys_view(keys@)[i as int] == key@);
            return true;
        }
        i = i + 1;
    }
    false
}

/// The candidates of every blob in turn, each distinct key kept once, at its
/// first occurrence.
pub fn candidates_from_blobs(blobs: &Vec<Vec<u8>>) -> (r: Vec<Vec<u8>>)
    ensures
        keys_view(r@) == all_candidates(keys_view(blobs@)),
{
    let mut all: Vec<Vec<u8>> = Vec::new();
    let mut i: usize = 0;
    while i < blobs.len()
        invariant
            i <= blobs.len(),
            keys_view(all@) == candidate_lists(keys_view(blobs@).subrange(0, i as int)).flatten(),
        decreases blobs.len() - i,
    {
        let mut found = extract_key_candidates(blobs[i].as_slice());
        let ghost before = keys_view(all@);
        let ghost found_v = keys_view(found@);
        all.append(&mut found);
        proof {
            let p = keys_view(blobs@).subrange(0, i as int);
            let p2 = keys_view(blobs@).subrange(0, i + 1);
            assert(p2 =~= p.push(keys_view(blobs@)[i as int]));
            assert(keys_view(blobs@)[i as int] == blobs@[i as int]@);
            assert(candidate_lists(p2) =~= candidate_lists(p).push(found_v));
            candidate_lists(p).lemma_flatten_push(found_v);
            assert(keys_view(all@) =~= before + found_v);
        }
        i = i + 1;
    }
    assert(keys_view(blobs@).subrange(0, i as int) =~= keys_view(blobs@));
    let mut out: Vec<Vec<u8>> = Vec::new();
    let mut j: usize = 0;
    while j < all.len()
        invariant
            j <= all.len(),
            keys_view(out@) == dedup(keys_view(all@).subrange(0, j as int)),
        decreases all.len() - j,
    {
        let ghost p2 = keys_view(all@).subrange(0, j + 1);
        assert(p2.drop_last() =~= keys_view(all@).subrange(0, j as int));
        if !contains_key(&out, &all[j]) {
            let key = all[j].clone();
            let ghost before = keys_view(out@);
            out.push(key);
            assert(keys_view(out@) =~= before.push(keys_view(all@)[j as int]));
        }
        j = j + 1;
    }
    assert(keys_view(all@).subrange(0, j as int) =~= keys_view(all@));
    out
}

} // verus!
