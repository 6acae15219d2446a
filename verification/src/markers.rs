//! Marker classification and trimming over memo fragment buffers.
//!
//! A memo carries one fragment of an embedded payload plus optional framing
//! markers: the PNG signature and end chunk delimit image data, and ASCII tags
//! delimit a collection and its metadata. Everything here is pure byte-pattern
//! matching: finding the first occurrence of a marker, testing for its
//! presence, and trimming a buffer on one side of it.

use vstd::prelude::*;

verus! {

/// The 8-byte PNG file signature; it opens the first fragment of an image.
pub open spec fn png_start_marker() -> Seq<u8> {
    seq![0x89u8, 0x50u8, 0x4Eu8, 0x47u8, 0x0Du8, 0x0Au8, 0x1Au8, 0x0Au8]
}

/// The 12-byte zero-length IEND chunk with its CRC; it closes an image.
pub open spec fn png_end_marker() -> Seq<u8> {
    seq![0x00u8, 0x00u8, 0x00u8, 0x00u8, 0x49u8, 0x45u8, 0x4Eu8, 0x44u8, 0xAEu8, 0x42u8, 0x60u8, 0x82u8]
}

/// ASCII tag opening a collection.
pub open spec fn collection_start_marker() -> Seq<u8> {
    seq![0x43u8, 0x48u8, 0x49u8, 0x41u8, 0x47u8, 0x4Fu8, 0x44u8, 0x53u8, 0x53u8, 0x54u8, 0x41u8, 0x52u8, 0x54u8]
}

/// ASCII tag closing a collection.
pub open spec fn collection_end_marker() -> Seq<u8> {
    seq![0x43u8, 0x48u8, 0x49u8, 0x41u8, 0x47u8, 0x4Fu8, 0x44u8, 0x53u8, 0x45u8, 0x4Eu8, 0x44u8]
}

/// ASCII tag opening the metadata blob.
pub open spec fn meta_start_marker() -> Seq<u8> {
    seq![0x43u8, 0x48u8, 0x49u8, 0x41u8, 0x47u8, 0x4Fu8, 0x44u8, 0x53u8, 0x4Du8, 0x45u8, 0x54u8, 0x41u8, 0x53u8, 0x54u8, 0x41u8, 0x52u8, 0x54u8]
}

/// ASCII tag closing the metadata blob.
pub open spec fn meta_end_marker() -> Seq<u8> {
    seq![0x43u8, 0x48u8, 0x49u8, 0x41u8, 0x47u8, 0x4Fu8, 0x44u8, 0x53u8, 0x4Du8, 0x45u8, 0x54u8, 0x41u8, 0x45u8, 0x4Eu8, 0x44u8]
}

/// The pattern `pat` occurs in `buf` starting at index `i`.
pub open spec fn match_at(buf: Seq<u8>, pat: Seq<u8>, i: int) -> bool {
    &&& 0 <= i
    &&& i + pat.len() <= buf.len()
    &&& buf.subrange(i, i + pat.len() as int) == pat
}

/// Index of the first occurrence of `pat` in `buf` at or after `i`, if any.
pub open spec fn find_from(buf: Seq<u8>, pat: Seq<u8>, i: int) -> Option<int>
    decreases buf.len() + 1 - i,
{
    if i < 0 || i + pat.len() > buf.len() {
        None
    } else if buf.subrange(i, i + pat.len() as int) == pat {
        Some(i)
    } else {
        find_from(buf, pat, i + 1)
    }
}

/// Index of the first occurrence of `pat` in `buf`, if any.
pub open spec fn find_marker(buf: Seq<u8>, pat: Seq<u8>) -> Option<int> {
    find_from(buf, pat, 0)
}

/// `pat` occurs somewhere in `buf`.
pub open spec fn has_marker(buf: Seq<u8>, pat: Seq<u8>) -> bool {
    find_marker(buf, pat) is Some
}

/// `find_from` returns the least match index at or after `i`, and `None`
/// exactly when no match at or after `i` exists.
pub proof fn lemma_find_from_props(buf: Seq<u8>, pat: Seq<u8>, i: int)
    requires
        0 <= i,
    ensures
        match find_from(buf, pat, i) {
            Some(j) => i <= j && match_at(buf, pat, j)
                && (forall|k: int| i <= k < j ==> !match_at(buf, pat, k)),
            None => forall|k: int| k >= i ==> !match_at(buf, pat, k),
        },
    decreases buf.len() + 1 - i,
{
    if i + pat.len() > buf.len() {
        assert forall|k: int| k >= i implies !match_at(buf, pat, k) by {
            assert(k + pat.len() > buf.len());
        }
    } else if buf.subrange(i, i + pat.len() as int) == pat {
    } else {
        lemma_find_from_props(buf, pat, i + 1);
    }
}

/// `find_marker` returns the least match index overall, and `None` exactly
/// when the pattern does not occur.
pub proof fn lemma_find_marker_first(buf: Seq<u8>, pat: Seq<u8>)
    ensures
        match find_marker(buf, pat) {
            Some(j) => match_at(buf, pat, j)
                && (forall|k: int| 0 <= k < j ==> !match_at(buf, pat, k)),
            None => forall|k: int| !match_at(buf, pat, k),
        },
{
    lemma_find_from_props(buf, pat, 0);
    if find_marker(buf, pat) is None {
        assert forall|k: int| !match_at(buf, pat, k) by {
            if k < 0 {
            } else {
                assert(!match_at(buf, pat, k));
            }
        }
    }
}

/// If a match exists at `j` and none before it, the search finds `j`.
pub proof fn lemma_find_marker_of_unique(buf: Seq<u8>, pat: Seq<u8>, j: int)
    requires
        match_at(buf, pat, j),
        forall|k: int| 0 <= k < j ==> !match_at(buf, pat, k),
    ensures
        find_marker(buf, pat) == Some(j),
{
    lemma_find_marker_first(buf, pat);
    match find_marker(buf, pat) {
        Some(m) => {
            if m < j {
                assert(match_at(buf, pat, m));
            } else if m > j {
                assert(!match_at(buf, pat, j));
            }
        }
        None => {
            assert(!match_at(buf, pat, j));
        }
    }
}

/// The bytes of `n` appear in `h` starting at `i`.
fn slice_eq_at(h: &[u8], n: &[u8], i: usize) -> (r: bool)
    requires
        i + n@.len() <= h@.len(),
    ensures
        r == (h@.subrange(i as int, i as int + n@.len() as int) == n@),
{
    let ghost sub: Seq<u8> = h@.subrange(i as int, i as int + n@.len() as int);
    let hl = h.len();
    let nl = n.len();
    let mut j: usize = 0;
    while j < nl
        invariant
            j <= nl,
            nl == n@.len(),
            hl == h@.len(),
            i + nl <= hl,
            sub == h@.subrange(i as int, i as int + n@.len() as int),
            forall|k: int| 0 <= k < j ==> h@[i + k] == n@[k],
        decreases nl - j,
    {
        let hb = *vstd::slice::slice_index_get(h, i + j);
        let nb = *vstd::slice::slice_index_get(n, j);
        if hb != nb {
            proof {
                assert(sub[j as int] == h@[i + j]);
                assert(sub[j as int] != n@[j as int]);
            }
            return false;
        }
        j += 1;
    }
    proof {
        assert forall|k: int| 0 <= k < n@.len() implies sub[k] == n@[k] by {
            assert(sub[k] == h@[i + k]);
        }
        assert(sub =~= n@);
    }
    true
}

/// First-occurrence substring search: the start and end positions of the
/// first occurrence of `needle` in `haystack`, if there is one.
pub fn bytes_contains(haystack: &[u8], needle: &[u8]) -> (r: Option<(usize, usize)>)
    ensures
        match r {
            Some(p) => find_marker(haystack@, needle@) == Some(p.0 as int)
                && p.1 == p.0 + needle@.len(),
            None => find_marker(haystack@, needle@) is None,
        },
{
    if needle.len() == 0 {
        proof {
            assert(haystack@.subrange(0, 0) =~= needle@);
        }
        return Some((0, 0));
    }
    if needle.len() > haystack.len() {
        return None;
    }
    let hl = haystack.len();
    let nl = needle.len();
    let bound = hl - nl;
    let mut i: usize = 0;
    while i <= bound
        invariant
            nl == needle@.len(),
            hl == haystack@.len(),
            nl > 0,
            nl <= hl,
            bound == hl - nl,
            i <= bound + 1,
            find_from(haystack@, needle@, 0) == find_from(haystack@, needle@, i as int),
        decreases bound + 1 - i,
    {
        if slice_eq_at(haystack, needle, i) {
            return Some((i, i + nl));
        }
        proof {
            assert(find_from(haystack@, needle@, i as int)
                == find_from(haystack@, needle@, i as int + 1));
        }
        i += 1;
    }
    proof {
        assert(find_from(haystack@, needle@, i as int) is None);
    }
    None
}

/// A copy of `b[from..to]`.
fn copy_range(b: &[u8], from: usize, to: usize) -> (r: Vec<u8>)
    requires
        from <= to <= b@.len(),
    ensures
        r@ == b@.subrange(from as int, to as int),
{
    vstd::slice::slice_to_vec(vstd::slice::slice_subrange(b, from, to))
}

/// The PNG signature as a buffer.
pub fn png_start_bytes() -> (r: Vec<u8>)
    ensures
        r@ == png_start_marker(),
{
    let mut v: Vec<u8> = Vec::new();
    v.push(0x89u8);
    v.push(0x50u8);
    v.push(0x4Eu8);
    v.push(0x47u8);
    v.push(0x0Du8);
    v.push(0x0Au8);
    v.push(0x1Au8);
    v.push(0x0Au8);
    proof {
        assert(v@ =~= png_start_marker());
    }
    v
}

/// The PNG end chunk as a buffer.
pub fn png_end_bytes() -> (r: Vec<u8>)
    ensures
        r@ == png_end_marker(),
{
    let mut v: Vec<u8> = Vec::new();
    v.push(0x00u8);
    v.push(0x00u8);
    v.push(0x00u8);
    v.push(0x00u8);
    v.push(0x49u8);
    v.push(0x45u8);
    v.push(0x4Eu8);
    v.push(0x44u8);
    v.push(0xAEu8);
    v.push(0x42u8);
    v.push(0x60u8);
    v.push(0x82u8);
    proof {
        assert(v@ =~= png_end_marker());
    }
    v
}

/// The collection-start tag as a buffer.
pub fn collection_start_bytes() -> (r: Vec<u8>)
    ensures
        r@ == collection_start_marker(),
{
    let mut v: Vec<u8> = Vec::new();
    v.push(0x43u8);
    v.push(0x48u8);
    v.push(0x49u8);
    v.push(0x41u8);
    v.push(0x47u8);
    v.push(0x4Fu8);
    v.push(0x44u8);
    v.push(0x53u8);
    v.push(0x53u8);
    v.push(0x54u8);
    v.push(0x41u8);
    v.push(0x52u8);
    v.push(0x54u8);
    proof {
        assert(v@ =~= collection_start_marker());
    }
    v
}

/// The collection-end tag as a buffer.
pub fn collection_end_bytes() -> (r: Vec<u8>)
    ensures
        r@ == collection_end_marker(),
{
    let mut v: Vec<u8> = Vec::new();
    v.push(0x43u8);
    v.push(0x48u8);
    v.push(0x49u8);
    v.push(0x41u8);
    v.push(0x47u8);
    v.push(0x4Fu8);
    v.push(0x44u8);
    v.push(0x53u8);
    v.push(0x45u8);
    v.push(0x4Eu8);
    v.push(0x44u8);
    proof {
        assert(v@ =~= collection_end_marker());
    }
    v
}

/// The metadata-start tag as a buffer.
pub fn meta_start_bytes() -> (r: Vec<u8>)
    ensures
        r@ == meta_start_marker(),
{
    let mut v: Vec<u8> = Vec::new();
    v.push(0x43u8);
    v.push(0x48u8);
    v.push(0x49u8);
    v.push(0x41u8);
    v.push(0x47u8);
    v.push(0x4Fu8);
    v.push(0x44u8);
    v.push(0x53u8);
    v.push(0x4Du8);
    v.push(0x45u8);
    v.push(0x54u8);
    v.push(0x41u8);
    v.push(0x53u8);
    v.push(0x54u8);
    v.push(0x41u8);
    v.push(0x52u8);
    v.push(0x54u8);
    proof {
        assert(v@ =~= meta_start_marker());
    }
    v
}

/// The metadata-end tag as a buffer.
pub fn meta_end_bytes() -> (r: Vec<u8>)
    ensures
        r@ == meta_end_marker(),
{
    let mut v: Vec<u8> = Vec::new();
    v.push(0x43u8);
    v.push(0x48u8);
    v.push(0x49u8);
    v.push(0x41u8);
    v.push(0x47u8);
    v.push(0x4Fu8);
    v.push(0x44u8);
    v.push(0x53u8);
    v.push(0x4Du8);
    v.push(0x45u8);
    v.push(0x54u8);
    v.push(0x41u8);
    v.push(0x45u8);
    v.push(0x4Eu8);
    v.push(0x44u8);
    proof {
        assert(v@ =~= meta_end_marker());
    }
    v
}

/// The memo holds the metadata-start tag.
pub fn is_meta(memo: &[u8]) -> (r: bool)
    ensures
        r == has_marker(memo@, meta_start_marker()),
{
    let pat = meta_start_bytes();
    bytes_contains(memo, pat.as_slice()).is_some()
}

/// The memo holds the PNG signature.
pub fn is_png_start(memo: &[u8]) -> (r: bool)
    ensures
        r == has_marker(memo@, png_start_marker()),
{
    let pat = png_start_bytes();
    bytes_contains(memo, pat.as_slice()).is_some()
}

/// The memo holds the PNG end chunk.
pub fn is_png_end(memo: &[u8]) -> (r: bool)
    ensures
        r == has_marker(memo@, png_end_marker()),
{
    let pat = png_end_bytes();
    bytes_contains(memo, pat.as_slice()).is_some()
}

/// The memo holds the collection-start tag.
pub fn is_collection_start(memo: &[u8]) -> (r: bool)
    ensures
        r == has_marker(memo@, collection_start_marker()),
{
    let pat = collection_start_bytes();
    bytes_contains(memo, pat.as_slice()).is_some()
}

/// The memo holds the collection-end tag.
pub fn is_collection_end(memo: &[u8]) -> (r: bool)
    ensures
        r == has_marker(memo@, collection_end_marker()),
{
    let pat = collection_end_bytes();
    bytes_contains(memo, pat.as_slice()).is_some()
}

/// Keep the first occurrence of the marker and what follows it; an absent
/// marker leaves the buffer unchanged.
pub open spec fn keep_from_marker(m: Seq<u8>, pat: Seq<u8>) -> Seq<u8> {
    match find_marker(m, pat) {
        Some(i) => m.subrange(i, m.len() as int),
        None => m,
    }
}

/// Keep everything up to and including the first occurrence of the marker;
/// an absent marker leaves the buffer unchanged.
pub open spec fn keep_through_marker(m: Seq<u8>, pat: Seq<u8>) -> Seq<u8> {
    match find_marker(m, pat) {
        Some(i) => m.subrange(0, i + pat.len() as int),
        None => m,
    }
}

/// Drop everything up to and including the first occurrence of the marker;
/// an absent marker leaves the buffer unchanged.
pub open spec fn drop_through_marker(m: Seq<u8>, pat: Seq<u8>) -> Seq<u8> {
    match find_marker(m, pat) {
        Some(i) => m.subrange(i + pat.len() as int, m.len() as int),
        None => m,
    }
}

/// Drop the first occurrence of the marker and what follows it; an absent
/// marker leaves the buffer unchanged.
pub open spec fn drop_from_marker(m: Seq<u8>, pat: Seq<u8>) -> Seq<u8> {
    match find_marker(m, pat) {
        Some(i) => m.subrange(0, i),
        None => m,
    }
}

fn keep_from_marker_exec(memo: &[u8], pat: &[u8]) -> (r: Vec<u8>)
    ensures
        r@ == keep_from_marker(memo@, pat@),
{
    proof {
        lemma_find_marker_first(memo@, pat@);
    }
    match bytes_contains(memo, pat) {
        Some((s, _e)) => copy_range(memo, s, memo.len()),
        None => {
            let r = copy_range(memo, 0, memo.len());
            proof {
                assert(memo@.subrange(0, memo@.len() as int) =~= memo@);
            }
            r
        }
    }
}

fn keep_through_marker_exec(memo: &[u8], pat: &[u8]) -> (r: Vec<u8>)
    ensures
        r@ == keep_through_marker(memo@, pat@),
{
    proof {
        lemma_find_marker_first(memo@, pat@);
    }
    match bytes_contains(memo, pat) {
        Some((_s, e)) => copy_range(memo, 0, e),
        None => {
            let r = copy_range(memo, 0, memo.len());
            proof {
                assert(memo@.subrange(0, memo@.len() as int) =~= memo@);
            }
            r
        }
    }
}

fn drop_through_marker_exec(memo: &[u8], pat: &[u8]) -> (r: Vec<u8>)
    ensures
        r@ == drop_through_marker(memo@, pat@),
{
    proof {
        lemma_find_marker_first(memo@, pat@);
    }
    match bytes_contains(memo, pat) {
        Some((_s, e)) => copy_range(memo, e, memo.len()),
        None => {
            let r = copy_range(memo, 0, memo.len());
            proof {
                assert(memo@.subrange(0, memo@.len() as int) =~= memo@);
            }
            r
        }
    }
}

fn drop_from_marker_exec(memo: &[u8], pat: &[u8]) -> (r: Vec<u8>)
    ensures
        r@ == drop_from_marker(memo@, pat@),
{
    proof {
        lemma_find_marker_first(memo@, pat@);
    }
    match bytes_contains(memo, pat) {
        Some((s, _e)) => copy_range(memo, 0, s),
        None => {
            let r = copy_range(memo, 0, memo.len());
            proof {
                assert(memo@.subrange(0, memo@.len() as int) =~= memo@);
            }
            r
        }
    }
}

/// Strip everything before the PNG signature, keeping the signature itself:
/// it is part of the image data.
pub fn filter_png_start(memo: &[u8]) -> (r: Vec<u8>)
    ensures
        r@ == keep_from_marker(memo@, png_start_marker()),
{
    let pat = png_start_bytes();
    keep_from_marker_exec(memo, pat.as_slice())
}

/// Strip everything after the PNG end chunk, keeping the chunk itself: it is
/// part of the image data.
pub fn filter_png_end(memo: &[u8]) -> (r: Vec<u8>)
    ensures
        r@ == keep_through_marker(memo@, png_end_marker()),
{
    let pat = png_end_bytes();
    keep_through_marker_exec(memo, pat.as_slice())
}

/// Strip the collection-start tag and everything before it.
pub fn filter_collection_start(memo: &[u8]) -> (r: Vec<u8>)
    ensures
        r@ == drop_through_marker(memo@, collection_start_marker()),
{
    let pat = collection_start_bytes();
    drop_through_marker_exec(memo, pat.as_slice())
}

/// Strip the collection-end tag and everything after it.
pub fn filter_collection_end(memo: &[u8]) -> (r: Vec<u8>)
    ensures
        r@ == drop_from_marker(memo@, collection_end_marker()),
{
    let pat = collection_end_bytes();
    drop_from_marker_exec(memo, pat.as_slice())
}

/// Strip the metadata-start tag and everything before it.
pub fn filter_meta_start(memo: &[u8]) -> (r: Vec<u8>)
    ensures
        r@ == drop_through_marker(memo@, meta_start_marker()),
{
    let pat = meta_start_bytes();
    drop_through_marker_exec(memo, pat.as_slice())
}

/// Strip the metadata-end tag and everything after it.
pub fn filter_meta_end(memo: &[u8]) -> (r: Vec<u8>)
    ensures
        r@ == drop_from_marker(memo@, meta_end_marker()),
{
    let pat = meta_end_bytes();
    drop_from_marker_exec(memo, pat.as_slice())
}

/// A match inside a prefix of `m` is a match in `m` at the same position.
proof fn lemma_match_in_prefix(m: Seq<u8>, pat: Seq<u8>, cut: int, k: int)
    requires
        0 <= cut <= m.len(),
        match_at(m.subrange(0, cut), pat, k),
    ensures
        match_at(m, pat, k),
{
    assert(m.subrange(0, cut).subrange(k, k + pat.len() as int)
        =~= m.subrange(k, k + pat.len() as int));
}

/// A match inside a suffix of `m` is a match in `m`, shifted by the cut.
proof fn lemma_match_in_suffix(m: Seq<u8>, pat: Seq<u8>, cut: int, k: int)
    requires
        0 <= cut <= m.len(),
        match_at(m.subrange(cut, m.len() as int), pat, k),
    ensures
        match_at(m, pat, cut + k),
{
    assert(m.subrange(cut, m.len() as int).subrange(k, k + pat.len() as int)
        =~= m.subrange(cut + k, cut + k + pat.len() as int));
}

/// Law: filtering that keeps from the marker onward is idempotent. The result
/// begins with the marker, so a second pass keeps everything.
pub proof fn lemma_keep_from_marker_idempotent(m: Seq<u8>, pat: Seq<u8>)
    ensures
        keep_from_marker(keep_from_marker(m, pat), pat) == keep_from_marker(m, pat),
{
    lemma_find_marker_first(m, pat);
    match find_marker(m, pat) {
        Some(i) => {
            let r = m.subrange(i, m.len() as int);
            assert(r.subrange(0, pat.len() as int) =~= m.subrange(i, i + pat.len() as int));
            assert(match_at(r, pat, 0));
            lemma_find_marker_of_unique(r, pat, 0);
            assert(r.subrange(0, r.len() as int) =~= r);
        }
        None => {}
    }
}

/// Law: filtering that keeps through the end of the marker is idempotent. The
/// first occurrence is unchanged by cutting after it.
pub proof fn lemma_keep_through_marker_idempotent(m: Seq<u8>, pat: Seq<u8>)
    ensures
        keep_through_marker(keep_through_marker(m, pat), pat) == keep_through_marker(m, pat),
{
    lemma_find_marker_first(m, pat);
    match find_marker(m, pat) {
        Some(i) => {
            let r = m.subrange(0, i + pat.len() as int);
            assert(r.subrange(i, i + pat.len() as int) =~= m.subrange(i, i + pat.len() as int));
            assert(match_at(r, pat, i));
            assert forall|k: int| 0 <= k < i implies !match_at(r, pat, k) by {
                if match_at(r, pat, k) {
                    lemma_match_in_prefix(m, pat, i + pat.len() as int, k);
                }
            }
            lemma_find_marker_of_unique(r, pat, i);
            assert(r.subrange(0, i + pat.len() as int) =~= r);
        }
        None => {}
    }
}

/// Law: filtering that drops from the marker onward is idempotent. Nothing
/// before the first occurrence can hold another occurrence.
pub proof fn lemma_drop_from_marker_idempotent(m: Seq<u8>, pat: Seq<u8>)
    requires
        pat.len() > 0,
    ensures
        drop_from_marker(drop_from_marker(m, pat), pat) == drop_from_marker(m, pat),
{
    lemma_find_marker_first(m, pat);
    match find_marker(m, pat) {
        Some(i) => {
            let r = m.subrange(0, i);
            lemma_find_marker_first(r, pat);
            match find_marker(r, pat) {
                Some(k) => {
                    lemma_match_in_prefix(m, pat, i, k);
                    assert(false);
                }
                None => {}
            }
        }
        None => {}
    }
}

/// Law: filtering that drops through the marker is idempotent on buffers that
/// hold the marker at most once. (With a second occurrence after the first, a
/// second pass would trim further.)
pub proof fn lemma_drop_through_marker_idempotent(m: Seq<u8>, pat: Seq<u8>)
    requires
        pat.len() > 0,
        forall|k1: int, k2: int| match_at(m, pat, k1) && match_at(m, pat, k2) ==> k1 == k2,
    ensures
        drop_through_marker(drop_through_marker(m, pat), pat) == drop_through_marker(m, pat),
{
    lemma_find_marker_first(m, pat);
    match find_marker(m, pat) {
        Some(i) => {
            let cut = i + pat.len() as int;
            let r = m.subrange(cut, m.len() as int);
            lemma_find_marker_first(r, pat);
            match find_marker(r, pat) {
                Some(k) => {
                    lemma_match_in_suffix(m, pat, cut, k);
                    assert(match_at(m, pat, cut + k) && match_at(m, pat, i));
                    assert(false);
                }
                None => {}
            }
        }
        None => {}
    }
}

/// Law: on a buffer holding the marker exactly once, at `i`, each filter
/// removes exactly the marker and the specified side of it.
pub proof fn lemma_filters_on_unique_marker(m: Seq<u8>, pat: Seq<u8>, i: int)
    requires
        match_at(m, pat, i),
        forall|k: int| match_at(m, pat, k) ==> k == i,
    ensures
        keep_from_marker(m, pat) == m.subrange(i, m.len() as int),
        keep_through_marker(m, pat) == m.subrange(0, i + pat.len() as int),
        drop_through_marker(m, pat) == m.subrange(i + pat.len() as int, m.len() as int),
        drop_from_marker(m, pat) == m.subrange(0, i),
{
    lemma_find_marker_of_unique(m, pat, i);
}

/// The filename a memo carries, if any: after trimming a trailing
/// collection-end tag, the tail following the PNG end chunk, provided that
/// tail decodes as UTF-8. Any other outcome yields no name.
pub open spec fn filename_of(m: Seq<u8>) -> Option<Seq<char>> {
    let w = drop_from_marker(m, collection_end_marker());
    match find_marker(w, png_end_marker()) {
        Some(i) => {
            let tail = w.subrange(i + png_end_marker().len() as int, w.len() as int);
            if vstd::utf8::valid_utf8(tail) {
                Some(vstd::utf8::decode_utf8(tail))
            } else {
                None
            }
        }
        None => None,
    }
}

/// Relies on std::str::from_utf8: it succeeds exactly on valid UTF-8 input
/// and decodes it, in the model vstd states for str::from_utf8_unchecked.
#[verifier::external_body]
fn utf8_decode(b: &[u8]) -> (r: Option<String>)
    ensures
        r matches Some(s) ==> vstd::utf8::valid_utf8(b@) && s@ == vstd::utf8::decode_utf8(b@),
        r is None ==> !vstd::utf8::valid_utf8(b@),
{
    std::str::from_utf8(b).ok().map(|s| String::from(s))
}

/// Best-effort probe for a filename: a name is returned iff a UTF-8-decodable
/// tail immediately follows the PNG end chunk, after trimming a trailing
/// collection-end tag. It never fails.
pub fn get_filename(memo: &[u8]) -> (r: Option<String>)
    ensures
        match r {
            Some(s) => filename_of(memo@) == Some(s@),
            None => filename_of(memo@) is None,
        },
{
    let working = filter_collection_end(memo);
    let pat = png_end_bytes();
    proof {
        lemma_find_marker_first(working@, pat@);
    }
    match bytes_contains(working.as_slice(), pat.as_slice()) {
        Some((_s, e)) => {
            let tail = vstd::slice::slice_subrange(working.as_slice(), e, working.len());
            utf8_decode(tail)
        }
        None => None,
    }
}

} // verus!
