use crate::bytes::ends_with;
use crate::bytes::ends_with_bytes;
use crate::codec::archive_bytes;
use crate::codec::extract;
use crate::codec::extract_spec;
use crate::codec::lemma_extract_of_archive;
use crate::codec::pack;
use crate::codec::pack_fits;
use crate::codec::result_view;
use crate::compress::crc32_of;
use crate::compress::deflate_of;
use crate::errors::DocError;
use vstd::prelude::*;

verus! {

/// How a document path is treated, decided by its suffix alone.
#[derive(Clone, Copy, PartialEq, Eq, Structural, Debug)]
pub enum PathKind {
    /// `.fb2`: a raw FictionBook document.
    Fb2,
    /// `.fbz`: a zip container; the packed entry name's extension is forced to `.fb2`.
    Fbz,
    /// `.fb2.zip`: a zip container; the packed entry name is the stem as-is.
    Fb2Zip,
    /// Any other suffix: rejected.
    Unsupported,
}

/// The bytes of the suffix `.fb2`.
pub open spec fn suffix_fb2() -> Seq<u8> {
    seq![46u8, 102u8, 98u8, 50u8]
}

/// The bytes of the suffix `.fbz`.
pub open spec fn suffix_fbz() -> Seq<u8> {
    seq![46u8, 102u8, 98u8, 122u8]
}

/// The bytes of the suffix `.fb2.zip`.
pub open spec fn suffix_fb2_zip() -> Seq<u8> {
    seq![46u8, 102u8, 98u8, 50u8, 46u8, 122u8, 105u8, 112u8]
}

/// The classification of a path: exact, case-sensitive match on its last bytes.
pub open spec fn classify_spec(p: Seq<u8>) -> PathKind {
    if ends_with(p, suffix_fb2()) {
        PathKind::Fb2
    } else if ends_with(p, suffix_fbz()) {
        PathKind::Fbz
    } else if ends_with(p, suffix_fb2_zip()) {
        PathKind::Fb2Zip
    } else {
        PathKind::Unsupported
    }
}

/// Classifies a path by its suffix.
pub fn classify(path: &Vec<u8>) -> (r: PathKind)
    ensures
        r == classify_spec(path@),
{
    let fb2: Vec<u8> = vec![46u8, 102u8, 98u8, 50u8];
    let fbz: Vec<u8> = vec![46u8, 102u8, 98u8, 122u8];
    let fb2_zip: Vec<u8> = vec![46u8, 102u8, 98u8, 50u8, 46u8, 122u8, 105u8, 112u8];
    proof {
        assert(fb2@ =~= suffix_fb2());
        assert(fbz@ =~= suffix_fbz());
        assert(fb2_zip@ =~= suffix_fb2_zip());
    }
    if ends_with_bytes(path, &fb2) {
        PathKind::Fb2
    } else if ends_with_bytes(path, &fbz) {
        PathKind::Fbz
    } else if ends_with_bytes(path, &fb2_zip) {
        PathKind::Fb2Zip
    } else {
        PathKind::Unsupported
    }
}

/// A path the router accepts at all.
pub fn supported(path: &Vec<u8>) -> (r: bool)
    ensures
        r == (classify_spec(path@) != PathKind::Unsupported),
{
    let k = classify(path);
    match k {
        PathKind::Unsupported => false,
        _ => true,
    }
}

/// The index right after the last path separator among the first `i` bytes:
/// where the base name starts.
pub open spec fn base_start(p: Seq<u8>, i: int) -> int
    recommends
        0 <= i <= p.len(),
    decreases i,
{
    if i <= 0 {
        0
    } else if p[i - 1] == 47u8 || p[i - 1] == 92u8 {
        i
    } else {
        base_start(p, i - 1)
    }
}

/// The base name of a path: everything after the last `/` or `\`.
pub open spec fn base_name(p: Seq<u8>) -> Seq<u8> {
    p.subrange(base_start(p, p.len() as int), p.len() as int)
}

/// The archive entry name packed for an archive destination path: the base
/// name with the `.fbz` suffix replaced by `.fb2`, or with the `.fb2.zip`
/// suffix dropped.
pub open spec fn entry_name_spec(p: Seq<u8>) -> Seq<u8>
    recommends
        classify_spec(p) == PathKind::Fbz || classify_spec(p) == PathKind::Fb2Zip,
{
    let b = base_name(p);
    if classify_spec(p) == PathKind::Fbz {
        b.subrange(0, b.len() - 4) + suffix_fb2()
    } else {
        b.subrange(0, b.len() - 8)
    }
}

/// `base_start` does not move across a span without separators.
proof fn lemma_base_start_skips(p: Seq<u8>, i: int, j: int)
    requires
        0 <= i <= j <= p.len(),
        forall|k: int| i <= k < j ==> p[k] != 47u8 && p[k] != 92u8,
    ensures
        base_start(p, j) == base_start(p, i),
    decreases j - i,
{
    if i < j {
        lemma_base_start_skips(p, i, j - 1);
    }
}

/// Where the base name starts never exceeds the prefix inspected.
proof fn lemma_base_start_le(p: Seq<u8>, i: int)
    requires
        0 <= i <= p.len(),
    ensures
        0 <= base_start(p, i) <= i,
    decreases i,
{
    if i > 0 {
        lemma_base_start_le(p, i - 1);
    }
}

/// Derives the entry name for an archive destination path.
pub fn entry_name(path: &Vec<u8>) -> (r: Vec<u8>)
    requires
        classify_spec(path@) == PathKind::Fbz || classify_spec(path@) == PathKind::Fb2Zip,
    ensures
        r@ == entry_name_spec(path@),
{
    let ghost p = path@;
    let mut start: usize = 0;
    let mut j: usize = 0;
    while j < path.len()
        invariant
            j <= p.len(),
            p == path@,
            start == base_start(p, j as int),
        decreases p.len() - j,
    {
        if path[j] == 47u8 || path[j] == 92u8 {
            start = j + 1;
        }
        j += 1;
    }
    // The recognized suffix holds no separator, so the base name carries it whole.
    let suffix_len: usize = if matches!(classify(path), PathKind::Fbz) { 4 } else { 8 };
    proof {
        let sl = suffix_len as int;
        let suf = if classify_spec(p) == PathKind::Fbz { suffix_fbz() } else { suffix_fb2_zip() };
        assert(ends_with(p, suf));
        assert forall|k: int| p.len() - sl <= k < p.len() implies p[k] != 47u8 && p[k] != 92u8 by {
            assert(p[k] == p.subrange(p.len() - sl, p.len() as int)[k - (p.len() - sl)]);
        }
        lemma_base_start_skips(p, p.len() - sl, p.len() as int);
        lemma_base_start_le(p, p.len() - sl);
        assert(start <= p.len() - sl);
    }
    let stem_end: usize = path.len() - suffix_len;
    let mut out: Vec<u8> = Vec::new();
    let mut k: usize = start;
    while k < stem_end
        invariant
            start <= k <= stem_end <= p.len(),
            p == path@,
            out@ == p.subrange(start as int, k as int),
        decreases stem_end - k,
    {
        out.push(path[k]);
        assert(out@ =~= p.subrange(start as int, k as int + 1));
        k += 1;
    }
    if matches!(classify(path), PathKind::Fbz) {
        out.push(46u8);
        out.push(102u8);
        out.push(98u8);
        out.push(50u8);
    }
    proof {
        let b = base_name(p);
        let sl = suffix_len as int;
        assert(b =~= p.subrange(start as int, p.len() as int));
        assert(b.subrange(0, b.len() - sl) =~= p.subrange(start as int, p.len() - sl));
        if classify_spec(p) == PathKind::Fbz {
            assert(out@ =~= b.subrange(0, b.len() - 4) + suffix_fb2());
        } else {
            assert(out@ =~= b.subrange(0, b.len() - 8));
        }
    }
    out
}


/// No separator stands at or after where the base name starts.
proof fn lemma_base_no_sep(p: Seq<u8>, i: int)
    requires
        0 <= i <= p.len(),
    ensures
        forall|k: int| base_start(p, i) <= k < i ==> p[k] != 47u8 && p[k] != 92u8,
    decreases i,
{
    if i > 0 {
        lemma_base_no_sep(p, i - 1);
        lemma_base_start_le(p, i);
    }
}

/// What reading a document from `p` yields, when the bytes stored at `p`
/// are `stored`: the raw bytes for `.fb2`, the archive's sole entry for the
/// archive suffixes, and a rejection for everything else.
pub open spec fn resolve_read_spec(p: Seq<u8>, stored: Seq<u8>) -> Result<Seq<u8>, DocError> {
    match classify_spec(p) {
        PathKind::Fb2 => Ok(stored),
        PathKind::Fbz => extract_spec(stored),
        PathKind::Fb2Zip => extract_spec(stored),
        PathKind::Unsupported => Err(DocError::UnsupportedFormat),
    }
}

/// The bytes a save to `p` stores there: the content itself for `.fb2`, the
/// packed single-entry archive for the archive suffixes.
pub open spec fn save_bytes_spec(p: Seq<u8>, content: Seq<u8>) -> Seq<u8>
    recommends
        classify_spec(p) != PathKind::Unsupported,
{
    if classify_spec(p) == PathKind::Fb2 {
        content
    } else {
        archive_bytes(
            entry_name_spec(p),
            deflate_of(content),
            crc32_of(content),
            content.len() as u32,
        )
    }
}

/// A save to `p` fits the container's size fields.
pub open spec fn save_fits(p: Seq<u8>, content: Seq<u8>) -> bool {
    classify_spec(p) == PathKind::Fb2 || pack_fits(entry_name_spec(p), content)
}

/// Routes a read: given the bytes `stored` on disk at `path`, yields the
/// document bytes. A raw `.fb2` read returns `stored` unchanged; an archive
/// read extracts the sole entry; an unrecognized suffix is rejected with no
/// regard to `stored`.
pub fn resolve_read(path: &Vec<u8>, stored: &Vec<u8>) -> (r: Result<Vec<u8>, DocError>)
    ensures
        result_view(r) == resolve_read_spec(path@, stored@),
{
    match classify(path) {
        PathKind::Fb2 => {
            let out = stored.clone();
            assert(out@ =~= stored@);
            Ok(out)
        },
        PathKind::Fbz => extract(stored),
        PathKind::Fb2Zip => extract(stored),
        PathKind::Unsupported => Err(DocError::UnsupportedFormat),
    }
}

/// Routes a save: yields the bytes to store at `path` for `content`.
///
/// On success the stored bytes read back as exactly `content`: a later
/// `resolve_read` of what this returns yields `Ok(content)` again, through
/// the raw form and through both archive forms alike.
pub fn resolve_write(path: &Vec<u8>, content: &Vec<u8>) -> (r: Result<Vec<u8>, DocError>)
    ensures
        match r {
            Ok(out) => classify_spec(path@) != PathKind::Unsupported && save_fits(
                path@,
                content@,
            ) && out@ == save_bytes_spec(path@, content@) && resolve_read_spec(path@, out@)
                == Ok::<Seq<u8>, DocError>(content@),
            Err(e) => (e == DocError::UnsupportedFormat && classify_spec(path@)
                == PathKind::Unsupported) || (e == DocError::TooLarge && classify_spec(path@)
                != PathKind::Unsupported && !save_fits(path@, content@)),
        },
{
    let kind = classify(path);
    if matches!(kind, PathKind::Unsupported) {
        return Err(DocError::UnsupportedFormat);
    }
    if matches!(kind, PathKind::Fb2) {
        let out = content.clone();
        assert(out@ =~= content@);
        return Ok(out);
    }
    let name = entry_name(path);
    proof {
        let p = path@;
        let b = base_name(p);
        let n = p.len() as int;
        let kindspec = classify_spec(p);
        let sl: int = if kindspec == PathKind::Fbz { 4 } else { 8 };
        let suf = if kindspec == PathKind::Fbz { suffix_fbz() } else { suffix_fb2_zip() };
        assert(ends_with(p, suf));
        assert forall|k: int| n - sl <= k < n implies p[k] != 47u8 && p[k] != 92u8 by {
            assert(p[k] == p.subrange(n - sl, n)[k - (n - sl)]);
        }
        lemma_base_start_skips(p, n - sl, n);
        lemma_base_start_le(p, n - sl);
        lemma_base_no_sep(p, n);
        if kindspec == PathKind::Fbz {
            assert(name@[name@.len() - 1] == suffix_fb2()[3]);
        } else if name@.len() > 0 {
            let start = base_start(p, n);
            assert(b[b.len() - 9] == p[start + b.len() - 9]);
            assert(name@[name@.len() - 1] == b[b.len() - 9]);
        }
    }
    match pack(&name, content) {
        Ok(out) => {
            proof {
                lemma_extract_of_archive(
                    name@,
                    deflate_of(content@),
                    crc32_of(content@),
                    content@.len() as u32,
                );
            }
            Ok(out)
        },
        Err(e) => Err(e),
    }
}

} // verus!
