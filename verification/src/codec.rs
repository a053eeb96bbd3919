use crate::bytes::le16;
use crate::bytes::le32;
use crate::bytes::lemma_ru16_le16;
use crate::bytes::lemma_ru32_le32;
use crate::bytes::push_bytes;
use crate::bytes::push_u16;
use crate::bytes::push_u32;
use crate::bytes::read_u16;
use crate::bytes::read_u32;
use crate::bytes::ru16;
use crate::bytes::ru32;
use crate::compress::crc32;
use crate::compress::crc32_of;
use crate::compress::deflate;
use crate::compress::deflate_of;
use crate::compress::inflate;
use crate::compress::inflate_of;
use crate::errors::DocError;
use vstd::prelude::*;

verus! {

/// A returned byte buffer, viewed as its sequence of bytes.
pub open spec fn result_view(r: Result<Vec<u8>, DocError>) -> Result<Seq<u8>, DocError> {
    match r {
        Ok(v) => Ok(v@),
        Err(e) => Err(e),
    }
}

/// The local file header written for the single entry: DEFLATE, no flags,
/// zeroed timestamp, no extra field.
pub open spec fn lfh_bytes(name: Seq<u8>, crc: u32, dl: u32, rl: u32) -> Seq<u8> {
    seq![
        0x50u8, 0x4Bu8, 0x03u8, 0x04u8,  // signature
        20u8, 0u8,  // version needed
        0u8, 0u8,  // flags
        8u8, 0u8,  // method: DEFLATE
        0u8, 0u8,  // modification time
        0u8, 0u8,  // modification date
    ] + le32(crc) + le32(dl) + le32(rl) + le16(name.len() as u16) + seq![0u8, 0u8] + name
}

/// The central directory header for the single entry, pointing at a local
/// file header at offset zero.
pub open spec fn cdh_bytes(name: Seq<u8>, crc: u32, dl: u32, rl: u32) -> Seq<u8> {
    seq![
        0x50u8, 0x4Bu8, 0x01u8, 0x02u8,  // signature
        20u8, 0u8,  // version made by
        20u8, 0u8,  // version needed
        0u8, 0u8,  // flags
        8u8, 0u8,  // method: DEFLATE
        0u8, 0u8,  // modification time
        0u8, 0u8,  // modification date
    ] + le32(crc) + le32(dl) + le32(rl) + le16(name.len() as u16)
        + seq![0u8, 0u8, 0u8, 0u8, 0u8, 0u8, 0u8, 0u8]  // extra, comment, disk, internal attrs
        + le32(0u32)  // external attributes
        + le32(0u32)  // local header offset
        + name
}

/// The end-of-central-directory record for exactly one entry and no comment.
pub open spec fn eocd_bytes(cdsize: u32, cdoff: u32) -> Seq<u8> {
    seq![
        0x50u8, 0x4Bu8, 0x05u8, 0x06u8,  // signature
        0u8, 0u8,  // disk number
        0u8, 0u8,  // central directory start disk
        1u8, 0u8,  // entries on this disk
        1u8, 0u8,  // entries in total
    ] + le32(cdsize) + le32(cdoff) + seq![0u8, 0u8]
}

/// The whole single-entry archive: local header, DEFLATE data `d`, central
/// directory, end record.
pub open spec fn archive_bytes(name: Seq<u8>, d: Seq<u8>, crc: u32, rl: u32) -> Seq<u8>
    recommends
        name.len() <= 0xFFFF,
        30 + name.len() + d.len() <= 0xFFFF_FFFF,
{
    lfh_bytes(name, crc, d.len() as u32, rl) + d + cdh_bytes(name, crc, d.len() as u32, rl)
        + eocd_bytes((46 + name.len()) as u32, (30 + name.len() + d.len()) as u32)
}

/// The entry name and payload fit the container's 16- and 32-bit size fields
/// and the archive itself fits in memory.
pub open spec fn pack_fits(name: Seq<u8>, content: Seq<u8>) -> bool {
    &&& name.len() <= 0xFFFF
    &&& content.len() <= 0xFFFF_FFFF
    &&& 30 + name.len() + deflate_of(content).len() <= 0xFFFF_FFFF
    &&& 98 + 2 * name.len() + deflate_of(content).len() <= usize::MAX
}

/// The end-of-central-directory signature stands at `i`.
pub open spec fn has_eocd_sig(a: Seq<u8>, i: int) -> bool
    recommends
        0 <= i,
        i + 4 <= a.len(),
{
    a[i] == 0x50u8 && a[i + 1] == 0x4Bu8 && a[i + 2] == 0x05u8 && a[i + 3] == 0x06u8
}

/// The position of the end record's signature: the highest candidate at or
/// below `i`, scanning backwards.
pub open spec fn eocd_pos_from(a: Seq<u8>, i: int) -> Option<int>
    decreases i + 1,
{
    if i < 0 {
        None
    } else if has_eocd_sig(a, i) {
        Some(i)
    } else {
        eocd_pos_from(a, i - 1)
    }
}

/// Where the end record starts: the last signature that leaves room for the
/// record's 22 bytes.
pub open spec fn eocd_pos(a: Seq<u8>) -> Option<int> {
    if a.len() < 22 {
        None
    } else {
        eocd_pos_from(a, a.len() - 22)
    }
}

/// What extracting from container bytes `a` yields: the sole entry's bytes,
/// or the error the container's structure forces.
pub open spec fn extract_spec(a: Seq<u8>) -> Result<Seq<u8>, DocError> {
    match eocd_pos(a) {
        None => Err(DocError::MalformedArchive),
        Some(e) => {
            let count = ru16(a, e + 10);
            if count == 0 {
                Err(DocError::ArchiveEmpty)
            } else if count > 1 {
                Err(DocError::ArchiveHasMultipleEntries)
            } else {
                let cd = ru32(a, e + 16);
                if cd + 46 > a.len() {
                    Err(DocError::MalformedArchive)
                } else if !(a[cd] == 0x50u8 && a[cd + 1] == 0x4Bu8 && a[cd + 2] == 0x01u8 && a[cd
                    + 3] == 0x02u8) {
                    Err(DocError::MalformedArchive)
                } else {
                    let nlen = ru16(a, cd + 28);
                    if cd + 46 + nlen > a.len() {
                        Err(DocError::MalformedArchive)
                    } else if nlen > 0 && (a[cd + 46 + nlen - 1] == 47u8 || a[cd + 46 + nlen - 1]
                        == 92u8) {
                        Err(DocError::ArchiveEntryIsDirectory)
                    } else {
                        let method = ru16(a, cd + 10);
                        let csize = ru32(a, cd + 20);
                        let lho = ru32(a, cd + 42);
                        if lho + 30 > a.len() {
                            Err(DocError::MalformedArchive)
                        } else if !(a[lho] == 0x50u8 && a[lho + 1] == 0x4Bu8 && a[lho + 2]
                            == 0x03u8 && a[lho + 3] == 0x04u8) {
                            Err(DocError::MalformedArchive)
                        } else {
                            let dstart = lho + 30 + ru16(a, lho + 26) + ru16(a, lho + 28);
                            if dstart + csize > a.len() {
                                Err(DocError::MalformedArchive)
                            } else if method != 8 {
                                Err(DocError::MalformedArchive)
                            } else {
                                match inflate_of(a.subrange(dstart, dstart + csize)) {
                                    Some(doc) => Ok(doc),
                                    None => Err(DocError::MalformedArchive),
                                }
                            }
                        }
                    }
                }
            }
        },
    }
}

/// Finds the end record's signature, scanning backwards from the end.
fn find_eocd(a: &Vec<u8>) -> (r: Option<usize>)
    ensures
        match r {
            Some(e) => eocd_pos(a@) == Some(e as int) && e + 22 <= a@.len(),
            None => eocd_pos(a@) is None,
        },
{
    if a.len() < 22 {
        return None;
    }
    let mut i: usize = a.len() - 22;
    loop
        invariant
            i + 22 <= a@.len(),
            a@.len() >= 22,
            a@.len() <= usize::MAX,
            eocd_pos(a@) == eocd_pos_from(a@, i as int),
        decreases i,
    {
        if a[i] == 0x50u8 && a[i + 1] == 0x4Bu8 && a[i + 2] == 0x05u8 && a[i + 3] == 0x06u8 {
            assert(has_eocd_sig(a@, i as int));
            return Some(i);
        }
        assert(!has_eocd_sig(a@, i as int));
        if i == 0 {
            assert(eocd_pos_from(a@, -1) is None);
            return None;
        }
        i = i - 1;
    }
}

/// Extracts the sole entry of a single-entry DEFLATE zip container.
///
/// An empty container, one with several entries, and one whose only entry is
/// a directory are each rejected with their own error; bytes that do not
/// form a container this codec reads are rejected as malformed. The stored
/// checksum and declared uncompressed size are not verified.
pub fn extract(a: &Vec<u8>) -> (r: Result<Vec<u8>, DocError>)
    ensures
        result_view(r) == extract_spec(a@),
{
    let alen: usize = a.len();
    let e: usize = match find_eocd(a) {
        Some(e) => e,
        None => {
            return Err(DocError::MalformedArchive);
        },
    };
    let count = read_u16(a, e + 10);
    if count == 0 {
        return Err(DocError::ArchiveEmpty);
    }
    if count > 1 {
        return Err(DocError::ArchiveHasMultipleEntries);
    }
    let cd32 = read_u32(a, e + 16);
    if (cd32 as u64) + 46 > (alen as u64) {
        return Err(DocError::MalformedArchive);
    }
    let cd = cd32 as usize;
    if !(a[cd] == 0x50u8 && a[cd + 1] == 0x4Bu8 && a[cd + 2] == 0x01u8 && a[cd + 3] == 0x02u8) {
        return Err(DocError::MalformedArchive);
    }
    let nlen = read_u16(a, cd + 28);
    if (cd as u64) + 46 + (nlen as u64) > (alen as u64) {
        return Err(DocError::MalformedArchive);
    }
    if nlen > 0 {
        let last = a[cd + 46 + (nlen as usize) - 1];
        if last == 47u8 || last == 92u8 {
            return Err(DocError::ArchiveEntryIsDirectory);
        }
    }
    let method = read_u16(a, cd + 10);
    let csize = read_u32(a, cd + 20);
    let lho32 = read_u32(a, cd + 42);
    if (lho32 as u64) + 30 > (alen as u64) {
        return Err(DocError::MalformedArchive);
    }
    let lho = lho32 as usize;
    if !(a[lho] == 0x50u8 && a[lho + 1] == 0x4Bu8 && a[lho + 2] == 0x03u8 && a[lho + 3] == 0x04u8)
        {
        return Err(DocError::MalformedArchive);
    }
    let lnlen = read_u16(a, lho + 26);
    let lxlen = read_u16(a, lho + 28);
    let dstart64 = (lho as u64) + 30 + (lnlen as u64) + (lxlen as u64);
    if dstart64 + (csize as u64) > (alen as u64) {
        return Err(DocError::MalformedArchive);
    }
    let dstart = dstart64 as usize;
    let csz = csize as usize;
    let mut data: Vec<u8> = Vec::new();
    let mut k: usize = 0;
    while k < csz
        invariant
            dstart + csz <= a@.len(),
            a@.len() <= usize::MAX,
            k <= csz,
            data@ == a@.subrange(dstart as int, dstart as int + k as int),
        decreases csz - k,
    {
        data.push(a[dstart + k]);
        assert(data@ =~= a@.subrange(dstart as int, dstart as int + k as int + 1));
        k += 1;
    }
    if method != 8 {
        return Err(DocError::MalformedArchive);
    }
    match inflate(&data) {
        Some(doc) => Ok(doc),
        None => Err(DocError::MalformedArchive),
    }
}

/// Builds the local file header.
fn build_lfh(name: &Vec<u8>, crc: u32, dl: u32, rl: u32) -> (r: Vec<u8>)
    requires
        name@.len() <= 0xFFFF,
    ensures
        r@ == lfh_bytes(name@, crc, dl, rl),
{
    let mut out: Vec<u8> = Vec::new();
    out.push(0x50u8);
    out.push(0x4Bu8);
    out.push(0x03u8);
    out.push(0x04u8);
    push_u16(&mut out, 20);
    push_u16(&mut out, 0);
    push_u16(&mut out, 8);
    push_u16(&mut out, 0);
    push_u16(&mut out, 0);
    push_u32(&mut out, crc);
    push_u32(&mut out, dl);
    push_u32(&mut out, rl);
    push_u16(&mut out, name.len() as u16);
    push_u16(&mut out, 0);
    push_bytes(&mut out, name);
    assert(out@ =~= lfh_bytes(name@, crc, dl, rl));
    out
}

/// Builds the central directory header.
fn build_cdh(name: &Vec<u8>, crc: u32, dl: u32, rl: u32) -> (r: Vec<u8>)
    requires
        name@.len() <= 0xFFFF,
    ensures
        r@ == cdh_bytes(name@, crc, dl, rl),
{
    let mut out: Vec<u8> = Vec::new();
    out.push(0x50u8);
    out.push(0x4Bu8);
    out.push(0x01u8);
    out.push(0x02u8);
    push_u16(&mut out, 20);
    push_u16(&mut out, 20);
    push_u16(&mut out, 0);
    push_u16(&mut out, 8);
    push_u16(&mut out, 0);
    push_u16(&mut out, 0);
    push_u32(&mut out, crc);
    push_u32(&mut out, dl);
    push_u32(&mut out, rl);
    push_u16(&mut out, name.len() as u16);
    push_u16(&mut out, 0);
    push_u16(&mut out, 0);
    push_u16(&mut out, 0);
    push_u16(&mut out, 0);
    push_u32(&mut out, 0);
    push_u32(&mut out, 0);
    push_bytes(&mut out, name);
    assert(out@ =~= cdh_bytes(name@, crc, dl, rl));
    out
}

/// Builds the end-of-central-directory record.
fn build_eocd(cdsize: u32, cdoff: u32) -> (r: Vec<u8>)
    ensures
        r@ == eocd_bytes(cdsize, cdoff),
{
    let mut out: Vec<u8> = Vec::new();
    out.push(0x50u8);
    out.push(0x4Bu8);
    out.push(0x05u8);
    out.push(0x06u8);
    push_u16(&mut out, 0);
    push_u16(&mut out, 0);
    push_u16(&mut out, 1);
    push_u16(&mut out, 1);
    push_u32(&mut out, cdsize);
    push_u32(&mut out, cdoff);
    push_u16(&mut out, 0);
    assert(out@ =~= eocd_bytes(cdsize, cdoff));
    out
}

/// Packs `content` into a fresh single-entry DEFLATE zip container whose
/// entry is named `name`, or reports that a size field would overflow.
pub fn pack(name: &Vec<u8>, content: &Vec<u8>) -> (r: Result<Vec<u8>, DocError>)
    ensures
        match r {
            Ok(out) => pack_fits(name@, content@) && out@ == archive_bytes(
                name@,
                deflate_of(content@),
                crc32_of(content@),
                content@.len() as u32,
            ) && inflate_of(deflate_of(content@)) == Some(content@),
            Err(e) => e == DocError::TooLarge && !pack_fits(name@, content@),
        },
{
    let d = deflate(content);
    let crc = crc32(content);
    let n = name.len();
    let dl = d.len();
    if n > 0xFFFF {
        return Err(DocError::TooLarge);
    }
    if (content.len() as u64) > 0xFFFF_FFFFu64 {
        return Err(DocError::TooLarge);
    }
    if (dl as u64) > 0xFFFF_FFFFu64 - 30u64 - (n as u64) {
        return Err(DocError::TooLarge);
    }
    if 98u64 + 2 * (n as u64) + (dl as u64) > (usize::MAX as u64) {
        return Err(DocError::TooLarge);
    }
    let dl32 = dl as u32;
    let rl32 = content.len() as u32;
    let cdsize = 46u32 + (n as u32);
    let cdoff = 30u32 + (n as u32) + dl32;
    let mut out = build_lfh(name, crc, dl32, rl32);
    push_bytes(&mut out, &d);
    let cdh = build_cdh(name, crc, dl32, rl32);
    push_bytes(&mut out, &cdh);
    let eo = build_eocd(cdsize, cdoff);
    push_bytes(&mut out, &eo);
    assert(out@ =~= archive_bytes(
        name@,
        deflate_of(content@),
        crc32_of(content@),
        content@.len() as u32,
    ));
    Ok(out)
}


/// Unpacking what `pack` wrote yields the packed payload back.
///
/// The parse of `archive_bytes` lands on its end record, reads its sole
/// central directory entry, and decompresses its DEFLATE data, whatever the
/// checksum and declared uncompressed size hold. An entry whose name ends in
/// a separator is a directory and is rejected as such.
#[verifier::rlimit(100)]
pub proof fn lemma_extract_of_archive(name: Seq<u8>, d: Seq<u8>, crc: u32, rl: u32)
    requires
        name.len() <= 0xFFFF,
        30 + name.len() + d.len() <= 0xFFFF_FFFF,
    ensures
        extract_spec(archive_bytes(name, d, crc, rl)) == (if name.len() > 0 && (name[name.len()
            - 1] == 47u8 || name[name.len() - 1] == 92u8) {
            Err::<Seq<u8>, DocError>(DocError::ArchiveEntryIsDirectory)
        } else {
            match inflate_of(d) {
                Some(doc) => Ok::<Seq<u8>, DocError>(doc),
                None => Err::<Seq<u8>, DocError>(DocError::MalformedArchive),
            }
        }),
{
    let n = name.len() as int;
    let dl = d.len() as int;
    let dl32 = d.len() as u32;
    let n16 = name.len() as u16;
    let cdsz = (46 + name.len()) as u32;
    let cdoff = (30 + name.len() + d.len()) as u32;
    let lfh = lfh_bytes(name, crc, dl32, rl);
    let cdh = cdh_bytes(name, crc, dl32, rl);
    let eo = eocd_bytes(cdsz, cdoff);
    let a = archive_bytes(name, d, crc, rl);
    assert(lfh.len() == 30 + n);
    assert(cdh.len() == 46 + n);
    assert(eo.len() == 22);
    assert(a == lfh + d + cdh + eo);
    let la = a.len() as int;
    assert(la == 98 + 2 * n + dl);
    let ep = la - 22;
    let cdp = 30 + n + dl;

    // Each region of the archive reads back the bytes written there.
    assert forall|k: int| 0 <= k < 30 + n implies a[k] == lfh[k] by {
        assert((((lfh + d) + cdh) + eo)[k] == ((lfh + d) + cdh)[k]);
        assert(((lfh + d) + cdh)[k] == (lfh + d)[k]);
        assert((lfh + d)[k] == lfh[k]);
    }
    assert forall|k: int| 0 <= k < dl implies a[30 + n + k] == d[k] by {
        assert((((lfh + d) + cdh) + eo)[30 + n + k] == ((lfh + d) + cdh)[30 + n + k]);
        assert(((lfh + d) + cdh)[30 + n + k] == (lfh + d)[30 + n + k]);
        assert((lfh + d)[30 + n + k] == d[k]);
    }
    assert forall|k: int| 0 <= k < 46 + n implies a[cdp + k] == cdh[k] by {
        assert((((lfh + d) + cdh) + eo)[cdp + k] == ((lfh + d) + cdh)[cdp + k]);
        assert(((lfh + d) + cdh)[cdp + k] == cdh[k]);
    }
    assert forall|k: int| 0 <= k < 22 implies a[ep + k] == eo[k] by {
        assert((((lfh + d) + cdh) + eo)[ep + k] == eo[k]);
    }

    // The backward scan stops at the end record's own signature.
    assert(eo[0] == 0x50u8 && eo[1] == 0x4Bu8 && eo[2] == 0x05u8 && eo[3] == 0x06u8);
    assert(has_eocd_sig(a, ep));
    assert(eocd_pos(a) == Some(ep));

    // One entry in total.
    assert(eo[10] == 1u8 && eo[11] == 0u8);
    assert(ru16(a, ep + 10) == 1);

    // The central directory offset field points at the header written there.
    assert forall|j: int| 0 <= j < 4 implies a[ep + 16 + j] == le32(cdoff)[j] by {
        assert(a[ep + 16 + j] == eo[16 + j]);
        assert(eo[16 + j] == le32(cdoff)[j]);
    }
    lemma_ru32_le32(a, ep + 16, cdoff);
    assert(cdoff == cdp);

    // The central directory header's fields.
    assert(cdh[0] == 0x50u8 && cdh[1] == 0x4Bu8 && cdh[2] == 0x01u8 && cdh[3] == 0x02u8);
    assert forall|j: int| 0 <= j < 2 implies a[cdp + 28 + j] == le16(n16)[j] by {
        assert(a[cdp + 28 + j] == cdh[28 + j]);
        assert(cdh[28 + j] == le16(n16)[j]);
    }
    lemma_ru16_le16(a, cdp + 28, n16);
    assert(ru16(a, cdp + 28) == n);
    assert(cdp + 46 + n <= la);
    if n > 0 {
        assert(a[cdp + 46 + n - 1] == cdh[46 + n - 1]);
        assert(cdh[46 + n - 1] == name[n - 1]);
    }
    assert(cdh[10] == 8u8 && cdh[11] == 0u8);
    assert(ru16(a, cdp + 10) == 8);
    assert forall|j: int| 0 <= j < 4 implies a[cdp + 20 + j] == le32(dl32)[j] by {
        assert(a[cdp + 20 + j] == cdh[20 + j]);
        assert(cdh[20 + j] == le32(dl32)[j]);
    }
    lemma_ru32_le32(a, cdp + 20, dl32);
    assert(ru32(a, cdp + 20) == dl);
    assert forall|j: int| 0 <= j < 4 implies a[cdp + 42 + j] == le32(0u32)[j] by {
        assert(a[cdp + 42 + j] == cdh[42 + j]);
        assert(cdh[42 + j] == le32(0u32)[j]);
    }
    lemma_ru32_le32(a, cdp + 42, 0u32);
    assert(ru32(a, cdp + 42) == 0);

    // The local file header at offset zero.
    assert(lfh[0] == 0x50u8 && lfh[1] == 0x4Bu8 && lfh[2] == 0x03u8 && lfh[3] == 0x04u8);
    assert(a[0] == 0x50u8 && a[1] == 0x4Bu8 && a[2] == 0x03u8 && a[3] == 0x04u8);
    assert forall|j: int| 0 <= j < 2 implies a[26 + j] == le16(n16)[j] by {
        assert(a[26 + j] == lfh[26 + j]);
        assert(lfh[26 + j] == le16(n16)[j]);
    }
    lemma_ru16_le16(a, 26, n16);
    assert(ru16(a, 26) == n);
    assert(lfh[28] == 0u8 && lfh[29] == 0u8);
    assert(a[28] == 0u8 && a[29] == 0u8);
    assert(ru16(a, 28) == 0);

    // The data region holds exactly the DEFLATE stream.
    assert(a.subrange(30 + n, 30 + n + dl) =~= d);

    if n > 0 && (name[n - 1] == 47u8 || name[n - 1] == 92u8) {
        assert(extract_spec(a) == Err::<Seq<u8>, DocError>(DocError::ArchiveEntryIsDirectory));
    } else {
        assert(extract_spec(a) == (match inflate_of(d) {
            Some(doc) => Ok::<Seq<u8>, DocError>(doc),
            None => Err::<Seq<u8>, DocError>(DocError::MalformedArchive),
        }));
    }
}

} // verus!
