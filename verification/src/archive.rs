//! The archive an upload carries: compressing it for sending, and on
//! receipt decompressing it and naming the files it holds.

use vstd::prelude::*;
use crate::awdl::wire::{decode_utf8_lossy, utf8_lossy};
use crate::identity::blobs;
use crate::server::upload_is_gzip;
use crate::util::starts_with;

verus! {

/// The gzip stream that `flate2::write::GzEncoder`, at the default level
/// and with its default header, writes for `data`; `None` where it fails.
pub uninterp spec fn gzip_of(data: Seq<u8>) -> Option<Seq<u8>>;

/// Compresses `data` with `flate2::write::GzEncoder` into a `Vec`. Claims
/// that the stream, or the failure, is `gzip_of(data)`, and that the stream
/// starts with the gzip magic bytes, which the encoder writes first.
#[verifier::external_body]
fn gzip_bytes(data: &[u8]) -> (r: Result<Vec<u8>, std::io::Error>)
    ensures
        match r {
            Ok(z) => gzip_of(data@) == Some(z@) && z@.len() >= 2 && z@[0] == 0x1Fu8 && z@[1] == 0x8Bu8,
            Err(_) => gzip_of(data@) is None,
        },
{
    let mut encoder = flate2::write::GzEncoder::new(Vec::new(), flate2::Compression::default());
    std::io::Write::write_all(&mut encoder, data)?;
    encoder.finish()
}

/// The archive could not be compressed.
#[derive(Debug, Clone, Copy, PartialEq, Eq, Structural)]
pub struct ArchiveError;

/// The gzip stream of the tar archive `tar`; it starts with the gzip magic
/// bytes, by which the receive server knows it for one.
pub fn compress_archive(tar: &[u8]) -> (r: Result<Vec<u8>, ArchiveError>)
    ensures
        match r {
            Ok(z) => gzip_of(tar@) == Some(z@) && starts_with(z@, seq![0x1Fu8, 0x8Bu8]),
            Err(_) => gzip_of(tar@) is None,
        },
{
    match gzip_bytes(tar) {
        Ok(z) => {
            assert(z@.take(2) =~= seq![0x1Fu8, 0x8Bu8]);
            Ok(z)
        },
        Err(_) => Err(ArchiveError),
    }
}

/// The bytes that `flate2::read::GzDecoder` reads out of the gzip stream
/// `data`; `None` where it reports an error.
pub uninterp spec fn gunzip_of(data: Seq<u8>) -> Option<Seq<u8>>;

/// Decompresses `data` by reading a `flate2::read::GzDecoder` over it to
/// the end. Claims that the bytes, or the failure, are `gunzip_of(data)`.
#[verifier::external_body]
fn gunzip_bytes(data: &[u8]) -> (r: Result<Vec<u8>, std::io::Error>)
    ensures
        match r {
            Ok(t) => gunzip_of(data@) == Some(t@),
            Err(_) => gunzip_of(data@) is None,
        },
{
    let mut out = Vec::new();
    std::io::Read::read_to_end(&mut flate2::read::GzDecoder::new(data), &mut out)?;
    Ok(out)
}

/// The paths of the entries of the tar archive `tar`, as `tar::Entry`'s
/// `path_bytes` gives them, in order; `None` where reading an entry fails.
pub uninterp spec fn tar_paths(tar: Seq<u8>) -> Option<Seq<Seq<u8>>>;

/// Walks the entries of `tar` with `tar::Archive::entries` and collects
/// each entry's `path_bytes` up to the first error. Claims that they, or
/// the failure, are `tar_paths(tar)`.
#[verifier::external_body]
fn read_tar_paths(tar: &[u8]) -> (r: Result<Vec<Vec<u8>>, std::io::Error>)
    ensures
        match r {
            Ok(p) => tar_paths(tar@) == Some(blobs(p@)),
            Err(_) => tar_paths(tar@) is None,
        },
{
    let mut archive = tar::Archive::new(tar);
    archive.entries()?.map(|e| e.map(|e| e.path_bytes().into_owned())).collect()
}

/// Why an upload's files could not be named.
#[derive(Debug, Clone, Copy, PartialEq, Eq, Structural)]
pub enum UploadError {
    /// The gzip stream could not be decompressed.
    Gzip,
    /// An entry of the tar archive could not be read.
    Archive,
}

/// The tar archive an upload carries: the upload decompressed when it
/// starts with the gzip magic, else the upload itself.
pub open spec fn spec_upload_archive(data: Seq<u8>) -> Option<Seq<u8>> {
    if starts_with(data, seq![0x1Fu8, 0x8Bu8]) {
        gunzip_of(data)
    } else {
        Some(data)
    }
}

/// The tar archive an upload carries.
pub fn upload_archive(data: &[u8]) -> (r: Result<Vec<u8>, UploadError>)
    ensures
        match r {
            Ok(t) => spec_upload_archive(data@) == Some(t@),
            Err(e) => e == UploadError::Gzip && spec_upload_archive(data@) is None,
        },
{
    if upload_is_gzip(data) {
        match gunzip_bytes(data) {
            Ok(t) => Ok(t),
            Err(_) => Err(UploadError::Gzip),
        }
    } else {
        Ok(vstd::slice::slice_to_vec(data))
    }
}

/// Where the last segment of path `p` starts: just after its last `/`, or
/// at 0.
pub open spec fn segment_start(p: Seq<u8>) -> int
    decreases p.len(),
{
    if p.len() == 0 {
        0
    } else if p.last() == 0x2Fu8 {
        p.len() as int
    } else {
        segment_start(p.drop_last())
    }
}

/// The file name of path `p` as a Unix path names it: its last component,
/// trailing slashes and `.` components passed over; none when that
/// component is `..` or there is none.
pub open spec fn path_file_name(p: Seq<u8>) -> Option<Seq<u8>>
    decreases p.len(),
{
    if p.len() == 0 {
        None
    } else if p.last() == 0x2Fu8 {
        path_file_name(p.drop_last())
    } else {
        let start = segment_start(p);
        let seg = p.subrange(start, p.len() as int);
        if 0 <= start < p.len() && seg == seq![0x2Eu8] {
            path_file_name(p.subrange(0, start))
        } else if seg == seq![0x2Eu8, 0x2Eu8] {
            None
        } else {
            Some(seg)
        }
    }
}

proof fn lemma_segment_start(p: Seq<u8>)
    ensures
        0 <= segment_start(p) <= p.len(),
        segment_start(p) > 0 ==> p[segment_start(p) - 1] == 0x2Fu8,
        forall|k: int| segment_start(p) <= k < p.len() ==> p[k] != 0x2Fu8,
    decreases p.len(),
{
    if p.len() > 0 && p.last() != 0x2Fu8 {
        let q = p.drop_last();
        lemma_segment_start(q);
        assert forall|k: int| segment_start(p) <= k < p.len() implies p[k] != 0x2Fu8 by {
            if k < q.len() {
                assert(p[k] == q[k]);
            }
        }
        if segment_start(p) > 0 {
            assert(p[segment_start(p) - 1] == q[segment_start(q) - 1]);
        }
    }
}

/// Where the last segment of `p.take(end)` starts.
fn segment_start_exec(p: &[u8], end: usize) -> (r: usize)
    requires
        end <= p@.len(),
    ensures
        r as int == segment_start(p@.take(end as int)),
{
    let mut i = end;
    while i > 0 && p[i - 1] != 0x2F
        invariant
            i <= end <= p@.len(),
            segment_start(p@.take(i as int)) == segment_start(p@.take(end as int)),
        decreases i,
    {
        assert(p@.take(i as int).drop_last() =~= p@.take(i - 1));
        i -= 1;
    }
    if i > 0 {
        assert(p@.take(i as int).last() == p@[i - 1]);
    }
    i
}

/// The file name of the path `p.take(end)`, as the range of `p` it spans.
fn file_name_range(p: &[u8], end: usize) -> (r: Option<(usize, usize)>)
    requires
        end <= p@.len(),
    ensures
        match r {
            Some((a, b)) => a <= b <= end && path_file_name(p@.take(end as int)) == Some(p@.subrange(a as int, b as int)),
            None => path_file_name(p@.take(end as int)) is None,
        },
    decreases end,
{
    let ghost q = p@.take(end as int);
    if end == 0 {
        return None;
    }
    if p[end - 1] == 0x2F {
        assert(q.drop_last() =~= p@.take(end - 1));
        return file_name_range(p, end - 1);
    }
    let start = segment_start_exec(p, end);
    proof {
        lemma_segment_start(q);
    }
    let n = end - start;
    assert(q.subrange(start as int, end as int) =~= p@.subrange(start as int, end as int));
    if n == 1 && p[start] == 0x2E {
        assert(p@.subrange(start as int, end as int) =~= seq![0x2Eu8]);
        assert(q.subrange(0, start as int) =~= p@.take(start as int));
        return file_name_range(p, start);
    }
    if n == 2 && p[start] == 0x2E && p[start + 1] == 0x2E {
        assert(p@.subrange(start as int, end as int) =~= seq![0x2Eu8, 0x2Eu8]);
        return None;
    }
    proof {
        if n == 1 {
            assert(p@.subrange(start as int, end as int) != seq![0x2Eu8]) by {
                assert(p@.subrange(start as int, end as int)[0] == p@[start as int]);
            }
        }
        if n == 2 {
            assert(p@.subrange(start as int, end as int) != seq![0x2Eu8, 0x2Eu8]) by {
                assert(p@.subrange(start as int, end as int)[0] == p@[start as int]);
                assert(p@.subrange(start as int, end as int)[1] == p@[start + 1]);
            }
        }
    }
    Some((start, end))
}

/// The names of the files of `paths` that have one, each lossily decoded
/// as UTF-8, in order.
pub open spec fn named_files(paths: Seq<Seq<u8>>) -> Seq<Seq<char>>
    decreases paths.len(),
{
    if paths.len() == 0 {
        Seq::empty()
    } else {
        let rest = named_files(paths.drop_last());
        match path_file_name(paths.last()) {
            Some(n) => rest.push(utf8_lossy(n)),
            None => rest,
        }
    }
}

/// The views of a list of strings.
pub open spec fn texts(v: Seq<String>) -> Seq<Seq<char>> {
    v.map_values(|s: String| s@)
}

/// The names of the files the tar archive `tar` holds, in order: each
/// entry's file name, lossily decoded; entries without one (such as `..`)
/// are passed over.
pub fn archive_file_names(tar: &[u8]) -> (r: Result<Vec<String>, UploadError>)
    ensures
        match r {
            Ok(names) => tar_paths(tar@) matches Some(ps) && texts(names@) == named_files(ps),
            Err(e) => e == UploadError::Archive && tar_paths(tar@) is None,
        },
{
    let paths = match read_tar_paths(tar) {
        Ok(p) => p,
        Err(_) => return Err(UploadError::Archive),
    };
    let ghost ps = blobs(paths@);
    let mut names: Vec<String> = Vec::new();
    let mut i: usize = 0;
    assert(ps.take(0) =~= Seq::<Seq<u8>>::empty());
    assert(texts(names@) =~= Seq::<Seq<char>>::empty());
    while i < paths.len()
        invariant
            i <= paths@.len(),
            ps == blobs(paths@),
            texts(names@) == named_files(ps.take(i as int)),
        decreases paths@.len() - i,
    {
        let p = &paths[i];
        assert(ps.take(i + 1).drop_last() =~= ps.take(i as int));
        assert(ps.take(i + 1).last() == p@);
        assert(p@.take(p@.len() as int) =~= p@);
        match file_name_range(p.as_slice(), p.len()) {
            Some((a, b)) => {
                let name = decode_utf8_lossy(vstd::slice::slice_subrange(p.as_slice(), a, b));
                names.push(name);
                assert(texts(names@) =~= named_files(ps.take(i + 1)));
            },
            None => {
                assert(texts(names@) =~= named_files(ps.take(i + 1)));
            },
        }
        i += 1;
    }
    assert(ps.take(paths@.len() as int) =~= ps);
    Ok(names)
}

} // verus!
