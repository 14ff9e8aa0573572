//! Classification and unpacking of downloaded release archives.
//!
//! A release archive is a compressed tar file.  Its compression codec
//! is decided by the file name suffix alone; the tar entries are then
//! rewritten so that whatever top-level folder the archive was rooted
//! at, every entry lands under the caller's normalized install name.
//! Unpacking here is a function from bytes to entries; writing the
//! entries to disk is the caller's side of the boundary.

use vstd::prelude::*;

use crate::text::{
    ends_with_seq, ends_with_str, joined_under, join_under, keep_component, path_components,
    split_components, to_owned_str,
};

verus! {

use vstd::string::*;

/// Why a file could not be unpacked or placed.
#[derive(Debug, Clone, Copy, PartialEq, Eq, Structural)]
pub enum FileError {
    /// The file name ends in none of the supported archive suffixes.
    UnsupportedExtension,
    /// No temporary directory could be created for the download.
    TempDirUnavailable,
    /// The compressed stream could not be decoded.
    Decompress,
    /// The decoded bytes are not a readable tar archive.
    Archive,
}

impl FileError {
    /// The error's message, as a caller would print it.
    pub fn message(&self) -> (r: String)
        ensures
            r@ == (match self {
                FileError::UnsupportedExtension => {
                    "Downloaded file wasn't of the expected type. (tar.(gz/xz/zst))"@
                },
                FileError::TempDirUnavailable => "Failed to create tempdir"@,
                FileError::Decompress => "Failed to decompress the downloaded archive"@,
                FileError::Archive => "Failed to read the downloaded archive"@,
            }),
    {
        match self {
            FileError::UnsupportedExtension => to_owned_str(
                "Downloaded file wasn't of the expected type. (tar.(gz/xz/zst))",
            ),
            FileError::TempDirUnavailable => to_owned_str("Failed to create tempdir"),
            FileError::Decompress => to_owned_str("Failed to decompress the downloaded archive"),
            FileError::Archive => to_owned_str("Failed to read the downloaded archive"),
        }
    }
}

/// The canonical token for a supported archive suffix: `tar.gz` for
/// gzip forms, `tar.zst` for zstd forms, `tar.xz` for xz forms; nothing
/// for any other name.
pub open spec fn spec_supported_ext(name: Seq<char>) -> Option<Seq<char>> {
    if ends_with_seq(name, "tar.gz"@) || ends_with_seq(name, "tgz"@) {
        Some("tar.gz"@)
    } else if ends_with_seq(name, "tar.zst"@) || ends_with_seq(name, "tar.zstd"@) {
        Some("tar.zst"@)
    } else if ends_with_seq(name, "tar.xz"@) || ends_with_seq(name, "txz"@) {
        Some("tar.xz"@)
    } else {
        None
    }
}

/// Maps a file name to the canonical token of its archive suffix, per
/// [`spec_supported_ext`]; any other suffix is rejected before the file
/// itself is touched.
pub fn check_supported_extension(file_name: String) -> (r: Result<String, FileError>)
    ensures
        match r {
            Ok(ext) => spec_supported_ext(file_name@) == Some(ext@),
            Err(e) => spec_supported_ext(file_name@) is None && e == FileError::UnsupportedExtension,
        },
{
    let name = file_name.as_str();
    if ends_with_str(name, "tar.gz") || ends_with_str(name, "tgz") {
        Ok(to_owned_str("tar.gz"))
    } else if ends_with_str(name, "tar.zst") || ends_with_str(name, "tar.zstd") {
        Ok(to_owned_str("tar.zst"))
    } else if ends_with_str(name, "tar.xz") || ends_with_str(name, "txz") {
        Ok(to_owned_str("tar.xz"))
    } else {
        Err(FileError::UnsupportedExtension)
    }
}

/// A compression codec of a supported archive.
#[derive(Debug, Clone, Copy, PartialEq, Eq, Structural)]
pub enum Codec {
    Gzip,
    Xz,
    Zstd,
}

/// The codec a file name's suffix selects, through the canonical
/// suffix token.
pub open spec fn spec_codec_for(name: Seq<char>) -> Option<Codec> {
    match spec_supported_ext(name) {
        Some(ext) => if ext == "tar.gz"@ {
            Some(Codec::Gzip)
        } else if ext == "tar.xz"@ {
            Some(Codec::Xz)
        } else {
            Some(Codec::Zstd)
        },
        None => None,
    }
}

/// Classifies a file name by its archive suffix.
pub fn classify_codec(file_name: &str) -> (r: Option<Codec>)
    ensures
        r == spec_codec_for(file_name@),
{
    proof {
        reveal_strlit("tar.gz");
        reveal_strlit("tar.xz");
        reveal_strlit("tar.zst");
        assert("tar.xz"@[4] == 'x' && "tar.gz"@[4] == 'g');
        assert("tar.xz"@ != "tar.gz"@);
        assert("tar.zst"@.len() == 7 && "tar.gz"@.len() == 6 && "tar.xz"@.len() == 6);
        assert("tar.zst"@ != "tar.gz"@ && "tar.zst"@ != "tar.xz"@);
    }
    if ends_with_str(file_name, "tar.gz") || ends_with_str(file_name, "tgz") {
        Some(Codec::Gzip)
    } else if ends_with_str(file_name, "tar.zst") || ends_with_str(file_name, "tar.zstd") {
        Some(Codec::Zstd)
    } else if ends_with_str(file_name, "tar.xz") || ends_with_str(file_name, "txz") {
        Some(Codec::Xz)
    } else {
        None
    }
}

/// One entry of an unpacked archive: its destination path, whether it
/// is a directory, its bytes, and the metadata the archive stored for
/// it — the permission bits and the modification time, which the
/// writer applies to the extracted entry.
#[derive(Debug, Clone, PartialEq)]
pub struct TarEntry {
    pub path: String,
    pub is_dir: bool,
    pub data: Vec<u8>,
    /// Unix permission bits from the entry's header.
    pub mode: u32,
    /// Modification time from the entry's header, in seconds since the
    /// epoch.
    pub mtime: u64,
}

/// What gzip decoding makes of `data`: its decoded bytes, or nothing
/// where the stream is not valid gzip.  Decided only by the `flate2`
/// crate.
pub uninterp spec fn gunzip_of(data: Seq<u8>) -> Option<Seq<u8>>;

/// What xz decoding makes of `data`.  Decided only by the `xz2` crate.
pub uninterp spec fn unxz_of(data: Seq<u8>) -> Option<Seq<u8>>;

/// What zstd decoding makes of `data`.  Decided only by the `zstd`
/// crate.
pub uninterp spec fn unzstd_of(data: Seq<u8>) -> Option<Seq<u8>>;

/// Relies on `flate2::read::GzDecoder`: the decoded bytes depend on the
/// input bytes alone.
#[verifier::external_body]
fn gzip_decode(data: &[u8]) -> (r: Option<Vec<u8>>)
    ensures
        match r {
            Some(v) => gunzip_of(data@) == Some(v@),
            None => gunzip_of(data@) is None,
        },
{
    let mut out: Vec<u8> = Vec::new();
    let mut decoder = flate2::read::GzDecoder::new(data);
    std::io::Read::read_to_end(&mut decoder, &mut out).ok()?;
    Some(out)
}

/// Relies on `xz2::read::XzDecoder`: the decoded bytes depend on the
/// input bytes alone.
#[verifier::external_body]
fn xz_decode(data: &[u8]) -> (r: Option<Vec<u8>>)
    ensures
        match r {
            Some(v) => unxz_of(data@) == Some(v@),
            None => unxz_of(data@) is None,
        },
{
    let mut out: Vec<u8> = Vec::new();
    let mut decoder = xz2::read::XzDecoder::new(data);
    std::io::Read::read_to_end(&mut decoder, &mut out).ok()?;
    Some(out)
}

/// Relies on `zstd::stream::decode_all`: the decoded bytes depend on
/// the input bytes alone.
#[verifier::external_body]
fn zstd_decode(data: &[u8]) -> (r: Option<Vec<u8>>)
    ensures
        match r {
            Some(v) => unzstd_of(data@) == Some(v@),
            None => unzstd_of(data@) is None,
        },
{
    zstd::stream::decode_all(data).ok()
}

/// Holds a push-fed gzip decoder.  The decoder's type cannot be
/// declared to the verifier — its generic parameter carries an
/// unmodelled trait bound — so the holder is opaque whole and its
/// contents are tracked by [`gz_dec_fed`] and [`gz_dec_out`].
#[verifier::external_body]
pub struct GzDec {
    inner: flate2::write::GzDecoder<Vec<u8>>,
}

/// Holds a push-fed xz decoder; opaque for the same reason as
/// [`GzDec`], tracked by [`xz_dec_fed`] and [`xz_dec_out`].
#[verifier::external_body]
pub struct XzDec {
    inner: xz2::write::XzDecoder<Vec<u8>>,
}

/// Holds a push-fed zstd decoder; opaque for the same reason as
/// [`GzDec`], tracked by [`zstd_dec_fed`] and [`zstd_dec_out`].
#[verifier::external_body]
pub struct ZstdDec {
    inner: zstd::stream::write::Decoder<'static, Vec<u8>>,
}

/// Whether a push-fed gzip decoder accepts `data`: every byte of it can
/// be absorbed without a decoding error — `data` runs no further than
/// the end of a valid gzip stream and is not corrupt before its own
/// end.  Decided only by the `flate2` crate, by the bytes alone.
pub uninterp spec fn gz_accepts(data: Seq<u8>) -> bool;

/// Whether a push-fed xz decoder accepts `data`; the xz counterpart of
/// [`gz_accepts`], decided only by the `xz2` crate.
pub uninterp spec fn xz_accepts(data: Seq<u8>) -> bool;

/// Whether a push-fed zstd decoder accepts `data`; the zstd counterpart
/// of [`gz_accepts`], decided only by the `zstd` crate.
pub uninterp spec fn zstd_accepts(data: Seq<u8>) -> bool;

/// The compressed bytes a push-fed gzip decoder has absorbed so far.
/// The decoder is opaque; this name and [`gz_dec_out`] are what its
/// wrappers state their effect over.
pub uninterp spec fn gz_dec_fed(d: GzDec) -> Seq<u8>;

/// The decompressed bytes a push-fed gzip decoder has emitted so far.
pub uninterp spec fn gz_dec_out(d: GzDec) -> Seq<u8>;

/// The compressed bytes a push-fed xz decoder has absorbed so far.
pub uninterp spec fn xz_dec_fed(d: XzDec) -> Seq<u8>;

/// The decompressed bytes a push-fed xz decoder has emitted so far.
pub uninterp spec fn xz_dec_out(d: XzDec) -> Seq<u8>;

/// The compressed bytes a push-fed zstd decoder has absorbed so far.
pub uninterp spec fn zstd_dec_fed(d: ZstdDec) -> Seq<u8>;

/// The decompressed bytes a push-fed zstd decoder has emitted so far.
pub uninterp spec fn zstd_dec_out(d: ZstdDec) -> Seq<u8>;

/// Relies on `flate2::write::GzDecoder::new`: a fresh decoder has
/// absorbed and emitted nothing.
#[verifier::external_body]
fn gz_dec_new() -> (r: GzDec)
    ensures
        gz_dec_fed(r) == Seq::<u8>::empty(),
        gz_dec_out(r) == Seq::<u8>::empty(),
{
    GzDec { inner: flate2::write::GzDecoder::new(Vec::new()) }
}

/// Relies on `Write::write_all` for `flate2::write::GzDecoder`: absorbs
/// the chunk and hands out what it decompressed to.  The write succeeds
/// exactly when the decoder accepts everything absorbed so far: a byte
/// that corrupts the stream, or follows its end, makes the write error.
#[verifier::external_body]
fn gz_dec_push(d: &mut GzDec, chunk: &[u8]) -> (r: Option<Vec<u8>>)
    ensures
        r is Some <==> gz_accepts(gz_dec_fed(*old(d)) + chunk@),
        r matches Some(v) ==> gz_dec_fed(*final(d)) == gz_dec_fed(*old(d)) + chunk@ && gz_dec_out(
            *final(d),
        ) == gz_dec_out(*old(d)) + v@,
{
    std::io::Write::write_all(&mut d.inner, chunk).ok()?;
    Some(std::mem::take(d.inner.get_mut()))
}

/// Relies on `flate2::write::GzDecoder::finish`: flushes the stream's
/// tail and checks the trailer's checksum, so that where the absorbed
/// bytes form a valid gzip stream the finish succeeds and everything
/// emitted together is the stream's decoding.
#[verifier::external_body]
fn gz_dec_finish(d: GzDec) -> (r: Option<Vec<u8>>)
    ensures
        gunzip_of(gz_dec_fed(d)) is Some ==> r is Some,
        r matches Some(v) ==> (gunzip_of(gz_dec_fed(d)) matches Some(w) ==> w == gz_dec_out(d)
            + v@),
{
    d.inner.finish().ok()
}

/// Relies on `xz2::write::XzDecoder::new`: a fresh decoder has
/// absorbed and emitted nothing.
#[verifier::external_body]
fn xz_dec_new() -> (r: XzDec)
    ensures
        xz_dec_fed(r) == Seq::<u8>::empty(),
        xz_dec_out(r) == Seq::<u8>::empty(),
{
    XzDec { inner: xz2::write::XzDecoder::new(Vec::new()) }
}

/// Relies on `Write::write_all` for `xz2::write::XzDecoder`: absorbs
/// the chunk and hands out what it decompressed to.  The write succeeds
/// exactly when the decoder accepts everything absorbed so far, as in
/// [`gz_dec_push`].
#[verifier::external_body]
fn xz_dec_push(d: &mut XzDec, chunk: &[u8]) -> (r: Option<Vec<u8>>)
    ensures
        r is Some <==> xz_accepts(xz_dec_fed(*old(d)) + chunk@),
        r matches Some(v) ==> xz_dec_fed(*final(d)) == xz_dec_fed(*old(d)) + chunk@ && xz_dec_out(
            *final(d),
        ) == xz_dec_out(*old(d)) + v@,
{
    std::io::Write::write_all(&mut d.inner, chunk).ok()?;
    Some(std::mem::take(d.inner.get_mut()))
}

/// Relies on `xz2::write::XzDecoder::finish`: drives the decoder to the
/// stream's end, so that where the absorbed bytes form a valid xz
/// stream the finish succeeds and everything emitted together is the
/// stream's decoding.
#[verifier::external_body]
fn xz_dec_finish(d: XzDec) -> (r: Option<Vec<u8>>)
    ensures
        unxz_of(xz_dec_fed(d)) is Some ==> r is Some,
        r matches Some(v) ==> (unxz_of(xz_dec_fed(d)) matches Some(w) ==> w == xz_dec_out(d)
            + v@),
{
    let mut d = d;
    d.inner.finish().ok()
}

/// Relies on `zstd::stream::write::Decoder::new`: a fresh decoder has
/// absorbed and emitted nothing; creating one can itself fail.
#[verifier::external_body]
fn zstd_dec_new() -> (r: Option<ZstdDec>)
    ensures
        r matches Some(d) ==> zstd_dec_fed(d) == Seq::<u8>::empty() && zstd_dec_out(d)
            == Seq::<u8>::empty(),
{
    Some(ZstdDec { inner: zstd::stream::write::Decoder::new(Vec::new()).ok()? })
}

/// Relies on `Write::write_all` for `zstd::stream::write::Decoder`:
/// absorbs the chunk and hands out what it decompressed to.  The write
/// succeeds exactly when the decoder accepts everything absorbed so
/// far, as in [`gz_dec_push`].
#[verifier::external_body]
fn zstd_dec_push(d: &mut ZstdDec, chunk: &[u8]) -> (r: Option<Vec<u8>>)
    ensures
        r is Some <==> zstd_accepts(zstd_dec_fed(*old(d)) + chunk@),
        r matches Some(v) ==> zstd_dec_fed(*final(d)) == zstd_dec_fed(*old(d)) + chunk@
            && zstd_dec_out(*final(d)) == zstd_dec_out(*old(d)) + v@,
{
    std::io::Write::write_all(&mut d.inner, chunk).ok()?;
    Some(std::mem::take(d.inner.get_mut()))
}

/// Relies on `Write::flush` and `into_inner` for
/// `zstd::stream::write::Decoder`: flushes the stream's tail, so that
/// where the absorbed bytes form a valid zstd stream the flush succeeds
/// and everything emitted together is the stream's decoding.
#[verifier::external_body]
fn zstd_dec_finish(d: ZstdDec) -> (r: Option<Vec<u8>>)
    ensures
        unzstd_of(zstd_dec_fed(d)) is Some ==> r is Some,
        r matches Some(v) ==> (unzstd_of(zstd_dec_fed(d)) matches Some(w) ==> w == zstd_dec_out(d)
            + v@),
{
    let mut d = d;
    std::io::Write::flush(&mut d.inner).ok()?;
    Some(d.inner.into_inner())
}

/// A decompressor fed the compressed archive chunk by chunk, so that
/// decoding a download needs no more memory than one chunk and the
/// codec's own window, whatever the archive's size.  Each push hands
/// back the bytes decompressed so far; the caller streams them on.
pub enum StreamingDecoder {
    Gzip(GzDec),
    Xz(XzDec),
    Zstd(ZstdDec),
}

impl StreamingDecoder {
    /// The codec this decoder decodes.
    pub open spec fn codec(self) -> Codec {
        match self {
            StreamingDecoder::Gzip(_) => Codec::Gzip,
            StreamingDecoder::Xz(_) => Codec::Xz,
            StreamingDecoder::Zstd(_) => Codec::Zstd,
        }
    }

    /// The compressed bytes fed so far.
    pub open spec fn fed(self) -> Seq<u8> {
        match self {
            StreamingDecoder::Gzip(d) => gz_dec_fed(d),
            StreamingDecoder::Xz(d) => xz_dec_fed(d),
            StreamingDecoder::Zstd(d) => zstd_dec_fed(d),
        }
    }

    /// The decompressed bytes emitted so far.
    pub open spec fn out(self) -> Seq<u8> {
        match self {
            StreamingDecoder::Gzip(d) => gz_dec_out(d),
            StreamingDecoder::Xz(d) => xz_dec_out(d),
            StreamingDecoder::Zstd(d) => zstd_dec_out(d),
        }
    }

    /// A fresh decoder for `codec`, with nothing fed or emitted.  Only
    /// zstd setup can fail; a gzip or xz decoder is always handed out.
    pub fn new(codec: Codec) -> (r: Option<StreamingDecoder>)
        ensures
            codec == Codec::Gzip || codec == Codec::Xz ==> r is Some,
            r matches Some(d) ==> d.codec() == codec && d.fed() == Seq::<u8>::empty() && d.out()
                == Seq::<u8>::empty(),
    {
        match codec {
            Codec::Gzip => Some(StreamingDecoder::Gzip(gz_dec_new())),
            Codec::Xz => Some(StreamingDecoder::Xz(xz_dec_new())),
            Codec::Zstd => match zstd_dec_new() {
                Some(d) => Some(StreamingDecoder::Zstd(d)),
                None => None,
            },
        }
    }

    /// Feeds one chunk of the compressed archive; hands back the
    /// decoder and what it decompressed.  The push succeeds exactly
    /// when the codec accepts everything fed so far; a chunk that
    /// corrupts the stream, or follows its end, gives nothing back.
    pub fn push(self, chunk: &[u8]) -> (r: (StreamingDecoder, Option<Vec<u8>>))
        ensures
            r.0.codec() == self.codec(),
            r.1 is Some <==> spec_accepts(self.codec(), self.fed() + chunk@),
            r.1 matches Some(v) ==> r.0.fed() == self.fed() + chunk@ && r.0.out() == self.out()
                + v@,
    {
        match self {
            StreamingDecoder::Gzip(mut d) => {
                let v = gz_dec_push(&mut d, chunk);
                (StreamingDecoder::Gzip(d), v)
            },
            StreamingDecoder::Xz(mut d) => {
                let v = xz_dec_push(&mut d, chunk);
                (StreamingDecoder::Xz(d), v)
            },
            StreamingDecoder::Zstd(mut d) => {
                let v = zstd_dec_push(&mut d, chunk);
                (StreamingDecoder::Zstd(d), v)
            },
        }
    }

    /// Flushes the stream's tail.  Where the bytes fed over the
    /// decoder's life form a valid stream of its codec, the finish
    /// succeeds and everything the decoder emitted — earlier pushes
    /// plus this tail — is exactly that stream's decoding.
    pub fn finish(self) -> (r: Option<Vec<u8>>)
        ensures
            spec_decoded(self.codec(), self.fed()) is Some ==> r is Some,
            r matches Some(v) ==> (spec_decoded(self.codec(), self.fed()) matches Some(w) ==> w
                == self.out() + v@),
    {
        match self {
            StreamingDecoder::Gzip(d) => gz_dec_finish(d),
            StreamingDecoder::Xz(d) => xz_dec_finish(d),
            StreamingDecoder::Zstd(d) => zstd_dec_finish(d),
        }
    }
}

/// Whether a push-fed decoder of `codec` accepts `data`, per the
/// codec's own acceptance name.
pub open spec fn spec_accepts(codec: Codec, data: Seq<u8>) -> bool {
    match codec {
        Codec::Gzip => gz_accepts(data),
        Codec::Xz => xz_accepts(data),
        Codec::Zstd => zstd_accepts(data),
    }
}

/// What `data` decodes to under `codec`.
pub open spec fn spec_decoded(codec: Codec, data: Seq<u8>) -> Option<Seq<u8>> {
    match codec {
        Codec::Gzip => gunzip_of(data),
        Codec::Xz => unxz_of(data),
        Codec::Zstd => unzstd_of(data),
    }
}

/// Decodes `data` under `codec`.
fn decode(codec: Codec, data: &[u8]) -> (r: Option<Vec<u8>>)
    ensures
        match r {
            Some(v) => spec_decoded(codec, data@) == Some(v@),
            None => spec_decoded(codec, data@) is None,
        },
{
    match codec {
        Codec::Gzip => gzip_decode(data),
        Codec::Xz => xz_decode(data),
        Codec::Zstd => zstd_decode(data),
    }
}

/// The entries of the tar archive `data`: for each, its stored path,
/// whether it is a directory, its bytes, its permission bits and its
/// modification time; nothing where the bytes are not a readable
/// archive.  Decided only by the `tar` crate.
pub uninterp spec fn tar_entries_of(data: Seq<u8>) -> Option<
    Seq<(Seq<char>, bool, Seq<u8>, u32, u64)>,
>;

/// Relies on `tar::Archive`: the entry list depends on the input bytes
/// alone; paths that are not valid Unicode are read lossily.
#[verifier::external_body]
fn tar_entry_list(data: &[u8]) -> (r: Option<Vec<TarEntry>>)
    ensures
        match r {
            Some(v) => tar_entries_of(data@) == Some(
                v@.map_values(|e: TarEntry| (e.path@, e.is_dir, e.data@, e.mode, e.mtime)),
            ),
            None => tar_entries_of(data@) is None,
        },
{
    let mut out: Vec<TarEntry> = Vec::new();
    for entry in tar::Archive::new(data).entries().ok()? {
        let mut entry = entry.ok()?;
        let path = entry.path().ok()?.to_string_lossy().into_owned();
        let is_dir = entry.header().entry_type().is_dir();
        let mode = entry.header().mode().ok()?;
        let mtime = entry.header().mtime().ok()?;
        let mut data: Vec<u8> = Vec::new();
        std::io::Read::read_to_end(&mut entry, &mut data).ok()?;
        out.push(TarEntry { path, is_dir, data, mode, mtime });
    }
    Some(out)
}

/// Where an entry stored at `entry` lands: under
/// `dest/new_top_level`, with the entry's own top-level path component
/// dropped; an entry with a single component keeps its name, directly
/// under `dest/new_top_level`.
pub open spec fn rebased_entry_path(
    dest: Seq<char>,
    new_top_level: Seq<char>,
    entry: Seq<char>,
) -> Seq<char> {
    let comps = path_components(entry);
    let root = dest + seq!['/'] + new_top_level;
    if comps.len() <= 1 {
        joined_under(root, comps)
    } else {
        joined_under(root, comps.skip(1))
    }
}

/// Computes the destination of the entry stored at `entry`, per
/// [`rebased_entry_path`].
pub fn rebase_entry_path(destination_path: &str, new_top_level: &str, entry: &str) -> (r: String)
    ensures
        r@ == rebased_entry_path(destination_path@, new_top_level@, entry@),
{
    let comps = split_components(entry);
    let mut root = to_owned_str(destination_path);
    root.append("/");
    root.append(new_top_level);
    proof {
        reveal_strlit("/");
        assert(root@ =~= destination_path@ + seq!['/'] + new_top_level@);
    }
    let ghost cs = comps@.map_values(|c: String| c@);
    proof {
        assert(cs.skip(0) =~= cs);
    }
    if comps.len() <= 1 {
        join_under(root, &comps, 0)
    } else {
        join_under(root, &comps, 1)
    }
}

/// Rewrites every entry of the tar archive `tar_data` to land under
/// `destination_path/new_top_level`, whatever folder the archive was
/// rooted at.
pub fn unpack_tar_with_new_top_level(
    tar_data: &[u8],
    destination_path: &str,
    new_top_level: &str,
) -> (r: Result<Vec<TarEntry>, FileError>)
    ensures
        match r {
            Ok(v) => {
                &&& tar_entries_of(tar_data@) is Some
                &&& {
                    let es = tar_entries_of(tar_data@)->0;
                    &&& v@.len() == es.len()
                    &&& forall|i: int|
                        0 <= i < es.len() ==> v@[i].path@ == rebased_entry_path(
                            destination_path@,
                            new_top_level@,
                            es[i].0,
                        ) && v@[i].is_dir == es[i].1 && v@[i].data@ == es[i].2 && v@[i].mode == es[i].3
                            && v@[i].mtime == es[i].4
                }
            },
            Err(e) => tar_entries_of(tar_data@) is None && e == FileError::Archive,
        },
{
    let entries = match tar_entry_list(tar_data) {
        Some(v) => v,
        None => {
            return Err(FileError::Archive);
        },
    };
    let ghost es = tar_entries_of(tar_data@)->0;
    let mut rest = entries;
    let mut out: Vec<TarEntry> = Vec::new();
    proof {
        assert(rest@.map_values(|e: TarEntry| (e.path@, e.is_dir, e.data@, e.mode, e.mtime)) =~= es.skip(0));
    }
    while rest.len() > 0
        invariant
            out@.len() + rest@.len() == es.len(),
            rest@.map_values(|e: TarEntry| (e.path@, e.is_dir, e.data@, e.mode, e.mtime)) == es.skip(
                out@.len() as int,
            ),
            forall|i: int|
                0 <= i < out@.len() ==> out@[i].path@ == rebased_entry_path(
                    destination_path@,
                    new_top_level@,
                    es[i].0,
                ) && out@[i].is_dir == es[i].1 && out@[i].data@ == es[i].2 && out@[i].mode
                    == es[i].3 && out@[i].mtime == es[i].4,
        decreases rest@.len(),
    {
        let ghost k = out@.len() as int;
        proof {
            assert(rest@.map_values(|e: TarEntry| (e.path@, e.is_dir, e.data@, e.mode, e.mtime))[0] == es.skip(k)[0]);
            assert(es.skip(k)[0] == es[k]);
        }
        let ghost prev = rest@;
        let e = rest.remove(0);
        let new_path = rebase_entry_path(destination_path, new_top_level, e.path.as_str());
        out.push(TarEntry { path: new_path, is_dir: e.is_dir, data: e.data, mode: e.mode, mtime: e.mtime });
        proof {
            assert(rest@ =~= prev.skip(1));
            assert(prev.map_values(|e: TarEntry| (e.path@, e.is_dir, e.data@, e.mode, e.mtime)) == es.skip(k));
            assert forall|j: int| 0 <= j < rest@.len() implies #[trigger] es.skip(k + 1)[j]
                == rest@.map_values(|e: TarEntry| (e.path@, e.is_dir, e.data@, e.mode, e.mtime))[j] by {
                assert(rest@[j] == prev[j + 1]);
                assert(prev.map_values(|e: TarEntry| (e.path@, e.is_dir, e.data@, e.mode, e.mtime))[
                    j + 1
                ] == (
                    prev[j + 1].path@,
                    prev[j + 1].is_dir,
                    prev[j + 1].data@,
                    prev[j + 1].mode,
                    prev[j + 1].mtime,
                ));
                assert(es.skip(k)[j + 1] == es[k + 1 + j]);
                assert(es.skip(k + 1)[j] == es[k + 1 + j]);
            }
            assert(rest@.map_values(|e: TarEntry| (e.path@, e.is_dir, e.data@, e.mode, e.mtime)) =~= es.skip(k + 1));
        }
    }
    proof {
        assert(es.skip(es.len() as int).len() == 0);
    }
    Ok(out)
}

/// Decodes and unpacks a downloaded archive.
///
/// `file_name` selects the codec by its suffix; an unsupported suffix
/// is rejected before the bytes are touched.  On success every entry's
/// path has been rewritten to land under
/// `destination_path/new_top_level`.
pub fn unpack_file(
    file_name: &str,
    data: &[u8],
    destination_path: &str,
    new_top_level: &str,
) -> (r: Result<Vec<TarEntry>, FileError>)
    ensures
        spec_codec_for(file_name@) is None ==> r == Err::<Vec<TarEntry>, FileError>(
            FileError::UnsupportedExtension,
        ),
        spec_codec_for(file_name@) matches Some(codec) ==> {
            let decoded = spec_decoded(codec, data@);
            match r {
                Ok(v) => {
                    &&& decoded is Some
                    &&& tar_entries_of(decoded->0) is Some
                    &&& {
                        let es = tar_entries_of(decoded->0)->0;
                        &&& v@.len() == es.len()
                        &&& forall|i: int|
                            0 <= i < es.len() ==> v@[i].path@ == rebased_entry_path(
                                destination_path@,
                                new_top_level@,
                                es[i].0,
                            ) && v@[i].is_dir == es[i].1 && v@[i].data@ == es[i].2 && v@[i].mode == es[i].3
                            && v@[i].mtime == es[i].4
                    }
                },
                Err(e) => {
                    ||| (decoded is None && e == FileError::Decompress)
                    ||| (decoded is Some && tar_entries_of(decoded->0) is None && e
                        == FileError::Archive)
                },
            }
        },
{
    let codec = match classify_codec(file_name) {
        Some(c) => c,
        None => {
            return Err(FileError::UnsupportedExtension);
        },
    };
    let decoded = match decode(codec, data) {
        Some(v) => v,
        None => {
            return Err(FileError::Decompress);
        },
    };
    unpack_tar_with_new_top_level(decoded.as_slice(), destination_path, new_top_level)
}

/// Unpack normalization: an entry rooted at any single top-level
/// folder lands at the same destination, whichever folder that was —
/// the path below the top level alone decides where the entry goes,
/// namely under `dest/new_top_level`, with its nested structure kept.
pub proof fn lemma_unpack_normalization(
    dest: Seq<char>,
    new_top_level: Seq<char>,
    top1: Seq<char>,
    top2: Seq<char>,
    rest: Seq<char>,
)
    requires
        keep_component(top1),
        keep_component(top2),
        forall|i: int| 0 <= i < top1.len() ==> top1[i] != '/',
        forall|i: int| 0 <= i < top2.len() ==> top2[i] != '/',
        path_components(rest).len() > 0,
    ensures
        rebased_entry_path(dest, new_top_level, top1 + seq!['/'] + rest) == joined_under(
            dest + seq!['/'] + new_top_level,
            path_components(rest),
        ),
        rebased_entry_path(dest, new_top_level, top1 + seq!['/'] + rest) == rebased_entry_path(
            dest,
            new_top_level,
            top2 + seq!['/'] + rest,
        ),
{
    crate::text::lemma_top_component(top1, rest);
    crate::text::lemma_top_component(top2, rest);
    assert((seq![top1] + path_components(rest)).skip(1) =~= path_components(rest));
    assert((seq![top2] + path_components(rest)).skip(1) =~= path_components(rest));
}

/// A folder on disk: the path it was found under and its own name.
pub struct Folder(pub (String, String));

impl Folder {
    /// The folder's own name, as listings display it.
    pub fn display_name(&self) -> (r: &str)
        ensures
            r@ == self.0.1@,
    {
        self.0.1.as_str()
    }
}

/// A list of folders, displayed comma-separated.
pub struct Folders(pub Vec<Folder>);

/// The comma-separated text of the folder names `fs`.
pub open spec fn spec_folders_text(fs: Seq<Seq<char>>) -> Seq<char>
    decreases fs.len(),
{
    if fs.len() == 0 {
        Seq::empty()
    } else if fs.len() == 1 {
        fs[0]
    } else {
        spec_folders_text(fs.take(fs.len() - 1)) + ", "@ + fs[fs.len() - 1]
    }
}

impl Folders {
    /// The comma-separated names of the folders, as listings display
    /// them.
    pub fn display_list(&self) -> (r: String)
        ensures
            r@ == spec_folders_text(self.0@.map_values(|f: Folder| f.0.1@)),
    {
        let ghost names = self.0@.map_values(|f: Folder| f.0.1@);
        let mut r = String::new();
        let mut i: usize = 0;
        proof {
            assert(r@ =~= spec_folders_text(names.take(0)));
        }
        while i < self.0.len()
            invariant
                names == self.0@.map_values(|f: Folder| f.0.1@),
                0 <= i <= names.len(),
                r@ == spec_folders_text(names.take(i as int)),
            decreases names.len() - i,
        {
            let ghost before = r@;
            if i > 0 {
                r.append(", ");
            }
            r.append(self.0[i].0.1.as_str());
            proof {
                reveal_strlit(", ");
                assert(names.take(i + 1).take(i as int) =~= names.take(i as int));
                assert(names.take(i + 1)[i as int] == names[i as int]);
                if i == 0 {
                    assert(spec_folders_text(names.take(1)) == names[0]);
                    assert(r@ =~= names[0]);
                } else {
                    assert(r@ =~= spec_folders_text(names.take(i as int)) + ", "@
                        + names[i as int]);
                }
            }
            i = i + 1;
        }
        proof {
            assert(names.take(names.len() as int) =~= names);
        }
        r
    }
}

} // verus!
