//! Reading a file's contents in fixed-size blocks.
//!
//! A `BlockReader` holds the contents of one file (decompressed, or taken out of
//! its archive, when it is not a plain file) and hands out `Block`s of `blocksz`
//! bytes: block `bo` is the bytes at file offsets `[bo * blocksz, (bo + 1) * blocksz)`,
//! cut short at the end of the file.
use vstd::prelude::*;
use std::sync::Arc;
use std::collections::BTreeMap;
use std::collections::BTreeSet;
use crate::common::{Bytes, FPath, FileOffset, FileSz, Count, FileType, Error, ErrorKind, ResultS3, arc_clone};
use crate::helpers::{after_last, last_index_of, lemma_last_index_of};
use crate::cache::{BlocksLRUCache, blocks_cache_contents, blocks_cache_new, blocks_cache_get, blocks_cache_put, blocks_cache_pop, blocks_cache_resize, blocks_cache_clear, put_result};

verus! {

broadcast use vstd::std_specs::btree::group_btree_axioms, vstd::laws_cmp::group_laws_cmp;

/// Size of a block in bytes.
pub type BlockSz = u64;
/// An index into a block.
pub type BlockIndex = usize;
/// The number of a block in a file (the file offset divided by the block size).
pub type BlockOffset = u64;
/// A block of bytes.
pub type Block = Vec<u8>;
/// A shared pointer to a block.
pub type BlockP = Arc<Block>;
/// Stored blocks by block offset.
pub type Blocks = BTreeMap<BlockOffset, BlockP>;
/// Block offsets of blocks that were read.
pub type BlocksTracked = BTreeSet<BlockOffset>;
/// Result of `read_block`.
pub type ResultS3_ReadBlock = ResultS3<BlockP, Error>;

/// Smallest block size.
pub const BLOCKSZ_MIN: BlockSz = 1;
/// Largest block size.
pub const BLOCKSZ_MAX: BlockSz = 0xFFFFFF;
/// Default block size.
pub const BLOCKSZ_DEF: usize = 0xFFFF;
/// Separates the path of an archive file from the path of a file within it.
pub const SUBPATH_SEP: char = ':';
/// Largest (compressed) size of a gzip file that is read.
pub const GZ_MAX_SZ: FileSz = 0x20000000;
/// Slots in the `read_block` cache.
pub const READ_BLOCK_LRU_CACHE_SZ: usize = 4;

// ---------------------------------------------------------------------------------------
// block arithmetic
// ---------------------------------------------------------------------------------------

/// The bytes of block `bo` of `data`, for block size `bsz`.
pub open spec fn block_bytes(data: Seq<u8>, bo: int, bsz: int) -> Seq<u8> {
    let a = bo * bsz;
    let b = if (bo + 1) * bsz < data.len() { (bo + 1) * bsz } else { data.len() as int };
    data.subrange(a, b)
}

/// Number of blocks needed for `filesz` bytes.
pub open spec fn spec_count_blocks(filesz: int, bsz: int) -> int {
    filesz / bsz + if filesz % bsz > 0 { 1int } else { 0int }
}

/// Division facts for a positive divisor.
pub proof fn lemma_div_mod(fo: int, bsz: int)
    requires
        0 <= fo,
        0 < bsz,
    ensures
        fo == (fo / bsz) * bsz + fo % bsz,
        0 <= fo % bsz < bsz,
        0 <= fo / bsz <= fo,
        (fo / bsz) * bsz <= fo < (fo / bsz + 1) * bsz,
{
    assert(fo == (fo / bsz) * bsz + fo % bsz && 0 <= fo % bsz < bsz) by (nonlinear_arith)
        requires 0 <= fo, 0 < bsz;
    assert(0 <= fo / bsz <= fo) by (nonlinear_arith)
        requires 0 <= fo, 0 < bsz;
    assert((fo / bsz + 1) * bsz == (fo / bsz) * bsz + bsz) by (nonlinear_arith);
}

/// Block `bo` is a non-empty part of the file exactly when `bo * bsz < filesz`.
pub proof fn lemma_block_in_file(bo: int, bsz: int, filesz: int)
    requires
        0 <= bo,
        0 < bsz,
        0 <= filesz,
    ensures
        bo * bsz < filesz <==> bo < spec_count_blocks(filesz, bsz),
        0 <= bo * bsz,
        (bo + 1) * bsz == bo * bsz + bsz,
{
    lemma_div_mod(filesz, bsz);
    let q = filesz / bsz;
    let r = filesz % bsz;
    assert(0 <= bo * bsz) by (nonlinear_arith)
        requires 0 <= bo, 0 < bsz;
    assert((bo + 1) * bsz == bo * bsz + bsz) by (nonlinear_arith);
    if bo < q {
        assert(bo * bsz < q * bsz) by (nonlinear_arith)
            requires bo < q, 0 < bsz;
    } else if bo == q {
    } else {
        assert(bo * bsz >= (q + 1) * bsz) by (nonlinear_arith)
            requires bo >= q + 1, 0 < bsz;
        assert((q + 1) * bsz == q * bsz + bsz) by (nonlinear_arith);
    }
}






impl BlockReader {
    /// The block offset at a file offset.
    pub fn block_offset_at_file_offset(file_offset: FileOffset, blocksz: BlockSz) -> (r: BlockOffset)
        requires
            blocksz > 0,
        ensures
            r == file_offset / blocksz,
    {
        file_offset / blocksz
    }

    /// The file offset at which a block begins.
    pub fn file_offset_at_block_offset(block_offset: BlockOffset, blocksz: BlockSz) -> (r: FileOffset)
        requires
            block_offset * blocksz <= u64::MAX,
        ensures
            r == block_offset * blocksz,
    {
        block_offset * blocksz
    }

    /// The file offset of index `blockindex` within block `blockoffset`.
    pub fn file_offset_at_block_offset_index(blockoffset: BlockOffset, blocksz: BlockSz, blockindex: BlockIndex) -> (r: FileOffset)
        requires
            blockoffset * blocksz + blockindex <= u64::MAX,
        ensures
            r == blockoffset * blocksz + blockindex,
    {
        proof {
            assert(0 <= blockoffset * blocksz) by (nonlinear_arith);
        }
        blockoffset * blocksz + (blockindex as FileOffset)
    }

    /// The index within its block of a file offset.
    pub fn block_index_at_file_offset(file_offset: FileOffset, blocksz: BlockSz) -> (r: BlockIndex)
        requires
            0 < blocksz <= usize::MAX,
        ensures
            r == file_offset % blocksz,
    {
        proof {
            lemma_div_mod(file_offset as int, blocksz as int);
        }
        let bo = file_offset / blocksz;
        let r = file_offset - bo * blocksz;
        assert(r < blocksz);
        r as usize
    }

    /// The number of blocks of a file of `filesz` bytes.
    pub fn count_blocks(filesz: FileSz, blocksz: BlockSz) -> (r: Count)
        requires
            blocksz > 0,
        ensures
            r == spec_count_blocks(filesz as int, blocksz as int),
    {
        proof {
            lemma_div_mod(filesz as int, blocksz as int);
            if blocksz == 1 {
                assert(filesz % blocksz == 0) by (nonlinear_arith) requires blocksz == 1;
            } else {
                assert(filesz / blocksz < u64::MAX) by (nonlinear_arith)
                    requires blocksz >= 2, filesz <= u64::MAX;
            }
        }
        filesz / blocksz + if filesz % blocksz > 0 { 1 } else { 0 }
    }

    /// The size in bytes of the block at `blockoffset`.
    pub fn blocksz_at_blockoffset_(blockoffset: &BlockOffset, blockoffset_last: &BlockOffset, blocksz: &BlockSz, filesz: &FileSz) -> (r: BlockSz)
        requires
            *blocksz > 0,
        ensures
            r == spec_blocksz_at_blockoffset(*blockoffset as int, *blockoffset_last as int, *blocksz as int, *filesz as int),
    {
        if *blockoffset == *blockoffset_last {
            let remainder = *filesz % *blocksz;
            if remainder != 0 {
                remainder
            } else {
                *blocksz
            }
        } else {
            *blocksz
        }
    }
}

/// What `blocksz_at_blockoffset_` gives: the size of the last block is what remains
/// of the file after the full blocks; every other block is `blocksz` bytes.
pub open spec fn spec_blocksz_at_blockoffset(bo: int, bo_last: int, bsz: int, filesz: int) -> int {
    if bo == bo_last && filesz % bsz != 0 { filesz % bsz } else { bsz }
}


/// The little-endian value of four bytes (as in a gzip trailer).
pub open spec fn spec_dword(b: Seq<u8>) -> int {
    b[0] + 256 * b[1] + 65536 * b[2] + 16777216 * b[3]
}

/// Unpack a little-endian DWORD, such as those in a gzip trailer.
pub fn dword_to_u32(buf: &[u8; 4]) -> (r: u32)
    ensures
        r == spec_dword(buf@),
{
    let b0 = buf[0] as u32;
    let b1 = buf[1] as u32;
    let b2 = buf[2] as u32;
    let b3 = buf[3] as u32;
    b0 + 256 * b1 + 65536 * b2 + 16777216 * b3
}

// ---------------------------------------------------------------------------------------
// outside crates that decode file formats
// ---------------------------------------------------------------------------------------

/// Gzip bytes open: at least 8 bytes and no more than `GZ_MAX_SZ`, a size in the
/// trailer (its last 4 bytes) that is not 0, and data that decompress. The trailer's
/// size (the decompressed size modulo 2^32) need not be the size decompressed.
pub open spec fn gz_opens(bytes: Seq<u8>) -> bool {
    &&& 8 <= bytes.len() <= GZ_MAX_SZ
    &&& spec_dword(bytes.subrange(bytes.len() - 4, bytes.len() as int)) != 0
    &&& gz_decoded(bytes) is Some
}

/// What `flate2::read::GzDecoder` reads out of the bytes of a gzip file (all of it);
/// `None` when it reports an error.
pub uninterp spec fn gz_decoded(bytes: Seq<u8>) -> Option<Seq<u8>>;

/// What `flate2::read::GzDecoder::header` gives for the bytes of a gzip file: the
/// header's file name bytes (empty where it has none) and its MTIME (0 where there
/// is no header).
pub uninterp spec fn gz_header_of(bytes: Seq<u8>) -> (Seq<u8>, u32);

/// Decompresses gzip bytes with `flate2::read::GzDecoder` and `read_to_end`. The
/// result is named `gz_decoded` of the bytes; nothing more is claimed of it.
#[verifier::external_body]
fn gz_decode(bytes: &[u8]) -> (r: Option<Vec<u8>>)
    ensures
        match r {
            Some(v) => gz_decoded(bytes@) == Some(v@),
            None => gz_decoded(bytes@) is None,
        },
{
    let mut decoder = flate2::read::GzDecoder::new(bytes);
    let mut out: Vec<u8> = Vec::new();
    match std::io::Read::read_to_end(&mut decoder, &mut out) {
        Ok(_) => Some(out),
        Err(_) => None,
    }
}

/// The stored file name of a gzip header, as text: its bytes where they are UTF-8,
/// else empty.
pub open spec fn gz_filename_of(b: Seq<u8>) -> Seq<char> {
    if vstd::utf8::valid_utf8(b) { vstd::utf8::decode_utf8(b) } else { Seq::empty() }
}

/// Reads the gzip header with `flate2::read::GzDecoder::header`: the file name and
/// MTIME, named `gz_header_of` of the bytes.
#[verifier::external_body]
fn gz_header(bytes: &[u8]) -> (r: (Vec<u8>, u32))
    ensures
        (r.0@, r.1) == gz_header_of(bytes@),
{
    let decoder = flate2::read::GzDecoder::new(bytes);
    match decoder.header() {
        Some(h) => (h.filename().unwrap_or(&[]).to_vec(), h.mtime()),
        None => (Vec::new(), 0),
    }
}

/// What `lzma_rs::xz_decompress` gives for the bytes of an xz file: a status (0 for
/// success, 1 for an I/O error of kind `UnexpectedEof`, 2 for any other error) and
/// the bytes it wrote.
pub uninterp spec fn xz_decoded(bytes: Seq<u8>) -> (u8, Seq<u8>);

/// Decompresses xz bytes with `lzma_rs::xz_decompress`; the result is named
/// `xz_decoded` of the bytes, and the status is one of its three values.
#[verifier::external_body]
fn xz_decompress(bytes: &[u8]) -> (r: (u8, Vec<u8>))
    ensures
        (r.0, r.1@) == xz_decoded(bytes@),
        r.0 <= 2,
{
    let mut reader = std::io::BufReader::new(bytes);
    let mut out: Vec<u8> = Vec::new();
    match lzma_rs::xz_decompress(&mut reader, &mut out) {
        Ok(_) => (0, out),
        Err(lzma_rs::error::Error::IoError(e)) if e.kind() == std::io::ErrorKind::UnexpectedEof => (1, out),
        Err(_) => (2, out),
    }
}

/// What `tar::Archive::entries` gives for the bytes of a tar file: per entry, in
/// order, its path, size (`None` where it cannot be read), header checksum and
/// mtime, and whether its header's entry type is a regular file, or `None` where the
/// entry or its path cannot be read (a checksum or mtime that cannot be read is 0);
/// `None` when the entries cannot be listed.
pub uninterp spec fn tar_entries_of(bytes: Seq<u8>) -> Option<Seq<Option<(Seq<char>, Option<u64>, u32, u64, bool)>>>;

/// What `tar::Entry::read_to_end` gives for the entry at `index` of a tar file.
pub uninterp spec fn tar_entry_data_of(bytes: Seq<u8>, index: u64) -> Option<Seq<u8>>;

/// Entry `i` of the listing `es` could be read and has the path `sub`.
pub open spec fn tar_entry_is(es: Seq<Option<(Seq<char>, Option<u64>, u32, u64, bool)>>, sub: Seq<char>, i: int) -> bool {
    0 <= i < es.len() && es[i] is Some && (es[i]->0).0 == sub
}

/// Entry `i` is the first of the listing with the path `sub`.
pub open spec fn tar_first_entry(es: Seq<Option<(Seq<char>, Option<u64>, u32, u64, bool)>>, sub: Seq<char>, i: int) -> bool {
    tar_entry_is(es, sub, i) && forall|j: int| 0 <= j < i ==> !#[trigger] tar_entry_is(es, sub, j)
}

/// The contents of the file `sub` within tar bytes: the data of the first entry with
/// that path, where it reads whole (as many bytes as its header gives); empty where
/// no entry has that path; `None` where the entries cannot be listed, or that
/// entry's size or its data cannot be read whole.
pub open spec fn tar_file_contents(bytes: Seq<u8>, sub: Seq<char>) -> Option<Seq<u8>> {
    match tar_entries_of(bytes) {
        None => None,
        Some(es) => if exists|i: int| tar_first_entry(es, sub, i) {
            let i = choose|i: int| tar_first_entry(es, sub, i);
            match (es[i]->0).1 {
                Some(sz) => match tar_entry_data_of(bytes, i as u64) {
                    Some(d) => if d.len() == sz { Some(d) } else { None },
                    None => None,
                },
                None => None,
            }
        } else {
            Some(Seq::empty())
        },
    }
}

/// There is one first entry with a path.
proof fn lemma_tar_first_unique(es: Seq<Option<(Seq<char>, Option<u64>, u32, u64, bool)>>, sub: Seq<char>, i: int, j: int)
    requires
        tar_first_entry(es, sub, i),
        tar_first_entry(es, sub, j),
    ensures
        i == j,
{
    if i < j {
        assert(!tar_entry_is(es, sub, i));
    } else if j < i {
        assert(!tar_entry_is(es, sub, j));
    }
}

/// Lists the entries of tar bytes with `tar::Archive::entries`, one item per entry;
/// the result is named `tar_entries_of` of the bytes.
#[verifier::external_body]
pub(crate) fn tar_entries(bytes: &[u8]) -> (r: Option<Vec<Option<(String, Option<u64>, u32, u64, bool)>>>)
    ensures
        match r {
            Some(v) => tar_entries_of(bytes@) == Some(v@.map_values(|e: Option<(String, Option<u64>, u32, u64, bool)>| match e { Some(t) => Some((t.0@, t.1, t.2, t.3, t.4)), None => None })),
            None => tar_entries_of(bytes@) is None,
        },
{
    let mut archive = tar::Archive::new(bytes);
    let entries = archive.entries().ok()?;
    Some(entries.map(|res| match res {
        Ok(e) => match e.path() {
            Ok(p) => Some((p.to_string_lossy().to_string(), e.header().size().ok(), e.header().cksum().unwrap_or(0),
                e.header().mtime().unwrap_or(0), e.header().entry_type().is_file())),
            Err(_) => None,
        },
        Err(_) => None,
    }).collect())
}

/// Reads the data of the entry at `index` of tar bytes with `tar::Entry`'s
/// `read_to_end`; the result is named `tar_entry_data_of`.
#[verifier::external_body]
fn tar_entry_data(bytes: &[u8], index: u64) -> (r: Option<Vec<u8>>)
    ensures
        match r {
            Some(v) => tar_entry_data_of(bytes@, index) == Some(v@),
            None => tar_entry_data_of(bytes@, index) is None,
        },
{
    let mut archive = tar::Archive::new(bytes);
    let mut entry = archive.entries().ok()?.nth(index as usize)?.ok()?;
    let mut out = Vec::new();
    std::io::Read::read_to_end(&mut entry, &mut out).ok().map(|_| out)
}

// ---------------------------------------------------------------------------------------
// MIME guesses
// ---------------------------------------------------------------------------------------

/// The MIME types that `mime_guess::MimeGuess::from_path` guesses for a path, in order.
pub uninterp spec fn mime_guess_of(path: Seq<char>) -> Seq<Seq<char>>;

/// Guesses the MIME types of a path by its extension with
/// `mime_guess::MimeGuess::from_path`; the result is named `mime_guess_of`.
#[verifier::external_body]
fn mime_guess_from_path(path: &str) -> (r: Vec<String>)
    ensures
        r@.map_values(|s: String| s@) == mime_guess_of(path@),
{
    mime_guess::MimeGuess::from_path(std::path::Path::new(path)).iter().map(|m| m.to_string()).collect()
}

/// The MIME types that `mime_guess::MimeGuess::from_ext` guesses for an extension.
pub uninterp spec fn mime_guess_of_ext(ext: Seq<char>) -> Seq<Seq<char>>;

/// Guesses the MIME types of a file extension with `mime_guess::MimeGuess::from_ext`;
/// the result is named `mime_guess_of_ext`.
#[verifier::external_body]
fn mime_guess_from_ext(ext: &str) -> (r: Vec<String>)
    ensures
        r@.map_values(|s: String| s@) == mime_guess_of_ext(ext@),
        ext@.len() == 0 ==> r@.len() == 0,
{
    mime_guess::MimeGuess::from_ext(ext).iter().map(|m| m.to_string()).collect()
}

/// The MIME types guessed for a file from its path, most likely first.
#[derive(Clone, Debug)]
pub struct MimeGuess {
    pub types: Vec<String>,
}

impl MimeGuess {
    /// The MIME types that `mime_guess` guesses from `path`.
    pub fn from_path(path: &str) -> (r: MimeGuess)
        ensures
            r.types@.map_values(|s: String| s@) == mime_guess_of(path@),
    {
        MimeGuess { types: mime_guess_from_path(path) }
    }

    /// The MIME types that `mime_guess` guesses from the file extension `ext`.
    pub fn from_ext(ext: &str) -> (r: MimeGuess)
        ensures
            r.types@.map_values(|s: String| s@) == mime_guess_of_ext(ext@),
            ext@.len() == 0 ==> r.types@.len() == 0,
    {
        MimeGuess { types: mime_guess_from_ext(ext) }
    }

    /// No MIME type was guessed.
    pub fn is_empty(&self) -> (r: bool)
        ensures
            r == (self.types@.len() == 0),
    {
        self.types.len() == 0
    }

    /// The most likely MIME type, if any.
    pub fn first(&self) -> (r: Option<&str>)
        ensures
            match r {
                Some(s) => self.types@.len() > 0 && s@ == self.types@[0]@,
                None => self.types@.len() == 0,
            },
    {
        if self.types.len() == 0 {
            None
        } else {
            Some(self.types[0].as_str())
        }
    }
}

// ---------------------------------------------------------------------------------------
// the reader
// ---------------------------------------------------------------------------------------

/// Data of a gzip file.
#[derive(Clone, Debug)]
pub struct GzData {
    /// size of the file uncompressed, from the gzip trailer
    pub filesz: FileSz,
    /// file name from the gzip header
    pub filename: String,
    /// MTIME from the gzip header (0 when there is none)
    pub mtime: u32,
    /// CRC32 from the gzip trailer
    pub crc32: u32,
}

/// Data of an xz file.
#[derive(Clone, Debug)]
pub struct XzData {
    /// size of the file uncompressed
    pub filesz: FileSz,
}

/// Data of a file within a tar file.
#[derive(Clone, Debug)]
pub struct TarData {
    /// size of the file within the archive
    pub filesz: FileSz,
    /// index of its entry in the archive
    pub entry_index: usize,
    /// checksum from the tar header
    pub checksum: u32,
    /// modified time from the tar header
    pub mtime: u64,
}

/// Reads one file in blocks of `blocksz` bytes, storing the blocks that were read.
pub struct BlockReader {
    /// path of the file (of the archive, for a file within an archive)
    pub path: FPath,
    /// path of the file within the archive, for archived files
    pub subpath: Option<FPath>,
    mimeguess_: MimeGuess,
    filetype: FileType,
    gz: Option<GzData>,
    xz: Option<XzData>,
    tar: Option<TarData>,
    /// modified time of the file at `path`, in seconds since the Unix epoch
    file_metadata_modified: u64,
    /// the file's contents (uncompressed, or out of the archive)
    contents: Vec<u8>,
    filesz_actual: FileSz,
    filesz: FileSz,
    blockn: u64,
    blocksz: BlockSz,
    count_bytes_: Count,
    blocks: Blocks,
    blocks_read: BlocksTracked,
    read_block_lru_cache: BlocksLRUCache,
    read_block_lru_cache_enabled: bool,
    pub read_block_cache_lru_hit: Count,
    pub read_block_cache_lru_miss: Count,
    pub read_block_cache_lru_put: Count,
    pub read_blocks_hit: Count,
    pub read_blocks_miss: Count,
    pub read_blocks_put: Count,
}

/// `a + b`, or `u64::MAX` where that is larger (a saturating addition).
pub open spec fn sat_add(a: u64, b: int) -> u64 {
    if a + b > u64::MAX { u64::MAX } else { (a + b) as u64 }
}

/// How `BlockReader::new` opens a file of the given type.
pub open spec fn filetype_supported(ft: FileType) -> bool {
    ft == FileType::File || ft == FileType::FileGz || ft == FileType::FileXz || ft == FileType::FileTar
}

impl BlockReader {
    /// The file's contents.
    pub closed spec fn data(&self) -> Seq<u8> {
        self.contents@
    }

    /// The block size.
    pub closed spec fn spec_blocksz(&self) -> int {
        self.blocksz as int
    }

    /// The file type.
    pub closed spec fn spec_filetype(&self) -> FileType {
        self.filetype
    }

    /// Well-formed: the sizes agree with the contents, and every stored or cached
    /// block holds the file's bytes of that block.
    pub closed spec fn wf(&self) -> bool {
        &&& BLOCKSZ_MIN <= self.blocksz <= BLOCKSZ_MAX
        &&& self.contents@.len() == self.filesz_actual
        &&& self.contents@.len() <= usize::MAX
        &&& self.filesz_actual < 0x4000_0000_0000_0000
        &&& self.blockn == spec_count_blocks(self.filesz_actual as int, self.blocksz as int)
        &&& filetype_supported(self.filetype)
        &&& self.filetype == FileType::File ==> self.filesz == self.filesz_actual
        &&& forall|bo: u64| #[trigger] self.blocks@.contains_key(bo) ==> {
            &&& bo * self.blocksz < self.filesz_actual
            &&& self.blocks@[bo]@ == block_bytes(self.contents@, bo as int, self.blocksz as int)
        }
        &&& forall|bo: u64| #[trigger] blocks_cache_contents(self.read_block_lru_cache).contains_key(bo) ==> {
            &&& bo * self.blocksz < self.filesz_actual
            &&& blocks_cache_contents(self.read_block_lru_cache)[bo] == block_bytes(self.contents@, bo as int, self.blocksz as int)
            &&& self.blocks_read@.contains(bo)
        }
    }

    /// The best available modified time: the MTIME in a gzip header or a tar header
    /// where it is not 0, else that of the file.
    pub closed spec fn spec_mtime(&self) -> u64 {
        if self.filetype == FileType::FileGz && self.gz is Some && self.gz->0.mtime != 0 {
            self.gz->0.mtime as u64
        } else if self.filetype == FileType::FileTar && self.tar is Some && self.tar->0.mtime != 0 {
            self.tar->0.mtime
        } else {
            self.file_metadata_modified
        }
    }

    /// The MIME types guessed from the path.
    pub closed spec fn spec_mimeguess(&self) -> Seq<Seq<char>> {
        self.mimeguess_.types@.map_values(|t: String| t@)
    }

    /// The block offsets of the blocks that were read.
    pub closed spec fn spec_blocks_read(&self) -> Set<u64> {
        self.blocks_read@
    }

    /// The file name stored in the gzip header, for a gzip file.
    pub closed spec fn spec_gz_filename(&self) -> Option<Seq<char>> {
        match self.gz {
            Some(g) => Some(g.filename@),
            None => None,
        }
    }

    /// The path of the file within its archive, for an archived file.
    pub closed spec fn spec_subpath(&self) -> Option<Seq<char>> {
        match self.subpath {
            Some(s) => Some(s@),
            None => None,
        }
    }

    /// The file size (uncompressed).
    pub closed spec fn spec_filesz(&self) -> int {
        self.filesz_actual as int
    }

    /// Opens a file of type `filetype` whose bytes (as stored: compressed, or the
    /// whole archive) are `file_bytes`; `mtime` is the modified time of the file at
    /// `path`, in seconds since the Unix epoch. For an archived file, `path` holds the
    /// archive's path and the subpath, parted by `SUBPATH_SEP`.
    pub fn new(path: FPath, filetype: FileType, blocksz_: BlockSz, file_bytes: Vec<u8>, mtime: u64) -> (r: Result<BlockReader, Error>)
        requires
            BLOCKSZ_MIN <= blocksz_ <= BLOCKSZ_MAX,
            file_bytes@.len() < 0x4000_0000_0000_0000,
        ensures
            match r {
                Ok(br) => {
                    &&& br.wf()
                    &&& br.spec_blocksz() == blocksz_
                    &&& br.spec_filetype() == filetype
                    &&& file_contents(filetype, path@, file_bytes@) == Some(br.data())
                    &&& filetype != FileType::FileXz ==> br.spec_count_bytes() == 0
                    &&& filetype != FileType::FileXz ==> br.spec_blocks_read() == Set::<u64>::empty()
                    &&& filetype == FileType::FileXz ==> br.spec_count_bytes() == br.data().len()
                    &&& filetype == FileType::FileXz ==> br.spec_blocks_read()
                        == Set::new(|bo: u64| bo < spec_count_blocks(br.data().len() as int, blocksz_ as int))
                    &&& br.spec_subpath() == (if filetype == FileType::FileTar {
                            Some(after_last(path@, SUBPATH_SEP))
                        } else {
                            None::<Seq<char>>
                        })
                    &&& filetype != FileType::FileTar ==> br.spec_mimeguess() == mime_guess_of(path@)
                    &&& (filetype == FileType::File || filetype == FileType::FileXz) ==> br.spec_mtime() == mtime
                    &&& filetype == FileType::FileGz ==> br.spec_mtime() == (if gz_header_of(file_bytes@).1 != 0 {
                            gz_header_of(file_bytes@).1 as u64
                        } else {
                            mtime
                        })
                    &&& filetype == FileType::FileGz ==> br.spec_gz_filename() == Some(gz_filename_of(gz_header_of(file_bytes@).0))
                },
                Err(e) => {
                    &&& !filetype_supported(filetype) && filetype != FileType::FileTarGz ==> e.kind == ErrorKind::Unsupported
                    &&& filetype == FileType::FileTarGz && path@.contains(SUBPATH_SEP) ==> e.kind == ErrorKind::Unsupported
                    &&& (filetype == FileType::FileTar || filetype == FileType::FileTarGz) && !path@.contains(SUBPATH_SEP)
                        ==> e.kind == ErrorKind::NotFound
                    &&& filetype == FileType::FileGz ==> e.kind == ErrorKind::InvalidData
                },
            },
            r is Ok <==> file_contents(filetype, path@, file_bytes@) is Some,
    {
        let mut path: FPath = path;
        let mut subpath_opt: Option<FPath> = None;
        let is_arch = filetype.is_archived();
        if is_arch {
            match split_subpath(path.as_str()) {
                Some((p, s)) => {
                    proof {
                        lemma_after_last_split(path@, p@, s@, SUBPATH_SEP);
                    }
                    subpath_opt = Some(s);
                    path = p;
                },
                None => {
                    return Err(Error::new(ErrorKind::NotFound, "failed to find the subpath separator in the path"));
                },
            }
        }
        let mimeguess_ = MimeGuess::from_path(path.as_str());
        let filesz: FileSz = file_bytes.len() as FileSz;
        let mut gz_opt: Option<GzData> = None;
        let mut xz_opt: Option<XzData> = None;
        let mut tar_opt: Option<TarData> = None;
        let contents: Vec<u8>;
        match filetype {
            FileType::File => {
                contents = file_bytes;
            },
            FileType::FileGz => {
                match open_gz(&file_bytes) {
                    Ok((gzd, c)) => {
                        gz_opt = Some(gzd);
                        contents = c;
                    },
                    Err(e) => {
                        return Err(e);
                    },
                }
            },
            FileType::FileXz => {
                match open_xz(&file_bytes) {
                    Ok(c) => {
                        xz_opt = Some(XzData { filesz: c.len() as FileSz });
                        contents = c;
                    },
                    Err(e) => {
                        return Err(e);
                    },
                }
            },
            FileType::FileTar => {
                let subpath: &String = match &subpath_opt {
                    Some(s) => s,
                    None => {
                        return Err(Error::new(ErrorKind::NotFound, "no subpath"));
                    },
                };
                match open_tar(&file_bytes, subpath.as_str()) {
                    Ok((td, c)) => {
                        tar_opt = Some(td);
                        contents = c;
                    },
                    Err(e) => {
                        return Err(e);
                    },
                }
            },
            _ => {
                return Err(Error::new(ErrorKind::Unsupported, "unsupported file type"));
            },
        }
        if contents.len() as u64 >= 0x4000_0000_0000_0000u64 {
            return Err(Error::new(ErrorKind::InvalidData, "file is too large"));
        }
        let clen: usize = contents.len();
        let filesz_actual: FileSz = clen as FileSz;
        let blockn = BlockReader::count_blocks(filesz_actual, blocksz_);
        let mut br = BlockReader {
            path,
            subpath: subpath_opt,
            mimeguess_,
            filetype,
            gz: gz_opt,
            xz: xz_opt,
            tar: tar_opt,
            file_metadata_modified: mtime,
            contents,
            filesz_actual,
            filesz,
            blockn,
            blocksz: blocksz_,
            count_bytes_: 0,
            blocks: BTreeMap::new(),
            blocks_read: BTreeSet::new(),
            read_block_lru_cache: blocks_cache_new(READ_BLOCK_LRU_CACHE_SZ),
            read_block_lru_cache_enabled: true,
            read_block_cache_lru_hit: 0,
            read_block_cache_lru_miss: 0,
            read_block_cache_lru_put: 0,
            read_blocks_hit: 0,
            read_blocks_miss: 0,
            read_blocks_put: 0,
        };
        if matches!(filetype, FileType::FileXz) {
            br.store_all_blocks();
        }
        Ok(br)
    }
}

/// The contents of a file of type `ft` at `path` whose bytes, as stored, are
/// `bytes`: the bytes themselves; the data that gzip or xz bytes decompress to; the
/// file within tar bytes whose subpath follows the last `SUBPATH_SEP` of `path`.
/// `None` where the file cannot be opened that way, where its type is not read
/// (`filetype_supported`), and where the contents are too large to be held.
pub open spec fn file_contents(ft: FileType, path: Seq<char>, bytes: Seq<u8>) -> Option<Seq<u8>> {
    let c = if ft == FileType::File {
        Some(bytes)
    } else if ft == FileType::FileGz {
        if gz_opens(bytes) { gz_decoded(bytes) } else { None }
    } else if ft == FileType::FileXz {
        if xz_opens(bytes) { Some(xz_contents(bytes)) } else { None }
    } else if ft == FileType::FileTar {
        if path.contains(SUBPATH_SEP) { tar_file_contents(bytes, after_last(path, SUBPATH_SEP)) } else { None }
    } else {
        None
    };
    match c {
        Some(d) => if d.len() < 0x4000_0000_0000_0000 { Some(d) } else { None },
        None => None,
    }
}

/// The last block offset of a file of `filesz` bytes (0 for an empty file).
pub open spec fn spec_blockoffset_last(filesz: int, bsz: int) -> int {
    if filesz == 0 { 0 } else { spec_count_blocks(filesz, bsz) - 1 }
}

impl BlockReader {
    /// The MIME types guessed from the path.
    pub fn mimeguess(&self) -> (r: MimeGuess)
        ensures
            r.types@.map_values(|t: String| t@) == self.spec_mimeguess(),
    {
        let mut types: Vec<String> = Vec::new();
        let mut i: usize = 0;
        while i < self.mimeguess_.types.len()
            invariant
                i <= self.mimeguess_.types@.len(),
                types@.len() == i,
                forall|k: int| 0 <= k < i ==> #[trigger] types@[k]@ == self.mimeguess_.types@[k]@,
            decreases self.mimeguess_.types@.len() - i,
        {
            types.push(String::from_str(self.mimeguess_.types[i].as_str()));
            i += 1;
        }
        proof {
            assert(types@.map_values(|t: String| t@) =~= self.spec_mimeguess());
        }
        MimeGuess { types }
    }

    /// The size of the file's contents (uncompressed, or out of the archive).
    pub fn filesz(&self) -> (r: FileSz)
        requires
            self.wf(),
        ensures
            r == self.spec_filesz(),
            r == self.data().len(),
    {
        self.filesz_actual
    }

    /// What a well-formed reader's sizes are.
    pub proof fn lemma_wf(&self)
        requires
            self.wf(),
        ensures
            BLOCKSZ_MIN <= self.spec_blocksz() <= BLOCKSZ_MAX,
            self.spec_filesz() == self.data().len(),
            self.data().len() < 0x4000_0000_0000_0000,
            self.data().len() <= usize::MAX,
    {
    }

    /// The file's path.
    pub closed spec fn spec_path(&self) -> FPath {
        self.path
    }

    /// The file's path.
    pub fn path(&self) -> (r: &FPath)
        ensures
            *r == self.spec_path(),
    {
        &self.path
    }

    /// The file type.
    pub fn filetype(&self) -> (r: FileType)
        ensures
            r == self.spec_filetype(),
    {
        self.filetype
    }

    /// The block size.
    pub fn blocksz(&self) -> (r: BlockSz)
        ensures
            r == self.spec_blocksz(),
    {
        self.blocksz
    }

    /// The best available modified time, in seconds since the Unix epoch: the MTIME
    /// in a gzip header or a tar header where it is not 0, else that of the file.
    pub fn mtime(&self) -> (r: u64)
        ensures
            r == self.spec_mtime(),
    {
        match self.filetype {
            FileType::FileGz => {
                match &self.gz {
                    Some(g) => if g.mtime != 0 { g.mtime as u64 } else { self.file_metadata_modified },
                    None => self.file_metadata_modified,
                }
            },
            FileType::FileTar => {
                match &self.tar {
                    Some(t) => if t.mtime != 0 { t.mtime } else { self.file_metadata_modified },
                    None => self.file_metadata_modified,
                }
            },
            _ => self.file_metadata_modified,
        }
    }

    /// The file offset at which block `block_offset` begins.
    pub fn file_offset_at_block_offset_self(&self, block_offset: BlockOffset) -> (r: FileOffset)
        requires
            block_offset * self.spec_blocksz() <= u64::MAX,
        ensures
            r == block_offset * self.spec_blocksz(),
    {
        block_offset * self.blocksz
    }

    /// The offset of the file's last byte.
    pub fn fileoffset_last(&self) -> (r: FileOffset)
        requires
            self.wf(),
            self.spec_filesz() > 0,
        ensures
            r == self.spec_filesz() - 1,
    {
        self.filesz_actual - 1
    }

    /// The last block offset of the file (0 for an empty file).
    pub fn blockoffset_last(&self) -> (r: BlockOffset)
        requires
            self.wf(),
        ensures
            r == spec_blockoffset_last(self.spec_filesz(), self.spec_blocksz()),
    {
        if self.filesz_actual == 0 {
            return 0;
        }
        proof {
            lemma_block_in_file(0, self.blocksz as int, self.filesz_actual as int);
        }
        BlockReader::count_blocks(self.filesz_actual, self.blocksz) - 1
    }

    /// The size in bytes of block `blockoffset`.
    pub fn blocksz_at_blockoffset(&self, blockoffset: &BlockOffset) -> (r: BlockSz)
        requires
            self.wf(),
        ensures
            r == spec_blocksz_at_blockoffset(*blockoffset as int, spec_blockoffset_last(self.spec_filesz(), self.spec_blocksz()), self.spec_blocksz(), self.spec_filesz()),
    {
        let last = self.blockoffset_last();
        BlockReader::blocksz_at_blockoffset_(blockoffset, &last, &self.blocksz, &self.filesz_actual)
    }

    /// The length of the stored block at `blockoffset`, if it is stored.
    pub fn blocklen_at_blockoffset(&self, blockoffset: &BlockOffset) -> (r: Option<usize>)
        requires
            self.wf(),
        ensures
            r is Some <==> self.spec_blocks_stored().contains(*blockoffset),
            r matches Some(n) ==> n == block_bytes(self.data(), *blockoffset as int, self.spec_blocksz()).len(),
    {
        match self.blocks.get(blockoffset) {
            Some(bp) => Some(bp.len()),
            None => None,
        }
    }

    /// The last index of the stored block at `blockoffset`, if it is stored.
    pub fn last_blockindex_at_blockoffset(&self, blockoffset: &BlockOffset) -> (r: Option<BlockIndex>)
        requires
            self.wf(),
        ensures
            r is Some <==> self.spec_blocks_stored().contains(*blockoffset),
            r matches Some(n) ==> n + 1 == block_bytes(self.data(), *blockoffset as int, self.spec_blocksz()).len(),
    {
        match self.blocklen_at_blockoffset(blockoffset) {
            Some(n) => {
                proof {
                    lemma_block_in_file(*blockoffset as int, self.blocksz as int, self.filesz_actual as int);
                }
                if n == 0 { None } else { Some(n - 1) }
            },
            None => None,
        }
    }

    /// Count of the blocks read.
    pub fn count_blocks_processed(&self) -> (r: Count)
        ensures
            r == self.spec_blocks_read().len(),
    {
        self.blocks_read.len() as Count
    }

    /// Count of the bytes stored by reads.
    pub closed spec fn spec_count_bytes(&self) -> Count {
        self.count_bytes_
    }

    /// Count of the bytes stored by reads.
    pub fn count_bytes(&self) -> (r: Count)
        ensures
            r == self.spec_count_bytes(),
    {
        self.count_bytes_
    }

    /// The counter `read_block_cache_lru_hit`.
    pub closed spec fn spec_read_block_cache_lru_hit(&self) -> Count {
        self.read_block_cache_lru_hit
    }

    /// The counter `read_block_cache_lru_hit`.
    pub fn read_block_cache_lru_hit(&self) -> (r: Count)
        ensures
            r == self.spec_read_block_cache_lru_hit(),
    {
        self.read_block_cache_lru_hit
    }

    /// The counter `read_block_cache_lru_miss`.
    pub closed spec fn spec_read_block_cache_lru_miss(&self) -> Count {
        self.read_block_cache_lru_miss
    }

    /// The counter `read_block_cache_lru_miss`.
    pub fn read_block_cache_lru_miss(&self) -> (r: Count)
        ensures
            r == self.spec_read_block_cache_lru_miss(),
    {
        self.read_block_cache_lru_miss
    }

    /// The counter `read_block_cache_lru_put`.
    pub closed spec fn spec_read_block_cache_lru_put(&self) -> Count {
        self.read_block_cache_lru_put
    }

    /// The counter `read_block_cache_lru_put`.
    pub fn read_block_cache_lru_put(&self) -> (r: Count)
        ensures
            r == self.spec_read_block_cache_lru_put(),
    {
        self.read_block_cache_lru_put
    }

    /// The counter `read_blocks_hit`.
    pub closed spec fn spec_read_blocks_hit(&self) -> Count {
        self.read_blocks_hit
    }

    /// The counter `read_blocks_hit`.
    pub fn read_blocks_hit(&self) -> (r: Count)
        ensures
            r == self.spec_read_blocks_hit(),
    {
        self.read_blocks_hit
    }

    /// The counter `read_blocks_miss`.
    pub closed spec fn spec_read_blocks_miss(&self) -> Count {
        self.read_blocks_miss
    }

    /// The counter `read_blocks_miss`.
    pub fn read_blocks_miss(&self) -> (r: Count)
        ensures
            r == self.spec_read_blocks_miss(),
    {
        self.read_blocks_miss
    }

    /// The counter `read_blocks_put`.
    pub closed spec fn spec_read_blocks_put(&self) -> Count {
        self.read_blocks_put
    }

    /// The counter `read_blocks_put`.
    pub fn read_blocks_put(&self) -> (r: Count)
        ensures
            r == self.spec_read_blocks_put(),
    {
        self.read_blocks_put
    }

    /// The size of the file as stored (compressed, or the whole archive).
    pub closed spec fn spec_filesz_stored(&self) -> FileSz {
        self.filesz
    }

    /// The size of the file as stored (compressed, or the whole archive); for a
    /// plain file, the size of its contents.
    pub fn filesz_stored(&self) -> (r: FileSz)
        ensures
            r == self.spec_filesz_stored(),
            self.wf() && self.spec_filetype() == FileType::File ==> r == self.data().len(),
    {
        self.filesz
    }

    /// The cache of `read_block` is enabled.
    pub closed spec fn spec_lru_cache_enabled(&self) -> bool {
        self.read_block_lru_cache_enabled
    }

    /// The block offsets of the blocks in the cache of `read_block`.
    pub closed spec fn spec_blocks_cached(&self) -> Set<u64> {
        blocks_cache_contents(self.read_block_lru_cache).dom()
    }

    /// Count of the blocks of the file's contents.
    pub fn blockn(&self) -> (r: u64)
        requires
            self.wf(),
        ensures
            r == spec_count_blocks(self.data().len() as int, self.spec_blocksz()),
    {
        self.blockn
    }

    /// Enables the cache of `read_block`; where it was disabled, it starts empty.
    pub fn LRU_cache_enable(&mut self)
        requires
            old(self).wf(),
        ensures
            final(self).wf(),
            final(self).data() == old(self).data(),
            final(self).spec_blocksz() == old(self).spec_blocksz(),
            final(self).spec_filetype() == old(self).spec_filetype(),
            final(self).spec_lru_cache_enabled(),
            old(self).spec_lru_cache_enabled() ==> *final(self) == *old(self),
            !old(self).spec_lru_cache_enabled() ==> final(self).spec_blocks_cached() == Set::<u64>::empty(),
            final(self).spec_blocks_stored() == old(self).spec_blocks_stored(),
            final(self).spec_blocks_read() == old(self).spec_blocks_read(),
            final(self).spec_count_bytes() == old(self).spec_count_bytes(),
    {
        if self.read_block_lru_cache_enabled {
            return;
        }
        self.read_block_lru_cache_enabled = true;
        blocks_cache_clear(&mut self.read_block_lru_cache);
        blocks_cache_resize(&mut self.read_block_lru_cache, READ_BLOCK_LRU_CACHE_SZ);
        proof {
            assert(self.spec_blocks_cached() =~= Set::<u64>::empty());
        }
    }

    /// Disables the cache of `read_block`, emptying it.
    pub fn LRU_cache_disable(&mut self)
        requires
            old(self).wf(),
        ensures
            final(self).wf(),
            final(self).data() == old(self).data(),
            final(self).spec_blocksz() == old(self).spec_blocksz(),
            final(self).spec_filetype() == old(self).spec_filetype(),
            !final(self).spec_lru_cache_enabled(),
            final(self).spec_blocks_cached() == Set::<u64>::empty(),
            final(self).spec_blocks_stored() == old(self).spec_blocks_stored(),
            final(self).spec_blocks_read() == old(self).spec_blocks_read(),
            final(self).spec_count_bytes() == old(self).spec_count_bytes(),
    {
        self.read_block_lru_cache_enabled = false;
        blocks_cache_clear(&mut self.read_block_lru_cache);
        blocks_cache_resize(&mut self.read_block_lru_cache, 1);
        proof {
            assert(self.spec_blocks_cached() =~= Set::<u64>::empty());
        }
    }

    /// Drops the stored block at `blockoffset`, and adds `blockoffset` to
    /// `bo_dropped` where a block was dropped. Nothing is done for a block offset
    /// that is already in `bo_dropped`.
    pub fn drop_block(&mut self, blockoffset: BlockOffset, bo_dropped: &mut std::collections::HashSet<BlockOffset>)
        requires
            old(self).wf(),
        ensures
            final(self).wf(),
            final(self).data() == old(self).data(),
            final(self).spec_blocksz() == old(self).spec_blocksz(),
            final(self).spec_filetype() == old(self).spec_filetype(),
            old(bo_dropped)@.subset_of(final(bo_dropped)@),
            final(bo_dropped)@.subset_of(old(bo_dropped)@.insert(blockoffset)),
            old(bo_dropped)@.contains(blockoffset) ==> *final(self) == *old(self) && final(bo_dropped)@ == old(bo_dropped)@,
            !old(bo_dropped)@.contains(blockoffset) ==> {
                &&& final(self).spec_blocks_stored() == old(self).spec_blocks_stored().remove(blockoffset)
                &&& final(self).spec_blocks_cached() == old(self).spec_blocks_cached().remove(blockoffset)
                &&& final(bo_dropped)@ == (if old(self).spec_blocks_stored().contains(blockoffset)
                    || old(self).spec_blocks_cached().contains(blockoffset) {
                    old(bo_dropped)@.insert(blockoffset)
                } else {
                    old(bo_dropped)@
                })
            },
            final(self).spec_blocks_read() == old(self).spec_blocks_read(),
            final(self).spec_count_bytes() == old(self).spec_count_bytes(),
            final(self).spec_lru_cache_enabled() == old(self).spec_lru_cache_enabled(),
    {
        broadcast use vstd::std_specs::hash::group_hash_axioms;
        if bo_dropped.contains(&blockoffset) {
            return;
        }
        match self.blocks.remove(&blockoffset) {
            Some(_) => {
                bo_dropped.insert(blockoffset);
            },
            None => {},
        }
        if blocks_cache_pop(&mut self.read_block_lru_cache, blockoffset) {
            bo_dropped.insert(blockoffset);
        }
        proof {
            assert(self.spec_blocks_stored() =~= old(self).spec_blocks_stored().remove(blockoffset));
            assert(self.spec_blocks_cached() =~= old(self).spec_blocks_cached().remove(blockoffset));
            assert(bo_dropped@ =~= (if old(self).spec_blocks_stored().contains(blockoffset)
                || old(self).spec_blocks_cached().contains(blockoffset) {
                old(bo_dropped)@.insert(blockoffset)
            } else {
                old(bo_dropped)@
            }));
        }
    }

    /// Stores a block in the cache, where the cache is enabled.
    fn store_block_in_LRU_cache(&mut self, blockoffset: BlockOffset, blockp: &BlockP)
        requires
            old(self).wf(),
            old(self).blocks_read@.contains(blockoffset),
            blockoffset * old(self).blocksz < old(self).filesz_actual,
            blockp@ == block_bytes(old(self).contents@, blockoffset as int, old(self).blocksz as int),
        ensures
            final(self).wf(),
            final(self).contents == old(self).contents,
            final(self).blocksz == old(self).blocksz,
            final(self).filetype == old(self).filetype,
            final(self).blocks == old(self).blocks,
            final(self).blocks_read == old(self).blocks_read,
            final(self).count_bytes_ == old(self).count_bytes_,
            !old(self).read_block_lru_cache_enabled ==> *final(self) == *old(self),
            old(self).read_block_lru_cache_enabled ==> {
                &&& put_result(blocks_cache_contents(old(self).read_block_lru_cache),
                    blocks_cache_contents(final(self).read_block_lru_cache), blockoffset, blockp@)
                &&& final(self).read_block_cache_lru_put == sat_add(old(self).read_block_cache_lru_put, 1)
            },
    {
        if !self.read_block_lru_cache_enabled {
            return;
        }
        blocks_cache_put(&mut self.read_block_lru_cache, blockoffset, arc_clone(blockp));
        self.read_block_cache_lru_put = self.read_block_cache_lru_put.saturating_add(1);
    }

    /// Stores every block of the contents, counting their bytes, as opening an xz
    /// file does.
    fn store_all_blocks(&mut self)
        requires
            old(self).wf(),
            old(self).count_bytes_ == 0,
            old(self).blocks_read@ == Set::<u64>::empty(),
        ensures
            final(self).wf(),
            final(self).contents == old(self).contents,
            final(self).blocksz == old(self).blocksz,
            final(self).filetype == old(self).filetype,
            final(self).path == old(self).path,
            final(self).subpath == old(self).subpath,
            final(self).mimeguess_ == old(self).mimeguess_,
            final(self).gz == old(self).gz,
            final(self).xz == old(self).xz,
            final(self).tar == old(self).tar,
            final(self).file_metadata_modified == old(self).file_metadata_modified,
            final(self).filesz == old(self).filesz,
            final(self).count_bytes_ == old(self).contents@.len(),
            final(self).blocks_read@ == Set::new(|bo: u64| bo < spec_count_blocks(old(self).contents@.len() as int, old(self).blocksz as int)),
    {
        let bsz = self.blocksz;
        let filesz = self.filesz_actual;
        let ghost n = spec_count_blocks(filesz as int, bsz as int);
        let mut bo: u64 = 0;
        proof {
            lemma_div_mod(filesz as int, bsz as int);
            assert(self.blocks_read@ =~= Set::new(|b: u64| b < 0));
        }
        while bo * bsz < filesz
            invariant
                self.wf(),
                self.blocksz == bsz,
                self.filesz_actual == filesz,
                self.contents == old(self).contents,
                self.filetype == old(self).filetype,
                self.path == old(self).path,
                self.subpath == old(self).subpath,
                self.mimeguess_ == old(self).mimeguess_,
                self.gz == old(self).gz,
                self.xz == old(self).xz,
                self.tar == old(self).tar,
                self.file_metadata_modified == old(self).file_metadata_modified,
                self.filesz == old(self).filesz,
                filesz < 0x4000_0000_0000_0000,
                BLOCKSZ_MIN <= bsz <= BLOCKSZ_MAX,
                n == spec_count_blocks(filesz as int, bsz as int),
                bo <= n,
                bo * bsz <= filesz + bsz,
                self.count_bytes_ == (if bo * bsz < filesz { bo * bsz } else { filesz as int }),
                self.blocks_read@ == Set::new(|b: u64| b < bo),
            decreases n - bo,
        {
            proof {
                lemma_block_in_file(bo as int, bsz as int, filesz as int);
                lemma_block_in_file((bo + 1) as int, bsz as int, filesz as int);
            }
            let a: usize = (bo * bsz) as usize;
            let end: u64 = if (bo + 1) * bsz < filesz { (bo + 1) * bsz } else { filesz };
            let b: usize = end as usize;
            let mut block: Block = Vec::with_capacity(b - a);
            block.extend_from_slice(&self.contents.as_slice()[a..b]);
            proof {
                assert(block@ =~= block_bytes(self.contents@, bo as int, bsz as int));
            }
            let blockp: BlockP = Arc::new(block);
            let ghost br0 = self.blocks_read@;
            self.store_block_in_storage(bo, &blockp);
            proof {
                assert(self.blocks_read@ =~= Set::new(|b: u64| b < bo + 1));
            }
            bo = bo + 1;
        }
        proof {
            lemma_block_in_file(bo as int, bsz as int, filesz as int);
            assert(bo == n);
            assert(self.blocks_read@ =~= Set::new(|b: u64| b < n));
        }
    }

    /// Stores a block in `self.blocks`.
    fn store_block_in_storage(&mut self, blockoffset: BlockOffset, blockp: &BlockP)
        requires
            old(self).wf(),
            blockoffset * old(self).blocksz < old(self).filesz_actual,
            blockp@ == block_bytes(old(self).contents@, blockoffset as int, old(self).blocksz as int),
        ensures
            final(self).wf(),
            final(self).contents == old(self).contents,
            final(self).blocksz == old(self).blocksz,
            final(self).filetype == old(self).filetype,
            final(self).blocks@ == old(self).blocks@.insert(blockoffset, *blockp),
            final(self).blocks_read@ == old(self).blocks_read@.insert(blockoffset),
            final(self).count_bytes_ == sat_add(old(self).count_bytes_, blockp@.len() as int),
            final(self).read_blocks_put == sat_add(old(self).read_blocks_put, 1),
            final(self).read_block_lru_cache == old(self).read_block_lru_cache,
            final(self).read_block_lru_cache_enabled == old(self).read_block_lru_cache_enabled,
            final(self).path == old(self).path,
            final(self).subpath == old(self).subpath,
            final(self).mimeguess_ == old(self).mimeguess_,
            final(self).gz == old(self).gz,
            final(self).xz == old(self).xz,
            final(self).tar == old(self).tar,
            final(self).file_metadata_modified == old(self).file_metadata_modified,
            final(self).filesz == old(self).filesz,
            final(self).filesz_actual == old(self).filesz_actual,
    {
        self.blocks.insert(blockoffset, arc_clone(blockp));
        self.read_blocks_put = self.read_blocks_put.saturating_add(1);
        self.count_bytes_ = self.count_bytes_.saturating_add(blockp.len() as Count);
        self.blocks_read.insert(blockoffset);
    }

    /// The block offsets of the blocks stored.
    pub closed spec fn spec_blocks_stored(&self) -> Set<u64> {
        self.blocks@.dom()
    }

    /// The byte at `fo`, where its block is stored; nothing is read.
    pub fn _get_byte(&self, fo: FileOffset) -> (r: Option<u8>)
        requires
            self.wf(),
            (fo as int) < self.data().len() || !self.spec_blocks_stored().contains((fo as int / self.spec_blocksz()) as u64),
        ensures
            r == (if self.spec_blocks_stored().contains((fo as int / self.spec_blocksz()) as u64) {
                Some(self.data()[fo as int])
            } else {
                None
            }),
    {
        let bo = BlockReader::block_offset_at_file_offset(fo, self.blocksz);
        let bi = BlockReader::block_index_at_file_offset(fo, self.blocksz);
        match self.blocks.get(&bo) {
            Some(b) => {
                proof {
                    crate::laws::law_byte_in_its_block(self.contents@, self.blocksz as int, fo as int);
                }
                Some(b[bi])
            },
            None => None,
        }
    }

    /// The bytes `[fo_a, fo_b)`, from the blocks stored (nothing is read): up to the
    /// first byte whose block is not stored.
    pub fn _vec_from(&self, fo_a: FileOffset, fo_b: FileOffset) -> (r: Bytes)
        requires
            self.wf(),
            fo_a <= fo_b <= self.data().len(),
            fo_a < fo_b && fo_a as int / self.spec_blocksz() == fo_b as int / self.spec_blocksz()
                ==> self.spec_blocks_stored().contains((fo_a as int / self.spec_blocksz()) as u64),
        ensures
            fo_a + r@.len() <= fo_b,
            r@ == self.data().subrange(fo_a as int, fo_a + r@.len()),
            fo_a + r@.len() < fo_b ==> !self.spec_blocks_stored().contains(((fo_a + r@.len()) / self.spec_blocksz()) as u64),
            fo_a as int / self.spec_blocksz() == fo_b as int / self.spec_blocksz() ==> fo_a + r@.len() == fo_b,
    {
        if fo_a == fo_b {
            let v: Bytes = Vec::new();
            proof {
                assert(v@ =~= self.data().subrange(fo_a as int, fo_a as int));
            }
            return v;
        }
        let bsz = self.blocksz;
        let bo_a = BlockReader::block_offset_at_file_offset(fo_a, bsz);
        let bo_b = BlockReader::block_offset_at_file_offset(fo_b, bsz);
        let bo_a_i = BlockReader::block_index_at_file_offset(fo_a, bsz);
        let bo_b_i = BlockReader::block_index_at_file_offset(fo_b, bsz);
        if bo_a == bo_b {
            let b = match self.blocks.get(&bo_a) {
                Some(b) => b,
                None => {
                    return Vec::new();
                },
            };
            proof {
                lemma_div_mod(fo_a as int, bsz as int);
                lemma_div_mod(fo_b as int, bsz as int);
                assert((bo_a + 1) * bsz == bo_a * bsz + bsz) by (nonlinear_arith);
            }
            let mut v: Bytes = Vec::new();
            v.extend_from_slice(vstd::slice::slice_subrange(b.as_slice(), bo_a_i, bo_b_i));
            proof {
                assert(v@ =~= self.data().subrange(fo_a as int, fo_b as int));
            }
            return v;
        }
        let mut fo_at = fo_a;
        let mut vec_: Bytes = Vec::new();
        while fo_at < fo_b
            invariant_except_break
                self.wf(),
                fo_a <= fo_at <= fo_b,
                fo_b <= self.data().len(),
                vec_@ == self.data().subrange(fo_a as int, fo_at as int),
            ensures
                fo_a <= fo_at <= fo_b,
                vec_@ == self.data().subrange(fo_a as int, fo_at as int),
                fo_at < fo_b ==> !self.spec_blocks_stored().contains((fo_at as int / self.spec_blocksz()) as u64),
            decreases fo_b - fo_at,
        {
            let b = match self._get_byte(fo_at) {
                Some(val) => val,
                None => {
                    break;
                },
            };
            vec_.push(b);
            fo_at += 1;
            proof {
                assert(vec_@ =~= self.data().subrange(fo_a as int, fo_at as int));
            }
        }
        vec_
    }

    /// Reads block `blockoffset`: `Done` past the end of the file, else the block's
    /// bytes, from the cache, from storage, or from the file's contents.
    pub fn read_block(&mut self, blockoffset: BlockOffset) -> (r: ResultS3_ReadBlock)
        requires
            old(self).wf(),
        ensures
            final(self).wf(),
            final(self).data() == old(self).data(),
            final(self).spec_blocksz() == old(self).spec_blocksz(),
            final(self).spec_filetype() == old(self).spec_filetype(),
            r is Done <==> blockoffset * old(self).spec_blocksz() >= old(self).spec_filesz(),
            r matches ResultS3::Found(bp) ==> bp@ == block_bytes(old(self).data(), blockoffset as int, old(self).spec_blocksz()),
            !(r is Error),
            r is Done ==> final(self).spec_count_bytes() == old(self).spec_count_bytes()
                && final(self).spec_blocks_read() == old(self).spec_blocks_read(),
            r is Found ==> final(self).spec_blocks_read() == old(self).spec_blocks_read().insert(blockoffset),
    {
        let bsz = self.blocksz;
        let filesz = self.filesz_actual;
        proof {
            lemma_block_in_file(blockoffset as int, bsz as int, filesz as int);
        }
        if filesz == 0 || blockoffset > self.blockoffset_last() {
            return ResultS3::Done;
        }
        assert(blockoffset * bsz < filesz);
        assert((blockoffset + 1) * bsz == blockoffset * bsz + bsz);
        assert(self.contents@.len() == filesz);
        if self.read_block_lru_cache_enabled {
            match blocks_cache_get(&mut self.read_block_lru_cache, blockoffset) {
                Some(bp) => {
                    self.read_block_cache_lru_hit = self.read_block_cache_lru_hit.saturating_add(1);
                    return ResultS3::Found(bp);
                },
                None => {
                    self.read_block_cache_lru_miss = self.read_block_cache_lru_miss.saturating_add(1);
                },
            }
        }
        if self.blocks_read.contains(&blockoffset) {
            match self.blocks.get(&blockoffset) {
                Some(bp) => {
                    let blockp = arc_clone(bp);
                    self.read_blocks_hit = self.read_blocks_hit.saturating_add(1);
                    self.store_block_in_LRU_cache(blockoffset, &blockp);
                    return ResultS3::Found(blockp);
                },
                None => {},
            }
        }
        self.read_blocks_miss = self.read_blocks_miss.saturating_add(1);
        let clen: usize = self.contents.len();
        assert(clen == filesz);
        let a: usize = (blockoffset * bsz) as usize;
        let b: usize = if (blockoffset + 1) * bsz < filesz { ((blockoffset + 1) * bsz) as usize } else { filesz as usize };
        let mut block: Block = Vec::with_capacity(b - a);
        block.extend_from_slice(&self.contents.as_slice()[a..b]);
        proof {
            assert(block@ =~= block_bytes(self.contents@, blockoffset as int, bsz as int));
        }
        let blockp: BlockP = Arc::new(block);
        self.store_block_in_storage(blockoffset, &blockp);
        self.store_block_in_LRU_cache(blockoffset, &blockp);
        ResultS3::Found(blockp)
    }
}

/// The part after a separator that is followed by none is the part after the last one.
proof fn lemma_after_last_split(p: Seq<char>, a: Seq<char>, b: Seq<char>, c: char)
    requires
        p == a + seq![c] + b,
        !b.contains(c),
    ensures
        after_last(p, c) == b,
{
    lemma_last_index_of(p, c);
    let i = last_index_of(p, c);
    let k = a.len() as int;
    assert(p[k] == c);
    if i > k {
        assert(p[i] == b[i - k - 1]);
        assert(b.contains(c));
    }
    assert(i == k);
    assert(p.subrange(k + 1, p.len() as int) =~= b);
}

/// Splits `path` at the last `SUBPATH_SEP` into the path before and the subpath after it.
pub fn split_subpath(path: &str) -> (r: Option<(String, String)>)
    ensures
        r is Some <==> path@.contains(SUBPATH_SEP),
        r matches Some((a, b)) ==> {
            &&& path@ == a@ + seq![SUBPATH_SEP] + b@
            &&& !b@.contains(SUBPATH_SEP)
        },
{
    let n = path.unicode_len();
    let mut i: usize = n;
    while i > 0
        invariant
            n == path@.len(),
            i <= n,
            forall|k: int| i <= k < n ==> path@[k] != SUBPATH_SEP,
        decreases i,
    {
        if path.get_char(i - 1) == SUBPATH_SEP {
            let a = path.substring_char(0, i - 1);
            let b = path.substring_char(i, n);
            let sa = String::from_str(a);
            let sb = String::from_str(b);
            proof {
                assert(path@ =~= sa@ + seq![SUBPATH_SEP] + sb@);
                assert(!sb@.contains(SUBPATH_SEP)) by {
                    if sb@.contains(SUBPATH_SEP) {
                        let k = choose|k: int| 0 <= k < sb@.len() && sb@[k] == SUBPATH_SEP;
                        assert(path@[i + k] == SUBPATH_SEP);
                    }
                }
            }
            return Some((sa, sb));
        }
        i -= 1;
    }
    proof {
        assert(!path@.contains(SUBPATH_SEP)) by {
            if path@.contains(SUBPATH_SEP) {
                let k = choose|k: int| 0 <= k < path@.len() && path@[k] == SUBPATH_SEP;
                assert(path@[k] != SUBPATH_SEP);
            }
        }
    }
    None
}

/// Opens gzip bytes: checks the sizes, reads the trailer and the header, and
/// decompresses.
fn open_gz(bytes: &Vec<u8>) -> (r: Result<(GzData, Vec<u8>), Error>)
    ensures
        r is Ok <==> gz_opens(bytes@),
        r matches Ok((g, c)) ==> gz_decoded(bytes@) == Some(c@)
            && g.filesz == spec_dword(bytes@.subrange(bytes@.len() - 4, bytes@.len() as int)),
        r matches Ok((g, _)) ==> g.mtime == gz_header_of(bytes@).1 && g.filename@ == gz_filename_of(gz_header_of(bytes@).0),
        r matches Err(e) ==> e.kind == ErrorKind::InvalidData,
{
    let n = bytes.len();
    if n < 8 {
        return Err(Error::new(ErrorKind::InvalidData, "gzip file size is too small"));
    }
    if n as u64 > GZ_MAX_SZ {
        return Err(Error::new(ErrorKind::InvalidData, "gzip file is larger than the largest that is read"));
    }
    let crc_buf: [u8; 4] = [bytes[n - 8], bytes[n - 7], bytes[n - 6], bytes[n - 5]];
    let size_buf: [u8; 4] = [bytes[n - 4], bytes[n - 3], bytes[n - 2], bytes[n - 1]];
    let crc32 = dword_to_u32(&crc_buf);
    let size = dword_to_u32(&size_buf);
    if size == 0 {
        return Err(Error::new(ErrorKind::InvalidData, "uncompressed file size value 0, nothing to read"));
    }
    let (fname, mtime) = gz_header(bytes.as_slice());
    let filename = match std_string_from_utf8(fname) {
        Some(s) => s,
        None => String::new(),
    };
    let contents = match gz_decode(bytes.as_slice()) {
        Some(c) => c,
        None => {
            return Err(Error::new(ErrorKind::InvalidData, "gzip data could not be decompressed"));
        },
    };
    Ok((GzData { filesz: size as FileSz, filename, mtime, crc32 }, contents))
}

/// The magic bytes that begin an xz stream.
pub open spec fn xz_magic() -> Seq<u8> {
    seq![0xFDu8, 0x37u8, 0x7Au8, 0x58u8, 0x5Au8, 0x00u8]
}

/// Xz bytes open: at least 14 bytes beginning with the stream magic, which
/// `lzma_rs` decompresses or stops on at an end of input.
pub open spec fn xz_opens(bytes: Seq<u8>) -> bool {
    &&& bytes.len() >= 14
    &&& bytes.subrange(0, 6) == xz_magic()
    &&& xz_decoded(bytes).0 != 2
}

/// The contents of opened xz bytes: what was decompressed, or nothing where the
/// input ended early.
pub open spec fn xz_contents(bytes: Seq<u8>) -> Seq<u8> {
    if xz_decoded(bytes).0 == 0 { xz_decoded(bytes).1 } else { Seq::<u8>::empty() }
}

/// Opens xz bytes: checks the stream header, then decompresses. An end of input met
/// while decompressing leaves the file empty.
fn open_xz(bytes: &Vec<u8>) -> (r: Result<Vec<u8>, Error>)
    ensures
        r is Ok <==> xz_opens(bytes@),
        r matches Ok(c) ==> c@ == xz_contents(bytes@),
{
    let n = bytes.len();
    if n < 6 {
        return Err(Error::new(ErrorKind::UnexpectedEof, "failed to fill whole buffer"));
    }
    if !(bytes[0] == 0xFD && bytes[1] == 0x37 && bytes[2] == 0x7A && bytes[3] == 0x58 && bytes[4] == 0x5A && bytes[5] == 0x00) {
        proof {
            assert(bytes@.subrange(0, 6) != xz_magic()) by {
                if bytes@.subrange(0, 6) == xz_magic() {
                    assert(bytes@.subrange(0, 6)[0] == bytes@[0]);
                    assert(bytes@.subrange(0, 6)[1] == bytes@[1]);
                    assert(bytes@.subrange(0, 6)[2] == bytes@[2]);
                    assert(bytes@.subrange(0, 6)[3] == bytes@[3]);
                    assert(bytes@.subrange(0, 6)[4] == bytes@[4]);
                    assert(bytes@.subrange(0, 6)[5] == bytes@[5]);
                }
            }
        }
        return Err(Error::new(ErrorKind::InvalidData, "failed to find XZ stream header magic bytes"));
    }
    proof {
        assert(bytes@.subrange(0, 6) =~= xz_magic());
    }
    if n < 14 {
        return Err(Error::new(ErrorKind::UnexpectedEof, "failed to fill whole buffer"));
    }
    let (status, out) = xz_decompress(bytes.as_slice());
    if status == 0 {
        Ok(out)
    } else if status == 1 {
        Ok(Vec::new())
    } else {
        Err(Error::new(ErrorKind::Other, "xz data could not be decompressed"))
    }
}

/// Opens a file within tar bytes: finds the entry whose path is `subpath`, and reads
/// its data. Where no entry has that path, the file is empty.
fn open_tar(bytes: &Vec<u8>, subpath: &str) -> (r: Result<(TarData, Vec<u8>), Error>)
    ensures
        r is Ok <==> tar_file_contents(bytes@, subpath@) is Some,
        r matches Ok((t, c)) ==> t.filesz == c@.len() && tar_file_contents(bytes@, subpath@) == Some(c@),
{
    let entries = match tar_entries(bytes.as_slice()) {
        Some(e) => e,
        None => {
            return Err(Error::new(ErrorKind::InvalidData, "failed to read the tar entries"));
        },
    };
    let ghost es = tar_entries_of(bytes@)->0;
    let mut i: usize = 0;
    let n = entries.len();
    let mut entry_index: usize = 0;
    while i < n
        invariant
            n == entries@.len(),
            i <= n,
            tar_entries_of(bytes@) == Some(es),
            es == entries@.map_values(|e: Option<(String, Option<u64>, u32, u64, bool)>| match e { Some(t) => Some((t.0@, t.1, t.2, t.3, t.4)), None => None }),
            forall|j: int| 0 <= j < i ==> !#[trigger] tar_entry_is(es, subpath@, j),
        decreases n - i,
    {
        entry_index = i;
        proof {
            assert(es[i as int] == (match entries@[i as int] { Some(t) => Some((t.0@, t.1, t.2, t.3, t.4)), None => None }));
        }
        if let Some((p, size_opt, checksum, mtime, _is_file)) = &entries[i] {
            if str_eq(p.as_str(), subpath) {
                proof {
                    assert(tar_first_entry(es, subpath@, i as int));
                    let k = choose|k: int| tar_first_entry(es, subpath@, k);
                    lemma_tar_first_unique(es, subpath@, i as int, k);
                }
                let size: &u64 = match size_opt {
                    Some(sz) => sz,
                    None => {
                        return Err(Error::new(ErrorKind::InvalidData, "failed to read the tar entry's size"));
                    },
                };
                let data = match tar_entry_data(bytes.as_slice(), i as u64) {
                    Some(d) => d,
                    None => {
                        return Err(Error::new(ErrorKind::InvalidData, "failed to read the tar entry"));
                    },
                };
                if data.len() as u64 != *size {
                    return Err(Error::new(ErrorKind::InvalidData, "tar entry size differs from its data"));
                }
                return Ok((TarData { filesz: *size, entry_index, checksum: *checksum, mtime: *mtime }, data));
            }
        }
        i += 1;
    }
    proof {
        if exists|k: int| tar_first_entry(es, subpath@, k) {
            let k = choose|k: int| tar_first_entry(es, subpath@, k);
            assert(!tar_entry_is(es, subpath@, k));
        }
    }
    Ok((TarData { filesz: 0, entry_index, checksum: 0, mtime: 0 }, Vec::new()))
}

/// Are two strings equal?
pub fn str_eq(a: &str, b: &str) -> (r: bool)
    ensures
        r == (a@ == b@),
{
    let n = a.unicode_len();
    if n != b.unicode_len() {
        return false;
    }
    let mut i: usize = 0;
    while i < n
        invariant
            n == a@.len(),
            n == b@.len(),
            i <= n,
            forall|k: int| 0 <= k < i ==> a@[k] == b@[k],
        decreases n - i,
    {
        if a.get_char(i) != b.get_char(i) {
            return false;
        }
        i += 1;
    }
    proof {
        assert(a@ =~= b@);
    }
    true
}

/// Calls `String::from_utf8`: a `String` exactly when the bytes are UTF-8, holding
/// the chars that they encode.
#[verifier::external_body]
pub(crate) fn std_string_from_utf8(b: Vec<u8>) -> (r: Option<String>)
    ensures
        r is Some <==> vstd::utf8::valid_utf8(b@),
        r matches Some(s) ==> s@ == vstd::utf8::decode_utf8(b@),
{
    String::from_utf8(b).ok()
}

} // verus!
