//! The records of a streamed Zip archive (stored, not compressed): local
//! file headers, data descriptors, the central directory and the end of
//! central directory records, Zip64 variants included.
//!
//! The archive is written front to back without seeking: each file's sizes
//! and checksum follow its data in a data descriptor.
use vstd::prelude::*;

verus! {

/// The bytes of `x`, least significant first.
pub open spec fn le16(x: u16) -> Seq<u8> {
    seq![x as u8, (x >> 8u16) as u8]
}

/// The bytes of `x`, least significant first.
pub open spec fn le32(x: u32) -> Seq<u8> {
    seq![x as u8, (x >> 8u32) as u8, (x >> 16u32) as u8, (x >> 24u32) as u8]
}

/// The bytes of `x`, least significant first.
pub open spec fn le64(x: u64) -> Seq<u8> {
    seq![
        x as u8,
        (x >> 8u64) as u8,
        (x >> 16u64) as u8,
        (x >> 24u64) as u8,
        (x >> 32u64) as u8,
        (x >> 40u64) as u8,
        (x >> 48u64) as u8,
        (x >> 56u64) as u8,
    ]
}

/// The four bytes `P`, `K`, `a`, `b` that start a record.
pub open spec fn signature(a: u8, b: u8) -> Seq<u8> {
    seq![0x50u8, 0x4bu8, a, b]
}

fn push_le16(v: &mut Vec<u8>, x: u16)
    ensures
        final(v)@ == old(v)@ + le16(x),
{
    v.push(x as u8);
    v.push((x >> 8u16) as u8);
    assert(final(v)@ =~= old(v)@ + le16(x));
}

fn push_le32(v: &mut Vec<u8>, x: u32)
    ensures
        final(v)@ == old(v)@ + le32(x),
{
    v.push(x as u8);
    v.push((x >> 8u32) as u8);
    v.push((x >> 16u32) as u8);
    v.push((x >> 24u32) as u8);
    assert(final(v)@ =~= old(v)@ + le32(x));
}

fn push_le64(v: &mut Vec<u8>, x: u64)
    ensures
        final(v)@ == old(v)@ + le64(x),
{
    v.push(x as u8);
    v.push((x >> 8u64) as u8);
    v.push((x >> 16u64) as u8);
    v.push((x >> 24u64) as u8);
    v.push((x >> 32u64) as u8);
    v.push((x >> 40u64) as u8);
    v.push((x >> 48u64) as u8);
    v.push((x >> 56u64) as u8);
    assert(final(v)@ =~= old(v)@ + le64(x));
}

fn push_signature(v: &mut Vec<u8>, a: u8, b: u8)
    ensures
        final(v)@ == old(v)@ + signature(a, b),
{
    v.push(0x50);
    v.push(0x4b);
    v.push(a);
    v.push(b);
    assert(final(v)@ =~= old(v)@ + signature(a, b));
}

fn push_bytes(v: &mut Vec<u8>, data: &[u8])
    ensures
        final(v)@ == old(v)@ + data@,
{
    crate::text::append_bytes(v, data);
}

// Checksums

/// `k` steps of the reflected CRC-32 register with the polynomial
/// `0xEDB88320`.
pub open spec fn crc32_shift(c: u32, k: nat) -> u32
    decreases k,
{
    if k == 0 {
        c
    } else {
        crc32_shift(
            if c & 1 == 1 {
                (c >> 1u32) ^ 0xEDB8_8320u32
            } else {
                c >> 1u32
            },
            (k - 1) as nat,
        )
    }
}

/// The CRC-32 register after `data`, started at all ones.
pub open spec fn crc32_register(data: Seq<u8>) -> u32
    decreases data.len(),
{
    if data.len() == 0 {
        0xffff_ffffu32
    } else {
        crc32_shift(crc32_register(data.drop_last()) ^ (data.last() as u32), 8)
    }
}

/// The CRC-32 (ISO-HDLC, the checksum of Zip) of `data`: the register
/// after the data, inverted.
pub open spec fn crc32_iso_hdlc(data: Seq<u8>) -> u32 {
    crc32_register(data) ^ 0xffff_ffffu32
}

/// A running CRC-32 of the data of one Zip entry. The `crc` digest it
/// holds is opaque here: its type is bounded by traits of `crc`.
#[verifier::external_body]
pub struct ZipDigest {
    digest: crc::Digest<'static, u32, crc::NoTable>,
}

/// The bytes fed to a digest since it was made.
pub uninterp spec fn zip_digest_data(d: ZipDigest) -> Seq<u8>;

impl ZipDigest {
    /// The bytes fed to this digest so far.
    pub open spec fn data(&self) -> Seq<u8> {
        zip_digest_data(*self)
    }
}

/// `Crc::<u32, NoTable>::new(&CRC_32_ISO_HDLC).digest()`. The `Crc` (one
/// pointer, as it has no table) is leaked so that the digest may borrow it
/// for as long as it lives. Claims that the digest has been fed nothing.
#[verifier::external_body]
fn digest_new() -> (d: ZipDigest)
    ensures
        zip_digest_data(d) == Seq::<u8>::empty(),
{
    let crc: &'static crc::Crc<u32, crc::NoTable> = Box::leak(Box::new(crc::Crc::<u32, crc::NoTable>::new(&crc::CRC_32_ISO_HDLC)));
    ZipDigest { digest: crc.digest() }
}

/// `Digest::update`. Claims that `bytes` are fed after what came before.
#[verifier::external_body]
fn digest_update(d: &mut ZipDigest, bytes: &[u8])
    ensures
        zip_digest_data(*final(d)) == zip_digest_data(*old(d)) + bytes@,
{
    d.digest.update(bytes)
}

/// `Digest::finalize`. Claims that the result is the CRC-32 (ISO-HDLC) of
/// the bytes fed to the digest, as `crc32_iso_hdlc` spells it out.
#[verifier::external_body]
fn digest_finalize(d: ZipDigest) -> (c: u32)
    ensures
        c == crc32_iso_hdlc(zip_digest_data(d)),
{
    d.digest.finalize()
}

/// A file's last modification time, as read from a calendar date and time.
#[derive(Clone, Copy, Debug)]
pub struct ZipTime {
    pub year: i32,
    pub month: u32,
    pub day: u32,
    pub hour: u32,
    pub minute: u32,
    pub second: u32,
}

/// The MS-DOS time field: seconds halved, minutes, hours.
pub open spec fn dos_time(t: ZipTime) -> u16 {
    ((t.second as u16) >> 1u16) | ((t.minute as u16) << 5u16) | ((t.hour as u16) << 11u16)
}

/// The MS-DOS date field: day, month, years since 1980.
pub open spec fn dos_date(t: ZipTime) -> u16 {
    (t.day as u16) | ((t.month as u16) << 5u16) | ((((t.year as u16) - 1980) as u16) << 9u16)
}

/// Whether the year can be counted from 1980 (the MS-DOS epoch).
pub open spec fn valid_time(t: ZipTime) -> bool {
    t.year as u16 >= 1980
}

/// The checksum and sizes of a file's data.
#[derive(Clone, Copy, Debug)]
pub struct DataDescriptor {
    pub crc: u32,
    pub compressed_size: u64,
    pub uncompressed_size: u64,
}

/// The all-zero descriptor written in local headers, whose real values
/// follow the data.
pub open spec fn empty_descriptor() -> DataDescriptor {
    DataDescriptor { crc: 0, compressed_size: 0, uncompressed_size: 0 }
}

/// The bytes of a data descriptor: with or without its signature, with
/// 8-byte sizes, or with `u32::MAX` in place of the sizes (Zip64 headers),
/// or with 4-byte sizes.
pub open spec fn descriptor_bytes(
    dd: DataDescriptor,
    with_signature: bool,
    u64_fields: bool,
    is_zip64: bool,
) -> Seq<u8> {
    (if with_signature {
        signature(0x07, 0x08)
    } else {
        Seq::<u8>::empty()
    }) + le32(dd.crc) + if u64_fields {
        le64(dd.compressed_size) + le64(dd.uncompressed_size)
    } else if is_zip64 {
        le32(u32::MAX) + le32(u32::MAX)
    } else {
        le32(dd.compressed_size as u32) + le32(dd.uncompressed_size as u32)
    }
}

impl DataDescriptor {
    /// A descriptor with checksum zero and sizes zero.
    pub fn empty() -> (r: Self)
        ensures
            r == empty_descriptor(),
    {
        DataDescriptor { crc: 0, compressed_size: 0, uncompressed_size: 0 }
    }

    /// Appends the bytes of this descriptor to `out`.
    pub fn write(&self, out: &mut Vec<u8>, with_signature: bool, u64_fields: bool, is_zip64: bool)
        ensures
            final(out)@ == old(out)@ + descriptor_bytes(*self, with_signature, u64_fields, is_zip64),
    {
        let ghost start = out@;
        if with_signature {
            // data descriptor signature
            push_signature(out, 0x07, 0x08);
        }
        push_le32(out, self.crc);
        if u64_fields {
            push_le64(out, self.compressed_size);
            push_le64(out, self.uncompressed_size);
        } else if is_zip64 {
            push_le32(out, u32::MAX);
            push_le32(out, u32::MAX);
        } else {
            push_le32(out, self.compressed_size as u32);
            push_le32(out, self.uncompressed_size as u32);
        }
        assert(out@ =~= start + descriptor_bytes(*self, with_signature, u64_fields, is_zip64));
    }
}

/// What the archive records of one file.
#[derive(Clone, Debug)]
pub struct FileHeader {
    pub name: Vec<u8>,
    pub last_modified: ZipTime,
    pub data_descriptor: Option<DataDescriptor>,
    pub file_header_start: u64,
    pub is_zip64: bool,
}

/// The descriptor of a header, all zero until the file's data is complete.
pub open spec fn descriptor_of(h: FileHeader) -> DataDescriptor {
    match h.data_descriptor {
        Some(dd) => dd,
        None => empty_descriptor(),
    }
}

/// The version needed to extract (and made by): 4.5 for Zip64, else 1.0.
pub open spec fn version(is_zip64: bool) -> u16 {
    if is_zip64 {
        45
    } else {
        10
    }
}

/// The signature and version fields that start a header.
pub open spec fn header_start(h: FileHeader, is_central: bool) -> Seq<u8> {
    if is_central {
        signature(0x01, 0x02) + le16(version(h.is_zip64)) + le16(version(h.is_zip64))
    } else {
        signature(0x03, 0x04) + le16(version(h.is_zip64))
    }
}

/// The fields common to both headers: flags (a data descriptor follows the
/// data), method (stored), time, date, descriptor, name length and extra
/// field length.
pub open spec fn header_fields(h: FileHeader) -> Seq<u8> {
    le16(8) + le16(0) + le16(dos_time(h.last_modified)) + le16(dos_date(h.last_modified))
        + descriptor_bytes(descriptor_of(h), false, false, h.is_zip64) + le16(h.name@.len() as u16)
        + le16(
        if h.is_zip64 {
            28
        } else {
            0
        },
    )
}

/// The fields only the central directory has: comment length, disk
/// number, attributes and the offset of the local header.
pub open spec fn header_central(h: FileHeader, is_central: bool) -> Seq<u8> {
    if is_central {
        le16(0) + le16(0) + le16(0) + le32(0) + le32(
            if h.is_zip64 {
                u32::MAX
            } else {
                h.file_header_start as u32
            },
        )
    } else {
        Seq::<u8>::empty()
    }
}

/// The Zip64 extra field: sizes and offset on eight bytes each.
pub open spec fn header_extra(h: FileHeader) -> Seq<u8> {
    if h.is_zip64 {
        le16(1) + le16(24) + le64(descriptor_of(h).uncompressed_size) + le64(
            descriptor_of(h).compressed_size,
        ) + le64(h.file_header_start)
    } else {
        Seq::<u8>::empty()
    }
}

/// The bytes of a local file header, or of a central directory file header.
pub open spec fn header_bytes(h: FileHeader, is_central: bool) -> Seq<u8> {
    header_start(h, is_central) + header_fields(h) + header_central(h, is_central) + h.name@
        + header_extra(h)
}

/// The 32-bit little-endian number stored in four bytes.
pub open spec fn read_le32(b0: u8, b1: u8, b2: u8, b3: u8) -> int {
    b0 as int + 256 * b1 as int + 65536 * b2 as int + 16777216 * b3 as int
}

proof fn lemma_le32_reads_back(x: u32)
    ensures
        read_le32(le32(x)[0], le32(x)[1], le32(x)[2], le32(x)[3]) == x,
{
    let b0 = x as u8;
    let b1 = (x >> 8u32) as u8;
    let b2 = (x >> 16u32) as u8;
    let b3 = (x >> 24u32) as u8;
    assert(b0 as int + 256 * b1 as int + 65536 * b2 as int + 16777216 * b3 as int == x as int) by (bit_vector)
        requires
            b0 == x as u8,
            b1 == (x >> 8u32) as u8,
            b2 == (x >> 16u32) as u8,
            b3 == (x >> 24u32) as u8,
    ;
}

/// The central directory entry of a file points at its local header: in
/// an entry without Zip64 fields, the four bytes at offset 42 (the
/// relative offset of the local file header) hold where that header
/// starts in the archive.
pub proof fn lemma_central_entry_points_at_local_header(h: FileHeader)
    requires
        !h.is_zip64,
        h.file_header_start <= u32::MAX,
    ensures
        header_bytes(h, true).len() >= 46,
        read_le32(
            header_bytes(h, true)[42],
            header_bytes(h, true)[43],
            header_bytes(h, true)[44],
            header_bytes(h, true)[45],
        ) == h.file_header_start,
{
    let x = h.file_header_start as u32;
    let b = header_bytes(h, true);
    let pre = header_start(h, true) + header_fields(h) + (le16(0) + le16(0) + le16(0) + le32(0));
    assert(header_start(h, true).len() == 8);
    assert(descriptor_bytes(descriptor_of(h), false, false, h.is_zip64).len() == 12);
    assert(header_fields(h).len() == 24);
    assert(pre.len() == 42);
    assert(header_central(h, true) == (le16(0) + le16(0) + le16(0) + le32(0)) + le32(x));
    assert(b =~= pre + le32(x) + h.name@ + header_extra(h));
    assert(b[42] == le32(x)[0]);
    assert(b[43] == le32(x)[1]);
    assert(b[44] == le32(x)[2]);
    assert(b[45] == le32(x)[3]);
    lemma_le32_reads_back(x);
}

impl FileHeader {
    fn write_start(&self, out: &mut Vec<u8>, is_central: bool)
        ensures
            final(out)@ == old(out)@ + header_start(*self, is_central),
    {
        let ghost start = out@;
        if is_central {
            // central directory file header signature, version made by
            push_signature(out, 0x01, 0x02);
            push_le16(out, if self.is_zip64 { 45 } else { 10 });
        } else {
            // local file header signature
            push_signature(out, 0x03, 0x04);
        }
        // version needed to extract
        push_le16(out, if self.is_zip64 { 45 } else { 10 });
        assert(out@ =~= start + header_start(*self, is_central));
    }

    fn write_fields(&self, out: &mut Vec<u8>)
        requires
            valid_time(self.last_modified),
        ensures
            final(out)@ == old(out)@ + header_fields(*self),
    {
        let ghost start = out@;
        // general purpose bit flag: a data descriptor follows the data
        push_le16(out, 0b0000_1000u16);
        // compression method: store
        push_le16(out, 0);
        let t = self.last_modified;
        let timepart: u16 = ((t.second as u16) >> 1u16) | ((t.minute as u16) << 5u16) | ((
        t.hour as u16) << 11u16);
        let datepart: u16 = (t.day as u16) | ((t.month as u16) << 5u16) | (((t.year as u16)
            - 1980) << 9u16);
        push_le16(out, timepart);
        push_le16(out, datepart);
        let dd = match self.data_descriptor {
            Some(dd) => dd,
            None => DataDescriptor::empty(),
        };
        dd.write(out, false, false, self.is_zip64);
        // file name length
        push_le16(out, self.name.len() as u16);
        // extra field length
        push_le16(out, if self.is_zip64 { 28 } else { 0 });
        assert(out@ =~= start + header_fields(*self));
    }

    fn write_central(&self, out: &mut Vec<u8>, is_central: bool)
        ensures
            final(out)@ == old(out)@ + header_central(*self, is_central),
    {
        let ghost start = out@;
        if is_central {
            // file comment length, disk number, internal and external attributes
            push_le16(out, 0);
            push_le16(out, 0);
            push_le16(out, 0);
            push_le32(out, 0);
            // relative offset of the local file header
            push_le32(out, if self.is_zip64 { u32::MAX } else { self.file_header_start as u32 });
        }
        assert(out@ =~= start + header_central(*self, is_central));
    }

    fn write_extra(&self, out: &mut Vec<u8>)
        ensures
            final(out)@ == old(out)@ + header_extra(*self),
    {
        let ghost start = out@;
        if self.is_zip64 {
            let dd = match self.data_descriptor {
                Some(dd) => dd,
                None => DataDescriptor::empty(),
            };
            // Zip64 extra field: header, size, sizes and offset
            push_le16(out, 1);
            push_le16(out, 24);
            push_le64(out, dd.uncompressed_size);
            push_le64(out, dd.compressed_size);
            push_le64(out, self.file_header_start);
        }
        assert(out@ =~= start + header_extra(*self));
    }

    /// Appends the bytes of this header to `out`: a local file header, or
    /// its entry in the central directory.
    pub fn write(&self, out: &mut Vec<u8>, is_central: bool)
        requires
            valid_time(self.last_modified),
        ensures
            final(out)@ == old(out)@ + header_bytes(*self, is_central),
    {
        let ghost start = out@;
        self.write_start(out, is_central);
        self.write_fields(out);
        self.write_central(out, is_central);
        push_bytes(out, self.name.as_slice());
        self.write_extra(out);
        assert(out@ =~= start + header_bytes(*self, is_central));
    }
}

/// The central directory: the central header of each file, in order.
pub open spec fn central_directory(files: Seq<FileHeader>) -> Seq<u8>
    decreases files.len(),
{
    if files.len() == 0 {
        Seq::<u8>::empty()
    } else {
        central_directory(files.drop_last()) + header_bytes(files.last(), true)
    }
}

/// Whether some file needs Zip64 fields.
pub open spec fn any_zip64(files: Seq<FileHeader>) -> bool {
    exists|i: int| 0 <= i < files.len() && #[trigger] files[i].is_zip64
}

/// The Zip64 end of central directory record.
pub open spec fn zip64_end_record(n: nat, cd_size: int, cd_start: int) -> Seq<u8> {
    signature(0x06, 0x06) + le64(44) + le16(45) + le16(45) + le32(0) + le32(0) + le64(n as u64)
        + le64(n as u64) + le64(cd_size as u64) + le64(cd_start as u64)
}

/// The Zip64 end of central directory locator, pointing at `offset`.
pub open spec fn zip64_locator(offset: int) -> Seq<u8> {
    signature(0x06, 0x07) + le32(0) + le64(offset as u64) + le32(1)
}

/// The end of central directory record of a Zip64 archive: its counts,
/// size and offset say to look in the Zip64 record.
pub open spec fn zip64_eocd(n: nat) -> Seq<u8> {
    signature(0x05, 0x06) + le16(u16::MAX) + le16(u16::MAX) + (if n > u16::MAX {
        le16(u16::MAX) + le16(u16::MAX)
    } else {
        le16(n as u16) + le16(n as u16)
    }) + le32(u32::MAX) + le32(u32::MAX) + le16(0)
}

/// The end of central directory record of an archive without Zip64.
pub open spec fn plain_eocd(n: nat, cd_size: int, cd_start: int) -> Seq<u8> {
    signature(0x05, 0x06) + le16(0) + le16(0) + le16(n as u16) + le16(n as u16) + le32(
        cd_size as u32,
    ) + le32(cd_start as u32) + le16(0)
}

/// The records that end the archive: the Zip64 end of central directory
/// record and its locator when needed, then the end of central directory
/// record.
pub open spec fn end_records(n: nat, cd_size: int, cd_start: int, is_zip64: bool) -> Seq<u8> {
    if is_zip64 {
        zip64_end_record(n, cd_size, cd_start) + zip64_locator(cd_start + cd_size) + zip64_eocd(n)
    } else {
        plain_eocd(n, cd_size, cd_start)
    }
}

/// Why an archive operation was refused.
#[derive(Debug)]
pub enum ZipError {
    /// Data was appended, or a file finished, with no file started.
    MissingDigest,
    /// A file was finished before any was started.
    MissingFileHeader,
}

/// How the entries of an archive are compressed. Entries are stored as
/// they are; `Deflate` (with its level) is accepted and stored as well.
#[derive(Debug, Clone, Copy)]
pub enum CompressionMode {
    Store,
    Deflate(u8),
}

/// A Zip archive being streamed: it returns the bytes of its records, and
/// is told of the file data written between them.
pub struct Archive {
    files: Vec<FileHeader>,
    written: usize,
    digest: Option<ZipDigest>,
    intermediate_uncompressed_size: u64,
    intermediate_compressed_size: u64,
}

impl Archive {
    /// The headers of the files started so far.
    pub closed spec fn files(&self) -> Seq<FileHeader> {
        self.files@
    }

    /// Number of bytes of the archive so far.
    pub closed spec fn written(&self) -> usize {
        self.written
    }

    /// Whether a file was started and not yet finished.
    pub closed spec fn in_file(&self) -> bool {
        self.digest is Some
    }

    /// The data appended to the current file.
    pub closed spec fn file_data(&self) -> Seq<u8> {
        match self.digest {
            Some(d) => d.data(),
            None => Seq::<u8>::empty(),
        }
    }

    /// Bytes of data appended to the current file.
    pub closed spec fn file_size(&self) -> u64 {
        self.intermediate_uncompressed_size
    }

    pub closed spec fn wf(&self) -> bool {
        &&& forall|i: int| 0 <= i < self.files@.len() ==> valid_time(#[trigger] self.files@[i].last_modified)
        &&& self.intermediate_compressed_size == self.intermediate_uncompressed_size
        &&& self.digest matches Some(d) ==> d.data().len() == self.intermediate_uncompressed_size
        &&& forall|i: int| 0 <= i < self.files@.len() && !(#[trigger] self.files@[i]).is_zip64
            ==> self.files@[i].file_header_start <= u32::MAX
    }

    /// An empty archive.
    pub fn new() -> (r: Self)
        ensures
            r.wf(),
            r.files() == Seq::<FileHeader>::empty(),
            r.written() == 0,
            !r.in_file(),
            r.file_size() == 0,
    {
        Archive {
            files: Vec::new(),
            written: 0,
            digest: None,
            intermediate_uncompressed_size: 0,
            intermediate_compressed_size: 0,
        }
    }

    /// Starts a new file: returns its local header. The header records the
    /// offset of the file and needs Zip64 fields when asked to, or when the
    /// offset does not fit in 32 bits.
    pub fn start_new_file(&mut self, name: Vec<u8>, last_modified: ZipTime, use_zip64: bool) -> (out: Vec<u8>)
        requires
            old(self).wf(),
            valid_time(last_modified),
            old(self).written() + 58 + name@.len() <= usize::MAX,
        ensures
            final(self).wf(),
            ({
                let h = FileHeader {
                    name: name,
                    last_modified: last_modified,
                    data_descriptor: None,
                    file_header_start: old(self).written() as u64,
                    is_zip64: use_zip64 || old(self).written() > u32::MAX,
                };
                &&& out@ == header_bytes(h, false)
                &&& final(self).files() == old(self).files().push(h)
            }),
            final(self).written() == old(self).written() + out@.len(),
            final(self).in_file(),
            final(self).file_size() == 0,
            final(self).file_data() == Seq::<u8>::empty(),
    {
        let file = FileHeader {
            name,
            last_modified,
            data_descriptor: None,
            file_header_start: self.written as u64,
            is_zip64: use_zip64 || self.written > (u32::MAX as usize),
        };
        let mut out: Vec<u8> = Vec::new();
        file.write(&mut out, false);
        assert(out@.len() <= 58 + file.name@.len());
        self.written = self.written + out.len();
        self.files.push(file);
        self.digest = Some(digest_new());
        self.intermediate_uncompressed_size = 0;
        self.intermediate_compressed_size = 0;
        proof {
            assert forall|i: int| 0 <= i < self.files@.len() implies valid_time(
                #[trigger] self.files@[i].last_modified,
            ) by {
                if i < old(self).files@.len() {
                    assert(self.files@[i] == old(self).files@[i]);
                }
            }
        }
        out
    }

    /// Counts `content` as data of the current file (the caller writes it
    /// right after the records returned so far) and feeds it to the file's
    /// checksum.
    pub fn append_data(&mut self, content: &[u8]) -> (r: Result<(), ZipError>)
        requires
            old(self).wf(),
            old(self).file_size() + content@.len() <= u64::MAX,
            old(self).written() + content@.len() <= usize::MAX,
        ensures
            final(self).wf(),
            final(self).files() == old(self).files(),
            final(self).in_file() == old(self).in_file(),
            r is Ok <==> old(self).in_file(),
            r is Err ==> (r matches Err(ZipError::MissingDigest)) && final(self).written() == old(self).written() && final(self).file_size() == old(self).file_size(),
            r is Ok ==> final(self).written() == old(self).written() + content@.len() && final(self).file_size() == old(self).file_size() + content@.len(),
            final(self).file_data() == if r is Ok {
                old(self).file_data() + content@
            } else {
                old(self).file_data()
            },
    {
        match &mut self.digest {
            Some(d) => digest_update(d, content),
            None => {
                return Err(ZipError::MissingDigest);
            },
        }
        self.intermediate_uncompressed_size = self.intermediate_uncompressed_size
            + content.len() as u64;
        self.intermediate_compressed_size = self.intermediate_compressed_size + content.len() as u64;
        self.written = self.written + content.len();
        Ok(())
    }

    /// Finishes the current file: returns its data descriptor (the CRC-32
    /// of its data, with its signature, and 8-byte sizes for Zip64), and
    /// records the descriptor in the file's header.
    pub fn finish_file(&mut self) -> (r: Result<Vec<u8>, ZipError>)
        requires
            old(self).wf(),
            old(self).written() + 24 <= usize::MAX,
        ensures
            final(self).wf(),
            !final(self).in_file(),
            !old(self).in_file() ==> (r matches Err(ZipError::MissingDigest)) && final(self).files()
                == old(self).files() && final(self).written() == old(self).written(),
            old(self).in_file() && old(self).files().len() == 0 ==> (r matches Err(
                ZipError::MissingFileHeader,
            )) && final(self).files() == old(self).files() && final(self).written() == old(self).written(),
            old(self).in_file() && old(self).files().len() > 0 ==> {
                let last = old(self).files().last();
                let dd = DataDescriptor {
                    crc: crc32_iso_hdlc(old(self).file_data()),
                    compressed_size: old(self).file_size(),
                    uncompressed_size: old(self).file_size(),
                };
                &&& r matches Ok(out) && out@ == descriptor_bytes(dd, true, last.is_zip64, false)
                    && final(self).written() == old(self).written() + out@.len()
                &&& final(self).files() == old(self).files().update(
                    old(self).files().len() - 1,
                    FileHeader { data_descriptor: Some(dd), ..last },
                )
            },
    {
        let crc = match self.digest.take() {
            Some(d) => digest_finalize(d),
            None => {
                return Err(ZipError::MissingDigest);
            },
        };
        let dd = DataDescriptor {
            crc,
            uncompressed_size: self.intermediate_uncompressed_size,
            compressed_size: self.intermediate_compressed_size,
        };
        let n = self.files.len();
        if n == 0 {
            return Err(ZipError::MissingFileHeader);
        }
        let mut file = self.files.pop().unwrap();
        let mut out: Vec<u8> = Vec::new();
        dd.write(&mut out, true, file.is_zip64, false);
        self.written = self.written + out.len();
        file.data_descriptor = Some(dd);
        self.files.push(file);
        assert(self.files@ =~= old(self).files@.update(
            n - 1,
            FileHeader { data_descriptor: Some(dd), ..old(self).files@.last() },
        ));
        proof {
            assert forall|i: int| 0 <= i < self.files@.len() implies valid_time(
                #[trigger] self.files@[i].last_modified,
            ) by {
                if i < n - 1 {
                    assert(self.files@[i] == old(self).files@[i]);
                }
            }
        }
        Ok(out)
    }

    /// Ends the archive: returns the central directory (the central header
    /// of each file) and the end records.
    pub fn finish(self) -> (out: Vec<u8>)
        requires
            self.wf(),
            self.written() + central_directory(self.files()).len() <= usize::MAX,
        ensures
            out@ == central_directory(self.files()) + end_records(
                self.files().len(),
                central_directory(self.files()).len() as int,
                self.written() as int,
                self.files().len() > u16::MAX || any_zip64(self.files()),
            ),
    {
        let n = self.files.len();
        let (mut out, any) = write_central_directory(&self.files);
        let is_zip64 = n > (u16::MAX as usize) || any;
        let central_directory_start = self.written;
        assert(out@.len() <= usize::MAX - central_directory_start);
        let central_directory_size = out.len();
        write_end_records(&mut out, n, central_directory_size, central_directory_start, is_zip64);
        out
    }
}

/// Each central directory entry that an archive writes points at the
/// local header of its file: for every file without Zip64 fields, the
/// offset its entry records is where its local header was written (the
/// archive's byte count when the file was started, see `start_new_file`).
pub proof fn lemma_archive_entries_point_at_local_headers(a: &Archive, i: int)
    requires
        a.wf(),
        0 <= i < a.files().len(),
        !a.files()[i].is_zip64,
    ensures
        read_le32(
            header_bytes(a.files()[i], true)[42],
            header_bytes(a.files()[i], true)[43],
            header_bytes(a.files()[i], true)[44],
            header_bytes(a.files()[i], true)[45],
        ) == a.files()[i].file_header_start,
{
    lemma_central_entry_points_at_local_header(a.files@[i]);
}

fn write_central_directory(files: &Vec<FileHeader>) -> (r: (Vec<u8>, bool))
    requires
        forall|j: int| 0 <= j < files@.len() ==> valid_time(#[trigger] files@[j].last_modified),
    ensures
        r.0@ == central_directory(files@),
        r.1 == any_zip64(files@),
{
    let n = files.len();
    let mut any = false;
    let mut out: Vec<u8> = Vec::new();
    let mut i: usize = 0;
    while i < n
        invariant
            n == files@.len(),
            i <= n,
            forall|j: int| 0 <= j < files@.len() ==> valid_time(#[trigger] files@[j].last_modified),
            out@ == central_directory(files@.take(i as int)),
            any == any_zip64(files@.take(i as int)),
        decreases n - i,
    {
        files[i].write(&mut out, true);
        proof {
            let t = files@.take(i + 1);
            let p = files@.take(i as int);
            assert(t.drop_last() =~= p);
            assert(t.last() == files@[i as int]);
            if any_zip64(t) {
                let k = choose|k: int| 0 <= k < t.len() && #[trigger] t[k].is_zip64;
                if k < i {
                    assert(p[k] == t[k]);
                }
            }
            if any_zip64(p) {
                let k = choose|k: int| 0 <= k < p.len() && #[trigger] p[k].is_zip64;
                assert(t[k] == p[k]);
            }
            if files@[i as int].is_zip64 {
                assert(t[i as int].is_zip64);
            }
        }
        if files[i].is_zip64 {
            any = true;
        }
        i += 1;
    }
    assert(files@.take(n as int) =~= files@);
    (out, any)
}

fn write_zip64_end_record(out: &mut Vec<u8>, n: usize, cd_size: usize, cd_start: usize)
    ensures
        final(out)@ == old(out)@ + zip64_end_record(n as nat, cd_size as int, cd_start as int),
{
    let ghost start = out@;
    push_signature(out, 0x06, 0x06);
    // size of the record minus 12
    push_le64(out, 44);
    // version made by, version needed to extract
    push_le16(out, 45);
    push_le16(out, 45);
    // number of this disk, disk where the central directory starts
    push_le32(out, 0);
    push_le32(out, 0);
    // central directory records on this disk, and in total
    push_le64(out, n as u64);
    push_le64(out, n as u64);
    push_le64(out, cd_size as u64);
    push_le64(out, cd_start as u64);
    assert(out@ =~= start + zip64_end_record(n as nat, cd_size as int, cd_start as int));
}

fn write_zip64_locator(out: &mut Vec<u8>, offset: usize)
    ensures
        final(out)@ == old(out)@ + zip64_locator(offset as int),
{
    let ghost start = out@;
    push_signature(out, 0x06, 0x07);
    push_le32(out, 0);
    push_le64(out, offset as u64);
    // total number of disks
    push_le32(out, 1);
    assert(out@ =~= start + zip64_locator(offset as int));
}

fn write_zip64_eocd(out: &mut Vec<u8>, n: usize)
    ensures
        final(out)@ == old(out)@ + zip64_eocd(n as nat),
{
    let ghost start = out@;
    push_signature(out, 0x05, 0x06);
    push_le16(out, u16::MAX);
    push_le16(out, u16::MAX);
    if n > (u16::MAX as usize) {
        push_le16(out, u16::MAX);
        push_le16(out, u16::MAX);
    } else {
        push_le16(out, n as u16);
        push_le16(out, n as u16);
    }
    push_le32(out, u32::MAX);
    push_le32(out, u32::MAX);
    // comment length
    push_le16(out, 0);
    assert(out@ =~= start + zip64_eocd(n as nat));
}

fn write_plain_eocd(out: &mut Vec<u8>, n: usize, cd_size: usize, cd_start: usize)
    ensures
        final(out)@ == old(out)@ + plain_eocd(n as nat, cd_size as int, cd_start as int),
{
    let ghost start = out@;
    push_signature(out, 0x05, 0x06);
    push_le16(out, 0);
    push_le16(out, 0);
    push_le16(out, n as u16);
    push_le16(out, n as u16);
    push_le32(out, cd_size as u32);
    push_le32(out, cd_start as u32);
    // comment length
    push_le16(out, 0);
    assert(out@ =~= start + plain_eocd(n as nat, cd_size as int, cd_start as int));
}

fn write_end_records(out: &mut Vec<u8>, n: usize, cd_size: usize, cd_start: usize, is_zip64: bool)
    requires
        cd_start + cd_size <= usize::MAX,
    ensures
        final(out)@ == old(out)@ + end_records(n as nat, cd_size as int, cd_start as int, is_zip64),
{
    let ghost start = out@;
    if is_zip64 {
        write_zip64_end_record(out, n, cd_size, cd_start);
        write_zip64_locator(out, cd_start + cd_size);
        write_zip64_eocd(out, n);
    } else {
        write_plain_eocd(out, n, cd_size, cd_start);
    }
    assert(out@ =~= start + end_records(n as nat, cd_size as int, cd_start as int, is_zip64));
}

} // verus!
