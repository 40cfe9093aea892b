use vstd::prelude::*;
use crate::cipher::{spec_crc32_step, spec_decrypt, spec_initial_keys, CipherKeys, crc32_step,
    decrypt_bytes, generate_keys, keys_update_step};
use crate::errors::TosError;
use crate::stream::{le16_at, le32_at, lossy_utf8, lossy_string, BinaryReader, SeekFrom};

verus! {

/// The fixed marker the archive trailer must carry.
pub const MAGIC_NUMBER: u32 = 0x6054B50;

/// The archive trailer: the last 24 bytes of the file.
pub struct IPFFooter {
    pub file_count: u16,
    pub file_table_pointer: u32,
    pub footer_pointer: u32,
    pub magic: u32,
    pub version_to_patch: u32,
    pub new_version: u32,
}

/// One entry of the archive's table: sizes, offsets and the two
/// name blobs, kept as raw bytes.
pub struct IPFFileTable {
    pub directory_name_length: u16,
    pub crc32: u32,
    pub file_size_compressed: u32,
    pub file_size_uncompressed: u32,
    pub file_pointer: u32,
    pub container_name_length: u16,
    pub container_name: Vec<u8>,
    pub directory_name: Vec<u8>,
}

/// A decoded archive: the trailer and the entry table.
pub struct IPFFile {
    pub footer: IPFFooter,
    pub file_table: Vec<IPFFileTable>,
}

/// Where the trailer starts: 24 bytes before the end.
pub open spec fn footer_base(d: Seq<u8>) -> int {
    d.len() - 24
}

/// The trailer's magic field.
pub open spec fn spec_footer_magic(d: Seq<u8>) -> u32 {
    le32_at(d, footer_base(d) + 12)
}

/// The trailer's entry count.
pub open spec fn spec_footer_count(d: Seq<u8>) -> u16 {
    le16_at(d, footer_base(d))
}

/// The trailer's table offset.
pub open spec fn spec_footer_table(d: Seq<u8>) -> u32 {
    le32_at(d, footer_base(d) + 2)
}

/// `f` holds exactly the fields of the trailer at the end of `d`.
pub open spec fn footer_parsed(f: IPFFooter, d: Seq<u8>) -> bool {
    let b = footer_base(d);
    &&& f.file_count == le16_at(d, b)
    &&& f.file_table_pointer == le32_at(d, b + 2)
    &&& f.footer_pointer == le32_at(d, b + 8)
    &&& f.magic == le32_at(d, b + 12)
    &&& f.version_to_patch == le32_at(d, b + 16)
    &&& f.new_version == le32_at(d, b + 20)
}

/// The entry at `p` fits inside `d`.
pub open spec fn entry_ok(d: Seq<u8>, p: int) -> bool {
    &&& p + 20 <= d.len()
    &&& p + 20 + le16_at(d, p + 18) + le16_at(d, p) <= d.len()
}

/// The position just after the entry at `p`.
pub open spec fn entry_end(d: Seq<u8>, p: int) -> int {
    p + 20 + le16_at(d, p + 18) + le16_at(d, p)
}

/// `e` holds exactly the fields of the entry at `p`.
pub open spec fn entry_parsed(e: IPFFileTable, d: Seq<u8>, p: int) -> bool {
    let clen = le16_at(d, p + 18) as int;
    let dlen = le16_at(d, p) as int;
    &&& e.directory_name_length == le16_at(d, p)
    &&& e.crc32 == le32_at(d, p + 2)
    &&& e.file_size_compressed == le32_at(d, p + 6)
    &&& e.file_size_uncompressed == le32_at(d, p + 10)
    &&& e.file_pointer == le32_at(d, p + 14)
    &&& e.container_name_length == le16_at(d, p + 18)
    &&& e.container_name@ == d.subrange(p + 20, p + 20 + clen)
    &&& e.directory_name@ == d.subrange(p + 20 + clen, p + 20 + clen + dlen)
}

/// Where the `i`-th entry of a table starting at `p` begins.
pub open spec fn entries_start(d: Seq<u8>, p: int, i: nat) -> int
    decreases i,
{
    if i == 0 {
        p
    } else {
        entry_end(d, entries_start(d, p, (i - 1) as nat))
    }
}

/// All `n` entries of the table starting at `p` fit inside `d`.
pub open spec fn entries_ok(d: Seq<u8>, p: int, n: nat) -> bool {
    forall|i: nat| i < n ==> entry_ok(d, #[trigger] entries_start(d, p, i))
}

/// `t` holds exactly the `n` entries of the table starting at `p`.
pub open spec fn entries_parsed(t: Seq<IPFFileTable>, d: Seq<u8>, p: int, n: nat) -> bool {
    &&& t.len() == n
    &&& forall|i: nat| i < n ==> entry_parsed(t[i as int], d, #[trigger] entries_start(d, p, i))
}

/// Where the entry table begins: the trailer's declared offset. An
/// offset past the data is not itself an error; the first entry read
/// there fails instead.
pub open spec fn table_base(d: Seq<u8>) -> int {
    spec_footer_table(d) as int
}

/// Which error opening the archive raises, if any: a source shorter than
/// the trailer or a truncated entry table is an I/O failure, and a trailer
/// without the marker is `BadMagic`.
pub open spec fn spec_ipf_error(d: Seq<u8>) -> Option<TosError> {
    if d.len() < 24 {
        Some(TosError::IoError)
    } else if spec_footer_magic(d) != MAGIC_NUMBER {
        Some(TosError::BadMagic)
    } else if !entries_ok(d, table_base(d), spec_footer_count(d) as nat) {
        Some(TosError::IoError)
    } else {
        None
    }
}

/// What a successfully inflated raw-deflate stream holds, given the
/// input bytes and the exact output capacity allowed.
pub uninterp spec fn spec_inflate_raw(input: Seq<u8>, capacity: int) -> Option<Seq<u8>>;

/// Relies on flate2::Decompress::decompress with raw (headerless) deflate
/// and FlushDecompress::Finish: the outcome is a function of the input
/// bytes and the fixed output capacity alone, and no more than
/// `capacity` bytes come out, since the output buffer is that large and
/// the result is cut to the decompressor's `total_out`.
#[verifier::external_body]
fn inflate_raw(data: &[u8], capacity: u32) -> (r: Result<Vec<u8>, TosError>)
    ensures
        match r {
            Ok(v) => {
                &&& spec_inflate_raw(data@, capacity as int) == Some(v@)
                &&& v@.len() <= capacity
            },
            Err(e) => {
                &&& spec_inflate_raw(data@, capacity as int) is None
                &&& e == TosError::DecompressFailed
            },
        },
{
    let mut out = vec![0u8; capacity as usize];
    let mut dec = flate2::Decompress::new(false);
    match dec.decompress(data, &mut out, flate2::FlushDecompress::Finish) {
        Ok(_) => {
            out.truncate(dec.total_out() as usize);
            Ok(out)
        },
        Err(_) => Err(TosError::DecompressFailed),
    }
}

impl IPFFile {
    /// Decodes the trailer and the whole entry table from the reader's
    /// bytes. Fails with `BadMagic` when the trailer's magic field is not
    /// the fixed marker, without touching the entry table, and with
    /// `IoError` when the trailer or an entry does not fit in the data.
    pub fn load_from_reader(reader: &mut BinaryReader) -> (r: Result<IPFFile, TosError>)
        ensures
            final(reader).data() == old(reader).data(),
            match r {
                Ok(f) => {
                    let d = old(reader).data();
                    &&& spec_ipf_error(d) is None
                    &&& footer_parsed(f.footer, d)
                    &&& entries_parsed(
                        f.file_table@,
                        d,
                        table_base(d),
                        spec_footer_count(d) as nat,
                    )
                },
                Err(e) => {
                    &&& spec_ipf_error(old(reader).data()) == Some(e)
                    &&& (e == TosError::BadMagic ==> final(reader).pos() == old(
                        reader,
                    ).data().len())
                },
            },
    {
        let footer = Self::read_footer(reader)?;
        let file_table = Self::read_file_table(
            reader,
            footer.file_table_pointer,
            footer.file_count,
        )?;
        Ok(IPFFile { footer, file_table })
    }

    /// Reads the 24-byte trailer and checks its magic field.
    fn read_footer(reader: &mut BinaryReader) -> (r: Result<IPFFooter, TosError>)
        ensures
            final(reader).data() == old(reader).data(),
            match r {
                Ok(f) => {
                    let d = old(reader).data();
                    &&& d.len() >= 24
                    &&& footer_parsed(f, d)
                    &&& f.magic == MAGIC_NUMBER
                },
                Err(e) => {
                    let d = old(reader).data();
                    if d.len() < 24 {
                        e == TosError::IoError
                    } else {
                        // the trailer was read whole and nothing further:
                        // the reader stands at the end of the data
                        &&& e == TosError::BadMagic
                        &&& spec_footer_magic(d) != MAGIC_NUMBER
                        &&& final(reader).pos() == d.len()
                    }
                },
            },
    {
        let total = reader.file_size();
        proof {
            assert(old(reader).data().len() == total);
        }
        reader.seek(SeekFrom::End(-24))?;
        let file_count = reader.read_u16()?;
        let file_table_pointer = reader.read_u32()?;
        let _padding = reader.read_u16()?;
        let footer_pointer = reader.read_u32()?;
        let magic = reader.read_u32()?;
        let version_to_patch = reader.read_u32()?;
        let new_version = reader.read_u32()?;
        if magic != MAGIC_NUMBER {
            return Err(TosError::BadMagic);
        }
        Ok(IPFFooter {
            file_count,
            file_table_pointer,
            footer_pointer,
            magic,
            version_to_patch,
            new_version,
        })
    }

    /// Reads `file_count` entries starting at `table_offset`.
    fn read_file_table(
        reader: &mut BinaryReader,
        table_offset: u32,
        file_count: u16,
    ) -> (r: Result<Vec<IPFFileTable>, TosError>)
        ensures
            final(reader).data() == old(reader).data(),
            ({
                let d = old(reader).data();
                let base = table_offset as int;
                match r {
                    Ok(t) => {
                        &&& entries_ok(d, base, file_count as nat)
                        &&& entries_parsed(t@, d, base, file_count as nat)
                    },
                    Err(e) => {
                        &&& e == TosError::IoError
                        &&& !entries_ok(d, base, file_count as nat)
                    },
                }
            }),
    {
        let ghost d = old(reader).data();
        let ghost base = table_offset as int;
        let seek_ok = reader.seek(SeekFrom::Start(table_offset as u64));
        proof {
            assert(seek_ok is Ok);
        }
        let mut file_table: Vec<IPFFileTable> = Vec::new();
        let mut i: usize = 0;
        while i < file_count as usize
            invariant
                d == old(reader).data(),
                reader.data() == d,
                base == table_offset as int,
                0 <= i <= file_count as usize,
                file_table@.len() == i,
                forall|j: nat| j < i ==> entry_ok(d, #[trigger] entries_start(d, base, j)),
                forall|j: nat|
                    j < i ==> entry_parsed(
                        file_table@[j as int],
                        d,
                        #[trigger] entries_start(d, base, j),
                    ),
                reader.pos() == entries_start(d, base, i as nat),
            decreases file_count as usize - i,
        {
            match Self::read_file_entry(reader) {
                Ok(file_entry) => {
                    file_table.push(file_entry);
                },
                Err(er) => {
                    proof {
                        assert(!entry_ok(d, entries_start(d, base, i as nat)));
                        assert(!entries_ok(d, base, file_count as nat)) by {
                            if entries_ok(d, base, file_count as nat) {
                                assert(entry_ok(d, entries_start(d, base, i as nat)));
                            }
                        }
                    }
                    return Err(er);
                },
            }
            i = i + 1;
        }
        Ok(file_table)
    }

    /// Reads one entry at the current position.
    fn read_file_entry(reader: &mut BinaryReader) -> (r: Result<IPFFileTable, TosError>)
        ensures
            final(reader).data() == old(reader).data(),
            match r {
                Ok(e) => {
                    let d = old(reader).data();
                    let p = old(reader).pos();
                    &&& entry_ok(d, p)
                    &&& entry_parsed(e, d, p)
                    &&& final(reader).pos() == entry_end(d, p)
                },
                Err(e) => {
                    &&& e == TosError::IoError
                    &&& !entry_ok(old(reader).data(), old(reader).pos())
                },
            },
    {
        let directory_name_length = reader.read_u16()?;
        let crc32 = reader.read_u32()?;
        let file_size_compressed = reader.read_u32()?;
        let file_size_uncompressed = reader.read_u32()?;
        let file_pointer = reader.read_u32()?;
        let container_name_length = reader.read_u16()?;
        let container_name = reader.read_bytes_u16(container_name_length)?;
        let directory_name = reader.read_bytes_u16(directory_name_length)?;
        Ok(IPFFileTable {
            directory_name_length,
            crc32,
            file_size_compressed,
            file_size_uncompressed,
            file_pointer,
            container_name_length,
            container_name,
            directory_name,
        })
    }

    /// The decoded trailer.
    pub fn footer(&self) -> (r: &IPFFooter)
        ensures
            r == &self.footer,
    {
        &self.footer
    }

    /// The decoded entry table.
    pub fn file_table(&self) -> (r: &[IPFFileTable])
        ensures
            r@ == self.file_table@,
    {
        self.file_table.as_slice()
    }
}

impl IPFFileTable {
    /// Extracts this entry from the reader's bytes: reads the compressed
    /// run, decrypts it with the archive cipher, and inflates the raw
    /// deflate stream, sized by the entry's uncompressed size.
    pub fn extract(&self, reader: &mut BinaryReader) -> (r: Result<Vec<u8>, TosError>)
        ensures
            final(reader).data() == old(reader).data(),
            ({
                let d = old(reader).data();
                let start = self.file_pointer as int;
                let n = self.file_size_compressed as int;
                if n == 0 || start + n <= d.len() {
                    let enc = if n == 0 {
                        Seq::<u8>::empty()
                    } else {
                        d.subrange(start, start + n)
                    };
                    let plain = spec_decrypt(enc);
                    match r {
                        Ok(v) => {
                            &&& spec_inflate_raw(plain, self.file_size_uncompressed as int)
                                == Some(v@)
                            &&& v@.len() <= self.file_size_uncompressed
                        },
                        Err(e) => {
                            &&& e == TosError::DecompressFailed
                            &&& spec_inflate_raw(plain, self.file_size_uncompressed as int)
                                is None
                        },
                    }
                } else {
                    r == Err::<Vec<u8>, TosError>(TosError::IoError)
                }
            }),
    {
        let seek_ok = reader.seek(SeekFrom::Start(self.file_pointer as u64));
        proof {
            assert(seek_ok is Ok);
        }
        let mut encrypted_data = reader.read_bytes(self.file_size_compressed as usize)?;
        self.decrypt(&mut encrypted_data);
        let decompressed_data = self.decompress(&encrypted_data)?;
        Ok(decompressed_data)
    }

    /// One CRC-32 step of the cipher's key schedule.
    pub fn compute_crc32(&self, crc: u32, b: u8) -> (r: u32)
        ensures
            r == spec_crc32_step(crc, b),
    {
        crc32_step(crc, b)
    }

    /// Byte `byte_index` (from the low end) of a 32-bit value.
    pub fn extract_byte(&self, value: u32, byte_index: usize) -> (r: u8)
        requires
            byte_index < 4,
        ensures
            r == (value >> (byte_index * 8)) as u8,
    {
        #[verifier::truncate]
        ((value >> (byte_index * 8)) as u8)
    }

    /// Advances the cipher registers by one plaintext byte.
    pub fn keys_update(&self, keys: &mut CipherKeys, b: u8)
        ensures
            *final(keys) == crate::cipher::spec_keys_update(*old(keys), b),
    {
        keys_update_step(keys, b);
    }

    /// The cipher registers derived from the fixed password.
    pub fn keys_generate(&self) -> (r: CipherKeys)
        ensures
            r == spec_initial_keys(),
    {
        generate_keys()
    }

    /// Decrypts a buffer in place with the archive cipher.
    pub fn decrypt(&self, buffer: &mut Vec<u8>)
        ensures
            final(buffer)@ == spec_decrypt(old(buffer)@),
    {
        decrypt_bytes(buffer);
    }

    /// Inflates this entry's decrypted payload, bounded by the entry's
    /// declared uncompressed size.
    fn decompress(&self, data: &Vec<u8>) -> (r: Result<Vec<u8>, TosError>)
        ensures
            match r {
                Ok(v) => {
                    &&& spec_inflate_raw(data@, self.file_size_uncompressed as int) == Some(v@)
                    &&& v@.len() <= self.file_size_uncompressed
                },
                Err(e) => {
                    &&& e == TosError::DecompressFailed
                    &&& spec_inflate_raw(data@, self.file_size_uncompressed as int) is None
                },
            },
    {
        inflate_raw(data.as_slice(), self.file_size_uncompressed)
    }

    /// The path-name length field.
    pub fn directory_name_length(&self) -> (r: u16)
        ensures
            r == self.directory_name_length,
    {
        self.directory_name_length
    }

    /// The stored CRC-32 of the entry.
    pub fn crc32(&self) -> (r: u32)
        ensures
            r == self.crc32,
    {
        self.crc32
    }

    /// The size of the entry's stored (compressed) payload.
    pub fn file_size_compressed(&self) -> (r: u32)
        ensures
            r == self.file_size_compressed,
    {
        self.file_size_compressed
    }

    /// The declared size of the entry once inflated.
    pub fn file_size_uncompressed(&self) -> (r: u32)
        ensures
            r == self.file_size_uncompressed,
    {
        self.file_size_uncompressed
    }

    /// Where the entry's payload starts in the archive.
    pub fn file_pointer(&self) -> (r: u32)
        ensures
            r == self.file_pointer,
    {
        self.file_pointer
    }

    /// The container-name length field.
    pub fn container_name_length(&self) -> (r: u16)
        ensures
            r == self.container_name_length,
    {
        self.container_name_length
    }

    /// The container name, decoded leniently as text.
    pub fn container_name(&self) -> (r: String)
        ensures
            r@ == lossy_utf8(self.container_name@),
    {
        lossy_string(self.container_name.as_slice())
    }

    /// The stored path, decoded leniently as text.
    pub fn directory_name(&self) -> (r: String)
        ensures
            r@ == lossy_utf8(self.directory_name@),
    {
        lossy_string(self.directory_name.as_slice())
    }
}

impl IPFFooter {
    /// The number of entries in the table.
    pub fn file_count(&self) -> (r: u16)
        ensures
            r == self.file_count,
    {
        self.file_count
    }

    /// Where the entry table starts.
    pub fn file_table_pointer(&self) -> (r: u32)
        ensures
            r == self.file_table_pointer,
    {
        self.file_table_pointer
    }

    /// The trailer's own offset field (parsed, unused by extraction).
    pub fn footer_pointer(&self) -> (r: u32)
        ensures
            r == self.footer_pointer,
    {
        self.footer_pointer
    }

    /// The magic field that was validated at open.
    pub fn magic(&self) -> (r: u32)
        ensures
            r == self.magic,
    {
        self.magic
    }

    /// The version this archive patches.
    pub fn version_to_patch(&self) -> (r: u32)
        ensures
            r == self.version_to_patch,
    {
        self.version_to_patch
    }

    /// The version this archive brings.
    pub fn new_version(&self) -> (r: u32)
        ensures
            r == self.new_version,
    {
        self.new_version
    }
}

} // verus!
