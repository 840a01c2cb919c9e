//! Locating one resource in a directory and copying it out of its volume.
//!
//! A directory is a run of three-byte entries, entry `i` for resource `i`:
//! the high nibble of the first byte is the volume number, the remaining
//! twenty bits are the position of the record in that volume. Volume `0xF`
//! marks a resource that does not exist. A record starts with the
//! little-endian signature `0x3412`, one byte that repeats the volume
//! number, and the little-endian length of the payload that follows.

use byteorder::{ByteOrder, LittleEndian};
use vstd::prelude::*;
use vstd::slice::slice_subrange;
use vstd::slice::slice_to_vec;
use crate::common::AgiError;
use crate::common::ParseFault;

verus! {

/// Signature that opens every record of a volume.
pub const RECORD_SIGNATURE: u16 = 0x3412;

/// Length of a record's header in bytes.
pub const RECORD_HEADER_LEN: usize = 5;

/// Volume number that marks an absent resource.
pub const ABSENT_VOLUME: u8 = 0xF;

/// What a resource holds.
#[derive(Debug, Copy, Clone, PartialEq, Eq, Structural)]
pub enum AgiResourceType {
    Logic,
    Picture,
    View,
    Sound,
    Other,
}

/// Volume number of a directory entry that starts with byte `b0`.
pub open spec fn entry_volume(b0: u8) -> int {
    b0 as int / 16
}

/// Position that a directory entry of the bytes `b0`, `b1`, `b2` names.
pub open spec fn entry_offset(b0: u8, b1: u8, b2: u8) -> int {
    (b0 as int % 16) * 65536 + b1 as int * 256 + b2 as int
}

/// Whether `directory` holds a whole entry for `index`.
pub open spec fn has_entry(directory: Seq<u8>, index: int) -> bool {
    0 <= index && 3 * index + 3 <= directory.len()
}

/// Little-endian value of the two bytes at `at`.
pub open spec fn le_u16(bytes: Seq<u8>, at: int) -> int {
    bytes[at] as int + 256 * (bytes[at + 1] as int)
}

/// One decoded directory entry.
#[derive(Debug, Copy, Clone, PartialEq, Eq, Structural)]
pub struct DirectoryEntry {
    pub volume: u8,
    pub offset: usize,
}

impl DirectoryEntry {
    /// Decodes the three bytes of one entry.
    pub fn decode(b0: u8, b1: u8, b2: u8) -> (entry: DirectoryEntry)
        ensures
            entry.volume == entry_volume(b0),
            entry.offset == entry_offset(b0, b1, b2),
            entry.volume <= 0xF,
            entry.offset <= 0xF_FFFF,
    {
        let volume: u8 = b0 >> 4;
        let wide: u32 = (((b0 as u32) & 0xF) << 16) | ((b1 as u32) << 8) | (b2 as u32);
        assert(b0 >> 4 == b0 / 16) by (bit_vector);
        assert((((b0 as u32) & 0xF) << 16) | ((b1 as u32) << 8) | (b2 as u32)
            == (b0 as u32 % 16) * 65536 + (b1 as u32) * 256 + (b2 as u32)) by (bit_vector);
        DirectoryEntry { volume, offset: wide as usize }
    }

    /// Reads entry `index` of `directory`.
    ///
    /// Fails exactly when the directory ends before the third byte of
    /// that entry.
    pub fn read(directory: &Vec<u8>, index: usize) -> (r: Result<DirectoryEntry, AgiError>)
        ensures
            has_entry(directory@, index as int) ==> r is Ok
                && r->Ok_0.volume == entry_volume(directory@[3 * index])
                && r->Ok_0.offset == entry_offset(
                    directory@[3 * index],
                    directory@[3 * index + 1],
                    directory@[3 * index + 2],
                ),
            !has_entry(directory@, index as int) ==> r == Err::<DirectoryEntry, AgiError>(
                AgiError::Parse(ParseFault::DirectoryTooShort { index, len: directory@.len() as usize }),
            ),
    {
        if index >= directory.len() / 3 {
            return Err(
                AgiError::Parse(ParseFault::DirectoryTooShort { index, len: directory.len() }),
            );
        }
        let at: usize = index * 3;
        Ok(DirectoryEntry::decode(directory[at], directory[at + 1], directory[at + 2]))
    }
}

/// The payload of one resource together with where it was found.
#[derive(Debug)]
pub struct Resource {
    resource_type: AgiResourceType,
    resource_index: usize,
    vol_file: u8,
    vol_file_offset: usize,
    raw_data: Vec<u8>,
}

/// Mathematical content of a [`Resource`].
pub ghost struct ResourceModel {
    pub resource_type: AgiResourceType,
    pub resource_index: usize,
    pub vol_file: u8,
    pub vol_file_offset: usize,
    pub raw_data: Seq<u8>,
}

impl View for Resource {
    type V = ResourceModel;

    closed spec fn view(&self) -> ResourceModel {
        ResourceModel {
            resource_type: self.resource_type,
            resource_index: self.resource_index,
            vol_file: self.vol_file,
            vol_file_offset: self.vol_file_offset,
            raw_data: self.raw_data@,
        }
    }
}

/// The contents of the volumes, one sequence of bytes for each.
pub open spec fn volume_bytes(volumes: &Vec<Vec<u8>>) -> Seq<Seq<u8>> {
    Seq::new(volumes@.len(), |v: int| volumes@[v]@)
}

/// What looking up resource `index` gives: the resource, `None` where the
/// directory marks it absent, or the first fault met.
pub open spec fn extract(
    resource_type: AgiResourceType,
    directory: Seq<u8>,
    volumes: Seq<Seq<u8>>,
    index: usize,
) -> Result<Option<ResourceModel>, AgiError> {
    if !has_entry(directory, index as int) {
        Err(AgiError::Parse(ParseFault::DirectoryTooShort { index, len: directory.len() as usize }))
    } else {
        let volume = entry_volume(directory[3 * index]);
        let offset = entry_offset(
            directory[3 * index],
            directory[3 * index + 1],
            directory[3 * index + 2],
        );
        if volume == ABSENT_VOLUME {
            Ok(None)
        } else if volume >= volumes.len() {
            Err(AgiError::Parse(ParseFault::InvalidVolume { volume: volume as u8 }))
        } else if offset + RECORD_HEADER_LEN > volumes[volume].len() {
            Err(
                AgiError::Parse(
                    ParseFault::VolumeTooShort {
                        volume: volume as u8,
                        needed: (offset + RECORD_HEADER_LEN) as usize,
                    },
                ),
            )
        } else if le_u16(volumes[volume], offset) != RECORD_SIGNATURE {
            Err(
                AgiError::Parse(
                    ParseFault::BadSignature { found: le_u16(volumes[volume], offset) as u16 },
                ),
            )
        } else {
            let end = offset + RECORD_HEADER_LEN + le_u16(volumes[volume], offset + 3);
            if end > volumes[volume].len() {
                Err(
                    AgiError::Parse(
                        ParseFault::VolumeTooShort { volume: volume as u8, needed: end as usize },
                    ),
                )
            } else {
                Ok(
                    Some(
                        ResourceModel {
                            resource_type,
                            resource_index: index,
                            vol_file: volume as u8,
                            vol_file_offset: offset as usize,
                            raw_data: volumes[volume].subrange(offset + RECORD_HEADER_LEN, end),
                        },
                    ),
                )
            }
        }
    }
}

/// An entry whose volume number is `0xF` yields no resource and no
/// fault, whatever the volumes hold.
pub proof fn lemma_absent_entry(
    resource_type: AgiResourceType,
    directory: Seq<u8>,
    volumes: Seq<Seq<u8>>,
    index: usize,
)
    requires
        has_entry(directory, index as int),
        directory[3 * index] >= 0xF0,
    ensures
        extract(resource_type, directory, volumes, index) == Ok::<Option<ResourceModel>, AgiError>(
            None,
        ),
{
}

/// A record that does not start with the bytes `0x12`, `0x34` is a parse
/// fault that names the two bytes found, read little-endian.
pub proof fn lemma_bad_signature(
    resource_type: AgiResourceType,
    directory: Seq<u8>,
    volumes: Seq<Seq<u8>>,
    index: usize,
)
    requires
        has_entry(directory, index as int),
        entry_volume(directory[3 * index]) < volumes.len(),
        entry_volume(directory[3 * index]) != ABSENT_VOLUME,
        entry_offset(directory[3 * index], directory[3 * index + 1], directory[3 * index + 2])
            + RECORD_HEADER_LEN <= volumes[entry_volume(directory[3 * index])].len(),
        volumes[entry_volume(directory[3 * index])][entry_offset(
            directory[3 * index],
            directory[3 * index + 1],
            directory[3 * index + 2],
        )] != 0x12 || volumes[entry_volume(directory[3 * index])][entry_offset(
            directory[3 * index],
            directory[3 * index + 1],
            directory[3 * index + 2],
        ) + 1] != 0x34,
    ensures
        extract(resource_type, directory, volumes, index) == Err::<Option<ResourceModel>, AgiError>(
            AgiError::Parse(
                ParseFault::BadSignature {
                    found: le_u16(
                        volumes[entry_volume(directory[3 * index])],
                        entry_offset(
                            directory[3 * index],
                            directory[3 * index + 1],
                            directory[3 * index + 2],
                        ),
                    ) as u16,
                },
            ),
        ),
{
}

/// The outcome of a lookup with the resource replaced by its content.
pub open spec fn outcome_model(r: Result<Option<Resource>, AgiError>) -> Result<
    Option<ResourceModel>,
    AgiError,
> {
    match r {
        Ok(Some(resource)) => Ok(Some(resource@)),
        Ok(None) => Ok(None),
        Err(e) => Err(e),
    }
}

/// Calls `byteorder::LittleEndian::read_u16`, which reads the first two
/// bytes of `buf` as a little-endian number: the first byte is the low
/// one. The call panics on a shorter buffer, which `requires` rules out.
#[verifier::external_body]
fn read_u16_le(buf: &[u8]) -> (value: u16)
    requires
        buf@.len() >= 2,
    ensures
        value == le_u16(buf@, 0),
{
    LittleEndian::read_u16(buf)
}

impl Resource {
    /// The payload bytes.
    pub fn get_raw_data(&self) -> (data: &Vec<u8>)
        ensures
            data@ == self@.raw_data,
    {
        &self.raw_data
    }

    /// What the resource holds.
    pub fn resource_type(&self) -> (kind: AgiResourceType)
        ensures
            kind == self@.resource_type,
    {
        self.resource_type
    }

    /// Number of the resource in its directory.
    pub fn resource_index(&self) -> (index: usize)
        ensures
            index == self@.resource_index,
    {
        self.resource_index
    }

    /// Number of the volume the resource was found in.
    pub fn vol_file(&self) -> (volume: u8)
        ensures
            volume == self@.vol_file,
    {
        self.vol_file
    }

    /// Position of the record in its volume.
    pub fn vol_file_offset(&self) -> (offset: usize)
        ensures
            offset == self@.vol_file_offset,
    {
        self.vol_file_offset
    }

    /// Looks up resource `resource_index` in the directory and copies its
    /// payload out of the volume that the entry names.
    pub fn new(
        resource_type: AgiResourceType,
        directory_file_stream: &Vec<u8>,
        resource_index: usize,
        volume_files: &Vec<Vec<u8>>,
    ) -> (r: Result<Option<Self>, AgiError>)
        ensures
            outcome_model(r) == extract(
                resource_type,
                directory_file_stream@,
                volume_bytes(volume_files),
                resource_index,
            ),
    {
        let entry = match DirectoryEntry::read(directory_file_stream, resource_index) {
            Ok(entry) => entry,
            Err(e) => {
                return Err(e);
            },
        };
        let vol_file: u8 = entry.volume;
        let vol_file_offset: usize = entry.offset;
        if vol_file == ABSENT_VOLUME {
            return Ok(None);
        }
        if vol_file as usize >= volume_files.len() {
            return Err(AgiError::Parse(ParseFault::InvalidVolume { volume: vol_file }));
        }
        let my_vol_file_data: &Vec<u8> = &volume_files[vol_file as usize];
        let len: usize = my_vol_file_data.len();
        if len < RECORD_HEADER_LEN || vol_file_offset > len - RECORD_HEADER_LEN {
            return Err(
                AgiError::Parse(
                    ParseFault::VolumeTooShort {
                        volume: vol_file,
                        needed: vol_file_offset + RECORD_HEADER_LEN,
                    },
                ),
            );
        }
        let bytes: &[u8] = my_vol_file_data.as_slice();
        let signature: u16 = read_u16_le(
            slice_subrange(bytes, vol_file_offset, vol_file_offset + 2),
        );
        let resource_len: usize = read_u16_le(
            slice_subrange(bytes, vol_file_offset + 3, vol_file_offset + 5),
        ) as usize;
        if signature != RECORD_SIGNATURE {
            return Err(AgiError::Parse(ParseFault::BadSignature { found: signature }));
        }
        let start: usize = vol_file_offset + RECORD_HEADER_LEN;
        if resource_len > len - start {
            return Err(
                AgiError::Parse(
                    ParseFault::VolumeTooShort { volume: vol_file, needed: start + resource_len },
                ),
            );
        }
        let raw_data: Vec<u8> = slice_to_vec(slice_subrange(bytes, start, start + resource_len));
        Ok(Some(Self { resource_type, resource_index, vol_file, vol_file_offset, raw_data }))
    }
}

} // verus!
