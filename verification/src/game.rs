//! The pictures of one game, read from its picture directory and its
//! volumes.

use vstd::prelude::*;
use crate::common::AgiError;
use crate::pic::decode_program;
use crate::pic::InstructionModel;
use crate::pic::PicResource;
use crate::resource::extract;
use crate::resource::volume_bytes;
use crate::resource::AgiResourceType;
use crate::resource::Resource;
use crate::resource::ResourceModel;

verus! {

/// A game: where it was read from, its pictures decoded, and the
/// resources they were decoded from, both in directory order.
#[derive(Debug)]
pub struct Game {
    pub dir_name: String,
    pub pic_resources: Vec<PicResource>,
    pub all_resources: Vec<Resource>,
}

/// What a picture directory yields: the resources found, the program of
/// each, and for every entry that could not be read its position in the
/// directory and the fault.
pub ghost struct Catalog {
    pub resources: Seq<ResourceModel>,
    pub pictures: Seq<Seq<InstructionModel>>,
    pub faults: Seq<(usize, AgiError)>,
}

/// Number of entries that a directory of `len` bytes starts: one for
/// every third byte, so a cut-off last entry counts.
pub open spec fn entry_count(len: int) -> int {
    (len + 2) / 3
}

/// The catalog of the first `count` entries of a picture directory.
/// Entries marked absent are passed over.
pub open spec fn catalog(directory: Seq<u8>, volumes: Seq<Seq<u8>>, count: int) -> Catalog
    decreases count,
{
    if count <= 0 {
        Catalog { resources: Seq::empty(), pictures: Seq::empty(), faults: Seq::empty() }
    } else {
        let before = catalog(directory, volumes, count - 1);
        let index = (count - 1) as usize;
        match extract(AgiResourceType::Picture, directory, volumes, index) {
            Ok(Some(found)) => Catalog {
                resources: before.resources.push(found),
                pictures: before.pictures.push(decode_program(found.raw_data, 0)),
                ..before
            },
            Ok(None) => before,
            Err(e) => Catalog { faults: before.faults.push(((3 * index) as usize, e)), ..before },
        }
    }
}

/// The content of each resource, in order.
pub open spec fn resource_models(resources: Seq<Resource>) -> Seq<ResourceModel> {
    Seq::new(resources.len(), |i: int| resources[i]@)
}

/// The program of each picture, in order.
pub open spec fn picture_models(pictures: Seq<PicResource>) -> Seq<Seq<InstructionModel>> {
    Seq::new(pictures.len(), |i: int| pictures[i]@)
}

impl Game {
    /// Reads every picture that the directory `pic_data` names out of
    /// `volume_data`. Entries that cannot be read are left out of the
    /// game and returned with their position in the directory.
    pub fn new_from_data(dir_name: String, pic_data: &Vec<u8>, volume_data: &Vec<Vec<u8>>) -> (r: (
        Game,
        Vec<(usize, AgiError)>,
    ))
        ensures
            r.0.dir_name == dir_name,
            resource_models(r.0.all_resources@) == catalog(
                pic_data@,
                volume_bytes(volume_data),
                entry_count(pic_data@.len() as int),
            ).resources,
            picture_models(r.0.pic_resources@) == catalog(
                pic_data@,
                volume_bytes(volume_data),
                entry_count(pic_data@.len() as int),
            ).pictures,
            r.1@ == catalog(
                pic_data@,
                volume_bytes(volume_data),
                entry_count(pic_data@.len() as int),
            ).faults,
    {
        let mut pic_resources: Vec<PicResource> = Vec::new();
        let mut all_resources: Vec<Resource> = Vec::new();
        let mut faults: Vec<(usize, AgiError)> = Vec::new();
        let len: usize = pic_data.len();
        let count: usize = if len % 3 == 0 {
            len / 3
        } else {
            len / 3 + 1
        };
        let mut index: usize = 0;
        while index < count
            invariant
                index <= count,
                len == pic_data@.len(),
                count == entry_count(pic_data@.len() as int),
                3 * count <= pic_data@.len() + 2,
                resource_models(all_resources@) == catalog(
                    pic_data@,
                    volume_bytes(volume_data),
                    index as int,
                ).resources,
                picture_models(pic_resources@) == catalog(
                    pic_data@,
                    volume_bytes(volume_data),
                    index as int,
                ).pictures,
                faults@ == catalog(pic_data@, volume_bytes(volume_data), index as int).faults,
            decreases count - index,
        {
            let offset: usize = index * 3;
            match Resource::new(AgiResourceType::Picture, pic_data, index, volume_data) {
                Ok(Some(val)) => {
                    let picture = PicResource::new(val.get_raw_data()).unwrap();
                    pic_resources.push(picture);
                    all_resources.push(val);
                },
                Ok(None) => {},
                Err(err) => {
                    faults.push((offset, err));
                },
            }
            index += 1;
        }
        (Game { dir_name, pic_resources, all_resources }, faults)
    }
}

} // verus!
