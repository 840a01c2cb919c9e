use agi_pic::common::AgiError;
use agi_pic::common::ParseFault;
use agi_pic::game::Game;
use agi_pic::resource::AgiResourceType;
use agi_pic::resource::DirectoryEntry;
use agi_pic::resource::Resource;
use byteorder::ByteOrder;
use byteorder::LittleEndian;

/// A volume that holds one record at `offset`, with `payload` behind a
/// header that starts with the two given signature bytes.
fn volume_with_record(offset: usize, signature: [u8; 2], payload: &[u8]) -> Vec<u8> {
    let mut volume = vec![0u8; offset];
    volume.push(signature[0]);
    volume.push(signature[1]);
    volume.push(0);
    volume.push((payload.len() & 0xFF) as u8);
    volume.push((payload.len() >> 8) as u8);
    volume.extend_from_slice(payload);
    volume
}

#[test]
fn directory_entry_decodes_volume_and_offset() {
    let entry = DirectoryEntry::decode(0x12, 0x3D, 0xFE);
    assert_eq!(entry.volume, 1);
    assert_eq!(entry.offset, 0x23DFE);
}

#[test]
fn directory_entry_read_picks_the_indexed_entry() {
    let directory = vec![0x00, 0x00, 0x00, 0x12, 0x3D, 0xFE, 0xFF, 0xFF, 0xFF];
    assert_eq!(
        DirectoryEntry::read(&directory, 1),
        Ok(DirectoryEntry { volume: 1, offset: 0x23DFE })
    );
    assert_eq!(
        DirectoryEntry::read(&directory, 2),
        Ok(DirectoryEntry { volume: 0xF, offset: 0xFFFFF })
    );
    assert_eq!(
        DirectoryEntry::read(&directory, 3),
        Err(AgiError::Parse(ParseFault::DirectoryTooShort { index: 3, len: 9 }))
    );
}

#[test]
fn resource_is_found_in_the_volume_the_entry_names() {
    let directory = vec![0x12, 0x3D, 0xFE];
    let volumes = vec![vec![], volume_with_record(0x23DFE, [0x12, 0x34], &[0xF0, 0x01, 0xFF])];
    let resource = Resource::new(AgiResourceType::Picture, &directory, 0, &volumes)
        .unwrap()
        .unwrap();
    assert_eq!(resource.vol_file(), 1);
    assert_eq!(resource.vol_file_offset(), 0x23DFE);
    assert_eq!(resource.resource_index(), 0);
    assert_eq!(resource.resource_type(), AgiResourceType::Picture);
    assert_eq!(resource.get_raw_data(), &vec![0xF0, 0x01, 0xFF]);
}

#[test]
fn absent_entry_yields_no_resource() {
    let directory = vec![0xFF, 0xFF, 0xFF];
    let volumes: Vec<Vec<u8>> = vec![];
    let found = Resource::new(AgiResourceType::Picture, &directory, 0, &volumes);
    assert!(matches!(found, Ok(None)));
}

#[test]
fn absent_entry_is_not_looked_up_even_with_volumes() {
    let directory = vec![0xF0, 0x00, 0x00];
    let volumes = vec![volume_with_record(0, [0x12, 0x34], &[1, 2, 3])];
    let found = Resource::new(AgiResourceType::Picture, &directory, 0, &volumes);
    assert!(matches!(found, Ok(None)));
}

#[test]
fn wrong_signature_is_a_parse_error_naming_what_was_found() {
    let directory = vec![0x00, 0x00, 0x00];
    let volumes = vec![volume_with_record(0, [0x34, 0x12], &[1, 2, 3])];
    let found = Resource::new(AgiResourceType::Picture, &directory, 0, &volumes);
    assert_eq!(
        found.err(),
        Some(AgiError::Parse(ParseFault::BadSignature { found: 0x1234 }))
    );
}

#[test]
fn signature_is_read_little_endian() {
    let directory = vec![0x00, 0x00, 0x00];
    let volumes = vec![volume_with_record(0, [0xCD, 0xAB], &[])];
    let found = Resource::new(AgiResourceType::Picture, &directory, 0, &volumes);
    assert_eq!(
        found.err(),
        Some(AgiError::Parse(ParseFault::BadSignature { found: 0xABCD }))
    );
}

#[test]
fn payload_length_is_read_little_endian() {
    let payload: Vec<u8> = (0..258u32).map(|i| (i % 251) as u8).collect();
    let directory = vec![0x00, 0x00, 0x04];
    let volumes = vec![volume_with_record(4, [0x12, 0x34], &payload)];
    let resource = Resource::new(AgiResourceType::View, &directory, 0, &volumes)
        .unwrap()
        .unwrap();
    assert_eq!(resource.get_raw_data().len(), 258);
    assert_eq!(resource.get_raw_data(), &payload);
    assert_eq!(resource.resource_type(), AgiResourceType::View);
}

#[test]
fn payload_stops_at_its_length() {
    let directory = vec![0x00, 0x00, 0x00];
    let mut volume = volume_with_record(0, [0x12, 0x34], &[7, 8]);
    volume.extend_from_slice(&[9, 9, 9]);
    let volumes = vec![volume];
    let resource = Resource::new(AgiResourceType::Picture, &directory, 0, &volumes)
        .unwrap()
        .unwrap();
    assert_eq!(resource.get_raw_data(), &vec![7, 8]);
}

#[test]
fn truncated_directory_is_a_parse_error() {
    let directory = vec![0x00, 0x00, 0x00, 0x00, 0x00];
    let volumes = vec![volume_with_record(0, [0x12, 0x34], &[])];
    let found = Resource::new(AgiResourceType::Picture, &directory, 1, &volumes);
    assert_eq!(
        found.err(),
        Some(AgiError::Parse(ParseFault::DirectoryTooShort { index: 1, len: 5 }))
    );
    let empty: Vec<u8> = vec![];
    let found = Resource::new(AgiResourceType::Picture, &empty, 0, &volumes);
    assert_eq!(
        found.err(),
        Some(AgiError::Parse(ParseFault::DirectoryTooShort { index: 0, len: 0 }))
    );
}

#[test]
fn huge_index_is_a_parse_error() {
    let directory = vec![0x00, 0x00, 0x00];
    let volumes: Vec<Vec<u8>> = vec![];
    let found = Resource::new(AgiResourceType::Picture, &directory, usize::MAX, &volumes);
    assert_eq!(
        found.err(),
        Some(AgiError::Parse(ParseFault::DirectoryTooShort { index: usize::MAX, len: 3 }))
    );
}

#[test]
fn missing_volume_is_a_parse_error() {
    let directory = vec![0x20, 0x00, 0x00];
    let volumes = vec![volume_with_record(0, [0x12, 0x34], &[]), vec![]];
    let found = Resource::new(AgiResourceType::Picture, &directory, 0, &volumes);
    assert_eq!(
        found.err(),
        Some(AgiError::Parse(ParseFault::InvalidVolume { volume: 2 }))
    );
}

#[test]
fn short_header_is_a_parse_error() {
    let directory = vec![0x00, 0x00, 0x02];
    let volumes = vec![vec![0, 0, 0x12, 0x34, 0, 0]];
    let found = Resource::new(AgiResourceType::Picture, &directory, 0, &volumes);
    assert_eq!(
        found.err(),
        Some(AgiError::Parse(ParseFault::VolumeTooShort { volume: 0, needed: 7 }))
    );
}

#[test]
fn short_payload_is_a_parse_error() {
    let directory = vec![0x00, 0x00, 0x00];
    let mut volume = volume_with_record(0, [0x12, 0x34], &[1, 2, 3, 4]);
    volume.pop();
    let volumes = vec![volume];
    let found = Resource::new(AgiResourceType::Picture, &directory, 0, &volumes);
    assert_eq!(
        found.err(),
        Some(AgiError::Parse(ParseFault::VolumeTooShort { volume: 0, needed: 9 }))
    );
}

#[test]
fn errors_describe_their_kind() {
    let parse = AgiError::Parse(ParseFault::InvalidVolume { volume: 3 });
    assert_eq!(parse.describe(), "Parse error");
    let render = AgiError::Render(agi_pic::common::RenderFault::PixelOutOfRange { x: 200, y: 1 });
    assert_eq!(render.describe(), "Render error");
}

#[test]
fn game_collects_pictures_and_faults_in_directory_order() {
    // Entry 0: a picture at offset 0. Entry 1: absent. Entry 2: bad volume.
    // Entry 3: a picture behind the first. Then two stray bytes.
    let first = volume_with_record(0, [0x12, 0x34], &[0xF0, 0x02, 0xFF]);
    let second_at = first.len();
    let mut volume = first;
    volume.extend_from_slice(&volume_with_record(0, [0x12, 0x34], &[0xF8, 0x0A, 0x0B]));
    let directory = vec![
        0x00, 0x00, 0x00, 0xFF, 0xFF, 0xFF, 0x50, 0x00, 0x00, 0x00, 0x00, second_at as u8, 0x00,
        0x00,
    ];
    let (game, faults) = Game::new_from_data("somewhere".to_string(), &directory, &vec![volume]);
    assert_eq!(game.dir_name, "somewhere");
    assert_eq!(game.all_resources.len(), 2);
    assert_eq!(game.pic_resources.len(), 2);
    assert_eq!(game.all_resources[0].get_raw_data(), &vec![0xF0, 0x02, 0xFF]);
    assert_eq!(game.all_resources[1].get_raw_data(), &vec![0xF8, 0x0A, 0x0B]);
    assert_eq!(game.all_resources[1].resource_index(), 3);
    assert_eq!(game.pic_resources[0].get_instructions().len(), 2);
    assert_eq!(game.pic_resources[1].get_instructions().len(), 1);
    assert_eq!(
        faults,
        vec![
            (6, AgiError::Parse(ParseFault::InvalidVolume { volume: 5 })),
            (12, AgiError::Parse(ParseFault::DirectoryTooShort { index: 4, len: 14 })),
        ]
    );
}

#[test]
fn game_of_an_empty_directory_is_empty() {
    let (game, faults) = Game::new_from_data(String::new(), &vec![], &vec![]);
    assert!(game.all_resources.is_empty());
    assert!(game.pic_resources.is_empty());
    assert!(faults.is_empty());
}

#[test]
fn generate_sample_files() {
    // Packs a few pictures into one volume with its directory, then reads
    // every one of them back.
    let pictures: Vec<Vec<u8>> = vec![
        vec![0xF0, 0x01, 0xF6, 10, 10, 20, 10, 0xFF],
        vec![],
        (0..300u32).map(|i| (i % 0xF0) as u8).collect(),
        vec![0xF8, 1, 1],
    ];

    let mut offset = 0usize;
    let mut volume_data: Vec<u8> = vec![];
    let mut picdir_data: Vec<u8> = vec![];

    let sig = [0x12u8, 0x34u8];

    for raw_data in pictures.iter() {
        let index_data = [
            (offset >> 16 & 0x0Fusize) as u8,
            (offset >> 8 & 0xFFusize) as u8,
            (offset & 0xFFusize) as u8,
        ];
        picdir_data.extend(&index_data[..]);

        // Write signature
        volume_data.extend(sig);

        // Write volume index
        volume_data.push(0);

        // Write resource length
        let mut len = [0u8; 2];
        LittleEndian::write_u16(&mut len, raw_data.len() as u16);
        volume_data.extend(len);

        // Write data
        volume_data.extend(raw_data);

        offset += raw_data.len() + 5;
    }

    assert_eq!(picdir_data.len(), 12);
    assert_eq!(volume_data.len(), offset);
    let volumes = vec![volume_data];
    let mut expected_offset = 0;
    for (index, raw_data) in pictures.iter().enumerate() {
        let resource = Resource::new(AgiResourceType::Picture, &picdir_data, index, &volumes)
            .unwrap()
            .unwrap();
        assert_eq!(resource.get_raw_data(), raw_data);
        assert_eq!(resource.vol_file(), 0);
        assert_eq!(resource.vol_file_offset(), expected_offset);
        assert_eq!(resource.resource_index(), index);
        expected_offset += raw_data.len() + 5;
    }
    let (game, faults) = Game::new_from_data("samples".to_string(), &picdir_data, &volumes);
    assert!(faults.is_empty());
    assert_eq!(game.all_resources.len(), 4);
    assert_eq!(game.pic_resources[0].get_instructions().len(), 3);
    assert_eq!(game.pic_resources[1].get_instructions().len(), 0);
}
