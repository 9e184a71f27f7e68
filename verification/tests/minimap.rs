use bson::spec::BinarySubtype;
use bson::{Binary, Bson, Document};
use furina::blocks::generate_block_color;
use furina::minimap::{
    decode_minimap_from_gwc, is_compressed_in_bounds, is_world_in_bounds, minimap_of_world,
    minimap_status, tiles_of_layer, try_decode_minimap_from_gwc, MinimapData, MinimapStatus,
};
use furina::record::{Record, Value};

const SKY: [u8; 3] = [135, 206, 235];

fn binary(bytes: Vec<u8>) -> Bson {
    Bson::Binary(Binary { subtype: BinarySubtype::Generic, bytes })
}

fn world(width: i32, height: i32, layer: Vec<u8>) -> Document {
    let mut settings = Document::new();
    settings.insert("WorldSizeX", width);
    settings.insert("WorldSizeY", height);
    let mut doc = Document::new();
    doc.insert("WorldSizeSettingsType", settings);
    doc.insert("BlockLayer", binary(layer));
    doc
}

fn compressed(doc: &Document) -> Vec<u8> {
    let mut bytes = Vec::new();
    doc.to_writer(&mut bytes).unwrap();
    zstd::encode_all(&bytes[..], 3).unwrap()
}

fn record(fields: Vec<(&str, Value)>) -> Record {
    Record { fields: fields.into_iter().map(|(k, v)| (k.to_string(), v)).collect() }
}

#[test]
fn listed_blocks_have_their_colors() {
    assert_eq!(generate_block_color(0), SKY);
    assert_eq!(generate_block_color(1), [182, 106, 37]);
    assert_eq!(generate_block_color(2735), [182, 106, 37]);
    assert_eq!(generate_block_color(344), [86, 76, 66]);
    assert_eq!(generate_block_color(110), [146, 170, 164]);
    assert_eq!(generate_block_color(4761), [124, 124, 124]);
    for id in 5035..=5042 {
        assert_eq!(generate_block_color(id), [77, 59, 57]);
    }
}

#[test]
fn other_blocks_have_derived_colors() {
    assert_eq!(generate_block_color(2), [170, 50, 166]);
    assert_eq!(generate_block_color(5034), [114, 154, 30]);
    let mut shifted = 0;
    for id in 0..=u16::MAX {
        let r = ((id as u32 * 85) % 256) as u8;
        let g = ((id as u32 * 153) % 256) as u8;
        let b = ((id as u32 * 211) % 256) as u8;
        let near = (r as i32 - 135).abs() + (g as i32 - 206).abs() + (b as i32 - 235).abs() < 50;
        if near && generate_block_color(id) == [r.wrapping_add(128), g.wrapping_add(64), b.wrapping_add(32)] {
            shifted += 1;
        }
    }
    assert!(shifted > 0);
}

#[test]
fn only_air_looks_like_the_sky() {
    for id in 1..=u16::MAX {
        let c = generate_block_color(id);
        let distance = (c[0] as i32 - 135).abs() + (c[1] as i32 - 206).abs() + (c[2] as i32 - 235).abs();
        assert!(distance >= 50, "{}", id);
    }
}

#[test]
fn rows_are_shown_from_the_top_down() {
    // The bottom row is granite and lava, the top row obsidian and air.
    let layer = vec![4, 0, 7, 0, 9, 0, 0, 0];
    let m = decode_minimap_from_gwc(&compressed(&world(2, 2, layer))).unwrap();
    assert_eq!(
        m,
        MinimapData {
            width: 2,
            height: 2,
            colors: vec![[67, 41, 58], SKY, [69, 69, 73], [220, 87, 22]],
        }
    );
    assert_eq!(m.tile_color(0, 0), [67, 41, 58]);
    assert_eq!(m.tile_color(1, 1), [220, 87, 22]);
}

#[test]
fn block_numbers_have_the_lower_byte_first() {
    assert_eq!(tiles_of_layer(1, 1, &[0x57, 0x01]), vec![[86, 76, 66]]);
    assert_eq!(tiles_of_layer(1, 1, &[0xAF, 0x0A]), vec![[182, 106, 37]]);
}

#[test]
fn missing_blocks_are_sky() {
    assert_eq!(tiles_of_layer(2, 2, &[4, 0, 4]), vec![SKY, SKY, [69, 69, 73], SKY]);
    assert_eq!(tiles_of_layer(2, 1, &[]), vec![SKY, SKY]);
    assert_eq!(tiles_of_layer(1, 1, &[4, 0, 7, 0]), vec![[69, 69, 73]]);
    assert_eq!(tiles_of_layer(0, 5, &[4, 0]), Vec::<[u8; 3]>::new());
    assert_eq!(tiles_of_layer(5, 0, &[4, 0]), Vec::<[u8; 3]>::new());
}

#[test]
fn undecodable_worlds_are_explained() {
    let e = decode_minimap_from_gwc(b"not compressed").unwrap_err();
    assert!(e.starts_with("zstd decode failed: "), "{}", e);
    assert!(e.len() > "zstd decode failed: ".len());
    let e = decode_minimap_from_gwc(&zstd::encode_all(&b"\x01\x00"[..], 3).unwrap()).unwrap_err();
    assert_eq!(
        e,
        format!(
            "bson decode failed: {}",
            Document::from_reader(&b"\x01\x00"[..]).unwrap_err()
        )
    );
}

#[test]
fn incomplete_worlds_are_explained() {
    let explain = |doc: &Document| decode_minimap_from_gwc(&compressed(doc)).unwrap_err();
    assert_eq!(explain(&Document::new()), "missing world size: field is not present");
    let mut doc = world(1, 1, vec![0, 0]);
    doc.insert("WorldSizeSettingsType", 1i32);
    assert_eq!(explain(&doc), "missing world size: field does not have the expected type");
    let mut doc = world(1, 1, vec![0, 0]);
    doc.get_document_mut("WorldSizeSettingsType").unwrap().remove("WorldSizeX");
    assert_eq!(explain(&doc), "missing width: field is not present");
    doc.get_document_mut("WorldSizeSettingsType").unwrap().insert("WorldSizeX", 1i64);
    assert_eq!(explain(&doc), "missing width: field does not have the expected type");
    let mut doc = world(1, 1, vec![0, 0]);
    doc.get_document_mut("WorldSizeSettingsType").unwrap().remove("WorldSizeY");
    assert_eq!(explain(&doc), "missing height: field is not present");
    doc.get_document_mut("WorldSizeSettingsType").unwrap().insert("WorldSizeY", "1");
    assert_eq!(explain(&doc), "missing height: field does not have the expected type");
    let mut doc = world(1, 1, vec![0, 0]);
    doc.remove("BlockLayer");
    assert_eq!(explain(&doc), "missing block layer");
    doc.insert("BlockLayer", "blocks");
    assert_eq!(explain(&doc), "missing block layer");
}

#[test]
fn access_errors_have_the_texts_of_the_format() {
    let doc = world(1, 1, vec![]);
    assert_eq!(doc.get_i32("nothing").unwrap_err().to_string(), "field is not present");
    assert_eq!(
        doc.get_i32("BlockLayer").unwrap_err().to_string(),
        "field does not have the expected type"
    );
}

#[test]
fn worlds_beyond_memory_are_told_apart() {
    for (w, h) in [(-1, 1), (i32::MAX, i32::MAX), (-1, -1), (i32::MIN, 2)] {
        let bytes = compressed(&world(w, h, vec![]));
        assert!(!is_compressed_in_bounds(&bytes));
        assert_eq!(try_decode_minimap_from_gwc(&bytes), None);
    }
    let bytes = compressed(&world(1, 1, vec![]));
    assert!(is_compressed_in_bounds(&bytes));
    assert_eq!(
        try_decode_minimap_from_gwc(&bytes),
        Some(Ok(MinimapData { width: 1, height: 1, colors: vec![SKY] }))
    );
    assert!(is_compressed_in_bounds(b"not compressed"));
}

#[test]
fn negative_dimensions_wrap_around() {
    let m = decode_minimap_from_gwc(&compressed(&world(-1, 0, vec![]))).unwrap();
    assert_eq!(m, MinimapData { width: usize::MAX, height: 0, colors: vec![] });
    let m = decode_minimap_from_gwc(&compressed(&world(0, i32::MIN, vec![]))).unwrap();
    assert_eq!(m.height, i32::MIN as usize);
    assert_eq!(m.colors, Vec::<[u8; 3]>::new());
}

#[test]
fn worlds_can_be_given_as_records() {
    let world = record(vec![
        ("BlockLayer", Value::Binary(vec![7, 0])),
        (
            "WorldSizeSettingsType",
            Value::Nested(record(vec![
                ("WorldSizeX", Value::Int32(1)),
                ("WorldSizeY", Value::Int32(1)),
            ])),
        ),
    ]);
    assert!(is_world_in_bounds(&world));
    assert_eq!(minimap_of_world(&world).unwrap().colors, vec![[220, 87, 22]]);
}

#[test]
fn status_says_what_is_shown() {
    assert_eq!(minimap_status(None), MinimapStatus::Waiting);
    assert_eq!(minimap_status(Some(&MinimapData::default())), MinimapStatus::NotReady);
    let flat = MinimapData { width: 3, height: 0, colors: vec![] };
    assert_eq!(minimap_status(Some(&flat)), MinimapStatus::NotReady);
    let m = MinimapData { width: 2, height: 1, colors: vec![SKY, SKY] };
    assert_eq!(minimap_status(Some(&m)), MinimapStatus::Ready("2 x 1".to_string()));
}
