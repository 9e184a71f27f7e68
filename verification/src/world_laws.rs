//! What holds of worlds and their minimaps.

use vstd::prelude::*;

use crate::blocks::{block_color, derived_color, listed_color, sky_distance};
use crate::codec::{decompressed, document_read};
use crate::minimap::{
    compressed_fits, compressed_minimap, dimensions_text, lemma_tile_shows_block, world_fits,
    world_minimap, MinimapModel,
};
use crate::numbers::decimal_nat;
use crate::record::{field, RecordModel, ValueModel};

verus! {

/// The colour of a block that the layer gives by two bytes, the lower one first.
pub open spec fn color_of_bytes(low: u8, high: u8) -> Seq<u8> {
    block_color((low + 256 * high) as u16)
}

/// The minimap of a world is as wide and as high as its settings say, has one tile for each block,
/// and shows the block in column `x`, `y` rows above the bottom, in column `x` of the row that is
/// as many rows above its own bottom. Blocks that the layer does not reach are sky. A negative
/// dimension counts modulo the range of addresses.
pub proof fn lemma_minimap_has_the_dimensions_of_the_world(
    world: RecordModel,
    settings: RecordModel,
    size_x: i32,
    size_y: i32,
    layer: Seq<u8>,
    width: int,
    height: int,
    x: int,
    y: int,
)
    requires
        field(world, "WorldSizeSettingsType"@) == Some(ValueModel::Nested(settings)),
        field(settings, "WorldSizeX"@) == Some(ValueModel::Int32(size_x)),
        field(settings, "WorldSizeY"@) == Some(ValueModel::Int32(size_y)),
        field(world, "BlockLayer"@) == Some(ValueModel::Binary(layer)),
        0 <= width <= usize::MAX,
        width == size_x || width == size_x + usize::MAX + 1,
        0 <= height <= usize::MAX,
        height == size_y || height == size_y + usize::MAX + 1,
    ensures
        world_fits(world) <==> width * height * 3 <= isize::MAX,
        world_minimap(world) matches Ok(m) && {
            &&& m.width == width
            &&& m.height == height
            &&& m.colors.len() == width * height
            &&& m.wf()
            &&& 0 <= x < width && 0 <= y < height ==> {
                let tile = m.colors[(height - 1 - y) * width + x];
                let at = 2 * (y * width + x);
                &&& tile == m.tile(x, height - 1 - y)
                &&& at + 1 < layer.len() ==> tile == color_of_bytes(layer[at], layer[at + 1])
                &&& at + 1 >= layer.len() ==> tile == seq![135u8, 206u8, 235u8]
            }
        },
{
    if 0 <= x < width && 0 <= y < height {
        lemma_tile_shows_block(width as nat, height as nat, layer, x, y);
    }
}

/// A world without its size, its width, its height or its block layer has no minimap, and the
/// error names the first of them that is missing and says whether the field is there at all.
pub proof fn lemma_incomplete_worlds_have_no_minimap(world: RecordModel)
    ensures
        match field(world, "WorldSizeSettingsType"@) {
            None => world_minimap(world) == Err::<MinimapModel, Seq<char>>(
                "missing world size: "@ + "field is not present"@,
            ),
            Some(ValueModel::Nested(settings)) => match field(settings, "WorldSizeX"@) {
                None => world_minimap(world) == Err::<MinimapModel, Seq<char>>(
                    "missing width: "@ + "field is not present"@,
                ),
                Some(ValueModel::Int32(_)) => match field(settings, "WorldSizeY"@) {
                    None => world_minimap(world) == Err::<MinimapModel, Seq<char>>(
                        "missing height: "@ + "field is not present"@,
                    ),
                    Some(ValueModel::Int32(_)) => field(world, "BlockLayer"@) !is Some || field(
                        world,
                        "BlockLayer"@,
                    )->0 !is Binary ==> world_minimap(world) == Err::<MinimapModel, Seq<char>>(
                        "missing block layer"@,
                    ),
                    Some(_) => world_minimap(world) == Err::<MinimapModel, Seq<char>>(
                        "missing height: "@ + "field does not have the expected type"@,
                    ),
                },
                Some(_) => world_minimap(world) == Err::<MinimapModel, Seq<char>>(
                    "missing width: "@ + "field does not have the expected type"@,
                ),
            },
            Some(_) => world_minimap(world) == Err::<MinimapModel, Seq<char>>(
                "missing world size: "@ + "field does not have the expected type"@,
            ),
        },
        world_minimap(world) is Err ==> world_fits(world),
{
}

/// The minimap of compressed bytes is that of the world that they hold. Bytes that cannot be
/// decompressed, or that hold no document, give the reason.
pub proof fn lemma_compressed_worlds_are_unpacked(bytes: Seq<u8>)
    ensures
        match decompressed(bytes) {
            Err(why) => compressed_minimap(bytes) == Err::<MinimapModel, Seq<char>>(
                "zstd decode failed: "@ + why,
            ) && compressed_fits(bytes),
            Ok(plain) => match document_read(plain) {
                Err(why) => compressed_minimap(bytes) == Err::<MinimapModel, Seq<char>>(
                    "bson decode failed: "@ + why,
                ) && compressed_fits(bytes),
                Ok(world) => compressed_minimap(bytes) == world_minimap(world) && compressed_fits(
                    bytes,
                ) == world_fits(world),
            },
        },
{
}

/// A tile stands where its row and its column say.
pub proof fn lemma_tiles_are_stored_by_rows(m: MinimapModel, x: int, y: int)
    ensures
        m.tile(x, y) == m.colors[y * m.width + x],
        m.wf() <==> m.colors.len() == m.width * m.height,
        dimensions_text(m) == decimal_nat(m.width) + " x "@ + decimal_nat(m.height),
{
}

/// A block that has no colour of its own has one made of its number: 85 times the number for red,
/// 153 times for green, 211 times for blue, modulo 256. Where that is near the colour of the sky,
/// it is shifted by 128, 64 and 32.
pub proof fn lemma_other_blocks_have_derived_colors(block_id: u16, r: u8, g: u8, b: u8)
    requires
        listed_color(block_id) is None,
        (85 * block_id - r) % 256 == 0,
        (153 * block_id - g) % 256 == 0,
        (211 * block_id - b) % 256 == 0,
    ensures
        ({
            let red = if r < 135 { 135 - r } else { r - 135 };
            let green = if g < 206 { 206 - g } else { g - 206 };
            let blue = if b < 235 { 235 - b } else { b - 235 };
            block_color(block_id) == if red + green + blue < 50 {
                seq![
                    ((r + 128) % 256) as u8,
                    ((g + 64) % 256) as u8,
                    ((b + 32) % 256) as u8,
                ]
            } else {
                seq![r, g, b]
            }
        }),
{
    lemma_remainder(85 * block_id, r);
    lemma_remainder(153 * block_id, g);
    lemma_remainder(211 * block_id, b);
    assert(block_color(block_id) == derived_color(block_id));
    assert(derived_color(block_id) =~= if sky_distance(r as int, g as int, b as int) < 50 {
        seq![((r + 128) % 256) as u8, ((g + 64) % 256) as u8, ((b + 32) % 256) as u8]
    } else {
        seq![r, g, b]
    });
}

proof fn lemma_remainder(n: int, r: u8)
    requires
        (n - r) % 256 == 0,
    ensures
        n % 256 == r,
{
}

/// The blocks that are known by their number are shown in colours of their own.
pub proof fn lemma_known_blocks_have_their_colors()
    ensures
        block_color(0) == seq![135u8, 206u8, 235u8],
        block_color(1) == seq![182u8, 106u8, 37u8],
        block_color(3) == seq![86u8, 76u8, 66u8],
        block_color(4) == seq![69u8, 69u8, 73u8],
        block_color(5) == seq![210u8, 155u8, 94u8],
        block_color(6) == seq![210u8, 155u8, 94u8],
        block_color(7) == seq![220u8, 87u8, 22u8],
        block_color(8) == seq![176u8, 171u8, 168u8],
        block_color(9) == seq![67u8, 41u8, 58u8],
        block_color(10) == seq![47u8, 117u8, 7u8],
        block_color(15) == seq![160u8, 175u8, 202u8],
        block_color(16) == seq![190u8, 103u8, 55u8],
        block_color(19) == seq![148u8, 133u8, 117u8],
        block_color(20) == seq![187u8, 49u8, 27u8],
        block_color(21) == seq![214u8, 174u8, 10u8],
        block_color(22) == seq![211u8, 211u8, 209u8],
        block_color(23) == seq![46u8, 46u8, 43u8],
        block_color(24) == seq![172u8, 91u8, 55u8],
        block_color(30) == seq![114u8, 55u8, 21u8],
        block_color(33) == seq![0u8, 217u8, 0u8],
        block_color(34) == seq![228u8, 213u8, 0u8],
        block_color(35) == seq![0u8, 105u8, 212u8],
        block_color(36) == seq![217u8, 43u8, 0u8],
        block_color(37) == seq![135u8, 72u8, 16u8],
        block_color(75) == seq![175u8, 137u8, 75u8],
        block_color(88) == seq![114u8, 55u8, 21u8],
        block_color(91) == seq![255u8, 255u8, 240u8],
        block_color(95) == seq![216u8, 229u8, 239u8],
        block_color(96) == seq![162u8, 136u8, 84u8],
        block_color(110) == seq![146u8, 170u8, 164u8],
        block_color(319) == seq![31u8, 31u8, 31u8],
        block_color(343) == seq![86u8, 76u8, 66u8],
        block_color(344) == seq![86u8, 76u8, 66u8],
        block_color(410) == seq![39u8, 159u8, 250u8],
        block_color(411) == seq![255u8, 170u8, 34u8],
        block_color(412) == seq![243u8, 72u8, 46u8],
        block_color(413) == seq![255u8, 216u8, 0u8],
        block_color(568) == seq![239u8, 55u8, 231u8],
        block_color(569) == seq![0u8, 190u8, 223u8],
        block_color(1159) == seq![66u8, 229u8, 252u8],
        block_color(1160) == seq![57u8, 250u8, 134u8],
        block_color(1161) == seq![254u8, 166u8, 74u8],
        block_color(1162) == seq![254u8, 109u8, 71u8],
        block_color(1419) == seq![240u8, 105u8, 255u8],
        block_color(1421) == seq![192u8, 66u8, 225u8],
        block_color(1510) == seq![27u8, 100u8, 2u8],
        block_color(1511) == seq![27u8, 100u8, 2u8],
        block_color(1512) == seq![27u8, 100u8, 2u8],
        block_color(1513) == seq![47u8, 117u8, 7u8],
        block_color(1514) == seq![89u8, 121u8, 35u8],
        block_color(1515) == seq![96u8, 96u8, 83u8],
        block_color(1516) == seq![96u8, 96u8, 83u8],
        block_color(1517) == seq![89u8, 43u8, 2u8],
        block_color(1518) == seq![53u8, 121u8, 10u8],
        block_color(1519) == seq![98u8, 40u8, 10u8],
        block_color(1538) == seq![206u8, 206u8, 206u8],
        block_color(1539) == seq![22u8, 22u8, 22u8],
        block_color(1540) == seq![170u8, 170u8, 170u8],
        block_color(1541) == seq![78u8, 83u8, 97u8],
        block_color(1542) == seq![206u8, 206u8, 206u8],
        block_color(1669) == seq![189u8, 127u8, 76u8],
        block_color(1670) == seq![112u8, 144u8, 152u8],
        block_color(1767) == seq![27u8, 196u8, 24u8],
        block_color(2298) == seq![255u8, 113u8, 0u8],
        block_color(2299) == seq![64u8, 64u8, 64u8],
        block_color(2680) == seq![237u8, 108u8, 236u8],
        block_color(2735) == seq![182u8, 106u8, 37u8],
        block_color(4540) == seq![47u8, 117u8, 7u8],
        block_color(4761) == seq![124u8, 124u8, 124u8],
        block_color(5035) == seq![77u8, 59u8, 57u8],
        block_color(5036) == seq![77u8, 59u8, 57u8],
        block_color(5037) == seq![77u8, 59u8, 57u8],
        block_color(5038) == seq![77u8, 59u8, 57u8],
        block_color(5039) == seq![77u8, 59u8, 57u8],
        block_color(5040) == seq![77u8, 59u8, 57u8],
        block_color(5041) == seq![77u8, 59u8, 57u8],
        block_color(5042) == seq![77u8, 59u8, 57u8],
{
}

/// No other block has a colour of its own.
pub proof fn lemma_blocks_with_colors_of_their_own(block_id: u16)
    ensures
        listed_color(block_id) is Some <==> {
            ||| 0 <= block_id <= 1
            ||| 3 <= block_id <= 10
            ||| 15 <= block_id <= 16
            ||| 19 <= block_id <= 24
            ||| block_id == 30
            ||| 33 <= block_id <= 37
            ||| block_id == 75
            ||| block_id == 88
            ||| block_id == 91
            ||| 95 <= block_id <= 96
            ||| block_id == 110
            ||| block_id == 319
            ||| 343 <= block_id <= 344
            ||| 410 <= block_id <= 413
            ||| 568 <= block_id <= 569
            ||| 1159 <= block_id <= 1162
            ||| block_id == 1419
            ||| block_id == 1421
            ||| 1510 <= block_id <= 1519
            ||| 1538 <= block_id <= 1542
            ||| 1669 <= block_id <= 1670
            ||| block_id == 1767
            ||| 2298 <= block_id <= 2299
            ||| block_id == 2680
            ||| block_id == 2735
            ||| block_id == 4540
            ||| block_id == 4761
            ||| 5035 <= block_id <= 5042
        },
{
}

} // verus!
