//! The colours of the world's blocks on the minimap.

use vstd::prelude::*;

verus! {

/// A colour, as its red, green and blue channels.
pub open spec fn rgb(r: u8, g: u8, b: u8) -> Seq<u8> {
    seq![r, g, b]
}

/// The colour of the sky, which is also that of air.
pub open spec fn sky() -> Seq<u8> {
    rgb(135, 206, 235)
}

/// The colours of the blocks that have one of their own.
pub open spec fn listed_color(block_id: u16) -> Option<Seq<u8>> {
    match block_id {
        // Air
        0 => Some(rgb(135, 206, 235)),
        // SoilBlock, GemSoil
        1 | 2735 => Some(rgb(182, 106, 37)),
        // Bedrock, LavaRock, EndLavaRock
        3 | 343 | 344 => Some(rgb(86, 76, 66)),
        // Granite
        4 => Some(rgb(69, 69, 73)),
        // Sand, SandStone
        5 | 6 => Some(rgb(210, 155, 94)),
        // Lava
        7 => Some(rgb(220, 87, 22)),
        // Marble
        8 => Some(rgb(176, 171, 168)),
        // Obsidian
        9 => Some(rgb(67, 41, 58)),
        // Grass, GrassTall, GrassExtraTall
        10 | 1513 | 4540 => Some(rgb(47, 117, 7)),
        // MetalPlate
        15 => Some(rgb(160, 175, 202)),
        // WoodenPlatform
        16 => Some(rgb(190, 103, 55)),
        // GreyBrick
        19 => Some(rgb(148, 133, 117)),
        // RedBrick
        20 => Some(rgb(187, 49, 27)),
        // YellowBrick
        21 => Some(rgb(214, 174, 10)),
        // WhiteBrick
        22 => Some(rgb(211, 211, 209)),
        // BlackBrick
        23 => Some(rgb(46, 46, 43)),
        // WoodWall
        24 => Some(rgb(172, 91, 55)),
        // WoodenTable, WoodenChair
        30 | 88 => Some(rgb(114, 55, 21)),
        // GreenJello
        33 => Some(rgb(0, 217, 0)),
        // YellowJello
        34 => Some(rgb(228, 213, 0)),
        // BlueJello
        35 => Some(rgb(0, 105, 212)),
        // RedJello
        36 => Some(rgb(217, 43, 0)),
        // Tree
        37 => Some(rgb(135, 72, 16)),
        // Mushroom
        75 => Some(rgb(175, 137, 75)),
        // Lantern
        91 => Some(rgb(255, 255, 240)),
        // ClearJello
        95 => Some(rgb(216, 229, 239)),
        // Fireplace
        96 => Some(rgb(162, 136, 84)),
        // EntrancePortal
        110 => Some(rgb(146, 170, 164)),
        // Bat
        319 => Some(rgb(31, 31, 31)),
        // LockSmall
        410 => Some(rgb(39, 159, 250)),
        // LockMedium
        411 => Some(rgb(255, 170, 34)),
        // LockLarge
        412 => Some(rgb(243, 72, 46)),
        // LockWorld
        413 => Some(rgb(255, 216, 0)),
        // PinkJello
        568 => Some(rgb(239, 55, 231)),
        // LightBlueJello
        569 => Some(rgb(0, 190, 223)),
        // GlowBlockBlue
        1159 => Some(rgb(66, 229, 252)),
        // GlowBlockGreen
        1160 => Some(rgb(57, 250, 134)),
        // GlowBlockOrange
        1161 => Some(rgb(254, 166, 74)),
        // GlowBlockRed
        1162 => Some(rgb(254, 109, 71)),
        // NetherExit
        1419 => Some(rgb(240, 105, 255)),
        // NetherCrystal
        1421 => Some(rgb(192, 66, 225)),
        // Bush1, Bush2, Bush3
        1510 | 1511 | 1512 => Some(rgb(27, 100, 2)),
        // HangingLeaves
        1514 => Some(rgb(89, 121, 35)),
        // Rocks1, Rocks2
        1515 | 1516 => Some(rgb(96, 96, 83)),
        // TreeStump
        1517 => Some(rgb(89, 43, 2)),
        // VegetationBlock1
        1518 => Some(rgb(53, 121, 10)),
        // TreeTrunk1
        1519 => Some(rgb(98, 40, 10)),
        // ScifiBlock1, ScifiBlock5
        1538 | 1542 => Some(rgb(206, 206, 206)),
        // ScifiBlock2
        1539 => Some(rgb(22, 22, 22)),
        // ScifiBlock3
        1540 => Some(rgb(170, 170, 170)),
        // ScifiBlock4
        1541 => Some(rgb(78, 83, 97)),
        // BeigeBrick
        1669 => Some(rgb(189, 127, 76)),
        // BlueBrick
        1670 => Some(rgb(112, 144, 152)),
        // GreenBrick
        1767 => Some(rgb(27, 196, 24)),
        // OrangeJello
        2298 => Some(rgb(255, 113, 0)),
        // BlackJello
        2299 => Some(rgb(64, 64, 64)),
        // PinkBrick
        2680 => Some(rgb(237, 108, 236)),
        // TinyChest
        4761 => Some(rgb(124, 124, 124)),
        // NetherGreystone1and2, NetherGreystone3and4, NetherLavastone1and2, NetherLavastone3and4,
        // NetherRedstone1and2, NetherRedstone3and4, NetherRedstoneGlow1and2, NetherRedstoneGlow3and4
        5035 | 5036 | 5037 | 5038 | 5039 | 5040 | 5041 | 5042 => Some(
            rgb(77, 59, 57),
        ),
        _ => None,
    }
}

/// How far a colour is from that of the sky: the sum over the channels.
pub open spec fn sky_distance(r: int, g: int, b: int) -> int {
    abs(r - 135) + abs(g - 206) + abs(b - 235)
}

/// The absolute value.
pub open spec fn abs(i: int) -> int {
    if i < 0 {
        -i
    } else {
        i
    }
}

/// The colour made up from the number of a block: each channel a multiple of the number, and all
/// three shifted where that would come near the colour of the sky.
pub open spec fn derived_color(block_id: u16) -> Seq<u8> {
    let r = (block_id * 85) % 256;
    let g = (block_id * 153) % 256;
    let b = (block_id * 211) % 256;
    if sky_distance(r, g, b) < 50 {
        rgb(((r + 128) % 256) as u8, ((g + 64) % 256) as u8, ((b + 32) % 256) as u8)
    } else {
        rgb(r as u8, g as u8, b as u8)
    }
}

/// The colour of a block on the minimap.
pub open spec fn block_color(block_id: u16) -> Seq<u8> {
    match listed_color(block_id) {
        Some(color) => color,
        None => derived_color(block_id),
    }
}

/// Air has the colour of the sky, and no other block comes near it.
pub proof fn lemma_only_air_looks_like_sky(block_id: u16)
    ensures
        block_color(0) == sky(),
        block_id != 0 ==> sky_distance(
            block_color(block_id)[0] as int,
            block_color(block_id)[1] as int,
            block_color(block_id)[2] as int,
        ) >= 50,
{
}

/// The distance of two channels.
fn channel_distance(a: u8, b: u8) -> (r: i32)
    ensures
        r == abs(a - b),
        0 <= r <= 255,
{
    if a < b {
        b as i32 - a as i32
    } else {
        a as i32 - b as i32
    }
}

/// The colour of a block on the minimap.
pub fn generate_block_color(block_id: u16) -> (r: [u8; 3])
    ensures
        r@ == block_color(block_id),
{
    if block_id == 0 {
        return [135, 206, 235];
    }
    if block_id == 1 || block_id == 2735 {
        return [182, 106, 37];
    }
    if block_id == 3 || block_id == 343 || block_id == 344 {
        return [86, 76, 66];
    }
    if block_id == 4 {
        return [69, 69, 73];
    }
    if block_id == 5 || block_id == 6 {
        return [210, 155, 94];
    }
    if block_id == 7 {
        return [220, 87, 22];
    }
    if block_id == 8 {
        return [176, 171, 168];
    }
    if block_id == 9 {
        return [67, 41, 58];
    }
    if block_id == 10 || block_id == 1513 || block_id == 4540 {
        return [47, 117, 7];
    }
    if block_id == 15 {
        return [160, 175, 202];
    }
    if block_id == 16 {
        return [190, 103, 55];
    }
    if block_id == 19 {
        return [148, 133, 117];
    }
    if block_id == 20 {
        return [187, 49, 27];
    }
    if block_id == 21 {
        return [214, 174, 10];
    }
    if block_id == 22 {
        return [211, 211, 209];
    }
    if block_id == 23 {
        return [46, 46, 43];
    }
    if block_id == 24 {
        return [172, 91, 55];
    }
    if block_id == 30 || block_id == 88 {
        return [114, 55, 21];
    }
    if block_id == 33 {
        return [0, 217, 0];
    }
    if block_id == 34 {
        return [228, 213, 0];
    }
    if block_id == 35 {
        return [0, 105, 212];
    }
    if block_id == 36 {
        return [217, 43, 0];
    }
    if block_id == 37 {
        return [135, 72, 16];
    }
    if block_id == 75 {
        return [175, 137, 75];
    }
    if block_id == 91 {
        return [255, 255, 240];
    }
    if block_id == 95 {
        return [216, 229, 239];
    }
    if block_id == 96 {
        return [162, 136, 84];
    }
    if block_id == 110 {
        return [146, 170, 164];
    }
    if block_id == 319 {
        return [31, 31, 31];
    }
    if block_id == 410 {
        return [39, 159, 250];
    }
    if block_id == 411 {
        return [255, 170, 34];
    }
    if block_id == 412 {
        return [243, 72, 46];
    }
    if block_id == 413 {
        return [255, 216, 0];
    }
    if block_id == 568 {
        return [239, 55, 231];
    }
    if block_id == 569 {
        return [0, 190, 223];
    }
    if block_id == 1159 {
        return [66, 229, 252];
    }
    if block_id == 1160 {
        return [57, 250, 134];
    }
    if block_id == 1161 {
        return [254, 166, 74];
    }
    if block_id == 1162 {
        return [254, 109, 71];
    }
    if block_id == 1419 {
        return [240, 105, 255];
    }
    if block_id == 1421 {
        return [192, 66, 225];
    }
    if block_id == 1510 || block_id == 1511 || block_id == 1512 {
        return [27, 100, 2];
    }
    if block_id == 1514 {
        return [89, 121, 35];
    }
    if block_id == 1515 || block_id == 1516 {
        return [96, 96, 83];
    }
    if block_id == 1517 {
        return [89, 43, 2];
    }
    if block_id == 1518 {
        return [53, 121, 10];
    }
    if block_id == 1519 {
        return [98, 40, 10];
    }
    if block_id == 1538 || block_id == 1542 {
        return [206, 206, 206];
    }
    if block_id == 1539 {
        return [22, 22, 22];
    }
    if block_id == 1540 {
        return [170, 170, 170];
    }
    if block_id == 1541 {
        return [78, 83, 97];
    }
    if block_id == 1669 {
        return [189, 127, 76];
    }
    if block_id == 1670 {
        return [112, 144, 152];
    }
    if block_id == 1767 {
        return [27, 196, 24];
    }
    if block_id == 2298 {
        return [255, 113, 0];
    }
    if block_id == 2299 {
        return [64, 64, 64];
    }
    if block_id == 2680 {
        return [237, 108, 236];
    }
    if block_id == 4761 {
        return [124, 124, 124];
    }
    if block_id >= 5035 && block_id <= 5042 {
        return [77, 59, 57];
    }
    let mut r: u8 = ((block_id as u32 * 85) % 256) as u8;
    let mut g: u8 = ((block_id as u32 * 153) % 256) as u8;
    let mut b: u8 = ((block_id as u32 * 211) % 256) as u8;
    let distance: i32 = channel_distance(r, 135) + channel_distance(g, 206) + channel_distance(
        b,
        235,
    );
    if distance < 50 {
        r = r.wrapping_add(128);
        g = g.wrapping_add(64);
        b = b.wrapping_add(32);
    }
    let color = [r, g, b];
    assert(color@ =~= derived_color(block_id));
    color
}

} // verus!
