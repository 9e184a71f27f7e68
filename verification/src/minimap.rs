//! The minimap: decoding a world's blocks into coloured tiles, and what is shown of them.

use vstd::arithmetic::div_mod::*;
use vstd::prelude::*;
use vstd::string::*;

use crate::blocks::{block_color, generate_block_color, sky};
use crate::codec::{decompress, decompressed, document_read, read_record};
use crate::numbers::{decimal_nat, push_decimal};
use crate::record::{
    access_error_text, field, field_document, field_i32, Record, RecordModel, Value, ValueModel,
};
use crate::text::joined;

verus! {

/// The tiles of a world: rows from top to bottom, each from left to right.
#[derive(Debug, PartialEq)]
pub struct MinimapData {
    pub width: usize,
    pub height: usize,
    pub colors: Vec<[u8; 3]>,
}

/// What a `MinimapData` stands for.
#[verifier::ext_equal]
pub struct MinimapModel {
    pub width: nat,
    pub height: nat,
    pub colors: Seq<Seq<u8>>,
}

impl View for MinimapData {
    type V = MinimapModel;

    open spec fn view(&self) -> MinimapModel {
        MinimapModel {
            width: self.width as nat,
            height: self.height as nat,
            colors: self.colors@.map_values(|c: [u8; 3]| c@),
        }
    }
}

impl MinimapModel {
    /// There is one colour for each tile.
    pub open spec fn wf(self) -> bool {
        self.colors.len() == self.width * self.height
    }

    /// The colour of the tile in column `x` of row `y`.
    pub open spec fn tile(self, x: int, y: int) -> Seq<u8> {
        self.colors[y * self.width + x]
    }
}

impl Default for MinimapData {
    fn default() -> (r: Self)
        ensures
            r@ == (MinimapModel { width: 0, height: 0, colors: Seq::empty() }),
    {
        let r = MinimapData { width: 0, height: 0, colors: Vec::new() };
        assert(r@.colors =~= Seq::empty());
        r
    }
}

// ---------------------------------------------------------------------------------------------
// Decoding
// ---------------------------------------------------------------------------------------------

/// A dimension as the world states it: a negative one stands for that number modulo the range of
/// addresses.
pub open spec fn dimension(n: i32) -> nat {
    if n >= 0 {
        n as nat
    } else {
        (usize::MAX + 1 + n) as nat
    }
}

/// The colour of the block at position `index` of the block layer, which holds two bytes for each
/// block, the lower one first. Where the layer ends too early there is sky.
pub open spec fn layer_color(layer: Seq<u8>, index: int) -> Seq<u8> {
    if 2 * index + 1 < layer.len() {
        block_color((layer[2 * index] + 256 * layer[2 * index + 1]) as u16)
    } else {
        sky()
    }
}

/// The position in the block layer of the block that tile `i` shows: the layer goes from the
/// bottom row up, the tiles from the top row down.
pub open spec fn layer_index(width: nat, height: nat, i: int) -> int {
    (height - 1 - i / width as int) * width + i % width as int
}

/// The tiles that show a block layer.
pub open spec fn layer_tiles(width: nat, height: nat, layer: Seq<u8>) -> Seq<Seq<u8>> {
    Seq::new(width * height, |i: int| layer_color(layer, layer_index(width, height, i)))
}

/// What a minimap is made from: the dimensions of a world and its block layer.
pub struct WorldParts {
    pub width: nat,
    pub height: nat,
    pub layer: Seq<u8>,
}

/// The dimensions and the block layer of a world, or why they could not be had. The dimensions
/// are looked at first.
pub open spec fn world_parts(world: RecordModel) -> Result<WorldParts, Seq<char>> {
    match field_document(world, "WorldSizeSettingsType"@) {
        Err(e) => Err("missing world size: "@ + access_error_text(e)),
        Ok(settings) => match field_i32(settings, "WorldSizeX"@) {
            Err(e) => Err("missing width: "@ + access_error_text(e)),
            Ok(x) => match field_i32(settings, "WorldSizeY"@) {
                Err(e) => Err("missing height: "@ + access_error_text(e)),
                Ok(y) => match field(world, "BlockLayer"@) {
                    Some(ValueModel::Binary(layer)) => Ok(
                        WorldParts { width: dimension(x), height: dimension(y), layer },
                    ),
                    _ => Err("missing block layer"@),
                },
            },
        },
    }
}

/// Whether the tiles of a world can be held in memory at all: three bytes for each, within the
/// largest size of an object.
pub open spec fn tiles_fit(width: nat, height: nat) -> bool {
    width * height * 3 <= isize::MAX
}

/// Whether the tiles of a world can be held in memory, as far as there are any.
pub open spec fn world_fits(world: RecordModel) -> bool {
    match world_parts(world) {
        Ok(parts) => tiles_fit(parts.width, parts.height),
        Err(_) => true,
    }
}

/// The minimap of a world.
pub open spec fn world_minimap(world: RecordModel) -> Result<MinimapModel, Seq<char>> {
    match world_parts(world) {
        Ok(parts) => Ok(
            MinimapModel {
                width: parts.width,
                height: parts.height,
                colors: layer_tiles(parts.width, parts.height, parts.layer),
            },
        ),
        Err(e) => Err(e),
    }
}

/// The world that compressed bytes hold.
pub open spec fn compressed_world(compressed: Seq<u8>) -> Result<RecordModel, Seq<char>> {
    match decompressed(compressed) {
        Err(e) => Err("zstd decode failed: "@ + e),
        Ok(plain) => match document_read(plain) {
            Err(e) => Err("bson decode failed: "@ + e),
            Ok(world) => Ok(world),
        },
    }
}

/// The minimap of the world that compressed bytes hold.
pub open spec fn compressed_minimap(compressed: Seq<u8>) -> Result<MinimapModel, Seq<char>> {
    match compressed_world(compressed) {
        Ok(world) => world_minimap(world),
        Err(e) => Err(e),
    }
}

/// Whether the tiles of the world that compressed bytes hold can be held in memory.
pub open spec fn compressed_fits(compressed: Seq<u8>) -> bool {
    match compressed_world(compressed) {
        Ok(world) => world_fits(world),
        Err(_) => true,
    }
}

/// A minimap as a result, taken by its view.
pub open spec fn minimap_result(r: Result<MinimapData, String>) -> Result<MinimapModel, Seq<char>> {
    match r {
        Ok(m) => Ok(m@),
        Err(e) => Err(e@),
    }
}

/// A decoded minimap has one colour for each tile.
pub proof fn lemma_decoded_minimap_wf(world: RecordModel)
    ensures
        world_minimap(world) matches Ok(m) ==> m.wf(),
{
}

/// The block that is `y` rows above the bottom of the world, in column `x`, is shown in that
/// column of the row that is `y` rows above the bottom of the minimap.
pub proof fn lemma_tile_shows_block(width: nat, height: nat, layer: Seq<u8>, x: int, y: int)
    requires
        0 <= x < width,
        0 <= y < height,
    ensures
        (MinimapModel { width, height, colors: layer_tiles(width, height, layer) }).tile(
            x,
            height - 1 - y,
        ) == layer_color(layer, y * width + x),
{
    let row = height - 1 - y;
    let i = row * width + x;
    lemma_tile_position(width, height, row, x);
    assert(height - 1 - row == y);
}

proof fn lemma_tile_position(width: nat, height: nat, row: int, x: int)
    requires
        0 <= x < width,
        0 <= row < height,
    ensures
        0 <= row * width + x < width * height,
        (row * width + x) / width as int == row,
        (row * width + x) % width as int == x,
{
    lemma_fundamental_div_mod_converse(row * width + x, width as int, row, x);
    assert(0 <= row * width + x < width * height) by (nonlinear_arith)
        requires
            0 <= x < width,
            0 <= row < height,
    ;
}

fn dimension_of(n: i32) -> (r: usize)
    ensures
        r == dimension(n),
{
    if n >= 0 {
        n as usize
    } else {
        usize::MAX - (-(n + 1)) as usize
    }
}

fn layer_color_at(layer: &[u8], index: usize) -> (r: [u8; 3])
    requires
        2 * index + 1 <= usize::MAX,
    ensures
        r@ == layer_color(layer@, index as int),
{
    let at: usize = index * 2;
    if at + 1 >= layer.len() {
        let blue: [u8; 3] = [135, 206, 235];
        assert(blue@ =~= sky());
        return blue;
    }
    let block_id: u16 = layer[at] as u16 + 256 * layer[at + 1] as u16;
    generate_block_color(block_id)
}

/// The tiles that show a block layer.
pub fn tiles_of_layer(width: usize, height: usize, layer: &[u8]) -> (r: Vec<[u8; 3]>)
    requires
        tiles_fit(width as nat, height as nat),
    ensures
        r@.map_values(|c: [u8; 3]| c@) == layer_tiles(width as nat, height as nat, layer@),
{
    let mut colors: Vec<[u8; 3]> = Vec::new();
    let ghost w = width as nat;
    let ghost h = height as nat;
    let ghost tiles = layer_tiles(w, h, layer@);
    if width == 0 {
        assert(w * h == 0) by (nonlinear_arith)
            requires
                w == 0,
        ;
        assert(colors@.map_values(|c: [u8; 3]| c@) =~= tiles);
        return colors;
    }
    let mut row: usize = 0;
    assert(0 * w == 0) by (nonlinear_arith);
    while row < height
        invariant
            row <= height,
            0 < width,
            w == width,
            h == height,
            tiles_fit(w, h),
            tiles == layer_tiles(w, h, layer@),
            colors@.len() == row * w,
            forall|i: int| 0 <= i < colors@.len() ==> (#[trigger] colors@[i])@ == tiles[i],
        decreases height - row,
    {
        let mut x: usize = 0;
        while x < width
            invariant
                row < height,
                x <= width,
                w == width,
                h == height,
                tiles_fit(w, h),
                tiles == layer_tiles(w, h, layer@),
                colors@.len() == row * w + x,
                forall|i: int| 0 <= i < colors@.len() ==> (#[trigger] colors@[i])@ == tiles[i],
            decreases width - x,
        {
            proof {
                lemma_tile_position(w, h, row as int, x as int);
                lemma_tile_position(w, h, h - 1 - row, x as int);
                lemma_row_bound(w, h, h - 1 - row);
            }
            let index: usize = (height - 1 - row) * width + x;
            let color = layer_color_at(layer, index);
            colors.push(color);
            x = x + 1;
        }
        assert((row + 1) * w == row * w + w) by (nonlinear_arith);
        row = row + 1;
    }
    assert(w * h == h * w) by (nonlinear_arith);
    assert(colors@.map_values(|c: [u8; 3]| c@) =~= tiles);
    colors
}

proof fn lemma_row_bound(width: nat, height: nat, row: int)
    requires
        0 <= row < height,
    ensures
        0 <= row * width <= width * height,
{
    assert(0 <= row * width <= width * height) by (nonlinear_arith)
        requires
            0 <= row < height,
    ;
}

fn parts_of_world(world: &Record) -> (r: Result<(usize, usize, &Vec<u8>), String>)
    ensures
        match r {
            Ok((width, height, layer)) => world_parts(world@) == Ok::<WorldParts, Seq<char>>(
                WorldParts { width: width as nat, height: height as nat, layer: layer@ },
            ),
            Err(e) => world_parts(world@) == Err::<WorldParts, Seq<char>>(e@),
        },
{
    let settings = match world.get_document("WorldSizeSettingsType") {
        Ok(settings) => settings,
        Err(e) => {
            return Err(joined("missing world size: ", e.text()));
        },
    };
    let width = match settings.get_i32("WorldSizeX") {
        Ok(n) => dimension_of(n),
        Err(e) => {
            return Err(joined("missing width: ", e.text()));
        },
    };
    let height = match settings.get_i32("WorldSizeY") {
        Ok(n) => dimension_of(n),
        Err(e) => {
            return Err(joined("missing height: ", e.text()));
        },
    };
    match world.get("BlockLayer") {
        Some(Value::Binary(layer)) => Ok((width, height, layer)),
        _ => Err("missing block layer".to_owned()),
    }
}

/// Whether the tiles of a world can be held in memory.
pub fn is_world_in_bounds(world: &Record) -> (r: bool)
    ensures
        r == world_fits(world@),
{
    match parts_of_world(world) {
        Ok((width, height, _)) => {
            match width.checked_mul(height) {
                Some(n) => n <= isize::MAX as usize / 3,
                None => false,
            }
        },
        Err(_) => true,
    }
}

/// The minimap of a world.
pub fn minimap_of_world(world: &Record) -> (r: Result<MinimapData, String>)
    requires
        world_fits(world@),
    ensures
        minimap_result(r) == world_minimap(world@),
{
    match parts_of_world(world) {
        Ok((width, height, layer)) => {
            let colors = tiles_of_layer(width, height, layer.as_slice());
            Ok(MinimapData { width, height, colors })
        },
        Err(e) => Err(e),
    }
}

/// The world that compressed bytes hold.
fn world_of_compressed(compressed: &[u8]) -> (r: Result<Record, String>)
    ensures
        match r {
            Ok(world) => compressed_world(compressed@) == Ok::<RecordModel, Seq<char>>(world@),
            Err(e) => compressed_world(compressed@) == Err::<RecordModel, Seq<char>>(e@),
        },
{
    let plain = match decompress(compressed) {
        Ok(plain) => plain,
        Err(e) => {
            return Err(joined("zstd decode failed: ", e.as_str()));
        },
    };
    match read_record(plain.as_slice()) {
        Ok(world) => Ok(world),
        Err(e) => Err(joined("bson decode failed: ", e.as_str())),
    }
}

/// The minimap of the world that compressed bytes hold.
pub fn decode_minimap_from_gwc(compressed: &[u8]) -> (r: Result<MinimapData, String>)
    requires
        compressed_fits(compressed@),
    ensures
        minimap_result(r) == compressed_minimap(compressed@),
{
    match world_of_compressed(compressed) {
        Ok(world) => minimap_of_world(&world),
        Err(e) => Err(e),
    }
}

/// Whether the tiles of the world that compressed bytes hold can be held in memory.
pub fn is_compressed_in_bounds(compressed: &[u8]) -> (r: bool)
    ensures
        r == compressed_fits(compressed@),
{
    match world_of_compressed(compressed) {
        Ok(world) => is_world_in_bounds(&world),
        Err(_) => true,
    }
}

/// The minimap of the world that compressed bytes hold, or nothing where its tiles could not be
/// held in memory.
pub fn try_decode_minimap_from_gwc(compressed: &[u8]) -> (r: Option<Result<MinimapData, String>>)
    ensures
        match r {
            Some(m) => compressed_fits(compressed@) && minimap_result(m) == compressed_minimap(
                compressed@,
            ),
            None => !compressed_fits(compressed@),
        },
{
    if is_compressed_in_bounds(compressed) {
        Some(decode_minimap_from_gwc(compressed))
    } else {
        None
    }
}

// ---------------------------------------------------------------------------------------------
// Showing
// ---------------------------------------------------------------------------------------------

/// What takes the place of the minimap, or the line below it.
#[derive(Debug, PartialEq)]
pub enum MinimapStatus {
    /// There is no minimap yet.
    Waiting,
    /// There are no tiles to show.
    NotReady,
    /// The tiles are shown, with this text below them.
    Ready(String),
}

/// The dimensions of a minimap, as text.
pub open spec fn dimensions_text(m: MinimapModel) -> Seq<char> {
    decimal_nat(m.width) + " x "@ + decimal_nat(m.height)
}

/// What is to be shown for the current minimap.
pub fn minimap_status(minimap: Option<&MinimapData>) -> (r: MinimapStatus)
    ensures
        match minimap {
            None => r is Waiting,
            Some(m) => if m.width == 0 || m.height == 0 {
                r is NotReady
            } else {
                r matches MinimapStatus::Ready(text) && text@ == dimensions_text(m@)
            },
        },
{
    match minimap {
        None => MinimapStatus::Waiting,
        Some(m) => {
            if m.width == 0 || m.height == 0 {
                MinimapStatus::NotReady
            } else {
                let mut text = String::new();
                push_decimal(&mut text, m.width as u64);
                text.append(" x ");
                push_decimal(&mut text, m.height as u64);
                assert(text@ =~= dimensions_text(m@));
                MinimapStatus::Ready(text)
            }
        },
    }
}

impl MinimapData {
    /// The colour of the tile in column `x` of row `y`.
    pub fn tile_color(&self, x: usize, y: usize) -> (r: [u8; 3])
        requires
            self@.wf(),
            x < self.width,
            y < self.height,
        ensures
            r@ == self@.tile(x as int, y as int),
    {
        proof {
            lemma_tile_position(self.width as nat, self.height as nat, y as int, x as int);
            lemma_row_bound(self.width as nat, self.height as nat, y as int);
            assert(self.colors.len() == self.width * self.height);
        }
        self.colors[y * self.width + x]
    }
}

} // verus!
