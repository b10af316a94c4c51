//! The two emitters: scene-fragment files (one per tile layer, one record
//! per occupied cell in encounter order) and resource-descriptor files (one
//! per tileset, one animation clip per tile identity).

use vstd::prelude::*;
use vstd::arithmetic::div_mod::{lemma_fundamental_div_mod, lemma_fundamental_div_mod_converse};
use vstd::string::StringExecFns;

use crate::coords::{tile_coords, world_x2, world_y2, world_z5};
use crate::model::{Chunk, Layer, LayerContent, Tile, TileMap, Tileset, CHUNK_HEIGHT, CHUNK_WIDTH};
use crate::records::{
    spec_animation, spec_sprite, spec_tilesource_footer, spec_tilesource_header, write_sprite,
    write_tilesource_animation, write_tilesource_footer, write_tilesource_header,
};

verus! {

/// One placed tile before the coordinate transform: its world grid cell and
/// its tile identity.
pub ghost struct Placement {
    pub tx: int,
    pub ty: int,
    pub tileset: Seq<char>,
    pub index: int,
}

/// The placement of linear cell `m` of a grid stored column by column with
/// column height `h`, at base world coordinates `(bx, by)`; meaningful when
/// `cells[m]` is occupied.
pub open spec fn placement_at(cells: Seq<Option<Tile>>, h: int, bx: int, by: int, m: int) -> Placement {
    match cells[m] {
        Option::Some(t) => Placement {
            tx: bx + m / h,
            ty: by + m % h,
            tileset: t.tileset@,
            index: t.index as int,
        },
        Option::None => Placement { tx: 0, ty: 0, tileset: Seq::empty(), index: 0 },
    }
}

/// The placements of the occupied cells among the first `n` linear cells of
/// a grid, in encounter order (outer x, inner y).
pub open spec fn grid_placements_upto(
    cells: Seq<Option<Tile>>,
    h: int,
    bx: int,
    by: int,
    n: int,
) -> Seq<Placement>
    decreases n,
{
    if n <= 0 {
        Seq::empty()
    } else {
        grid_placements_upto(cells, h, bx, by, n - 1) + (if cells[n - 1] is Some {
            seq![placement_at(cells, h, bx, by, n - 1)]
        } else {
            Seq::empty()
        })
    }
}

/// All placements of a grid, in encounter order.
pub open spec fn grid_placements(cells: Seq<Option<Tile>>, h: int, bx: int, by: int) -> Seq<
    Placement,
> {
    grid_placements_upto(cells, h, bx, by, cells.len() as int)
}

/// The placements of the first `n` chunks, in chunk order.
pub open spec fn chunks_placements_upto(chunks: Seq<Chunk>, n: int) -> Seq<Placement>
    decreases n,
{
    if n <= 0 {
        Seq::empty()
    } else {
        chunks_placements_upto(chunks, n - 1) + grid_placements(
            chunks[n - 1].cells@,
            16,
            chunks[n - 1].base_x as int,
            chunks[n - 1].base_y as int,
        )
    }
}

/// All placements of a layer in encounter order: a finite grid row by the
/// layer's own storage order, or every chunk in the order the model exposes.
/// Non-tile layers place nothing.
pub open spec fn layer_placements(layer: Layer) -> Seq<Placement> {
    match layer.content {
        LayerContent::Finite { width, height, cells } => grid_placements(
            cells@,
            height as int,
            0,
            0,
        ),
        LayerContent::Infinite { chunks } => chunks_placements_upto(
            chunks@,
            chunks@.len() as int,
        ),
        LayerContent::Other => Seq::empty(),
    }
}

/// The scene-fragment record of one placement under the map's tile geometry
/// and the layer's pixel offset.
pub open spec fn spec_sprite_of(p: Placement, tw: int, th: int, ox: int, oy: int) -> Seq<char> {
    spec_sprite(
        p.tx,
        p.ty,
        p.tileset,
        p.index,
        world_x2(p.tx, p.ty, tw, ox),
        world_y2(p.tx, p.ty, th, oy),
        world_z5(p.tx, p.ty),
    )
}

/// The concatenated scene-fragment records of a placement sequence.
pub open spec fn records_of(ps: Seq<Placement>, tw: int, th: int, ox: int, oy: int) -> Seq<char>
    decreases ps.len(),
{
    if ps.len() == 0 {
        Seq::empty()
    } else {
        records_of(ps.drop_last(), tw, th, ox, oy) + spec_sprite_of(ps.last(), tw, th, ox, oy)
    }
}

/// The full content of the scene-fragment file of one layer.
pub open spec fn spec_layer_records(layer: Layer, tw: int, th: int) -> Seq<char> {
    records_of(layer_placements(layer), tw, th, layer.offset_x as int, layer.offset_y as int)
}

proof fn lemma_records_push(ps: Seq<Placement>, p: Placement, tw: int, th: int, ox: int, oy: int)
    ensures
        records_of(ps.push(p), tw, th, ox, oy) == records_of(ps, tw, th, ox, oy)
            + spec_sprite_of(p, tw, th, ox, oy),
{
    assert(ps.push(p).drop_last() =~= ps);
    assert(ps.push(p).last() == p);
}

proof fn lemma_records_concat(a: Seq<Placement>, b: Seq<Placement>, tw: int, th: int, ox: int, oy: int)
    ensures
        records_of(a + b, tw, th, ox, oy) == records_of(a, tw, th, ox, oy)
            + records_of(b, tw, th, ox, oy),
    decreases b.len(),
{
    if b.len() == 0 {
        assert(a + b =~= a);
        assert(records_of(a, tw, th, ox, oy) + Seq::<char>::empty() =~= records_of(
            a,
            tw,
            th,
            ox,
            oy,
        ));
    } else {
        lemma_records_concat(a, b.drop_last(), tw, th, ox, oy);
        assert((a + b).drop_last() =~= a + b.drop_last());
        assert((a + b).last() == b.last());
        assert(records_of(a, tw, th, ox, oy) + records_of(b.drop_last(), tw, th, ox, oy)
            + spec_sprite_of(b.last(), tw, th, ox, oy) =~= records_of(a, tw, th, ox, oy) + (
        records_of(b.drop_last(), tw, th, ox, oy) + spec_sprite_of(b.last(), tw, th, ox, oy)));
    }
}

/// Appends one scene-fragment record per occupied cell of a grid, outer x
/// and inner y, translating local cells by the grid's base coordinates.
fn write_grid(
    out: &mut String,
    cells: &Vec<Option<Tile>>,
    width: u32,
    height: u32,
    bx: i32,
    by: i32,
    tile_width: u32,
    tile_height: u32,
    offset_x: i32,
    offset_y: i32,
)
    requires
        cells@.len() == (width as int) * (height as int),
        width <= 0x7fff_ffff,
        height <= 0x7fff_ffff,
        bx as int + width as int <= 0x8000_0000,
        by as int + height as int <= 0x8000_0000,
        tile_width <= 0x7fff_ffff,
        tile_height <= 0x7fff_ffff,
    ensures
        final(out)@ == old(out)@ + records_of(
            grid_placements(cells@, height as int, bx as int, by as int),
            tile_width as int,
            tile_height as int,
            offset_x as int,
            offset_y as int,
        ),
{
    // An exec `len` call pins `cells@.len()` within the machine's word size,
    // which the index arithmetic below needs.
    let _len: usize = cells.len();
    let mut x: u32 = 0;
    while x < width
        invariant
            0 <= x <= width,
            cells@.len() == (width as int) * (height as int),
            cells@.len() <= usize::MAX,
            width <= 0x7fff_ffff,
            height <= 0x7fff_ffff,
            bx as int + width as int <= 0x8000_0000,
            by as int + height as int <= 0x8000_0000,
            tile_width <= 0x7fff_ffff,
            tile_height <= 0x7fff_ffff,
            out@ == old(out)@ + records_of(
                grid_placements_upto(cells@, (height as int), bx as int, by as int, (x as int) * (height as int)),
                tile_width as int,
                tile_height as int,
                offset_x as int,
                offset_y as int,
            ),
        decreases width - x,
    {
        let mut y: u32 = 0;
        proof {
            assert((x as int + 1) * (height as int) == (x as int) * (height as int) + (height as int)) by (nonlinear_arith);
            assert((x as int + 1) * (height as int) <= (width as int) * (height as int)) by (nonlinear_arith)
                requires
                    x as int + 1 <= width as int,
                    (height as int) >= 0,
            ;
        }
        while y < height
            invariant
                0 <= y <= height,
                0 <= x < width,
                cells@.len() == (width as int) * (height as int),
                cells@.len() <= usize::MAX,
                width <= 0x7fff_ffff,
                height <= 0x7fff_ffff,
                bx as int + width as int <= 0x8000_0000,
                by as int + height as int <= 0x8000_0000,
                tile_width <= 0x7fff_ffff,
                tile_height <= 0x7fff_ffff,
                (x as int + 1) * (height as int) == (x as int) * (height as int) + (height as int),
                (x as int + 1) * (height as int) <= (width as int) * (height as int),
                out@ == old(out)@ + records_of(
                    grid_placements_upto(cells@, (height as int), bx as int, by as int, (x as int) * (height as int) + y as int),
                    tile_width as int,
                    tile_height as int,
                    offset_x as int,
                    offset_y as int,
                ),
            decreases height - y,
        {
            let ghost m = (x as int) * (height as int) + y as int;
            proof {
                assert(m < (x as int + 1) * (height as int));
                assert(m < (width as int) * (height as int));
                assert((x as int) * (height as int) >= 0) by (nonlinear_arith)
                    requires
                        x as int >= 0,
                        (height as int) >= 0,
                ;
            }
            proof {
                assert((x as int) * (height as int) <= m);
            }
            let idx: usize = (x as usize) * (height as usize) + (y as usize);
            proof {
                assert(idx == m);
            }
            let cell = &cells[idx];
            match cell {
                Option::Some(t) => {
                    let tx: i32 = bx + (x as i32);
                    let ty: i32 = by + (y as i32);
                    let pos = tile_coords(tx, ty, tile_width, tile_height, offset_x, offset_y);
                    write_sprite(&mut *out, tx, ty, t.tileset.as_str(), t.index, pos);
                    proof {
                        lemma_fundamental_div_mod_converse(m, (height as int), x as int, y as int);
                        let ps = grid_placements_upto(cells@, (height as int), bx as int, by as int, m);
                        let p = placement_at(cells@, (height as int), bx as int, by as int, m);
                        assert(p.tx == tx as int && p.ty == ty as int);
                        assert(grid_placements_upto(cells@, (height as int), bx as int, by as int, m + 1)
                            =~= ps.push(p));
                        lemma_records_push(
                            ps,
                            p,
                            tile_width as int,
                            tile_height as int,
                            offset_x as int,
                            offset_y as int,
                        );
                    }
                },
                Option::None => {
                    proof {
                        let ps = grid_placements_upto(cells@, (height as int), bx as int, by as int, m);
                        assert(grid_placements_upto(cells@, (height as int), bx as int, by as int, m + 1)
                            =~= ps);
                    }
                },
            }
            y = y + 1;
        }
        x = x + 1;
    }
    proof {
        assert((x as int) * (height as int) == (width as int) * (height as int));
        assert((width as int) * (height as int) == (width as int) * (height as int));
    }
}

/// Whether a layer takes part in the conversion.
pub open spec fn spec_is_tile_layer(layer: Layer) -> bool {
    !(layer.content matches LayerContent::Other)
}

/// Builds the scene-fragment file content for one tile layer: one record per
/// occupied cell, in encounter order.
pub fn write_layer_records(layer: &Layer, tile_width: u32, tile_height: u32) -> (r: String)
    requires
        layer.wf(),
        tile_width <= 0x7fff_ffff,
        tile_height <= 0x7fff_ffff,
    ensures
        r@ == spec_layer_records(*layer, tile_width as int, tile_height as int),
{
    let mut out = String::new();
    match &layer.content {
        LayerContent::Finite { width, height, cells } => {
            write_grid(
                &mut out,
                cells,
                *width,
                *height,
                0,
                0,
                tile_width,
                tile_height,
                layer.offset_x,
                layer.offset_y,
            );
        },
        LayerContent::Infinite { chunks } => {
            let mut j: usize = 0;
            while j < chunks.len()
                invariant
                    0 <= j <= chunks@.len(),
                    forall|i: int| 0 <= i < chunks@.len() ==> (#[trigger] chunks@[i]).wf(),
                    tile_width <= 0x7fff_ffff,
                    tile_height <= 0x7fff_ffff,
                    out@ == records_of(
                        chunks_placements_upto(chunks@, j as int),
                        tile_width as int,
                        tile_height as int,
                        layer.offset_x as int,
                        layer.offset_y as int,
                    ),
                decreases chunks@.len() - j,
            {
                let chunk = &chunks[j];
                let ghost before = out@;
                write_grid(
                    &mut out,
                    &chunk.cells,
                    CHUNK_WIDTH,
                    CHUNK_HEIGHT,
                    chunk.base_x,
                    chunk.base_y,
                    tile_width,
                    tile_height,
                    layer.offset_x,
                    layer.offset_y,
                );
                proof {
                    lemma_records_concat(
                        chunks_placements_upto(chunks@, j as int),
                        grid_placements(
                            chunk.cells@,
                            16,
                            chunk.base_x as int,
                            chunk.base_y as int,
                        ),
                        tile_width as int,
                        tile_height as int,
                        layer.offset_x as int,
                        layer.offset_y as int,
                    );
                }
                j = j + 1;
            }
        },
        LayerContent::Other => {
        },
    }
    out
}

/// The concatenated animation-clip records of a tile-identity sequence.
pub open spec fn spec_animations(ids: Seq<u32>) -> Seq<char>
    decreases ids.len(),
{
    if ids.len() == 0 {
        Seq::empty()
    } else {
        spec_animations(ids.drop_last()) + spec_animation(ids.last() as int)
    }
}

/// The full content of the resource-descriptor file of one tileset: header,
/// one animation clip per tile identity in their native order, footer.
pub open spec fn spec_tilesource(ts: Tileset) -> Seq<char> {
    spec_tilesource_header(ts.name@, ts.tile_width as int, ts.tile_height as int)
        + spec_animations(ts.tile_ids@) + spec_tilesource_footer()
}

/// Builds the resource-descriptor file content for one tileset.
pub fn tileset_records(tileset: &Tileset) -> (r: String)
    ensures
        r@ == spec_tilesource(*tileset),
{
    let mut out = String::new();
    write_tilesource_header(
        &mut out,
        tileset.name.as_str(),
        tileset.tile_width,
        tileset.tile_height,
    );
    let ghost header = spec_tilesource_header(
        tileset.name@,
        tileset.tile_width as int,
        tileset.tile_height as int,
    );
    proof {
        assert(tileset.tile_ids@.take(0) =~= Seq::<u32>::empty());
        assert(out@ =~= header + spec_animations(tileset.tile_ids@.take(0)));
    }
    let mut i: usize = 0;
    while i < tileset.tile_ids.len()
        invariant
            0 <= i <= tileset.tile_ids@.len(),
            header == spec_tilesource_header(
                tileset.name@,
                tileset.tile_width as int,
                tileset.tile_height as int,
            ),
            out@ == header + spec_animations(tileset.tile_ids@.take(i as int)),
        decreases tileset.tile_ids@.len() - i,
    {
        let id: u32 = tileset.tile_ids[i];
        write_tilesource_animation(&mut out, id);
        proof {
            let s = tileset.tile_ids@;
            assert(s.take(i as int + 1).drop_last() =~= s.take(i as int));
            assert(s.take(i as int + 1).last() == s[i as int]);
            assert(header + spec_animations(s.take(i as int)) + spec_animation(id as int)
                =~= header + (spec_animations(s.take(i as int)) + spec_animation(id as int)));
        }
        i = i + 1;
    }
    proof {
        assert(tileset.tile_ids@.take(tileset.tile_ids@.len() as int) =~= tileset.tile_ids@);
    }
    write_tilesource_footer(&mut out);
    out
}

/// One output file: its name (the source identifier plus the extension) and
/// its full text. The caller creates the file and writes the text verbatim.
pub struct OutputFile {
    pub name: String,
    pub content: String,
}

/// The name and content of the resource-descriptor file of one tileset.
pub open spec fn spec_tilesource_file(ts: Tileset) -> (Seq<char>, Seq<char>) {
    (ts.name@ + ".tilesource"@, spec_tilesource(ts))
}

/// The resource-descriptor files of a tileset sequence, in order.
pub open spec fn spec_tilesource_files(tilesets: Seq<Tileset>) -> Seq<(Seq<char>, Seq<char>)> {
    tilesets.map_values(|ts: Tileset| spec_tilesource_file(ts))
}

/// Emits one resource-descriptor file per tileset, in order.
pub fn write_tilesource(tilesets: &Vec<Tileset>) -> (r: Vec<OutputFile>)
    ensures
        r@.len() == tilesets@.len(),
        forall|i: int| 0 <= i < r@.len() ==> (#[trigger] r@[i]).name@ == spec_tilesource_files(
            tilesets@,
        )[i].0 && r@[i].content@ == spec_tilesource_files(tilesets@)[i].1,
{
    let mut files: Vec<OutputFile> = Vec::new();
    let mut i: usize = 0;
    while i < tilesets.len()
        invariant
            0 <= i <= tilesets@.len(),
            files@.len() == i,
            forall|k: int| 0 <= k < i ==> (#[trigger] files@[k]).name@ == spec_tilesource_files(
                tilesets@,
            )[k].0 && files@[k].content@ == spec_tilesource_files(tilesets@)[k].1,
        decreases tilesets@.len() - i,
    {
        let ts = &tilesets[i];
        let name = ts.name.clone().concat(".tilesource");
        let content = tileset_records(ts);
        files.push(OutputFile { name, content });
        i = i + 1;
    }
    files
}

/// The name and content of the scene-fragment file of one tile layer.
pub open spec fn spec_layer_file(layer: Layer, tw: int, th: int) -> (Seq<char>, Seq<char>) {
    (layer.name@ + ".go"@, spec_layer_records(layer, tw, th))
}

/// The scene-fragment files of a layer sequence: one per tile layer, in
/// order; non-tile layers yield none.
pub open spec fn spec_layer_files(layers: Seq<Layer>, tw: int, th: int) -> Seq<
    (Seq<char>, Seq<char>),
>
    decreases layers.len(),
{
    if layers.len() == 0 {
        Seq::empty()
    } else {
        spec_layer_files(layers.drop_last(), tw, th) + (if spec_is_tile_layer(layers.last()) {
            seq![spec_layer_file(layers.last(), tw, th)]
        } else {
            Seq::empty()
        })
    }
}

/// Emits one scene-fragment file per tile layer, in order, skipping
/// non-tile layers.
pub fn write_layers(layers: &Vec<Layer>, tile_width: u32, tile_height: u32) -> (r: Vec<OutputFile>)
    requires
        forall|i: int| 0 <= i < layers@.len() ==> (#[trigger] layers@[i]).wf(),
        tile_width <= 0x7fff_ffff,
        tile_height <= 0x7fff_ffff,
    ensures
        r@.len() == spec_layer_files(layers@, tile_width as int, tile_height as int).len(),
        forall|i: int| 0 <= i < r@.len() ==> (#[trigger] r@[i]).name@ == spec_layer_files(
            layers@,
            tile_width as int,
            tile_height as int,
        )[i].0 && r@[i].content@ == spec_layer_files(
            layers@,
            tile_width as int,
            tile_height as int,
        )[i].1,
{
    let mut files: Vec<OutputFile> = Vec::new();
    proof {
        assert(layers@.take(0) =~= Seq::<Layer>::empty());
    }
    let mut j: usize = 0;
    while j < layers.len()
        invariant
            0 <= j <= layers@.len(),
            forall|i: int| 0 <= i < layers@.len() ==> (#[trigger] layers@[i]).wf(),
            tile_width <= 0x7fff_ffff,
            tile_height <= 0x7fff_ffff,
            files@.len() == spec_layer_files(
                layers@.take(j as int),
                tile_width as int,
                tile_height as int,
            ).len(),
            forall|i: int| 0 <= i < files@.len() ==> (#[trigger] files@[i]).name@
                == spec_layer_files(
                layers@.take(j as int),
                tile_width as int,
                tile_height as int,
            )[i].0 && files@[i].content@ == spec_layer_files(
                layers@.take(j as int),
                tile_width as int,
                tile_height as int,
            )[i].1,
        decreases layers@.len() - j,
    {
        let layer = &layers[j];
        let ghost prev = spec_layer_files(
            layers@.take(j as int),
            tile_width as int,
            tile_height as int,
        );
        proof {
            assert(layers@.take(j as int + 1).drop_last() =~= layers@.take(j as int));
            assert(layers@.take(j as int + 1).last() == layers@[j as int]);
        }
        let is_tile = match &layer.content {
            LayerContent::Other => false,
            _ => true,
        };
        if is_tile {
            let name = layer.name.clone().concat(".go");
            let content = write_layer_records(layer, tile_width, tile_height);
            files.push(OutputFile { name, content });
            proof {
                assert(spec_layer_files(
                    layers@.take(j as int + 1),
                    tile_width as int,
                    tile_height as int,
                ) =~= prev + seq![
                    spec_layer_file(layers@[j as int], tile_width as int, tile_height as int),
                ]);
            }
        } else {
            proof {
                assert(spec_layer_files(
                    layers@.take(j as int + 1),
                    tile_width as int,
                    tile_height as int,
                ) =~= prev);
            }
        }
        j = j + 1;
    }
    proof {
        assert(layers@.take(layers@.len() as int) =~= layers@);
    }
    files
}

/// The whole conversion: the resource-descriptor files of every tileset,
/// then the scene-fragment files of every tile layer.
pub open spec fn spec_outputs(map: TileMap) -> Seq<(Seq<char>, Seq<char>)> {
    spec_tilesource_files(map.tilesets@) + spec_layer_files(
        map.layers@,
        map.tile_width as int,
        map.tile_height as int,
    )
}

/// Runs both emitters over one map model and returns every output file, one
/// resource-descriptor file per tileset followed by one scene-fragment file
/// per tile layer.
pub fn convert(map: &TileMap) -> (r: Vec<OutputFile>)
    requires
        map.wf(),
    ensures
        r@.len() == spec_outputs(*map).len(),
        forall|i: int| 0 <= i < r@.len() ==> (#[trigger] r@[i]).name@ == spec_outputs(*map)[i].0
            && r@[i].content@ == spec_outputs(*map)[i].1,
{
    let mut files = write_tilesource(&map.tilesets);
    let mut layer_files = write_layers(&map.layers, map.tile_width, map.tile_height);
    let ghost front = files@;
    let ghost back = layer_files@;
    files.append(&mut layer_files);
    proof {
        assert(files@ == front + back);
        assert forall|i: int| 0 <= i < files@.len() implies (#[trigger] files@[i]).name@
            == spec_outputs(*map)[i].0 && files@[i].content@ == spec_outputs(*map)[i].1 by {
            if i < front.len() {
                assert(files@[i] == front[i]);
                assert(spec_outputs(*map)[i] == spec_tilesource_files(map.tilesets@)[i]);
            } else {
                assert(files@[i] == back[i - front.len()]);
                assert(spec_outputs(*map)[i] == spec_layer_files(
                    map.layers@,
                    map.tile_width as int,
                    map.tile_height as int,
                )[i - front.len()]);
            }
        }
    }
    files
}

/// The number of occupied cells among the first `n` linear cells.
pub open spec fn occupied_upto(cells: Seq<Option<Tile>>, n: int) -> int
    decreases n,
{
    if n <= 0 {
        0
    } else {
        occupied_upto(cells, n - 1) + (if cells[n - 1] is Some {
            1int
        } else {
            0int
        })
    }
}

/// The number of occupied cells of a grid.
pub open spec fn occupied_count(cells: Seq<Option<Tile>>) -> int {
    occupied_upto(cells, cells.len() as int)
}

proof fn lemma_grid_placements_props(cells: Seq<Option<Tile>>, h: int, bx: int, by: int, n: int)
    requires
        1 <= h,
        0 <= n <= cells.len(),
    ensures
        grid_placements_upto(cells, h, bx, by, n).len() == occupied_upto(cells, n),
        forall|k: int| 0 <= k < grid_placements_upto(cells, h, bx, by, n).len() ==> exists|m: int|
            0 <= m < n && cells[m] is Some && #[trigger] grid_placements_upto(cells, h, bx, by, n)[k]
                == placement_at(cells, h, bx, by, m),
        forall|m: int| 0 <= m < n && (#[trigger] cells[m]) is Some ==> exists|k: int|
            0 <= k < grid_placements_upto(cells, h, bx, by, n).len()
                && grid_placements_upto(cells, h, bx, by, n)[k] == placement_at(cells, h, bx, by, m),
    decreases n,
{
    if n > 0 {
        lemma_grid_placements_props(cells, h, bx, by, n - 1);
        if cells[n - 1] is Some {
            assert(grid_placements_upto(cells, h, bx, by, n) =~= grid_placements_upto(
                cells,
                h,
                bx,
                by,
                n - 1,
            ).push(placement_at(cells, h, bx, by, n - 1)));
        } else {
            assert(grid_placements_upto(cells, h, bx, by, n) =~= grid_placements_upto(
                cells,
                h,
                bx,
                by,
                n - 1,
            ));
        }
        assert forall|k: int| 0 <= k < grid_placements_upto(cells, h, bx, by, n).len() implies exists|m: int|
            0 <= m < n && cells[m] is Some && #[trigger] grid_placements_upto(cells, h, bx, by, n)[k]
                == placement_at(cells, h, bx, by, m) by {
            if k < grid_placements_upto(cells, h, bx, by, n - 1).len() {
                let m0 = choose|m: int|
                    0 <= m < n - 1 && cells[m] is Some && #[trigger] grid_placements_upto(
                        cells,
                        h,
                        bx,
                        by,
                        n - 1,
                    )[k] == placement_at(cells, h, bx, by, m);
                assert(0 <= m0 < n && cells[m0] is Some && grid_placements_upto(
                    cells,
                    h,
                    bx,
                    by,
                    n,
                )[k] == placement_at(cells, h, bx, by, m0));
            } else {
                assert(cells[n - 1] is Some);
                assert(0 <= n - 1 < n && grid_placements_upto(cells, h, bx, by, n)[k]
                    == placement_at(cells, h, bx, by, n - 1));
            }
        }
        assert forall|m: int| 0 <= m < n && (#[trigger] cells[m]) is Some implies exists|k: int|
            0 <= k < grid_placements_upto(cells, h, bx, by, n).len()
                && grid_placements_upto(cells, h, bx, by, n)[k] == placement_at(cells, h, bx, by, m) by {
            if m < n - 1 {
                let k0 = choose|k: int|
                    0 <= k < grid_placements_upto(cells, h, bx, by, n - 1).len()
                        && #[trigger] grid_placements_upto(cells, h, bx, by, n - 1)[k] == placement_at(
                        cells,
                        h,
                        bx,
                        by,
                        m,
                    );
                assert(0 <= k0 < grid_placements_upto(cells, h, bx, by, n).len()
                    && grid_placements_upto(cells, h, bx, by, n)[k0] == placement_at(
                    cells,
                    h,
                    bx,
                    by,
                    m,
                ));
            } else {
                let k1 = grid_placements_upto(cells, h, bx, by, n - 1).len() as int;
                assert(0 <= k1 < grid_placements_upto(cells, h, bx, by, n).len()
                    && grid_placements_upto(cells, h, bx, by, n)[k1] == placement_at(
                    cells,
                    h,
                    bx,
                    by,
                    m,
                ));
            }
        }
    }
}

/// Shape of a finite layer's emission: a grid of `width * height` cells with
/// `N` occupied cells yields exactly `N` placements (so exactly `N` records,
/// never more), every placement is the placement of some occupied cell, and
/// the emitted grid coordinates are exactly the occupied `(x, y)` pairs.
#[verifier::rlimit(50)]
pub proof fn lemma_finite_layer_shape(cells: Seq<Option<Tile>>, width: int, height: int)
    requires
        1 <= height,
        cells.len() == width * height,
    ensures
        grid_placements(cells, height, 0, 0).len() == occupied_count(cells),
        forall|x: int, y: int| 0 <= x < width && 0 <= y < height ==> ((#[trigger] cells[x * height
            + y]) is Some <==> exists|k: int|
            0 <= k < grid_placements(cells, height, 0, 0).len() && (#[trigger] grid_placements(
                cells,
                height,
                0,
                0,
            )[k]).tx == x && grid_placements(cells, height, 0, 0)[k].ty == y),
{
    lemma_grid_placements_props(cells, height, 0, 0, cells.len() as int);
    assert forall|x: int, y: int| 0 <= x < width && 0 <= y < height implies ((#[trigger] cells[x
        * height + y]) is Some <==> exists|k: int|
        0 <= k < grid_placements(cells, height, 0, 0).len() && (#[trigger] grid_placements(
            cells,
            height,
            0,
            0,
        )[k]).tx == x && grid_placements(cells, height, 0, 0)[k].ty == y) by {
        let m = x * height + y;
        assert(0 <= m < width * height) by (nonlinear_arith)
            requires
                0 <= x < width,
                0 <= y < height,
                m == x * height + y,
        ;
        if cells[m] is Some {
            let k0 = choose|k: int|
                0 <= k < grid_placements(cells, height, 0, 0).len() && #[trigger] grid_placements(
                    cells,
                    height,
                    0,
                    0,
                )[k] == placement_at(cells, height, 0, 0, m);
            lemma_fundamental_div_mod_converse(m, height, x, y);
            assert(0 <= k0 < grid_placements(cells, height, 0, 0).len() && grid_placements(
                cells,
                height,
                0,
                0,
            )[k0].tx == x && grid_placements(cells, height, 0, 0)[k0].ty == y);
        }
        if exists|k: int|
            0 <= k < grid_placements(cells, height, 0, 0).len() && (#[trigger] grid_placements(
                cells,
                height,
                0,
                0,
            )[k]).tx == x && grid_placements(cells, height, 0, 0)[k].ty == y {
            let k1 = choose|k: int|
                0 <= k < grid_placements(cells, height, 0, 0).len() && (#[trigger] grid_placements(
                    cells,
                    height,
                    0,
                    0,
                )[k]).tx == x && grid_placements(cells, height, 0, 0)[k].ty == y;
            let m1 = choose|mm: int|
                0 <= mm < cells.len() && cells[mm] is Some && #[trigger] grid_placements(
                    cells,
                    height,
                    0,
                    0,
                )[k1] == placement_at(cells, height, 0, 0, mm);
            lemma_fundamental_div_mod(m1, height);
            assert(m1 / height == x && m1 % height == y);
            assert(m1 == x * height + y) by (nonlinear_arith)
                requires
                    m1 == height * (m1 / height) + m1 % height,
                    m1 / height == x,
                    m1 % height == y,
            ;
            assert(cells[m] is Some);
        }
    }
}

/// The linear cell a placement came from: the occupied cell whose placement
/// it is.
pub open spec fn placement_origin(cells: Seq<Option<Tile>>, h: int, bx: int, by: int, k: int) -> int {
    choose|m: int|
        0 <= m < cells.len() && cells[m] is Some && grid_placements(cells, h, bx, by)[k]
            == placement_at(cells, h, bx, by, m)
}

/// Every placement of a grid is the placement of some occupied cell: no
/// record is emitted that does not come from an occupied cell, and it
/// carries that cell's tileset name and local index.
pub proof fn lemma_placements_from_cells(cells: Seq<Option<Tile>>, h: int, bx: int, by: int)
    requires
        1 <= h,
    ensures
        forall|k: int| 0 <= k < grid_placements(cells, h, bx, by).len() ==> {
            let m = #[trigger] placement_origin(cells, h, bx, by, k);
            0 <= m < cells.len() && cells[m] is Some && grid_placements(cells, h, bx, by)[k]
                == placement_at(cells, h, bx, by, m)
        },
{
    lemma_grid_placements_props(cells, h, bx, by, cells.len() as int);
    assert forall|k: int| 0 <= k < grid_placements(cells, h, bx, by).len() implies {
        let m = #[trigger] placement_origin(cells, h, bx, by, k);
        0 <= m < cells.len() && cells[m] is Some && grid_placements(cells, h, bx, by)[k]
            == placement_at(cells, h, bx, by, m)
    } by {
        assert(grid_placements_upto(cells, h, bx, by, cells.len() as int)[k] == grid_placements(
            cells,
            h,
            bx,
            by,
        )[k]);
        let m0 = choose|m: int|
            0 <= m < cells.len() && cells[m] is Some && #[trigger] grid_placements_upto(
                cells,
                h,
                bx,
                by,
                cells.len() as int,
            )[k] == placement_at(cells, h, bx, by, m);
        assert(0 <= m0 < cells.len() && cells[m0] is Some && grid_placements(cells, h, bx, by)[k]
            == placement_at(cells, h, bx, by, m0));
    }
}

/// One animation-clip record per tile identity, as a sequence of records.
pub open spec fn spec_clip_records(ids: Seq<u32>) -> Seq<Seq<char>> {
    ids.map_values(|id: u32| spec_animation(id as int))
}

/// The clip section of a resource-descriptor file is exactly one
/// animation-clip record per distinct tile identity, in order: `K`
/// identities give `K` records, the `i`-th being `spec_animation(ids[i])`,
/// whose id, `start_tile` and `end_tile` all name that identity.
pub proof fn lemma_animations_per_identity(ids: Seq<u32>)
    ensures
        spec_clip_records(ids).len() == ids.len(),
        forall|i: int| 0 <= i < ids.len() ==> #[trigger] spec_clip_records(ids)[i]
            == spec_animation(ids[i] as int),
        spec_animations(ids) == spec_clip_records(ids).flatten_alt(),
    decreases ids.len(),
{
    let recs = spec_clip_records(ids);
    if ids.len() == 0 {
        assert(recs.flatten_alt() == Seq::<char>::empty());
    } else {
        lemma_animations_per_identity(ids.drop_last());
        assert(spec_clip_records(ids.drop_last()) =~= recs.drop_last());
        assert(recs.flatten_alt() == recs.drop_last().flatten_alt() + recs.last());
        assert(recs.last() == spec_animation(ids.last() as int));
    }
}

} // verus!
