use tiled_to_defold::coords::tile_coords;
use tiled_to_defold::emit::{convert, tileset_records, write_layer_records, write_layers};
use tiled_to_defold::model::{Chunk, Layer, LayerContent, Tile, TileMap, Tileset};
use tiled_to_defold::records::write_sprite;

fn tile(tileset: &str, index: u32) -> Option<Tile> {
    Some(Tile { tileset: tileset.to_string(), index })
}

fn empty_chunk_cells() -> Vec<Option<Tile>> {
    let mut cells: Vec<Option<Tile>> = Vec::new();
    for _ in 0..256 {
        cells.push(None);
    }
    cells
}

#[test]
fn sprite_record_golden() {
    let mut out = String::new();
    let pos = tile_coords(2, 3, 64, 32, 0, 0);
    write_sprite(&mut out, 2, 3, "terrain", 5, pos);
    let expected = "embedded_components {\n    id: \"tile_2_3\"\n    type: \"sprite\"\n    data: \"tile_set: \\\"terrain\\\"\\n\"\n    \"default_animation: \\\"5\\\"\\n\"\n    \"material: \\\"/builtins/materials/sprite.material\\\"\\n\"\n    \"blend_mode: BLEND_MODE_ALPHA\\n\"\n    \"\"\n    position {\n        x: -32\n        y: 80\n        z: -0.00302\n    }\n    rotation {\n        x: 0.0,\n        y: 0.0,\n        z: 0.0,\n        w: 1.0\n    }\n}\n";
    assert_eq!(out, expected);
}

#[test]
fn tileset_records_golden() {
    // Three distinct identities give exactly three clip records, in the
    // tileset's own order, each spanning its single tile.
    let ts = Tileset {
        name: "terrain".to_string(),
        tile_width: 64,
        tile_height: 32,
        tile_ids: vec![0, 5, 2],
    };
    let content = tileset_records(&ts);
    let expected = [
        "image: terrain\n",
        "tile_width: 64\n",
        "tile_height: 32\n",
        "tile_margin: 0\n",
        "tile_spacing: 0\n",
        "collision: \"\"\n",
        "material_tag: \"tile\"\n",
        "collision_groups: \"default\"\n",
        "animations {\n    id: \"0\"\n    start_tile: 0\n    end_tile: 0\n    playback: PLAYBACK_NONE\n    fps: 0\n    flip_horizontal: 0\n    flip_vertical: 0\n}\n",
        "animations {\n    id: \"5\"\n    start_tile: 5\n    end_tile: 5\n    playback: PLAYBACK_NONE\n    fps: 0\n    flip_horizontal: 0\n    flip_vertical: 0\n}\n",
        "animations {\n    id: \"2\"\n    start_tile: 2\n    end_tile: 2\n    playback: PLAYBACK_NONE\n    fps: 0\n    flip_horizontal: 0\n    flip_vertical: 0\n}\n",
        "extrude_borders: 2\n",
        "inner_padding: 0\n",
        "sprite_trim_mode: SPRITE_TRIM_MODE_OFF\n",
    ]
    .join("");
    assert_eq!(content, expected);
    assert_eq!(content.matches("animations {").count(), 3);
}

#[test]
fn finite_layer_emits_each_occupied_cell_once() {
    // 2x2 grid, cells (0, 1) and (1, 0) occupied; encounter order is outer
    // x, inner y, so (0, 1) comes first.
    let layer = Layer {
        name: "ground".to_string(),
        offset_x: 0,
        offset_y: 0,
        content: LayerContent::Finite {
            width: 2,
            height: 2,
            cells: vec![None, tile("terrain", 1), tile("terrain", 2), None],
        },
    };
    let content = write_layer_records(&layer, 64, 32);
    assert_eq!(content.matches("embedded_components {").count(), 2);
    let first = content.find("id: \"tile_0_1\"").expect("cell (0, 1) missing");
    let second = content.find("id: \"tile_1_0\"").expect("cell (1, 0) missing");
    assert!(first < second);
    assert!(!content.contains("id: \"tile_0_0\""));
    assert!(!content.contains("id: \"tile_1_1\""));
}

#[test]
fn empty_finite_layer_gives_empty_file() {
    let map = TileMap {
        tile_width: 64,
        tile_height: 32,
        tilesets: Vec::new(),
        layers: vec![Layer {
            name: "empty".to_string(),
            offset_x: 0,
            offset_y: 0,
            content: LayerContent::Finite { width: 3, height: 3, cells: vec![None; 9] },
        }],
    };
    let files = convert(&map);
    assert_eq!(files.len(), 1);
    assert_eq!(files[0].name, "empty.go");
    assert_eq!(files[0].content, "");
}

#[test]
fn infinite_layer_chunk_base_is_applied() {
    let mut cells = empty_chunk_cells();
    cells[0] = tile("terrain", 0);
    let layer = Layer {
        name: "far".to_string(),
        offset_x: 0,
        offset_y: 0,
        content: LayerContent::Infinite {
            chunks: vec![Chunk { base_x: -16, base_y: 0, cells }],
        },
    };
    let content = write_layer_records(&layer, 64, 32);
    assert_eq!(content.matches("embedded_components {").count(), 1);
    assert!(content.contains("id: \"tile_-16_0\""));
    assert!(content.contains("x: -512\n"));
    assert!(content.contains("y: -256\n"));
    assert!(content.contains("z: 0.00016\n"));
}

#[test]
fn shared_tile_on_two_layers_gives_two_records() {
    // Two layers using the same tileset and local index yield two distinct
    // scene-fragment files, both referencing the same animation clip.
    let make_layer = |name: &str| Layer {
        name: name.to_string(),
        offset_x: 0,
        offset_y: 0,
        content: LayerContent::Finite { width: 1, height: 1, cells: vec![tile("terrain", 4)] },
    };
    let map = TileMap {
        tile_width: 64,
        tile_height: 32,
        tilesets: vec![Tileset {
            name: "terrain".to_string(),
            tile_width: 64,
            tile_height: 32,
            tile_ids: vec![4],
        }],
        layers: vec![make_layer("below"), make_layer("above")],
    };
    let files = convert(&map);
    assert_eq!(files.len(), 3);
    assert_eq!(files[0].name, "terrain.tilesource");
    assert_eq!(files[1].name, "below.go");
    assert_eq!(files[2].name, "above.go");
    assert!(files[1].content.contains("default_animation: \\\"4\\\""));
    assert!(files[2].content.contains("default_animation: \\\"4\\\""));
    assert_eq!(files[1].content, files[2].content);
}

#[test]
fn non_tile_layers_are_skipped() {
    let layers = vec![
        Layer {
            name: "objects".to_string(),
            offset_x: 0,
            offset_y: 0,
            content: LayerContent::Other,
        },
        Layer {
            name: "ground".to_string(),
            offset_x: 0,
            offset_y: 0,
            content: LayerContent::Finite { width: 1, height: 1, cells: vec![None] },
        },
    ];
    let files = write_layers(&layers, 64, 32);
    assert_eq!(files.len(), 1);
    assert_eq!(files[0].name, "ground.go");
}

#[test]
fn layer_offset_shifts_every_record() {
    let layer = Layer {
        name: "ground".to_string(),
        offset_x: 16,
        offset_y: 8,
        content: LayerContent::Finite { width: 1, height: 1, cells: vec![tile("terrain", 0)] },
    };
    let content = write_layer_records(&layer, 64, 32);
    assert!(content.contains("x: 16\n"));
    assert!(content.contains("y: 8\n"));
}
