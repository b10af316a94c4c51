//! The textual record grammar: one writer per record kind, each specified
//! byte for byte. Every literal token, field order and fixed default below
//! is part of the engine's loader contract.

use vstd::prelude::*;
use vstd::string::StringExecFns;

use crate::coords::WorldPos;
use crate::numfmt::{
    dec_string, fixed5_string, half_string, spec_dec, spec_fixed5, spec_half, spec_udec,
    udec_string,
};

verus! {

/// The scene-fragment record for one placed tile: an identifier derived from
/// the grid coordinates, the sprite component data referencing the tileset
/// and the animation clip named by the tile's local index, and the world
/// position with an identity rotation.
pub open spec fn spec_sprite(
    tx: int,
    ty: int,
    tileset: Seq<char>,
    index: int,
    x_half: int,
    y_half: int,
    z_scaled: int,
) -> Seq<char> {
    "embedded_components {\n    id: \"tile_"@ + spec_dec(tx) + "_"@ + spec_dec(ty)
        + "\"\n    type: \"sprite\"\n    data: \"tile_set: \\\""@ + tileset
        + "\\\"\\n\"\n    \"default_animation: \\\""@ + spec_udec(index)
        + "\\\"\\n\"\n    \"material: \\\"/builtins/materials/sprite.material\\\"\\n\"\n    \"blend_mode: BLEND_MODE_ALPHA\\n\"\n    \"\"\n    position {\n        x: "@
        + spec_half(x_half) + "\n        y: "@ + spec_half(y_half) + "\n        z: "@
        + spec_fixed5(z_scaled)
        + "\n    }\n    rotation {\n        x: 0.0,\n        y: 0.0,\n        z: 0.0,\n        w: 1.0\n    }\n}\n"@
}

/// Appends the scene-fragment record for the tile at grid cell `(tx, ty)`.
pub fn write_sprite(out: &mut String, tx: i32, ty: i32, tileset: &str, index: u32, pos: WorldPos)
    ensures
        final(out)@ == old(out)@ + spec_sprite(
            tx as int,
            ty as int,
            tileset@,
            index as int,
            pos.x_half as int,
            pos.y_half as int,
            pos.z_scaled as int,
        ),
{
    out.append("embedded_components {\n    id: \"tile_");
    out.append(dec_string(tx as i64).as_str());
    out.append("_");
    out.append(dec_string(ty as i64).as_str());
    out.append("\"\n    type: \"sprite\"\n    data: \"tile_set: \\\"");
    out.append(tileset);
    out.append("\\\"\\n\"\n    \"default_animation: \\\"");
    out.append(udec_string(index as u64).as_str());
    out.append(
        "\\\"\\n\"\n    \"material: \\\"/builtins/materials/sprite.material\\\"\\n\"\n    \"blend_mode: BLEND_MODE_ALPHA\\n\"\n    \"\"\n    position {\n        x: ",
    );
    out.append(half_string(pos.x_half).as_str());
    out.append("\n        y: ");
    out.append(half_string(pos.y_half).as_str());
    out.append("\n        z: ");
    out.append(fixed5_string(pos.z_scaled).as_str());
    out.append(
        "\n    }\n    rotation {\n        x: 0.0,\n        y: 0.0,\n        z: 0.0,\n        w: 1.0\n    }\n}\n",
    );
    assert(out@ =~= old(out)@ + spec_sprite(
        tx as int,
        ty as int,
        tileset@,
        index as int,
        pos.x_half as int,
        pos.y_half as int,
        pos.z_scaled as int,
    ));
}

/// The header record of a resource-descriptor file: the image reference, the
/// tile geometry, and the fixed collision and material defaults.
pub open spec fn spec_tilesource_header(img: Seq<char>, width: int, height: int) -> Seq<char> {
    "image: "@ + img + "\ntile_width: "@ + spec_udec(width) + "\ntile_height: "@
        + spec_udec(height)
        + "\ntile_margin: 0\ntile_spacing: 0\ncollision: \"\"\nmaterial_tag: \"tile\"\ncollision_groups: \"default\"\n"@
}

/// Appends the resource-descriptor header for a tileset.
pub fn write_tilesource_header(out: &mut String, img: &str, width: u32, height: u32)
    ensures
        final(out)@ == old(out)@ + spec_tilesource_header(img@, width as int, height as int),
{
    out.append("image: ");
    out.append(img);
    out.append("\ntile_width: ");
    out.append(udec_string(width as u64).as_str());
    out.append("\ntile_height: ");
    out.append(udec_string(height as u64).as_str());
    out.append(
        "\ntile_margin: 0\ntile_spacing: 0\ncollision: \"\"\nmaterial_tag: \"tile\"\ncollision_groups: \"default\"\n",
    );
    assert(out@ =~= old(out)@ + spec_tilesource_header(img@, width as int, height as int));
}

/// One animation-clip record: the clip is named by the tile identity, spans
/// exactly that tile (`start_tile == end_tile == id`), and never plays.
pub open spec fn spec_animation(id: int) -> Seq<char> {
    "animations {\n    id: \""@ + spec_udec(id) + "\"\n    start_tile: "@ + spec_udec(id)
        + "\n    end_tile: "@ + spec_udec(id)
        + "\n    playback: PLAYBACK_NONE\n    fps: 0\n    flip_horizontal: 0\n    flip_vertical: 0\n}\n"@
}

/// Appends the animation-clip record for one tile identity.
pub fn write_tilesource_animation(out: &mut String, id: u32)
    ensures
        final(out)@ == old(out)@ + spec_animation(id as int),
{
    out.append("animations {\n    id: \"");
    out.append(udec_string(id as u64).as_str());
    out.append("\"\n    start_tile: ");
    out.append(udec_string(id as u64).as_str());
    out.append("\n    end_tile: ");
    out.append(udec_string(id as u64).as_str());
    out.append(
        "\n    playback: PLAYBACK_NONE\n    fps: 0\n    flip_horizontal: 0\n    flip_vertical: 0\n}\n",
    );
    assert(out@ =~= old(out)@ + spec_animation(id as int));
}

/// The footer record of a resource-descriptor file: fixed border, padding
/// and trim defaults.
pub open spec fn spec_tilesource_footer() -> Seq<char> {
    "extrude_borders: 2\ninner_padding: 0\nsprite_trim_mode: SPRITE_TRIM_MODE_OFF\n"@
}

/// Appends the resource-descriptor footer.
pub fn write_tilesource_footer(out: &mut String)
    ensures
        final(out)@ == old(out)@ + spec_tilesource_footer(),
{
    out.append("extrude_borders: 2\ninner_padding: 0\nsprite_trim_mode: SPRITE_TRIM_MODE_OFF\n");
    assert(out@ =~= old(out)@ + spec_tilesource_footer());
}

} // verus!
