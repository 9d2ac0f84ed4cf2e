//! Tests of the binary chunk grammar.

use voxel_scene::color::Color;
use voxel_scene::error::ParseError;
use voxel_scene::palette::default_palette;
use voxel_scene::scene::Vec3u;
use voxel_scene::vox;

fn le(v: u32) -> Vec<u8> {
    vec![
        (v & 0xff) as u8,
        ((v >> 8) & 0xff) as u8,
        ((v >> 16) & 0xff) as u8,
        ((v >> 24) & 0xff) as u8,
    ]
}

fn chunk(tag: &[u8], content: &[u8], children_len: u32) -> Vec<u8> {
    let mut out = Vec::new();
    out.extend_from_slice(tag);
    out.extend_from_slice(&le(content.len() as u32));
    out.extend_from_slice(&le(children_len));
    out.extend_from_slice(content);
    out
}

fn size_chunk(x: u32, z: u32, y: u32) -> Vec<u8> {
    let mut content = Vec::new();
    content.extend_from_slice(&le(x));
    content.extend_from_slice(&le(z));
    content.extend_from_slice(&le(y));
    chunk(b"SIZE", &content, 0)
}

fn xyzi_chunk(voxels: &[[u8; 4]]) -> Vec<u8> {
    let mut content = Vec::new();
    content.extend_from_slice(&le(voxels.len() as u32));
    for v in voxels {
        content.extend_from_slice(v);
    }
    chunk(b"XYZI", &content, 0)
}

fn vox_file(version: u32, children: &[u8]) -> Vec<u8> {
    let mut out = Vec::new();
    out.extend_from_slice(b"VOX ");
    out.extend_from_slice(&le(version));
    out.extend_from_slice(&chunk(b"MAIN", b"", children.len() as u32));
    out.extend_from_slice(children);
    out
}

fn one_model(version: u32) -> Vec<u8> {
    let mut children = size_chunk(1, 1, 1);
    children.extend_from_slice(&xyzi_chunk(&[[0, 0, 0, 1]]));
    vox_file(version, &children)
}

#[test]
fn vox_basic_scene_default_palette() {
    let data = one_model(150);
    let scenes = vox::parse_scene(&data).expect("valid binary input");
    assert_eq!(scenes.len(), 1);
    let scene = &scenes[0];
    assert_eq!(scene.grid_size, Vec3u { x: 1, y: 1, z: 1 });
    assert_eq!(scene.voxels.len(), 1);
    assert_eq!(scene.voxels[0].pos, Vec3u { x: 0, y: 0, z: 0 });
    assert_eq!(scene.voxels[0].color, 1);
    assert_eq!(scene.colors.len(), 256);
    // Slot 0 is reserved black; slot 1 is the default table's first
    // non-reserved entry, white.
    assert_eq!((scene.colors[0].r, scene.colors[0].g, scene.colors[0].b), (0, 0, 0));
    assert_eq!((scene.colors[1].r, scene.colors[1].g, scene.colors[1].b), (255, 255, 255));
}

#[test]
fn vox_axis_swap_grid_and_voxels() {
    // SIZE carries dimensions in on-disk order X, Z, Y; so does a voxel
    // record's position bytes. Both are stored with the second and third
    // exchanged.
    let mut children = size_chunk(2, 3, 4);
    children.extend_from_slice(&xyzi_chunk(&[[1, 2, 3, 5]]));
    let data = vox_file(150, &children);
    let scenes = vox::parse_scene(&data).expect("valid binary input");
    assert_eq!(scenes[0].grid_size, Vec3u { x: 2, y: 4, z: 3 });
    assert_eq!(scenes[0].voxels[0].pos, Vec3u { x: 1, y: 3, z: 2 });
    assert_eq!(scenes[0].voxels[0].color, 5);
}

#[test]
fn vox_wrong_version_fails() {
    let data = one_model(149);
    assert_eq!(vox::parse_scene(&data).unwrap_err(), ParseError::UnsupportedVersion);
}

#[test]
fn vox_wrong_magic_fails() {
    let mut data = one_model(150);
    data[0] = b'W';
    assert_eq!(vox::parse_scene(&data).unwrap_err(), ParseError::UnexpectedChunkTag);
}

#[test]
fn vox_truncated_header_fails() {
    assert_eq!(vox::parse_scene(b"VOX").unwrap_err(), ParseError::TruncatedInput);
    assert_eq!(vox::parse_scene(b"VOX \x96\x00").unwrap_err(), ParseError::TruncatedInput);
}

#[test]
fn vox_truncated_chunk_content_fails() {
    // A SIZE chunk that declares twelve content bytes but ends early.
    let mut data = Vec::new();
    data.extend_from_slice(b"VOX ");
    data.extend_from_slice(&le(150));
    data.extend_from_slice(&chunk(b"MAIN", b"", 20));
    data.extend_from_slice(b"SIZE");
    data.extend_from_slice(&le(12));
    data.extend_from_slice(&le(0));
    data.extend_from_slice(&le(1));
    assert_eq!(vox::parse_scene(&data).unwrap_err(), ParseError::TruncatedInput);
}

#[test]
fn vox_missing_size_chunk_fails() {
    let children = xyzi_chunk(&[[0, 0, 0, 1]]);
    let data = vox_file(150, &children);
    assert_eq!(vox::parse_scene(&data).unwrap_err(), ParseError::UnexpectedChunkTag);
}

#[test]
fn vox_size_with_children_fails() {
    let mut children = Vec::new();
    let mut content = Vec::new();
    content.extend_from_slice(&le(1));
    content.extend_from_slice(&le(1));
    content.extend_from_slice(&le(1));
    children.extend_from_slice(&chunk(b"SIZE", &content, 4));
    children.extend_from_slice(&xyzi_chunk(&[[0, 0, 0, 1]]));
    let data = vox_file(150, &children);
    assert_eq!(vox::parse_scene(&data).unwrap_err(), ParseError::NonEmptyLeafChunk);
}

#[test]
fn vox_size_with_residual_content_fails() {
    let mut content = Vec::new();
    content.extend_from_slice(&le(1));
    content.extend_from_slice(&le(1));
    content.extend_from_slice(&le(1));
    content.extend_from_slice(&le(9));
    let mut children = chunk(b"SIZE", &content, 0);
    children.extend_from_slice(&xyzi_chunk(&[[0, 0, 0, 1]]));
    let data = vox_file(150, &children);
    assert_eq!(vox::parse_scene(&data).unwrap_err(), ParseError::NonEmptyLeafChunk);
}

#[test]
fn vox_xyzi_residual_content_is_ignored() {
    let mut content = Vec::new();
    content.extend_from_slice(&le(1));
    content.extend_from_slice(&[0, 0, 0, 1]);
    content.extend_from_slice(&[9, 9]);
    let mut children = size_chunk(1, 1, 1);
    children.extend_from_slice(&chunk(b"XYZI", &content, 0));
    let data = vox_file(150, &children);
    let scenes = vox::parse_scene(&data).expect("residual content bytes are ignored");
    assert_eq!(scenes[0].voxels.len(), 1);
}

#[test]
fn vox_main_without_children_fails() {
    let data = vox_file(150, b"");
    assert_eq!(vox::parse_scene(&data).unwrap_err(), ParseError::EmptyPack);
}

#[test]
fn vox_main_with_content_fails() {
    let mut data = Vec::new();
    data.extend_from_slice(b"VOX ");
    data.extend_from_slice(&le(150));
    let inner = size_chunk(1, 1, 1);
    data.extend_from_slice(&chunk(b"MAIN", b"xx", inner.len() as u32));
    data.extend_from_slice(&inner);
    assert_eq!(vox::parse_scene(&data).unwrap_err(), ParseError::NonEmptyLeafChunk);
}

#[test]
fn vox_pack_of_zero_models_fails() {
    let pack = chunk(b"PACK", &le(0), 0);
    let data = vox_file(150, &pack);
    assert_eq!(vox::parse_scene(&data).unwrap_err(), ParseError::EmptyPack);
}

#[test]
fn vox_pack_with_children_fails() {
    let mut children = chunk(b"PACK", &le(1), 4);
    children.extend_from_slice(&size_chunk(1, 1, 1));
    children.extend_from_slice(&xyzi_chunk(&[[0, 0, 0, 1]]));
    let data = vox_file(150, &children);
    assert_eq!(vox::parse_scene(&data).unwrap_err(), ParseError::NonEmptyLeafChunk);
}

#[test]
fn vox_pack_parses_every_model() {
    // PACK declares two models; both SIZE/XYZI pairs are parsed and both
    // scenes come back, each with the shared palette.
    let mut children = chunk(b"PACK", &le(2), 0);
    children.extend_from_slice(&size_chunk(1, 2, 3));
    children.extend_from_slice(&xyzi_chunk(&[[0, 0, 0, 1]]));
    children.extend_from_slice(&size_chunk(4, 5, 6));
    children.extend_from_slice(&xyzi_chunk(&[[1, 1, 1, 2], [2, 2, 2, 3]]));
    let data = vox_file(150, &children);
    let scenes = vox::parse_scene(&data).expect("valid binary input");
    assert_eq!(scenes.len(), 2);
    assert_eq!(scenes[0].grid_size, Vec3u { x: 1, y: 3, z: 2 });
    assert_eq!(scenes[0].voxels.len(), 1);
    assert_eq!(scenes[1].grid_size, Vec3u { x: 4, y: 6, z: 5 });
    assert_eq!(scenes[1].voxels.len(), 2);
    assert_eq!(scenes[0].colors.len(), 256);
    assert_eq!(scenes[1].colors.len(), 256);
}

fn rgba_chunk() -> Vec<u8> {
    // Entry j holds (j, 255 - j, 7, alpha); the alpha byte must be dropped.
    let mut content = Vec::new();
    for j in 0..=255u32 {
        content.extend_from_slice(&[j as u8, (255 - j) as u8, 7, 0xaa]);
    }
    chunk(b"RGBA", &content, 0)
}

#[test]
fn vox_rgba_palette_is_shifted_by_one() {
    let mut children = size_chunk(1, 1, 1);
    children.extend_from_slice(&xyzi_chunk(&[[0, 0, 0, 1]]));
    children.extend_from_slice(&rgba_chunk());
    let data = vox_file(150, &children);
    let scenes = vox::parse_scene(&data).expect("valid binary input");
    let colors = &scenes[0].colors;
    assert_eq!(colors.len(), 256);
    // Slot 0 stays black even with an explicit palette chunk.
    assert_eq!((colors[0].r, colors[0].g, colors[0].b), (0, 0, 0));
    // Slot j holds the chunk's entry j - 1.
    assert_eq!((colors[1].r, colors[1].g, colors[1].b), (0, 255, 7));
    assert_eq!((colors[255].r, colors[255].g, colors[255].b), (254, 1, 7));
}

#[test]
fn vox_malformed_rgba_falls_back_to_default() {
    // An RGBA chunk that declares children is unusable: the default table
    // takes its place and the parse still succeeds.
    let mut children = size_chunk(1, 1, 1);
    children.extend_from_slice(&xyzi_chunk(&[[0, 0, 0, 1]]));
    children.extend_from_slice(&chunk(b"RGBA", &[0u8; 1024], 4));
    let data = vox_file(150, &children);
    let scenes = vox::parse_scene(&data).expect("fallback palette applies");
    let colors = &scenes[0].colors;
    assert_eq!((colors[0].r, colors[0].g, colors[0].b), (0, 0, 0));
    assert_eq!((colors[1].r, colors[1].g, colors[1].b), (255, 255, 255));
}

#[test]
fn default_palette_spot_values() {
    let pal = default_palette();
    assert_eq!(pal.len(), 256);
    let rgb = |c: &Color| (c.r, c.g, c.b);
    // Packed entries decode little-endian: red is the low byte.
    assert_eq!(rgb(&pal[0]), (0, 0, 0));
    assert_eq!(rgb(&pal[1]), (0xff, 0xff, 0xff));
    assert_eq!(rgb(&pal[2]), (0xff, 0xff, 0xcc));
    assert_eq!(rgb(&pal[7]), (0xff, 0xcc, 0xff));
    assert_eq!(rgb(&pal[37]), (0xcc, 0xff, 0xff));
    assert_eq!(rgb(&pal[215]), (0, 0, 0x33));
    assert_eq!(rgb(&pal[216]), (0xee, 0, 0));
    assert_eq!(rgb(&pal[226]), (0, 0xee, 0));
    assert_eq!(rgb(&pal[246]), (0xee, 0xee, 0xee));
    assert_eq!(rgb(&pal[255]), (0x11, 0x11, 0x11));
}

#[test]
fn vox_voxel_color_indices_address_the_palette() {
    // A one-byte color index always lies below the 256-entry palette.
    let mut children = size_chunk(2, 2, 2);
    children.extend_from_slice(&xyzi_chunk(&[[0, 0, 0, 255], [1, 0, 0, 1]]));
    let data = vox_file(150, &children);
    let scenes = vox::parse_scene(&data).expect("valid binary input");
    for v in &scenes[0].voxels {
        assert!((v.color as usize) < scenes[0].colors.len());
    }
}
