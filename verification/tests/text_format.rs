//! Tests of the text grammar.

use voxel_scene::error::ParseError;
use voxel_scene::scene::Vec3u;
use voxel_scene::vly;

#[test]
fn text_basic_scene() {
    let input = b"grid_size: 2 1 1 voxel_num: 1\n0 0 0 0\n0 10 20 30\n";
    let scene = vly::parse_scene(input).expect("valid text input");
    assert_eq!(scene.grid_size, Vec3u { x: 2, y: 1, z: 1 });
    assert_eq!(scene.voxels.len(), 1);
    assert_eq!(scene.voxels[0].pos, Vec3u { x: 0, y: 0, z: 0 });
    assert_eq!(scene.voxels[0].color, 0);
    assert_eq!(scene.colors.len(), 1);
    assert_eq!(scene.colors[0].r, 10);
    assert_eq!(scene.colors[0].g, 20);
    assert_eq!(scene.colors[0].b, 30);
}

#[test]
fn text_axis_swap_grid_and_voxels() {
    // On-disk order is X, Z, Y: grid 2 3 4 is stored as (2, 4, 3) and a
    // voxel at 5 6 7 as (5, 7, 6).
    let input = b"grid_size: 2 3 4 voxel_num: 1\n5 6 7 9\n";
    let scene = vly::parse_scene(input).expect("valid text input");
    assert_eq!(scene.grid_size, Vec3u { x: 2, y: 4, z: 3 });
    assert_eq!(scene.voxels[0].pos, Vec3u { x: 5, y: 7, z: 6 });
    assert_eq!(scene.voxels[0].color, 9);
    assert_eq!(scene.colors.len(), 0);
}

#[test]
fn text_too_few_voxel_records_fails() {
    // The header declares three voxels but only two records follow.
    let input = b"grid_size: 1 1 1 voxel_num: 3\n0 0 0 0\n1 1 1 1\n";
    assert_eq!(vly::parse_scene(input).unwrap_err(), ParseError::UnexpectedToken);
}

#[test]
fn text_missing_voxel_num_fails() {
    let input = b"grid_size: 1 1 1\n0 0 0 0\n";
    assert_eq!(vly::parse_scene(input).unwrap_err(), ParseError::UnexpectedToken);
}

#[test]
fn text_missing_grid_size_fails() {
    let input = b"voxel_num: 1\n0 0 0 0\n";
    assert_eq!(vly::parse_scene(input).unwrap_err(), ParseError::UnexpectedToken);
}

#[test]
fn text_color_list_stops_at_first_non_matching_record() {
    // The second color record's blue component does not fit a byte, so the
    // greedy color list ends with one entry and the rest is ignored.
    let input = b"grid_size: 1 1 1 voxel_num: 1\n0 0 0 0\n0 1 2 3\n1 4 5 999\n";
    let scene = vly::parse_scene(input).expect("valid text input");
    assert_eq!(scene.colors.len(), 1);
    assert_eq!((scene.colors[0].r, scene.colors[0].g, scene.colors[0].b), (1, 2, 3));
}

#[test]
fn text_trailing_garbage_after_colors_is_ignored() {
    let input = b"grid_size: 1 1 1 voxel_num: 1\n0 0 0 0\n0 1 2 3\nnot a color";
    let scene = vly::parse_scene(input).expect("valid text input");
    assert_eq!(scene.colors.len(), 1);
}

#[test]
fn text_color_index_token_is_discarded() {
    // Color records carry a leading index token that is read and thrown
    // away: colors land in file order whatever the indices claim.
    let input = b"grid_size: 1 1 1 voxel_num: 0\n7 1 2 3\n0 4 5 6\n";
    let scene = vly::parse_scene(input).expect("valid text input");
    assert_eq!(scene.voxels.len(), 0);
    assert_eq!(scene.colors.len(), 2);
    assert_eq!((scene.colors[0].r, scene.colors[0].g, scene.colors[0].b), (1, 2, 3));
    assert_eq!((scene.colors[1].r, scene.colors[1].g, scene.colors[1].b), (4, 5, 6));
}

#[test]
fn text_value_beyond_u32_fails() {
    let input = b"grid_size: 1 1 4294967296 voxel_num: 0\n";
    assert_eq!(vly::parse_scene(input).unwrap_err(), ParseError::UnexpectedToken);
}

#[test]
fn text_u32_max_is_accepted() {
    let input = b"grid_size: 1 1 4294967295 voxel_num: 0\n";
    let scene = vly::parse_scene(input).expect("valid text input");
    assert_eq!(scene.grid_size.z, 1);
    assert_eq!(scene.grid_size.y, 4294967295);
}

#[test]
fn text_leading_zeros_parse() {
    let input = b"grid_size: 007 1 1 voxel_num: 0\n";
    let scene = vly::parse_scene(input).expect("valid text input");
    assert_eq!(scene.grid_size.x, 7);
}

#[test]
fn text_whitespace_runs_between_tokens() {
    let input = b"  \t\r\n grid_size:\n2\t3 4\nvoxel_num:   1\n 1\n2\n3\n4\n";
    let scene = vly::parse_scene(input).expect("valid text input");
    assert_eq!(scene.grid_size, Vec3u { x: 2, y: 4, z: 3 });
    assert_eq!(scene.voxels[0].pos, Vec3u { x: 1, y: 3, z: 2 });
    assert_eq!(scene.voxels[0].color, 4);
}

#[test]
fn text_negative_token_fails() {
    let input = b"grid_size: -1 1 1 voxel_num: 0\n";
    assert_eq!(vly::parse_scene(input).unwrap_err(), ParseError::UnexpectedToken);
}

#[test]
fn text_empty_input_fails() {
    assert_eq!(vly::parse_scene(b"").unwrap_err(), ParseError::UnexpectedToken);
}
