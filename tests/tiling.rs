use img::mips::{compute_lanczos_mip_count, hw_mip_count, lanczos_plan};
use img::tiling::{ceil_div, tile_grid, TileRect};

fn covered_once(tiles: &[TileRect], w: u32, h: u32) -> bool {
    for py in 0..h {
        for px in 0..w {
            let n = tiles
                .iter()
                .filter(|t| t.x <= px && px < t.x + t.width && t.y <= py && py < t.y + t.height)
                .count();
            if n != 1 {
                return false;
            }
        }
    }
    true
}

#[test]
fn wide_image_splits_into_three_columns() {
    let tiles = tile_grid(9000, 4000, 4096);
    assert_eq!(tiles.len(), 3);
    let widths: Vec<u32> = tiles.iter().map(|t| t.width).collect();
    assert_eq!(widths, vec![4096, 4096, 808]);
    assert!(tiles.iter().all(|t| t.y == 0 && t.height == 4000));
    assert_eq!(tiles[1].x, 4096);
    assert_eq!(tiles[2].x, 8192);
}

#[test]
fn small_image_is_one_tile_with_ten_mips() {
    let tiles = tile_grid(512, 512, 4096);
    assert_eq!(tiles, vec![TileRect { x: 0, y: 0, width: 512, height: 512 }]);
    assert_eq!(hw_mip_count(tiles[0].width, tiles[0].height), 10);
}

#[test]
fn grid_is_row_major_and_clipped() {
    let tiles = tile_grid(10, 5, 4);
    assert_eq!(tiles.len(), 6);
    assert_eq!(tiles[0], TileRect { x: 0, y: 0, width: 4, height: 4 });
    assert_eq!(tiles[2], TileRect { x: 8, y: 0, width: 2, height: 4 });
    assert_eq!(tiles[3], TileRect { x: 0, y: 4, width: 4, height: 1 });
    assert_eq!(tiles[5], TileRect { x: 8, y: 4, width: 2, height: 1 });
    assert!(covered_once(&tiles, 10, 5));
}

#[test]
fn grids_partition_small_images() {
    for w in 0..12u32 {
        for h in 0..9u32 {
            for m in 1..6u32 {
                let tiles = tile_grid(w, h, m);
                assert!(tiles.iter().all(|t| t.width <= m && t.height <= m));
                assert!(tiles.iter().all(|t| t.x + t.width <= w && t.y + t.height <= h));
                assert!(covered_once(&tiles, w, h));
            }
        }
    }
}

#[test]
fn empty_image_has_no_tiles() {
    assert!(tile_grid(0, 100, 16).is_empty());
    assert!(tile_grid(100, 0, 16).is_empty());
}

#[test]
fn exact_multiple_has_no_sliver() {
    let tiles = tile_grid(8192, 4096, 4096);
    assert_eq!(tiles.len(), 2);
    assert_eq!(tiles[1], TileRect { x: 4096, y: 0, width: 4096, height: 4096 });
}

#[test]
fn ceil_div_rounds_up_without_overflow() {
    assert_eq!(ceil_div(9000, 4096), 3);
    assert_eq!(ceil_div(8192, 4096), 2);
    assert_eq!(ceil_div(0, 7), 0);
    assert_eq!(ceil_div(u32::MAX, 1), u32::MAX);
    assert_eq!(ceil_div(u32::MAX, 2), 2_147_483_648);
}

#[test]
fn hw_mip_count_is_floor_log2_plus_one() {
    assert_eq!(hw_mip_count(0, 0), 1);
    assert_eq!(hw_mip_count(1, 1), 1);
    assert_eq!(hw_mip_count(2, 1), 2);
    assert_eq!(hw_mip_count(3, 1), 2);
    assert_eq!(hw_mip_count(1, 4), 3);
    assert_eq!(hw_mip_count(4096, 808), 13);
    assert_eq!(hw_mip_count(4095, 1), 12);
    assert_eq!(hw_mip_count(u32::MAX, 0), 32);
    for n in 1..5000u32 {
        let expected = 32 - n.leading_zeros();
        assert_eq!(hw_mip_count(n, n / 2), expected);
    }
}

#[test]
fn lanczos_mip_count_stops_at_four_pixels() {
    assert_eq!(compute_lanczos_mip_count(4096, 4096), 5);
    assert_eq!(compute_lanczos_mip_count(8, 8), 2);
    assert_eq!(compute_lanczos_mip_count(7, 100), 2);
    assert_eq!(compute_lanczos_mip_count(6, 100), 1);
    assert_eq!(compute_lanczos_mip_count(3, 3), 1);
    assert_eq!(compute_lanczos_mip_count(0, 0), 1);
    assert_eq!(compute_lanczos_mip_count(64, 13), 3);
}

#[test]
fn lanczos_plan_levels_and_passes() {
    let plan = lanczos_plan(10, 20);
    assert_eq!(plan.len(), 2);
    assert_eq!((plan[0].width, plan[0].height), (10, 20));
    assert_eq!((plan[0].horizontal.scale_num, plan[0].horizontal.scale_den), (1, 1));
    assert_eq!((plan[0].vertical.dst_width, plan[0].vertical.dst_height), (10, 20));
    let l1 = plan[1];
    assert_eq!((l1.width, l1.height), (5, 10));
    assert_eq!((l1.horizontal.src_width, l1.horizontal.src_height), (10, 20));
    assert_eq!((l1.horizontal.scale_num, l1.horizontal.scale_den), (5, 10));
    assert_eq!((l1.horizontal.dst_width, l1.horizontal.dst_height), (5, 20));
    assert_eq!((l1.vertical.src_width, l1.vertical.src_height), (5, 20));
    assert_eq!((l1.vertical.scale_num, l1.vertical.scale_den), (10, 20));
    assert_eq!((l1.vertical.dst_width, l1.vertical.dst_height), (5, 10));
}

#[test]
fn lanczos_plan_rounds_each_level_from_the_tile() {
    let plan = lanczos_plan(13, 64);
    assert_eq!(plan.len(), 3);
    assert_eq!((plan[1].width, plan[1].height), (7, 32));
    // round(13 / 4) = 3, not half of 7 rounded up.
    assert_eq!((plan[2].width, plan[2].height), (3, 16));
    assert_eq!((plan[2].horizontal.scale_num, plan[2].horizontal.scale_den), (3, 7));
    assert_eq!((plan[2].vertical.scale_num, plan[2].vertical.scale_den), (16, 32));
}
