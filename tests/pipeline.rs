use img::error::ViewError;
use img::lanczos_build::LanczosBuildState;
use img::media::{ImageData, ImageId};
use img::scale::SCALE_ONE;
use img::tiled_source::TiledSource;
use img::view_pipeline::{select_sampling, Sampling, ViewPipeline};

fn image(w: u32, h: u32, id: u64) -> ImageData {
    ImageData::new(vec![7u8; (w * h * 4) as usize], w, h, ImageId::new(id))
}

fn source(w: u32, h: u32, max_dim: u32) -> TiledSource<u32, String> {
    let img = image(w, h, 1);
    let rects = TiledSource::<u32, String>::plan(&img, max_dim).unwrap();
    let resources: Vec<u32> = (0..rects.len() as u32).collect();
    TiledSource::new(&img, max_dim, resources).unwrap()
}

#[test]
fn short_buffer_is_rejected() {
    let img = ImageData::new(vec![0u8; 10], 2, 2, ImageId::new(3));
    assert_eq!(img.size_bytes(), 16);
    let r = TiledSource::<u32, u32>::plan(&img, 16);
    assert_eq!(r, Err(ViewError::ImageDataMismatch { expected: 16, actual: 10 }));
}

#[test]
fn source_tiles_carry_their_resources() {
    let src = source(10, 5, 4);
    assert_eq!(src.tile_count(), 6);
    assert_eq!(src.physical_scale, SCALE_ONE);
    for (i, t) in src.tiles.iter().enumerate() {
        assert_eq!(t.resources, i as u32);
        assert!(t.lanczos.is_none());
    }
    assert_eq!((src.tiles[5].x, src.tiles[5].y, src.tiles[5].width, src.tiles[5].height), (8, 4, 2, 1));
    assert!(!src.lanczos_all_ready());
}

#[test]
fn large_upload_makes_three_tiles() {
    let img = image(9000, 4000, 9);
    let rects = TiledSource::<u32, u32>::plan(&img, 4096).unwrap();
    let widths: Vec<u32> = rects.iter().map(|r| r.width).collect();
    assert_eq!(widths, vec![4096, 4096, 808]);
    let src: TiledSource<u32, u32> = TiledSource::new(&img, 4096, vec![0, 1, 2]).unwrap();
    assert_eq!(src.tiles.len(), 3);
    assert_eq!(src.image_id, ImageId::new(9));
}

#[test]
fn build_flushes_only_after_the_last_tile() {
    let mut src = source(10, 5, 4);
    let n = src.tile_count();
    let mut build: LanczosBuildState<String> = LanczosBuildState::new(n);
    assert!(!build.is_done());
    for i in 0..n {
        assert_eq!(build.next_tile(), Some(i));
        let done = build.step(&mut src, format!("pyramid {i}"));
        if i + 1 < n {
            assert!(!done);
            assert!(src.tiles.iter().all(|t| t.lanczos.is_none()));
        } else {
            assert!(done);
        }
    }
    assert!(build.is_done());
    assert_eq!(build.next_tile(), None);
    assert!(src.lanczos_all_ready());
    for (i, t) in src.tiles.iter().enumerate() {
        assert_eq!(t.lanczos.as_deref(), Some(format!("pyramid {i}").as_str()));
    }
    // A finished build changes nothing more.
    assert!(build.step(&mut src, "extra".to_string()));
    assert_eq!(src.tiles[0].lanczos.as_deref(), Some("pyramid 0"));
}

#[test]
fn sampling_rule() {
    assert_eq!(select_sampling(SCALE_ONE, true, true), Sampling::Nearest);
    assert_eq!(select_sampling(999_999, false, false), Sampling::Trilinear);
    assert_eq!(select_sampling(999_999, true, true), Sampling::Lanczos);
    assert_eq!(select_sampling(3 * SCALE_ONE, true, false), Sampling::Nearest);
    assert_eq!(select_sampling(999_998, true, true), Sampling::Lanczos);
    assert_eq!(select_sampling(500_000, true, false), Sampling::Trilinear);
    assert_eq!(select_sampling(500_000, false, true), Sampling::Trilinear);
}

#[test]
fn pipeline_upload_and_identity() {
    let mut p: ViewPipeline<u32, String> = ViewPipeline::new();
    assert!(p.needs_upload(ImageId::new(1)));
    let img = image(10, 5, 1);
    assert_eq!(p.upload_image(&img, 4, vec![0, 1, 2, 3, 4, 5]), Ok(()));
    assert!(!p.needs_upload(ImageId::new(1)));
    assert!(p.needs_upload(ImageId::new(2)));
    // No build without quality mode.
    assert_eq!(p.update(SCALE_ONE / 2, SCALE_ONE, false), None);
    assert_eq!(p.source().as_ref().unwrap().physical_scale, SCALE_ONE / 2);
}

#[test]
fn failed_upload_keeps_previous_source() {
    let mut p: ViewPipeline<u32, String> = ViewPipeline::new();
    p.upload_image(&image(4, 4, 1), 4, vec![0]).unwrap();
    let bad = ImageData::new(vec![0u8; 3], 4, 4, ImageId::new(2));
    let r = p.upload_image(&bad, 4, vec![]);
    assert_eq!(r, Err(ViewError::ImageDataMismatch { expected: 64, actual: 3 }));
    assert!(!p.needs_upload(ImageId::new(1)));
}

#[test]
fn quality_mode_builds_one_tile_per_frame() {
    let mut p: ViewPipeline<u32, String> = ViewPipeline::new();
    p.upload_image(&image(10, 5, 1), 4, vec![0, 1, 2, 3, 4, 5]).unwrap();
    let half = SCALE_ONE / 2;
    for i in 0..6usize {
        let next = p.update(half, SCALE_ONE, true);
        assert_eq!(next, Some(i));
        for t in 0..6 {
            assert_eq!(p.tile_sampling(t), Sampling::Trilinear);
        }
        let done = p.complete_build_step(format!("lanczos {i}"));
        assert_eq!(done, i == 5);
    }
    assert_eq!(p.update(half, SCALE_ONE, true), None);
    for t in 0..6 {
        assert_eq!(p.tile_sampling(t), Sampling::Lanczos);
    }
    // Zoomed in, tiles are drawn with nearest sampling.
    p.update(2 * SCALE_ONE, SCALE_ONE, true);
    assert_eq!(p.tile_sampling(0), Sampling::Nearest);
    // Device pixel ratio enters the physical scale.
    p.update(half, 2 * SCALE_ONE, true);
    assert_eq!(p.tile_sampling(0), Sampling::Nearest);
    assert_eq!(p.scale_factor(), 2 * SCALE_ONE);
}

#[test]
fn turning_quality_off_discards_the_build() {
    let mut p: ViewPipeline<u32, String> = ViewPipeline::new();
    p.set_lanczos_enabled(true);
    p.upload_image(&image(10, 5, 1), 4, vec![0, 1, 2, 3, 4, 5]).unwrap();
    assert_eq!(p.update(SCALE_ONE / 4, SCALE_ONE, true), Some(0));
    assert!(!p.complete_build_step("a".to_string()));
    assert_eq!(p.update(SCALE_ONE / 4, SCALE_ONE, true), Some(1));
    assert_eq!(p.update(SCALE_ONE / 4, SCALE_ONE, false), None);
    assert!(!p.lanczos_enabled());
    // Turning it back on starts over from the first tile.
    assert_eq!(p.update(SCALE_ONE / 4, SCALE_ONE, true), Some(0));
}

#[test]
fn new_upload_restarts_the_build() {
    let mut p: ViewPipeline<u32, String> = ViewPipeline::new();
    p.set_lanczos_enabled(true);
    p.upload_image(&image(10, 5, 1), 4, vec![0, 1, 2, 3, 4, 5]).unwrap();
    assert_eq!(p.update(SCALE_ONE / 4, SCALE_ONE, true), Some(0));
    assert!(!p.complete_build_step("a".to_string()));
    p.upload_image(&image(4, 4, 2), 4, vec![9]).unwrap();
    assert_eq!(p.update(SCALE_ONE / 4, SCALE_ONE, true), Some(0));
    assert!(p.complete_build_step("b".to_string()));
    assert_eq!(p.tile_sampling(0), Sampling::Lanczos);
    // A ready source starts no new build when quality mode is toggled.
    p.set_lanczos_enabled(false);
    p.set_lanczos_enabled(true);
    assert_eq!(p.update(SCALE_ONE / 4, SCALE_ONE, true), None);
}
