use qone::render::{pipeline_for, plan_draws, DrawCall, Pipeline};
use qone::types::{TEX_DEBUG, TEX_DEFAULT, TEX_FLUID, TEX_SKY};

#[test]
fn pipelines_by_kind() {
    assert_eq!(pipeline_for(TEX_SKY), Pipeline::Sky);
    assert_eq!(pipeline_for(TEX_FLUID), Pipeline::Fluid);
    assert_eq!(pipeline_for(TEX_DEFAULT), Pipeline::Default);
    assert_eq!(pipeline_for(TEX_DEBUG), Pipeline::Debug);
    assert_eq!(pipeline_for(17), Pipeline::Debug);
}

#[test]
fn draws_follow_offsets_and_transparent_go_last() {
    let offsets = vec![6, 0, 3, 9, 12];
    let kinds = vec![TEX_DEFAULT, TEX_SKY, TEX_FLUID, TEX_SKY, TEX_DEBUG];
    let transparent = vec![false, false, true, false, false];
    let draws = plan_draws(&offsets, &kinds, &transparent);
    assert_eq!(
        draws,
        vec![
            DrawCall { pipeline: Pipeline::Default, texture: 0, start: 0, end: 6 },
            DrawCall { pipeline: Pipeline::Sky, texture: 3, start: 9, end: 18 },
            DrawCall { pipeline: Pipeline::Debug, texture: 4, start: 18, end: 30 },
            DrawCall { pipeline: Pipeline::Default, texture: 2, start: 6, end: 9 },
        ]
    );
}

#[test]
fn nothing_to_draw() {
    assert!(plan_draws(&vec![0, 0], &vec![TEX_SKY, TEX_SKY], &vec![false, true]).is_empty());
    assert!(plan_draws(&vec![], &vec![], &vec![]).is_empty());
}

#[test]
fn every_texture_with_vertices_drawn_once() {
    let offsets = vec![4, 0, 7, 1, 0, 2, 5];
    let kinds = vec![TEX_SKY, TEX_DEFAULT, TEX_FLUID, TEX_DEFAULT, TEX_DEFAULT, TEX_DEBUG, TEX_DEFAULT];
    let transparent = vec![true, false, false, true, false, false, true];
    let draws = plan_draws(&offsets, &kinds, &transparent);
    for (i, &c) in offsets.iter().enumerate() {
        let n = draws.iter().filter(|d| d.texture == i).count();
        assert_eq!(n, if c != 0 { 1 } else { 0 });
    }
    let first_transparent = draws.iter().position(|d| transparent[d.texture]).unwrap();
    assert!(draws[..first_transparent].iter().all(|d| !transparent[d.texture]));
    assert!(draws[first_transparent..].iter().all(|d| transparent[d.texture] && d.pipeline == Pipeline::Default));
    let covered: u32 = draws.iter().map(|d| d.end - d.start).sum();
    assert_eq!(covered, offsets.iter().sum::<u32>());
}
