use fast3d::rdp::TileDescriptor;
use fast3d::tile_sampling::TileSampling;

fn tile() -> TileDescriptor {
    TileDescriptor {
        fmt: 4,
        siz: 1,
        width: 8,
        height: 4,
        lrs: 28,
        lrt: 12,
        line: 1,
        masks: 3,
        maskt: 2,
        ..Default::default()
    }
}

fn sampling(tile: TileDescriptor) -> TileSampling {
    TileSampling::from_tile(&tile, 0)
}

fn reference_coordinate(sampling: TileSampling, uv: [f32; 2]) -> [f32; 2] {
    std::array::from_fn(|axis| {
        let shift = sampling.shift_mask[axis];
        let scale = if shift <= 10 {
            2.0_f32.powi(-(shift as i32))
        } else {
            2.0_f32.powi(16 - shift as i32)
        };
        (uv[axis] * scale * 128.0).round_ties_even() / 128.0 - sampling.bounds[axis] as f32 / 4.0
    })
}

fn reference_address(sampling: TileSampling, tap: [i32; 2]) -> [i32; 2] {
    std::array::from_fn(|axis| {
        let mode = sampling.modes[axis];
        let mask = sampling.shift_mask[axis + 2];
        let mut n = tap[axis];
        if mode & 2 != 0 || mask == 0 {
            n = n.clamp(0, sampling.modes[axis + 2] as i32 - 1);
        }
        if mask != 0 {
            let period = 1 << mask;
            n = if mode & 1 != 0 {
                let phase = n.rem_euclid(2 * period);
                if phase < period {
                    phase
                } else {
                    2 * period - 1 - phase
                }
            } else {
                n.rem_euclid(period)
            };
        }
        n
    })
}

#[test]
fn tile_origin_is_applied_after_shift() {
    let s = sampling(TileDescriptor { uls: 5, ult: 9, lrs: 33, lrt: 21, shifts: 1, shiftt: 15, ..tile() });
    assert_eq!(s.bounds, [5, 9, 33, 21]);
    assert_eq!(reference_coordinate(s, [9.0, 3.0]), [3.25, 3.75]);
    assert_eq!(reference_coordinate(s, [9.0 + 1.0 / 128.0, 3.0 + 1.0 / 512.0]), [3.25, 3.75]);
    assert_eq!(reference_coordinate(s, [-0.0234375, -0.005859375]), [-1.265625, -2.265625]);
    assert_eq!(reference_address(s, [3, 3]), [3, 3]);
}

#[test]
fn tile_shift_all_16_values() {
    let expected = [
        1024.0, 512.0, 256.0, 128.0, 64.0, 32.0, 16.0, 8.0, 4.0, 2.0, 1.0, 32768.0, 16384.0,
        8192.0, 4096.0, 2048.0,
    ];
    for (shift, expected) in expected.into_iter().enumerate() {
        let s = sampling(TileDescriptor { shifts: shift as u8, shiftt: shift as u8, ..tile() });
        assert_eq!(reference_coordinate(s, [1024.0; 2]), [expected; 2], "shift {shift}");
        assert_eq!(
            reference_address(s, [expected as i32; 2]),
            [expected as i32 % 8, expected as i32 % 4]
        );
    }
}

#[test]
fn tile_mask_zero_clamps() {
    let s = sampling(TileDescriptor { masks: 0, maskt: 0, ..tile() });
    for (tap, expected) in [([-9, -1], [0, 0]), ([8, 4], [7, 3]), ([3, 2], [3, 2])] {
        assert_eq!(reference_address(s, tap), expected);
    }
}

#[test]
fn tile_mask_period_differs_from_image_extent() {
    let s = sampling(TileDescriptor { masks: 2, maskt: 1, ..tile() });
    assert_eq!(s.image[..2], [8, 4]);
    for (tap, expected) in [([4, 2], [0, 0]), ([7, 3], [3, 1]), ([8, 4], [0, 0])] {
        assert_eq!(reference_address(s, tap), expected);
    }
}

#[test]
fn tile_negative_wrap_and_mirror() {
    for (mode, expected) in [(0, [3, 0, 3, 0, 1, 3, 0, 1]), (1, [0, 0, 3, 3, 2, 0, 0, 1])] {
        let s = sampling(TileDescriptor { cms: mode, cmt: mode, masks: 2, maskt: 2, ..tile() });
        for (tap, expected) in [-9, -8, -5, -4, -3, -1, 0, 1].into_iter().zip(expected) {
            assert_eq!(reference_address(s, [tap; 2]), [expected; 2]);
        }
    }
}

#[test]
fn tile_clamp_precedes_mask_for_each_tap() {
    let s = sampling(TileDescriptor { cms: 3, cmt: 2, masks: 2, maskt: 1, ..tile() });
    for (tap, expected) in [([6, 2], [1, 0]), ([7, 3], [0, 1]), ([8, 4], [0, 1]), ([-1, -1], [0, 0])] {
        assert_eq!(reference_address(s, tap), expected);
    }
    assert_eq!(reference_coordinate(s, [8.0, 4.0]), [8.0, 4.0]);
}

#[test]
fn tile_large_mask_uses_bounded_tmem_lookup() {
    for siz in [0, 1, 2, 3] {
        let s = sampling(TileDescriptor {
            fmt: if siz == 3 { 0 } else { 3 },
            siz,
            masks: 15,
            maskt: 15,
            tmem_addr: 511,
            line: 511,
            ..tile()
        });
        assert_eq!(s.image[2], 1);
        assert_eq!(s.allocation_extent(), [4096, 4]);
        // the RGBA8 texture of the allocation extent
        let [w, h] = s.allocation_extent();
        assert_eq!((w * h * 4) as usize, 65536);
        assert_eq!(s.tmem, [4088, 4088, if siz == 3 { 0 } else { 3 }, u32::from(siz)]);
        assert_eq!(reference_address(s, [-1, 32769]), [32767, 1]);
    }
}

#[test]
fn small_extents_and_clamped_axes_keep_the_tile_representation() {
    let s = sampling(TileDescriptor { width: 0, height: 0, masks: 0, maskt: 0, ..tile() });
    assert_eq!(s.image, [1, 1, 0, 0]);
    assert_eq!(s.modes[2..], [1, 1]);
    // a clamped axis never needs the lookup image, however long its period
    let s = sampling(TileDescriptor { cms: 2, cmt: 2, masks: 15, maskt: 15, ..tile() });
    assert_eq!(s.image[2], 0);
    assert_eq!(s.allocation_extent(), [8, 4]);
    assert_eq!(TileSampling::default().image, [1, 1, 0, 0]);
    assert_eq!(TileSampling::from_tile(&tile(), 3).palette, [0, 3, 0, 0]);
}
