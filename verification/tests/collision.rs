use gamekit::collision::{
    check_collision, check_collision_sequential, check_collision_with, check_one_masked_collision,
};
use gamekit::geometry::{bounding_overlap, point_in_rect, Extent, Overlap, Point, TexSize};
use gamekit::mask::{read_bit, write_bit};
use gamekit::scan::{Scan, Strategy};
use gamekit::sprite::{copy_bytes, mask_len, texel_coord_of, Collidable, MaskError, Sprite};

fn blank(texels: u64) -> Vec<u8> {
    vec![0u8; ((texels + 7) / 8) as usize]
}

fn mask_of(texels: u64, opaque: &[u64]) -> Vec<u8> {
    let mut mask = blank(texels);
    for &index in opaque {
        assert!(write_bit(&mut mask, index, true));
    }
    mask
}

fn sprite(x: i32, y: i32, w: i32, h: i32, tw: u32, th: u32, mask: Option<Vec<u8>>) -> Sprite {
    Sprite {
        pos: Point { x, y },
        size: Extent { width: w, height: h },
        texture: TexSize { width: tw, height: th },
        mask,
    }
}

fn both_ways(a: &Sprite, b: &Sprite, stride: u32) -> bool {
    let parallel = check_collision(a, b, stride);
    let sequential = check_collision_sequential(a, b, stride);
    assert_eq!(parallel, sequential);
    assert_eq!(check_collision(b, a, stride), parallel);
    assert_eq!(check_collision_sequential(b, a, stride), parallel);
    parallel
}

#[test]
fn read_bit_takes_the_most_significant_bit_first() {
    let mask = vec![0b1000_0000u8, 0b0000_0001u8, 0b0100_0000u8];
    assert_eq!(read_bit(&mask, 0), 1);
    assert_eq!(read_bit(&mask, 1), 0);
    assert_eq!(read_bit(&mask, 7), 0);
    assert_eq!(read_bit(&mask, 8), 0);
    assert_eq!(read_bit(&mask, 15), 1);
    assert_eq!(read_bit(&mask, 17), 1);
    assert_eq!(read_bit(&mask, 16), 0);
}

#[test]
fn read_bit_follows_the_shift_formula() {
    let mask = vec![0xA5u8, 0x3Cu8];
    for index in 0..16u64 {
        let byte = mask[(index / 8) as usize];
        let expected = (byte >> (7 - index % 8)) & 1;
        assert_eq!(read_bit(&mask, index), expected);
    }
}

#[test]
fn read_bit_outside_the_buffer_is_transparent() {
    let mask = vec![0xFFu8];
    assert_eq!(read_bit(&mask, 7), 1);
    assert_eq!(read_bit(&mask, 8), 0);
    assert_eq!(read_bit(&mask, 1_000_000), 0);
    assert_eq!(read_bit(&mask, u64::MAX), 0);
    assert_eq!(read_bit(&Vec::new(), 0), 0);
}

#[test]
fn write_bit_sets_and_clears_one_texel() {
    let mut mask = vec![0u8; 2];
    assert!(write_bit(&mut mask, 0, true));
    assert_eq!(mask, vec![0x80u8, 0x00]);
    assert!(write_bit(&mut mask, 9, true));
    assert_eq!(mask, vec![0x80u8, 0x40]);
    assert!(write_bit(&mut mask, 15, true));
    assert_eq!(mask, vec![0x80u8, 0x41]);
    assert!(write_bit(&mut mask, 9, false));
    assert_eq!(mask, vec![0x80u8, 0x01]);
    assert!(write_bit(&mut mask, 3, false));
    assert_eq!(mask, vec![0x80u8, 0x01]);
    assert_eq!(read_bit(&mask, 0), 1);
    assert_eq!(read_bit(&mask, 15), 1);
    assert_eq!(read_bit(&mask, 9), 0);
}

#[test]
fn write_bit_outside_the_buffer_changes_nothing() {
    let mut mask = vec![0x12u8, 0x34];
    assert!(!write_bit(&mut mask, 16, true));
    assert!(!write_bit(&mut mask, u64::MAX, false));
    assert_eq!(mask, vec![0x12u8, 0x34]);
}

#[test]
fn write_then_read_round_trips_every_texel() {
    let mut mask = vec![0u8; 4];
    for index in 0..32u64 {
        assert!(write_bit(&mut mask, index, index % 3 == 0));
    }
    for index in 0..32u64 {
        assert_eq!(read_bit(&mask, index), if index % 3 == 0 { 1 } else { 0 });
    }
}

#[test]
fn bounding_overlap_of_two_offset_rectangles() {
    let r = bounding_overlap(
        Point { x: 0, y: 0 },
        Extent { width: 10, height: 10 },
        Point { x: 5, y: 7 },
        Extent { width: 10, height: 10 },
    );
    assert_eq!(r, Overlap { x: 5, y: 7, width: 5, height: 3 });
}

#[test]
fn bounding_overlap_is_not_positive_when_apart() {
    let r = bounding_overlap(
        Point { x: 0, y: 0 },
        Extent { width: 10, height: 10 },
        Point { x: 10, y: 0 },
        Extent { width: 10, height: 10 },
    );
    assert_eq!(r, Overlap { x: 10, y: 0, width: 0, height: 10 });
    let r = bounding_overlap(
        Point { x: -20, y: -20 },
        Extent { width: 5, height: 5 },
        Point { x: 30, y: 40 },
        Extent { width: 2, height: 2 },
    );
    assert_eq!(r, Overlap { x: 30, y: 40, width: -45, height: -55 });
}

#[test]
fn bounding_overlap_at_the_limits_of_the_coordinates() {
    let r = bounding_overlap(
        Point { x: i32::MIN, y: i32::MAX },
        Extent { width: i32::MAX, height: i32::MAX },
        Point { x: i32::MAX, y: i32::MIN },
        Extent { width: i32::MIN, height: i32::MIN },
    );
    // Right edges: MIN + MAX = -1 on both. Bottom edges: 2 * MAX and 2 * MIN.
    assert_eq!(r, Overlap { x: 2147483647, y: 2147483647, width: -2147483648, height: -6442450943 });
}

#[test]
fn point_in_rect_is_half_open() {
    let pos = Point { x: 2, y: 3 };
    let size = Extent { width: 4, height: 5 };
    assert!(point_in_rect(pos, size, 2, 3));
    assert!(point_in_rect(pos, size, 5, 7));
    assert!(!point_in_rect(pos, size, 6, 7));
    assert!(!point_in_rect(pos, size, 5, 8));
    assert!(!point_in_rect(pos, size, 1, 3));
    assert!(!point_in_rect(pos, Extent { width: 0, height: 5 }, 2, 3));
    assert!(!point_in_rect(pos, Extent { width: -4, height: 5 }, 2, 3));
}

#[test]
fn texel_coord_scales_and_rounds_down() {
    assert_eq!(texel_coord_of(5, 0, 10, 10), 5);
    assert_eq!(texel_coord_of(5, 0, 10, 20), 10);
    assert_eq!(texel_coord_of(5, 0, 10, 5), 2);
    assert_eq!(texel_coord_of(9, 0, 10, 5), 4);
    assert_eq!(texel_coord_of(7, 0, 10, 3), 2);
    assert_eq!(texel_coord_of(-3, -10, 20, 4), 1);
    assert_eq!(texel_coord_of(0, 0, 1, 0), 0);
    assert_eq!(
        texel_coord_of(i32::MAX as i64 - 1, 0, i32::MAX, u32::MAX),
        (i32::MAX as u64 - 1) * u32::MAX as u64 / i32::MAX as u64
    );
}

#[test]
fn mask_len_rounds_up_to_whole_bytes() {
    assert_eq!(mask_len(TexSize { width: 10, height: 10 }), 13);
    assert_eq!(mask_len(TexSize { width: 8, height: 1 }), 1);
    assert_eq!(mask_len(TexSize { width: 3, height: 3 }), 2);
    assert_eq!(mask_len(TexSize { width: 0, height: 7 }), 0);
    assert_eq!(
        mask_len(TexSize { width: u32::MAX, height: u32::MAX }),
        (u32::MAX as u64 * u32::MAX as u64 + 7) / 8
    );
}

#[test]
fn masked_refuses_a_mask_of_the_wrong_length() {
    let pos = Point { x: 0, y: 0 };
    let size = Extent { width: 10, height: 10 };
    let texture = TexSize { width: 10, height: 10 };
    let short = Sprite::masked(pos, size, texture, vec![0u8; 12]);
    assert_eq!(short.err(), Some(MaskError::WrongLength { expected: 13, actual: 12 }));
    let long = Sprite::masked(pos, size, texture, vec![0u8; 14]);
    assert_eq!(long.err(), Some(MaskError::WrongLength { expected: 13, actual: 14 }));
    let good = Sprite::masked(pos, size, texture, vec![0xFFu8; 13]).unwrap();
    assert_eq!(good.pos, pos);
    assert_eq!(good.size, size);
    assert_eq!(good.texture, texture);
    assert_eq!(good.mask, Some(vec![0xFFu8; 13]));
}

#[test]
fn check_mask_tells_fitting_masks_from_others() {
    assert_eq!(sprite(0, 0, 4, 4, 4, 4, None).check_mask(), Ok(()));
    assert_eq!(sprite(0, 0, 4, 4, 4, 4, Some(vec![0u8; 2])).check_mask(), Ok(()));
    assert_eq!(
        sprite(0, 0, 4, 4, 4, 4, Some(vec![0u8; 1])).check_mask(),
        Err(MaskError::WrongLength { expected: 2, actual: 1 })
    );
}

#[test]
fn solid_builds_a_sprite_without_mask() {
    let s = Sprite::solid(
        Point { x: 1, y: 2 },
        Extent { width: 3, height: 4 },
        TexSize { width: 5, height: 6 },
    );
    assert_eq!(s.pos, Point { x: 1, y: 2 });
    assert_eq!(s.size, Extent { width: 3, height: 4 });
    assert_eq!(s.texture, TexSize { width: 5, height: 6 });
    assert_eq!(s.mask, None);
}

#[test]
fn accessors_report_the_fields() {
    let s = sprite(1, 2, 3, 4, 5, 6, Some(vec![1, 2, 3, 4]));
    assert_eq!(Collidable::pos(&s), Point { x: 1, y: 2 });
    assert_eq!(Collidable::size(&s), Extent { width: 3, height: 4 });
    assert_eq!(s.texture_size(), TexSize { width: 5, height: 6 });
    assert_eq!(s.get_mask(), Some(vec![1, 2, 3, 4]));
    assert_eq!(sprite(0, 0, 1, 1, 1, 1, None).get_mask(), None);
    assert_eq!(copy_bytes(&vec![9u8, 8, 7]), vec![9u8, 8, 7]);
    assert_eq!(copy_bytes(&Vec::new()), Vec::<u8>::new());
}

#[test]
fn texel_index_is_row_major() {
    let s = sprite(10, 20, 10, 10, 10, 10, None);
    assert_eq!(s.texel_index_at(10, 20), 0);
    assert_eq!(s.texel_index_at(19, 20), 9);
    assert_eq!(s.texel_index_at(10, 21), 10);
    assert_eq!(s.texel_index_at(19, 29), 99);
    let scaled = sprite(0, 0, 20, 40, 10, 10, None);
    assert_eq!(scaled.texel_index_at(19, 39), 99);
    assert_eq!(scaled.texel_index_at(2, 4), 11);
    assert_eq!(scaled.texel_index_at(1, 3), 0);
}

#[test]
fn solid_at_reads_the_mask_inside_the_rectangle_only() {
    let s = sprite(0, 0, 4, 4, 4, 4, Some(mask_of(16, &[5])));
    assert!(s.solid_at(1, 1));
    assert!(!s.solid_at(0, 0));
    assert!(!s.solid_at(2, 1));
    assert!(!s.solid_at(-1, -1));
    assert!(!s.solid_at(4, 4));
    let plain = sprite(0, 0, 4, 4, 4, 4, None);
    assert!(plain.solid_at(0, 0));
    assert!(plain.solid_at(3, 3));
    assert!(!plain.solid_at(4, 3));
}

#[test]
fn non_overlapping_rectangles_never_collide() {
    let opaque = Some(vec![0xFFu8; 13]);
    let a = sprite(0, 0, 10, 10, 10, 10, opaque.clone());
    for (x, y) in [(10, 0), (0, 10), (-10, 0), (0, -10), (100, 100), (10, 10)] {
        let b = sprite(x, y, 10, 10, 10, 10, opaque.clone());
        let plain = sprite(x, y, 10, 10, 10, 10, None);
        for stride in [0, 1, 2, 7, 100] {
            assert!(!both_ways(&a, &b, stride));
            assert!(!both_ways(&a, &plain, stride));
            assert!(!both_ways(&sprite(0, 0, 10, 10, 10, 10, None), &plain, stride));
        }
    }
}

#[test]
fn unmasked_sprites_collide_when_rectangles_intersect() {
    let a = sprite(0, 0, 10, 10, 10, 10, None);
    let b = sprite(9, 9, 10, 10, 10, 10, None);
    for stride in [0, 1, 3, 50] {
        assert!(both_ways(&a, &b, stride));
    }
}

#[test]
fn collision_is_symmetric() {
    let a = sprite(0, 0, 8, 8, 8, 8, Some(mask_of(64, &[27, 36, 63])));
    let b = sprite(3, 3, 8, 8, 4, 4, Some(mask_of(16, &[0, 5, 15])));
    let c = sprite(2, 5, 6, 6, 3, 3, None);
    for stride in 0..6 {
        for (p, q) in [(&a, &b), (&a, &c), (&b, &c), (&c, &c), (&a, &a)] {
            assert_eq!(check_collision(p, q, stride), check_collision(q, p, stride));
            assert_eq!(
                check_collision_sequential(p, q, stride),
                check_collision_sequential(q, p, stride)
            );
        }
    }
}

#[test]
fn fully_opaque_masks_collide() {
    let a = sprite(0, 0, 10, 10, 10, 10, Some(vec![0xFFu8; 13]));
    let b = sprite(5, 5, 10, 10, 10, 10, Some(vec![0xFFu8; 13]));
    assert!(both_ways(&a, &b, 1));
    assert!(both_ways(&a, &b, 4));
    let scaled = sprite(9, 9, 30, 30, 3, 3, Some(vec![0xFFu8; 2]));
    assert!(both_ways(&a, &scaled, 1));
}

#[test]
fn fully_transparent_masks_do_not_collide() {
    let a = sprite(0, 0, 10, 10, 10, 10, Some(vec![0u8; 13]));
    let b = sprite(5, 5, 10, 10, 10, 10, Some(vec![0u8; 13]));
    assert!(!both_ways(&a, &b, 1));
    let opaque = sprite(5, 5, 10, 10, 10, 10, Some(vec![0xFFu8; 13]));
    assert!(!both_ways(&a, &opaque, 1));
    let plain = sprite(5, 5, 10, 10, 10, 10, None);
    assert!(!both_ways(&a, &plain, 1));
}

#[test]
fn unmasked_sprite_is_solid() {
    let a = sprite(0, 0, 10, 10, 10, 10, None);
    // B's texel (2, 3) lies under the world point (7, 8), inside A.
    let b = sprite(5, 5, 10, 10, 10, 10, Some(mask_of(100, &[32])));
    assert!(both_ways(&a, &b, 1));
    // The same texel moved outside A's rectangle.
    let outside = sprite(5, 5, 10, 10, 10, 10, Some(mask_of(100, &[55])));
    assert!(!both_ways(&a, &outside, 1));
}

#[test]
fn stride_approximation() {
    // A 1x1 overlap at the world point (9, 9): texel (9, 9) of A, texel (0, 0) of B.
    let a = sprite(0, 0, 10, 10, 10, 10, Some(mask_of(100, &[99])));
    let b = sprite(9, 9, 10, 10, 10, 10, Some(mask_of(100, &[0])));
    assert!(both_ways(&a, &b, 1));
    // The top-left corner of the overlap is a sample point at every stride.
    assert!(both_ways(&a, &b, 10));

    // A 5x5 overlap with the only hit one unit off its corner, at (6, 6).
    let a = sprite(0, 0, 10, 10, 10, 10, Some(mask_of(100, &[66])));
    let b = sprite(5, 5, 10, 10, 10, 10, Some(mask_of(100, &[11])));
    assert!(both_ways(&a, &b, 1));
    assert!(!both_ways(&a, &b, 10));
    assert!(!both_ways(&a, &b, 2));
}

#[test]
fn stride_picks_every_nth_point_on_both_axes() {
    // The only hit lies at offset (4, 2) of an 8x8 overlap.
    let a = sprite(0, 0, 8, 8, 8, 8, Some(mask_of(64, &[2 * 8 + 4])));
    let b = sprite(0, 0, 8, 8, 8, 8, None);
    assert!(both_ways(&a, &b, 1));
    assert!(both_ways(&a, &b, 2));
    assert!(!both_ways(&a, &b, 3));
    assert!(!both_ways(&a, &b, 4));
    let c = sprite(0, 0, 8, 8, 8, 8, Some(mask_of(64, &[6 * 8 + 3])));
    assert!(both_ways(&c, &b, 3));
    assert!(!both_ways(&c, &b, 2));
    assert!(!both_ways(&c, &b, 6));
}

#[test]
fn stride_zero_counts_as_one() {
    let a = sprite(0, 0, 10, 10, 10, 10, Some(mask_of(100, &[66])));
    let b = sprite(5, 5, 10, 10, 10, 10, Some(mask_of(100, &[11])));
    assert!(both_ways(&a, &b, 0));
    let c = sprite(5, 5, 10, 10, 10, 10, Some(mask_of(100, &[12])));
    assert!(!both_ways(&a, &c, 0));
}

#[test]
fn degenerate_size_never_collides() {
    let others = [
        sprite(0, 0, 10, 10, 10, 10, None),
        sprite(0, 0, 10, 10, 10, 10, Some(vec![0xFFu8; 13])),
        sprite(-5, -5, 10, 10, 10, 10, Some(vec![0u8; 13])),
    ];
    for (w, h) in [(0, 0), (0, 5), (5, 0), (-3, 5), (5, -3), (-1, -1)] {
        for mask in [None, Some(vec![0xFFu8; 13])] {
            let flat = sprite(2, 2, w, h, 10, 10, mask);
            for other in &others {
                for stride in [0, 1, 2, 9] {
                    assert!(!both_ways(&flat, other, stride));
                }
            }
            assert!(!both_ways(&flat, &flat, 1));
        }
    }
}

#[test]
fn short_mask_reads_as_transparent() {
    // 10x10 texels need 13 bytes; only the first row and a bit are there.
    let a = sprite(0, 0, 10, 10, 10, 10, Some(vec![0xFFu8; 2]));
    let b = sprite(0, 5, 10, 10, 10, 10, None);
    assert!(!both_ways(&a, &b, 1));
    let top = sprite(0, 0, 10, 10, 10, 10, None);
    assert!(both_ways(&a, &top, 1));
    let empty = sprite(0, 0, 10, 10, 10, 10, Some(Vec::new()));
    assert!(!both_ways(&empty, &top, 1));
}

#[test]
fn empty_texture_is_transparent() {
    let a = sprite(0, 0, 10, 10, 0, 0, Some(Vec::new()));
    let b = sprite(0, 0, 10, 10, 10, 10, Some(vec![0xFFu8; 13]));
    assert!(!both_ways(&a, &b, 1));
}

#[test]
fn scaled_sprites_map_through_their_own_scale() {
    // A: 2x2 texels drawn 10x10; only texel (1, 1) is opaque: world x, y in 5..10.
    let a = sprite(0, 0, 10, 10, 2, 2, Some(mask_of(4, &[3])));
    // B: 4x4 texels drawn 4x4 at (3, 3); only texel (0, 0) is opaque: world (3, 3).
    let b = sprite(3, 3, 4, 4, 4, 4, Some(mask_of(16, &[0])));
    assert!(!both_ways(&a, &b, 1));
    // Texel (2, 2) of B lies under world (5, 5).
    let c = sprite(3, 3, 4, 4, 4, 4, Some(mask_of(16, &[10])));
    assert!(both_ways(&a, &c, 1));
    assert!(both_ways(&a, &c, 2));
    assert!(!both_ways(&a, &c, 3));
}

#[test]
fn negative_coordinates_are_handled() {
    let a = sprite(-10, -10, 10, 10, 10, 10, Some(mask_of(100, &[99])));
    let b = sprite(-1, -1, 10, 10, 10, 10, Some(mask_of(100, &[0])));
    assert!(both_ways(&a, &b, 1));
    let c = sprite(-1, -1, 10, 10, 10, 10, Some(mask_of(100, &[1])));
    assert!(!both_ways(&a, &c, 1));
}

#[test]
fn strategies_agree_on_a_grid_of_cases() {
    let masks: [Option<Vec<u8>>; 4] = [
        None,
        Some(mask_of(36, &[0, 7, 14, 21, 28, 35])),
        Some(mask_of(36, &[5, 10, 15, 20, 25, 30])),
        Some(mask_of(36, &[17])),
    ];
    for ma in &masks {
        for mb in &masks {
            for dx in -7..8 {
                for dy in [-6, -1, 0, 2, 5] {
                    let a = sprite(0, 0, 6, 6, 6, 6, ma.clone());
                    let b = sprite(dx, dy, 12, 6, 6, 6, mb.clone());
                    for stride in [1u32, 2, 5] {
                        let p = check_collision_with(&a, &b, stride, Strategy::Parallel);
                        let s = check_collision_with(&a, &b, stride, Strategy::Sequential);
                        assert_eq!(p, s);
                    }
                }
            }
        }
    }
}

#[test]
fn parallel_scan_finds_a_hit_in_the_last_row_only() {
    let rows = 64u64;
    let a = sprite(0, 0, 64, 64, 64, 64, Some(mask_of(rows * 64, &[63 * 64 + 63])));
    let b = sprite(0, 0, 64, 64, 64, 64, None);
    assert!(check_collision(&a, &b, 1));
    assert!(check_collision(&a, &b, 7));
    assert!(!check_collision(&a, &b, 2));
    let none = sprite(0, 0, 64, 64, 64, 64, Some(blank(rows * 64)));
    assert!(!check_collision(&none, &b, 1));
}

#[test]
fn one_masked_collision_scans_the_given_overlap() {
    let masked = sprite(0, 0, 10, 10, 10, 10, Some(mask_of(100, &[77])));
    let solid = sprite(5, 5, 10, 10, 10, 10, None);
    let area = bounding_overlap(masked.pos, masked.size, solid.pos, solid.size);
    assert_eq!(area, Overlap { x: 5, y: 5, width: 5, height: 5 });
    assert!(check_one_masked_collision(masked, solid, area, 1, Strategy::Sequential));

    let masked = sprite(0, 0, 10, 10, 10, 10, Some(mask_of(100, &[77])));
    let solid = sprite(5, 5, 10, 10, 10, 10, None);
    assert!(check_one_masked_collision(masked, solid, area, 2, Strategy::Parallel));

    let masked = sprite(0, 0, 10, 10, 10, 10, Some(mask_of(100, &[77])));
    let solid = sprite(5, 5, 10, 10, 10, 10, None);
    assert!(!check_one_masked_collision(masked, solid, area, 3, Strategy::Parallel));

    let masked = sprite(0, 0, 10, 10, 10, 10, Some(mask_of(100, &[44])));
    let solid = sprite(5, 5, 10, 10, 10, 10, None);
    assert!(!check_one_masked_collision(masked, solid, area, 1, Strategy::Sequential));
}

#[test]
fn scan_rows_and_points() {
    let first = sprite(0, 0, 8, 8, 8, 8, Some(mask_of(64, &[3 * 8 + 6])));
    let second = sprite(2, 1, 8, 8, 8, 8, None);
    let scan = Scan { first, second, left: 2, top: 1, width: 6, height: 7, stride: 2 };
    assert!(scan.point_hit(4, 2));
    assert!(!scan.point_hit(3, 2));
    assert!(!scan.point_hit(4, 1));
    assert!(scan.row_hit(2));
    assert!(!scan.row_hit(0));
    assert!(!scan.row_hit(4));
    assert!(scan.any_hit_sequential());
    assert!(scan.any_hit_parallel());
    assert!(scan.any_hit(Strategy::Parallel));
    assert!(scan.any_hit(Strategy::Sequential));
    let odd = Scan { stride: 3, ..scan };
    assert!(!odd.row_hit(2));
    assert!(!odd.any_hit_sequential());
    assert!(!odd.any_hit_parallel());
}

struct Card {
    x: i32,
    y: i32,
    opaque_corner: bool,
}

impl Collidable for Card {
    fn pos(&self) -> Point {
        Point { x: self.x, y: self.y }
    }

    fn size(&self) -> Extent {
        Extent { width: 4, height: 4 }
    }

    fn texture_size(&self) -> TexSize {
        TexSize { width: 2, height: 2 }
    }

    fn get_mask(&self) -> Option<Vec<u8>> {
        if self.opaque_corner {
            Some(vec![0b0001_0000u8])
        } else {
            None
        }
    }
}

#[test]
fn any_two_collidable_types_can_be_tested() {
    let card = Card { x: 0, y: 0, opaque_corner: true };
    let plain = Card { x: 2, y: 2, opaque_corner: false };
    let far = Card { x: 4, y: 0, opaque_corner: false };
    let image = sprite(-2, -2, 4, 4, 4, 4, None);
    assert!(check_collision(&card, &plain, 1));
    assert!(check_collision_sequential(&plain, &card, 1));
    assert!(!check_collision(&card, &far, 1));
    // Only the bottom-right texel of the card is opaque: world x, y in 2..4.
    assert!(!check_collision(&card, &image, 1));
    assert!(check_collision(&plain, &image, 1) == false);
    assert!(check_collision(&Card { x: -1, y: -1, opaque_corner: true }, &image, 1));
}

#[test]
fn huge_sprites_are_sampled_without_overflow() {
    // Both cover the whole positive quadrant; with the largest stride only
    // the corner of the overlap is a sample point.
    let a = sprite(0, 0, i32::MAX, i32::MAX, 2, 2, Some(mask_of(4, &[0])));
    let b = sprite(0, 0, i32::MAX, i32::MAX, u32::MAX, u32::MAX, None);
    assert!(both_ways(&a, &b, u32::MAX));
    let c = sprite(0, 0, i32::MAX, i32::MAX, 2, 2, Some(mask_of(4, &[3])));
    assert!(!both_ways(&c, &b, u32::MAX));
    // From the far corner of the coordinates.
    let d = sprite(i32::MIN, i32::MIN, i32::MAX, i32::MAX, 1, 1, Some(vec![0x80u8]));
    let e = sprite(-2, -2, 1, 1, 1, 1, Some(vec![0x80u8]));
    assert!(both_ways(&d, &e, 1));
    let f = sprite(-1, -1, 1, 1, 1, 1, Some(vec![0x80u8]));
    assert!(!both_ways(&d, &f, 1));
    // The last texel of a texture of the largest width: its index is far
    // beyond the mask, which reads as transparent.
    let wide = sprite(0, 0, 4, 1, u32::MAX, u32::MAX, Some(vec![0xFFu8]));
    let probe = sprite(3, 0, 1, 1, 1, 1, None);
    assert!(!both_ways(&wide, &probe, 1));
    let first = sprite(0, 0, 1, 1, 1, 1, None);
    assert!(both_ways(&wide, &first, 1));
}
