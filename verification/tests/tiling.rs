use turboplot::tiling::{
    Retention, Tile, TileProperties, TileSize, TileStatus, Tiling,
};
use turboplot::util::{Fixed, FixedVec2};

fn props(owner_id: u32, scale_x: i32, index: i32) -> TileProperties {
    TileProperties {
        owner_id,
        scale: FixedVec2 { x: Fixed::from_int(scale_x), y: Fixed::from_int(1) },
        offset: Fixed::zero(),
        index,
        size: TileSize::new(64, 100),
    }
}

#[test]
fn tile_size_area_is_width_times_height() {
    let size = TileSize::new(64, 100);
    assert_eq!(size.w, 64);
    assert_eq!(size.h, 100);
    assert_eq!(size.area(), 6400);
    assert_eq!(size.checked_area(), Some(6400));
    assert_eq!(TileSize::new(0, 100).area(), 0);
    assert_eq!(TileSize::new(65536, 65535).checked_area(), Some(4294901760));
    assert_eq!(TileSize::new(65536, 65536).checked_area(), None);
}

#[test]
fn new_tile_is_not_rendered_and_empty() {
    let p = props(0, 10, 3);
    let tile = Tile::new(p);
    assert_eq!(tile.status, TileStatus::NotRendered);
    assert_eq!(tile.properties, p);
    assert!(tile.data.is_empty());
    let copy = tile.clone();
    assert_eq!(copy.status, tile.status);
    assert_eq!(copy.properties, tile.properties);
    assert_eq!(copy.data, tile.data);
}

#[test]
fn tiles_are_the_same_only_when_every_field_is_equal() {
    let p = props(0, 10, 3);
    assert_eq!(p, props(0, 10, 3));
    assert_ne!(p, props(1, 10, 3));
    assert_ne!(p, props(0, 11, 3));
    assert_ne!(p, props(0, 10, 4));
    let mut q = p;
    q.offset = Fixed::from_bits(1);
    assert_ne!(p, q);
    let mut r = p;
    r.size = TileSize::new(64, 101);
    assert_ne!(p, r);
    let mut s = p;
    s.scale.y = Fixed::from_bits(p.scale.y.to_bits() + 1);
    assert_ne!(p, s);
}

#[test]
fn lookup_without_request_finds_nothing_and_adds_nothing() {
    let mut tiling = Tiling::new();
    assert_eq!(tiling.len(), 0);
    assert!(!tiling.has_pending());
    assert!(tiling.get(props(0, 10, 0), false).is_none());
    assert_eq!(tiling.len(), 0);
    assert!(!tiling.has_pending());
}

#[test]
fn lookup_without_request_keeps_has_pending() {
    let mut tiling = Tiling::new();
    let p = props(0, 10, 0);
    let q = props(0, 10, 1);
    // No pending tile: probing keeps it so, for a known and an unknown tile.
    assert!(tiling.get(p, false).is_none());
    assert!(!tiling.has_pending());
    // A pending tile: probing keeps it pending.
    tiling.get(p, true);
    assert!(tiling.has_pending());
    assert!(tiling.get(p, false).is_some());
    assert!(tiling.get(q, false).is_none());
    assert!(tiling.has_pending());
    assert_eq!(tiling.len(), 1);
    // All rendered: probing keeps it so.
    tiling.store_result(p, vec![0; 6400]);
    assert!(!tiling.has_pending());
    assert!(tiling.get(p, false).is_some());
    assert!(tiling.get(q, false).is_none());
    assert!(!tiling.has_pending());
    assert_eq!(tiling.len(), 1);
}

#[test]
fn request_always_returns_a_tile_and_creates_it_once() {
    let mut tiling = Tiling::new();
    let p = props(0, 10, 0);
    let first = tiling.get(p, true).unwrap();
    assert_eq!(first.status, TileStatus::NotRendered);
    assert_eq!(first.properties, p);
    assert!(first.data.is_empty());
    assert_eq!(tiling.len(), 1);
    let second = tiling.get(p, true).unwrap();
    assert_eq!(second.properties, p);
    assert_eq!(tiling.len(), 1);
    let other = tiling.get(props(0, 10, 1), true).unwrap();
    assert_eq!(other.properties, props(0, 10, 1));
    assert_eq!(tiling.len(), 2);
    tiling.get(p, true).unwrap();
    tiling.get(props(0, 10, 1), true).unwrap();
    assert_eq!(tiling.len(), 2);
    assert_eq!(tiling.properties_at(0), p);
    assert_eq!(tiling.properties_at(1), props(0, 10, 1));
    assert!(tiling.contains(p));
    assert!(!tiling.contains(props(0, 10, 2)));
}

#[test]
fn has_pending_is_true_until_every_tile_is_rendered() {
    let mut tiling = Tiling::new();
    let p = props(0, 10, 0);
    let q = props(0, 10, 1);
    tiling.get(p, true);
    tiling.get(q, true);
    assert!(tiling.has_pending());
    assert_eq!(tiling.take_job(), Some(p));
    // A tile that is being rendered still counts as pending.
    assert!(tiling.has_pending());
    tiling.store_result(p, vec![1; 6400]);
    assert!(tiling.has_pending());
    assert_eq!(tiling.take_job(), Some(q));
    tiling.store_result(q, vec![2; 6400]);
    assert!(!tiling.has_pending());
}

#[test]
fn take_job_hands_out_each_tile_once_in_request_order() {
    let mut tiling = Tiling::new();
    let a = props(0, 10, 0);
    let b = props(0, 10, 1);
    let c = props(1, 10, 0);
    tiling.get(a, true);
    tiling.get(b, true);
    tiling.get(c, true);
    let first = tiling.take_job();
    let second = tiling.take_job();
    let third = tiling.take_job();
    assert_eq!(first, Some(a));
    assert_eq!(second, Some(b));
    assert_eq!(third, Some(c));
    assert_ne!(first, second);
    assert_ne!(second, third);
    assert_ne!(first, third);
    assert_eq!(tiling.status_at(0), TileStatus::Rendering);
    assert_eq!(tiling.status_at(1), TileStatus::Rendering);
    assert_eq!(tiling.status_at(2), TileStatus::Rendering);
}

#[test]
fn take_job_returns_nothing_without_a_waiting_tile() {
    let mut tiling = Tiling::new();
    assert_eq!(tiling.take_job(), None);
    let p = props(0, 10, 0);
    tiling.get(p, true);
    assert_eq!(tiling.take_job(), Some(p));
    // The only tile is being rendered: nothing waits.
    assert_eq!(tiling.take_job(), None);
    assert_eq!(tiling.get(p, false).unwrap().status, TileStatus::Rendering);
    tiling.store_result(p, vec![0; 6400]);
    assert_eq!(tiling.take_job(), None);
    assert_eq!(tiling.len(), 1);
}

#[test]
fn store_result_marks_the_tile_rendered_with_its_data() {
    let mut tiling = Tiling::new();
    let p = props(0, 10, 0);
    let q = props(0, 10, 1);
    tiling.get(p, true);
    tiling.get(q, true);
    tiling.take_job();
    let mut data = vec![0u32; 6400];
    data[17] = 5;
    tiling.store_result(p, data.clone());
    let tile = tiling.get(p, false).unwrap();
    assert_eq!(tile.status, TileStatus::Rendered);
    assert_eq!(tile.data, data);
    assert_eq!(tile.density_at(0, 17), 5);
    assert_eq!(tile.density_at(0, 16), 0);
    assert_eq!(tiling.get(q, false).unwrap().status, TileStatus::NotRendered);
    assert_eq!(tiling.len(), 2);
}

#[test]
fn store_result_adds_an_evicted_tile_again() {
    let mut tiling = Tiling::new();
    let p = props(0, 10, 0);
    tiling.get(p, true);
    assert_eq!(tiling.take_job(), Some(p));
    // The consumer moves to another scale and evicts the tile in flight.
    tiling.retain(&Retention::new(
        0,
        FixedVec2 { x: Fixed::from_int(20), y: Fixed::from_int(1) },
        Fixed::zero(),
    ));
    assert_eq!(tiling.len(), 0);
    let mut data = vec![0u32; 6400];
    data[1] = 9;
    tiling.store_result(p, data.clone());
    assert_eq!(tiling.len(), 1);
    let tile = tiling.get(p, false).unwrap();
    assert_eq!(tile.status, TileStatus::Rendered);
    assert_eq!(tile.data, data);
    assert!(!tiling.has_pending());
}

#[test]
fn density_at_reads_column_major() {
    let mut tiling = Tiling::new();
    let mut p = props(0, 10, 0);
    p.size = TileSize::new(3, 4);
    tiling.get(p, true);
    let data: Vec<u32> = (0..12).collect();
    tiling.store_result(p, data);
    let tile = tiling.get(p, false).unwrap();
    assert_eq!(tile.density_at(0, 0), 0);
    assert_eq!(tile.density_at(0, 3), 3);
    assert_eq!(tile.density_at(1, 0), 4);
    assert_eq!(tile.density_at(2, 3), 11);
}

#[test]
fn retain_keeps_the_current_view_and_other_owners() {
    let mut tiling = Tiling::new();
    let stale = props(0, 10, 0);
    let current = props(0, 20, 0);
    let current_next = props(0, 20, 1);
    let other_owner = props(1, 10, 0);
    let mut shifted = props(0, 20, 2);
    shifted.offset = Fixed::from_int(3);
    let mut other_y = props(0, 20, 3);
    other_y.scale.y = Fixed::from_int(2);
    for p in [stale, current, other_owner, shifted, current_next, other_y] {
        tiling.get(p, true);
    }
    let keep = Retention::new(
        0,
        FixedVec2 { x: Fixed::from_int(20), y: Fixed::from_int(1) },
        Fixed::zero(),
    );
    assert!(!keep.keeps(&stale));
    assert!(keep.keeps(&current));
    assert!(keep.keeps(&other_owner));
    assert!(!keep.keeps(&shifted));
    assert!(!keep.keeps(&other_y));
    tiling.retain(&keep);
    assert_eq!(tiling.len(), 3);
    // The tiles that stay keep their order.
    assert_eq!(tiling.properties_at(0), current);
    assert_eq!(tiling.properties_at(1), other_owner);
    assert_eq!(tiling.properties_at(2), current_next);
    tiling.retain(&keep);
    assert_eq!(tiling.len(), 3);
}

#[test]
fn retain_on_an_empty_cache_does_nothing() {
    let mut tiling = Tiling::new();
    tiling.retain(&Retention::new(
        0,
        FixedVec2 { x: Fixed::from_int(20), y: Fixed::from_int(1) },
        Fixed::zero(),
    ));
    assert_eq!(tiling.len(), 0);
}

#[test]
fn validity_of_tile_properties() {
    assert!(props(0, 10, 0).is_valid());
    assert!(props(0, 1, -5).is_valid());
    // Less than one sample per pixel column.
    let mut p = props(0, 1, 0);
    p.scale.x = Fixed::from_bits(p.scale.x.to_bits() - 1);
    assert!(!p.is_valid());
    // No column.
    let mut q = props(0, 10, 0);
    q.size = TileSize::new(0, 100);
    assert!(!q.is_valid());
    // More pixels than a renderer computes at once.
    let mut r = props(0, 10, 0);
    r.size = TileSize::new(64, 8192);
    assert!(r.is_valid());
    r.size = TileSize::new(64, 8193);
    assert!(!r.is_valid());
    // More samples than a renderer takes at once.
    assert!(props(0, 524287, 0).is_valid());
    assert!(!props(0, 524288, 0).is_valid());
}

#[test]
fn rows_of_a_tile_as_an_image_holds_them() {
    let mut tiling = Tiling::new();
    let mut p = props(0, 10, 0);
    p.size = TileSize::new(3, 2);
    tiling.get(p, true);
    // Column by column: (0,0) (0,1) (1,0) (1,1) (2,0) (2,1).
    tiling.store_result(p, vec![10, 11, 20, 21, 30, 31]);
    let tile = tiling.get(p, false).unwrap();
    // Row by row.
    assert_eq!(tile.to_row_major(), vec![10, 20, 30, 11, 21, 31]);
    let mut q = props(0, 10, 1);
    q.size = TileSize::new(1, 4);
    tiling.get(q, true);
    tiling.store_result(q, vec![1, 2, 3, 4]);
    assert_eq!(tiling.get(q, false).unwrap().to_row_major(), vec![1, 2, 3, 4]);
    let mut empty = props(0, 10, 2);
    empty.size = TileSize::new(4, 0);
    tiling.get(empty, true);
    tiling.store_result(empty, Vec::new());
    assert_eq!(tiling.get(empty, false).unwrap().to_row_major(), Vec::<u32>::new());
}
