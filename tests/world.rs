use hana::world::{world_to_space_part, SpacePartError, Tile, World, GRID_SIZE};

fn tile(x: i32, y: i32) -> Tile {
    Tile { x, y }
}

fn sorted(mut v: Vec<usize>) -> Vec<usize> {
    v.sort();
    v
}

#[test]
fn space_part_offsets_tiles_into_the_grid() {
    assert_eq!(world_to_space_part(tile(0, 0)), (16, 16));
    assert_eq!(world_to_space_part(tile(-16, 15)), (0, 31));
    assert_eq!(world_to_space_part(tile(-17, 3)), (-1, 19));
}

#[test]
fn new_world_has_empty_grid() {
    let w = World::new();
    assert_eq!(w.space_part.len(), GRID_SIZE);
    for row in &w.space_part {
        assert_eq!(row.len(), GRID_SIZE);
        for cell in row {
            assert!(cell.is_empty());
        }
    }
}

#[test]
fn every_object_lands_in_exactly_one_cell() {
    let mut w = World::new();
    let tiles = vec![tile(0, 0), tile(-16, -16), tile(15, 15), tile(0, 0), tile(3, -2)];
    assert_eq!(w.do_space_part(tiles.clone()), Ok(()));
    for (id, t) in tiles.iter().enumerate() {
        let (cx, cy) = world_to_space_part(*t);
        let mut seen = 0;
        for i in 0..GRID_SIZE {
            for j in 0..GRID_SIZE {
                let n = w.space_part[i][j].iter().filter(|&&o| o == id).count();
                if n > 0 {
                    assert_eq!((i as i64, j as i64), (cx, cy));
                }
                seen += n;
            }
        }
        assert_eq!(seen, 1);
    }
    assert_eq!(w.space_part[16][16], vec![0, 3]);
    assert_eq!(w.space_part[0][0], vec![1]);
    assert_eq!(w.space_part[31][31], vec![2]);
    assert_eq!(w.space_part[19][14], vec![4]);
}

#[test]
fn rebuild_clears_old_cells() {
    let mut w = World::new();
    assert_eq!(w.do_space_part(vec![tile(0, 0)]), Ok(()));
    assert_eq!(w.do_space_part(vec![tile(1, 1)]), Ok(()));
    assert!(w.space_part[16][16].is_empty());
    assert_eq!(w.space_part[17][17], vec![0]);
}

#[test]
fn out_of_range_object_is_reported() {
    let mut w = World::new();
    assert_eq!(w.do_space_part(vec![tile(0, 0)]), Ok(()));
    let r = w.do_space_part(vec![tile(1, 1), tile(16, 0), tile(-17, 0)]);
    assert_eq!(r, Err(SpacePartError::OutOfRange { index: 1, x: 16, y: 0 }));
    // the world is left as it was
    assert_eq!(w.tiles, vec![tile(0, 0)]);
    assert_eq!(w.space_part[16][16], vec![0]);
    let r = w.do_space_part(vec![tile(0, -17)]);
    assert_eq!(r, Err(SpacePartError::OutOfRange { index: 0, x: 0, y: -17 }));
}

#[test]
fn tick_visits_only_the_neighbourhood() {
    let mut w = World::new();
    let tiles = vec![tile(0, 0), tile(1, 1), tile(2, 0), tile(-1, -1), tile(-2, 2), tile(10, 10)];
    assert_eq!(w.do_space_part(tiles), Ok(()));
    // count ticks per object, as a stub object would
    let mut ticks = vec![0; 6];
    for id in w.tick(tile(0, 0), 1) {
        ticks[id] += 1;
    }
    assert_eq!(ticks, vec![1, 1, 0, 1, 0, 0]);
    assert_eq!(sorted(w.draw(tile(0, 0), 2)), vec![0, 1, 2, 3, 4]);
    assert_eq!(sorted(w.draw(tile(0, 0), 0)), vec![0]);
    assert_eq!(sorted(w.tick(tile(10, 9), 1)), vec![5]);
}

#[test]
fn traversal_with_negative_radius_visits_nothing() {
    let mut w = World::new();
    assert_eq!(w.do_space_part(vec![tile(0, 0)]), Ok(()));
    assert!(w.tick(tile(0, 0), -1).is_empty());
}

#[test]
fn traversal_clips_to_the_grid() {
    let mut w = World::new();
    assert_eq!(w.do_space_part(vec![tile(-16, -16), tile(15, 15)]), Ok(()));
    assert_eq!(sorted(w.draw(tile(-100, -100), 84)), vec![0]);
    assert_eq!(sorted(w.draw(tile(0, 0), 1000)), vec![0, 1]);
    assert!(w.draw(tile(-100, -100), 83).is_empty());
    assert_eq!(sorted(w.tick(tile(i32::MAX - 20, i32::MIN), i32::MAX)), vec![0]);
}
