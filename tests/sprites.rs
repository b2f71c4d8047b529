use svarog::sprites::{self, Tile, Tiles};

#[test]
fn tile_index_is_row_times_columns_plus_column() {
    assert_eq!(Tile(2, 25).index(), 123);
    assert_eq!(usize::from(Tile(13, 0)), 637);
    assert_eq!(usize::from(sprites::void()), 196);
    let as_usize: usize = Tile(0, 0).into();
    assert_eq!(as_usize, 0);
}

#[test]
fn tiles_builder_keeps_order_and_weights() {
    let done = Tiles::new()
        .add_more(Tile(0, 0), 2)
        .add_bunch(&[Tile(0, 1), Tile(0, 2)])
        .add_one(Tile(1, 0))
        .done();
    assert_eq!(done, vec![0, 0, 1, 2, 49]);
}

#[test]
fn tiles_builder_empty_and_zero_copies() {
    assert_eq!(Tiles::new().done(), Vec::<usize>::new());
    assert_eq!(Tiles::new().add_more(Tile(3, 3), 0).add_bunch(&[]).done(), Vec::<usize>::new());
}

#[test]
fn default_tiles_are_empty() {
    assert_eq!(Tiles::default().add_one(Tile(0, 2)).done(), vec![2]);
}
