use rogue_core::symbol::{tile_to_sym, InvalidTileError, Symbol, Tile};

#[test]
fn tile_bytes_map_to_symbols() {
    assert_eq!(tile_to_sym(b' '), Some(0));
    assert_eq!(tile_to_sym(b'@'), Some(1));
    assert_eq!(tile_to_sym(b'#'), Some(2));
    assert_eq!(tile_to_sym(b'.'), Some(3));
    assert_eq!(tile_to_sym(b'-'), Some(4));
    assert_eq!(tile_to_sym(b'|'), Some(4));
    assert_eq!(tile_to_sym(b','), Some(16));
    assert_eq!(tile_to_sym(b'A'), Some(17));
    assert_eq!(tile_to_sym(b'Z'), Some(42));
    assert_eq!(tile_to_sym(b'a'), None);
    assert_eq!(tile_to_sym(0), None);
}

#[test]
fn symbol_round_trip_and_decrement() {
    let s = Symbol::from_tile(Tile::from_byte(b'%')).unwrap();
    assert_eq!(s.to_byte(), 5);
    assert_eq!(s.decrement().to_byte(), 4);
    assert!(Symbol::from_tile(Tile::from_byte(b'~')).is_none());
}

#[test]
fn invalid_tile_error_keeps_its_parts() {
    let e = InvalidTileError::new(Tile::from_byte(b'~'), 30);
    assert_eq!(e.tile().to_byte(), b'~');
    assert_eq!(e.max_symbol(), 30);
}
