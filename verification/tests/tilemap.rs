use piiramid::world::tilemap::{MapError, Tile, TileMap};

#[test]
fn parses_simple_map() {
    let map = TileMap::parse("3 2\n101\n000\n").unwrap();
    assert_eq!(map.cols, 3);
    assert_eq!(map.rows, 2);
    assert!(map.tile_at(0, 0).has_collision());
    assert!(!map.tile_at(0, 1).has_collision());
}

#[test]
fn rejects_row_length_mismatch() {
    let err = TileMap::parse("3 2\n10\n000\n").unwrap_err();
    assert!(matches!(err, MapError::RowLengthMismatch { .. }));
}

#[test]
fn rejects_unknown_tile() {
    let err = TileMap::parse("2 1\n1x\n").unwrap_err();
    assert!(matches!(err, MapError::UnknownTile { .. }));
}

#[test]
fn header_and_row_count_errors_and_their_messages() {
    assert_eq!(TileMap::parse("").unwrap_err(), MapError::EmptyFile);
    assert_eq!(TileMap::parse("3\n000\n").unwrap_err(), MapError::BadHeader("3".into()));
    assert_eq!(TileMap::parse("x 2\n").unwrap_err(), MapError::BadHeader("x 2".into()));
    let err = TileMap::parse("2 3\n00\n11\n").unwrap_err();
    assert_eq!(err, MapError::RowCountMismatch { expected: 3, found: 2 });
    assert_eq!(err.message(), "numero de linhas errado: esperado 3, encontrado 2");
    assert_eq!(
        TileMap::parse("2 1\n1x\n").unwrap_err().message(),
        "tile desconhecido 'x' em (0, 1)"
    );
    assert_eq!(
        MapError::BadHeader("a b".into()).message(),
        "cabecalho invalido: 'a b' (esperado 'colunas linhas')"
    );
}

#[test]
fn extra_rows_are_ignored_and_crlf_and_plus_are_accepted() {
    let map = TileMap::parse("+2 1\r\n01\r\n11\n").unwrap();
    assert_eq!((map.cols, map.rows), (2, 1));
    assert_eq!(map.tile_at(0, 0), Tile::Floor);
    assert_eq!(map.tile_at(0, 1), Tile::Wall);
    assert!(TileMap::parse("2 1\n01").is_ok());
    assert!(TileMap::parse("99999999999999999999999 1\n0\n").is_err());
}
