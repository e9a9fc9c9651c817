use sokoban::{EntityKind, Spawn, Tile, TileMap};

fn read(text: &str) -> TileMap<(f32, f32)> {
    TileMap::from_str((0.0, 0.0), text)
}

fn spawn(kind: EntityKind, x: usize, y: usize) -> Spawn {
    Spawn { kind, x, y }
}

fn row(map: &TileMap<(f32, f32)>, y: usize) -> Vec<Tile> {
    let mut out = Vec::new();
    let mut x = 0;
    while let Some(t) = map.tile(x, y) {
        out.push(t);
        x += 1;
    }
    out
}

#[test]
fn height_counts_lines_including_empty_ones() {
    assert_eq!(read("##\n\n#").height(), 3);
    assert_eq!(read("#\nx\n.").height(), 3);
    assert_eq!(read("#").height(), 1);
}

#[test]
fn surrounding_blank_lines_are_trimmed() {
    let map = read("\n#\n");
    assert_eq!(map.height(), 1);
    let map = read(" \t\n  ##\n#  \n\n ");
    assert_eq!(map.height(), 2);
    assert_eq!(row(&map, 0), vec![Tile::Wall, Tile::Wall]);
    assert_eq!(row(&map, 1), vec![Tile::Wall]);
}

#[test]
fn empty_text_has_no_rows() {
    let map = read("");
    assert_eq!(map.height(), 0);
    assert_eq!(map.width(), 0);
    let map = read("  \n\t ");
    assert_eq!(map.height(), 0);
    assert_eq!(map.width(), 0);
}

#[test]
fn each_symbol_reads_as_its_tile() {
    let cases = [
        ("#", Tile::Wall),
        (".", Tile::Floor),
        ("*", Tile::BoxSpot),
        ("B", Tile::Box),
        ("@", Tile::Player),
    ];
    for (text, tile) in cases {
        let map = read(text);
        assert_eq!(map.height(), 1);
        assert_eq!(map.width(), 1);
        assert_eq!(row(&map, 0), vec![tile]);
    }
}

#[test]
fn unknown_characters_are_dropped() {
    let map = read("#x#");
    assert_eq!(map.height(), 1);
    assert_eq!(map.width(), 2);
    assert_eq!(row(&map, 0), vec![Tile::Wall, Tile::Wall]);
    let map = read("# #");
    assert_eq!(row(&map, 0), vec![Tile::Wall, Tile::Wall]);
}

#[test]
fn line_whitespace_is_dropped() {
    let map = read("  #.\n  @");
    assert_eq!(row(&map, 0), vec![Tile::Wall, Tile::Floor]);
    assert_eq!(row(&map, 1), vec![Tile::Player]);
}

#[test]
fn width_is_first_row_length() {
    let map = read("##\n#");
    assert_eq!(map.width(), 2);
    assert_eq!(map.height(), 2);
    let map = read("#\n###");
    assert_eq!(map.width(), 1);
}

#[test]
fn tile_outside_grid_is_none() {
    let map = read("##\n#");
    assert_eq!(map.tile(1, 0), Some(Tile::Wall));
    assert_eq!(map.tile(1, 1), None);
    assert_eq!(map.tile(0, 2), None);
}

#[test]
fn position_is_kept() {
    let map = TileMap::from_str((2.5f32, -1.0f32), "#");
    assert_eq!(map.position, (2.5, -1.0));
}

#[test]
fn box_cell_builds_floor_then_box() {
    assert_eq!(
        read("B").build(),
        vec![spawn(EntityKind::Floor, 0, 0), spawn(EntityKind::Box, 0, 0)]
    );
}

#[test]
fn wall_cell_builds_wall_alone() {
    assert_eq!(read("#").build(), vec![spawn(EntityKind::Wall, 0, 0)]);
}

#[test]
fn floor_spot_and_player_cells() {
    assert_eq!(
        read(".*@").build(),
        vec![
            spawn(EntityKind::Floor, 0, 0),
            spawn(EntityKind::Floor, 1, 0),
            spawn(EntityKind::BoxSpot, 1, 0),
            spawn(EntityKind::Floor, 2, 0),
            spawn(EntityKind::Player, 2, 0),
        ]
    );
}

#[test]
fn empty_map_builds_nothing() {
    assert_eq!(read("").build(), vec![]);
}

#[test]
fn walled_player_level() {
    let map = read("###\n#@#\n###");
    assert_eq!(map.height(), 3);
    assert_eq!(map.width(), 3);
    for y in 0..3 {
        assert_eq!(row(&map, y).len(), 3);
    }
    assert_eq!(row(&map, 0), vec![Tile::Wall, Tile::Wall, Tile::Wall]);
    assert_eq!(row(&map, 1), vec![Tile::Wall, Tile::Player, Tile::Wall]);
    let built = map.build();
    let w = |x, y| spawn(EntityKind::Wall, x, y);
    assert_eq!(
        built,
        vec![
            w(0, 0),
            w(1, 0),
            w(2, 0),
            w(0, 1),
            spawn(EntityKind::Floor, 1, 1),
            spawn(EntityKind::Player, 1, 1),
            w(2, 1),
            w(0, 2),
            w(1, 2),
            w(2, 2),
        ]
    );
    let walls = built.iter().filter(|s| s.kind == EntityKind::Wall).count();
    let floors = built.iter().filter(|s| s.kind == EntityKind::Floor).count();
    let players = built.iter().filter(|s| s.kind == EntityKind::Player).count();
    assert_eq!((walls, floors, players), (8, 1, 1));
}
