use pocketemulator::library::{library_order, GameEntry, GameSortMode};

fn entry(name: Option<&str>, stem: Option<&str>, favorite: bool, last: Option<u64>) -> GameEntry {
    GameEntry {
        file_name: name.map(|s| s.to_string()),
        file_stem: stem.map(|s| s.to_string()),
        favorite,
        last_played_unix_secs: last,
    }
}

fn games() -> Vec<GameEntry> {
    vec![
        entry(Some("zelda.gb"), Some("zelda"), false, Some(100)),
        entry(Some("Alpha_Game-0123456789ab.gbc"), Some("Alpha_Game-0123456789ab"), true, Some(50)),
        entry(Some("mario.gb"), Some("mario"), true, Some(200)),
        entry(None, None, false, None),
    ]
}

#[test]
fn library_sort_modes() {
    let g = games();
    assert_eq!(library_order(&g, "", false, GameSortMode::Recent), vec![0, 1, 2, 3]);
    assert_eq!(library_order(&g, "", false, GameSortMode::AtoZ), vec![3, 1, 2, 0]);
    assert_eq!(library_order(&g, "", false, GameSortMode::Favorites), vec![2, 1, 0, 3]);
}

#[test]
fn library_search_and_favorites() {
    let g = games();
    assert_eq!(library_order(&g, "  GAME ", false, GameSortMode::Recent), vec![1, 3]);
    assert_eq!(library_order(&g, "", true, GameSortMode::Recent), vec![1, 2]);
    assert_eq!(library_order(&g, "mario.GB", true, GameSortMode::AtoZ), vec![2]);
    assert_eq!(library_order(&g, "nothing", false, GameSortMode::AtoZ), Vec::<usize>::new());
    assert_eq!(library_order(&[], "x", false, GameSortMode::AtoZ), Vec::<usize>::new());
}

#[test]
fn library_sort_is_stable() {
    let g = vec![
        entry(Some("b.gb"), Some("b"), false, Some(5)),
        entry(Some("a.gb"), Some("a"), false, Some(5)),
        entry(Some("B.gb"), Some("B"), false, Some(5)),
    ];
    assert_eq!(library_order(&g, "", false, GameSortMode::AtoZ), vec![1, 0, 2]);
    assert_eq!(library_order(&g, "", false, GameSortMode::Favorites), vec![0, 1, 2]);
}
