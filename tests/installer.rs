use twipo_synchro::installer::{game_path_candidates, get_game_path, library_folders, pause, split_chars};

#[test]
fn pause_only_on_windows() {
    assert!(pause(true));
    assert!(!pause(false));
}

#[test]
fn candidates_follow_library_order() {
    let libs: Vec<Vec<char>> = vec!["/a".chars().collect(), "/b".chars().collect()];
    let c: Vec<String> = game_path_candidates(&libs, '/').into_iter().map(|p| p.into_iter().collect()).collect();
    assert_eq!(
        c,
        vec![
            "/a/SteamApps/common/ROBOTICS;NOTES ELITE",
            "/a/steamapps/common/ROBOTICS;NOTES ELITE",
            "/b/SteamApps/common/ROBOTICS;NOTES ELITE",
            "/b/steamapps/common/ROBOTICS;NOTES ELITE",
        ]
    );
}

#[test]
fn first_present_candidate_is_the_game() {
    let c: Vec<Vec<char>> = vec![vec!['a'], vec!['b'], vec!['c']];
    assert_eq!(get_game_path(&c, &vec![false, true, true]), Some(1));
    assert_eq!(get_game_path(&c, &vec![false, false, false]), None);
}

fn folders(text: &str) -> Vec<String> {
    library_folders(&text.chars().collect()).into_iter().map(|p| p.into_iter().collect()).collect()
}

#[test]
fn library_folders_are_read_in_order() {
    let vdf = "\"libraryfolders\"\n{\n\t\"0\"\n\t{\n\t\t\"path\"\t\t\"C:\\\\Steam\"\r\n\t\t\"label\"\t\t\"\"\n\t}\n\t\"1\"\n\t{\n\t\t\"path\"\t\t\"/mnt/games\"\n\t}\n}\n";
    assert_eq!(folders(vdf), vec!["C:\\\\Steam".to_string(), "/mnt/games".to_string()]);
}

#[test]
fn path_line_without_value_is_skipped() {
    assert_eq!(folders("\"path\"\n\"path\" \"x\""), vec!["x".to_string()]);
    assert!(folders("").is_empty());
}

#[test]
fn split_keeps_empty_pieces() {
    let pieces: Vec<String> = split_chars(&"a,,b,".chars().collect(), ',').into_iter().map(|p| p.into_iter().collect()).collect();
    assert_eq!(pieces, vec!["a", "", "b", ""]);
}
