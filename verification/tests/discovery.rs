use tf2_queue_query::discovery::{library_folder_paths, library_roots, quoted_values, roots_from_answers};

#[test]
fn reads_steam_library_paths() {
    let values = quoted_values(r#""path" "D:\\SteamLibrary" "label" """#);
    assert_eq!(values, ["path", r"D:\SteamLibrary", "label", ""]);
}

#[test]
fn unterminated_last_string_runs_to_the_end() {
    assert_eq!(quoted_values(r#"x "a" y "b\"c"#), ["a", "b\"c"]);
    assert_eq!(quoted_values("no quotes"), Vec::<String>::new());
    assert_eq!(quoted_values(r#""ends with backslash\"#), ["ends with backslash"]);
}

#[test]
fn library_folders_follow_path_keys() {
    let vdf = r#""libraryfolders"
{
    "0" { "path" "C:\\Program Files (x86)\\Steam" "label" "" }
    "1" { "PATH" "D:\\SteamLibrary" "apps" { "440" "123" } }
    "2" { "label" "path" }
}"#;
    assert_eq!(
        library_folder_paths(vdf),
        [r"C:\Program Files (x86)\Steam", r"D:\SteamLibrary"]
    );
}

#[test]
fn library_roots_start_with_steam_and_skip_repeats() {
    let vdf = r#""libraryfolders" { "0" { "path" "C:/Steam" } "1" { "path" "D:/Lib" } "2" { "path" "D:/Lib" } }"#;
    let roots = library_roots("C:/Steam", Some(vdf));
    assert_eq!(roots, ["C:/Steam", "D:/Lib"]);
    assert_eq!(library_roots("C:/Steam", None), ["C:/Steam"]);
    assert_eq!(library_roots("C:/Steam", Some("")), ["C:/Steam"]);
}

#[test]
fn roots_follow_the_same_path_answers() {
    let paths: Vec<String> = ["D:/Lib", "d:/lib", "E:/X"].iter().map(|s| s.to_string()).collect();
    let answers = vec![vec![false], vec![false, true], vec![false, false, false]];
    assert_eq!(roots_from_answers("C:/S", &paths, &answers), ["C:/S", "D:/Lib", "E:/X"]);
    // A path dropped as the Steam root does not shadow later paths.
    let paths: Vec<String> = ["A", "B", "C"].iter().map(|s| s.to_string()).collect();
    let answers = vec![vec![true], vec![false, false], vec![false, true, false]];
    assert_eq!(roots_from_answers("S", &paths, &answers), ["S", "B", "C"]);
    let none: Vec<String> = Vec::new();
    assert_eq!(roots_from_answers("S", &none, &Vec::new()), ["S"]);
}

#[test]
fn every_listed_distinct_folder_is_a_root() {
    let vdf = r#""0" { "path" "C:/Steam" } "1" { "path" "D:/A" } "2" { "path" "E:/B" } "3" { "path" "D:/A" }"#;
    assert_eq!(library_roots("C:/Steam", Some(vdf)), ["C:/Steam", "D:/A", "E:/B"]);
}

#[test]
fn folders_with_new_path_keys_are_always_kept() {
    let vdf = r#""path" "C:\\Steam\\" "path" "D:\\Games\\Lib" "path" "E:/Other.Lib""#;
    let roots = library_roots(r"C:\Steam", Some(vdf));
    assert!(roots.contains(&r"D:\Games\Lib".to_string()));
    assert!(roots.contains(&"E:/Other.Lib".to_string()));
    assert_eq!(roots[0], r"C:\Steam");
}
