use wgpu_pcd::pcd_paths::{is_pcd_extension, is_pcd_file, order_pcd_paths, pcd_sort_key, select_pcd_paths, sort_key_from_stem, str_eq};

fn strings(v: &[&str]) -> Vec<String> {
    v.iter().map(|s| s.to_string()).collect()
}

#[test]
fn pcd_files_by_extension() {
    assert!(is_pcd_file("data/Laser_map/Laser_map_130.pcd"));
    assert!(is_pcd_file("scan.pcd"));
    assert!(!is_pcd_file("scan.PCD"));
    assert!(!is_pcd_file("scan.pcd.bak"));
    assert!(!is_pcd_file(".pcd"));
    assert!(!is_pcd_file("notes.txt"));
    assert!(!is_pcd_file("pcd"));
    assert!(is_pcd_extension(Some("pcd")));
    assert!(!is_pcd_extension(Some("pc")));
    assert!(!is_pcd_extension(None));
}

#[test]
fn keys_from_stems() {
    assert_eq!(sort_key_from_stem(Some("Laser_map_130"), "Laser_map"), 130);
    assert_eq!(sort_key_from_stem(Some("Laser_map_+7"), "Laser_map"), 7);
    assert_eq!(sort_key_from_stem(Some("Laser_map_x"), "Laser_map"), 0);
    assert_eq!(sort_key_from_stem(Some("Laser_map130"), "Laser_map"), 0);
    assert_eq!(sort_key_from_stem(Some("other_5"), "Laser_map"), 0);
    assert_eq!(sort_key_from_stem(None, "Laser_map"), 0);
    assert_eq!(pcd_sort_key("/data/Laser_map_42.pcd", "Laser_map"), 42);
    assert_eq!(pcd_sort_key("/data/Laser_map_99999999999.pcd", "Laser_map"), 0);
}

#[test]
fn selection_keeps_order() {
    let entries = strings(&["d/b_2.pcd", "d/readme.md", "d/a_1.pcd", "d/c.ply"]);
    assert_eq!(select_pcd_paths(&entries), strings(&["d/b_2.pcd", "d/a_1.pcd"]));
}

#[test]
fn ordering_is_numeric_and_stable() {
    let entries = strings(&[
        "d/Laser_map_10.pcd",
        "d/Laser_map_2.pcd",
        "d/notes.txt",
        "d/zz.pcd",
        "d/Laser_map_1.pcd",
        "d/aa.pcd",
        "d/Laser_map_2.pcd.tmp",
    ]);
    let ordered = order_pcd_paths(&entries, "Laser_map");
    assert_eq!(ordered, strings(&["d/zz.pcd", "d/aa.pcd", "d/Laser_map_1.pcd", "d/Laser_map_2.pcd", "d/Laser_map_10.pcd"]));
    assert_eq!(order_pcd_paths(&ordered, "Laser_map"), ordered);
}

#[test]
fn ordering_agrees_with_std_sort() {
    let entries = strings(&["x/t_5.pcd", "x/t_3.pcd", "x/t_5.pcd", "x/u_1.pcd", "x/t_0.pcd", "x/t_3.pcd"]);
    let mut expected: Vec<String> = entries.clone();
    expected.sort_by_key(|p| pcd_sort_key(p, "t"));
    assert_eq!(order_pcd_paths(&entries, "t"), expected);
}

#[test]
fn empty_listing() {
    assert!(order_pcd_paths(&Vec::new(), "t").is_empty());
}

#[test]
fn string_equality() {
    assert!(str_eq("abc", "abc"));
    assert!(!str_eq("abc", "abd"));
    assert!(!str_eq("abc", "ab"));
    assert!(str_eq("", ""));
}
