use shape_trace::{get_backup_path, shapes_image_path};

#[test]
fn shapes_path_replaces_extension() {
    assert_eq!(shapes_image_path("map.png"), "map.shapes.png");
}

#[test]
fn shapes_path_replaces_only_final_extension() {
    assert_eq!(shapes_image_path("scan.v2.jpg"), "scan.v2.shapes.png");
}

#[test]
fn shapes_path_keeps_directory() {
    assert_eq!(shapes_image_path("maps/cave.bmp"), "maps/cave.shapes.png");
    assert_eq!(shapes_image_path("/tmp/in.d/cave.bmp"), "/tmp/in.d/cave.shapes.png");
}

#[test]
fn shapes_path_without_extension() {
    assert_eq!(shapes_image_path("map"), "map.shapes.png");
    assert_eq!(shapes_image_path("maps.d/cave"), "maps.d/cave.shapes.png");
    assert_eq!(shapes_image_path(".hidden"), ".hidden.shapes.png");
    assert_eq!(shapes_image_path("map."), "map.shapes.png");
}

#[test]
fn shapes_path_without_file_name_is_unchanged() {
    assert_eq!(shapes_image_path(""), "");
    assert_eq!(shapes_image_path("/"), "/");
    assert_eq!(shapes_image_path(".."), "..");
    assert_eq!(shapes_image_path("a/.."), "a/..");
    assert_eq!(shapes_image_path("a/../"), "a/../");
    assert_eq!(shapes_image_path("."), ".");
    assert_eq!(shapes_image_path("./"), "./");
}

#[test]
fn shapes_path_skips_trailing_separators_and_dots() {
    assert_eq!(shapes_image_path("maps/"), "maps.shapes.png");
    assert_eq!(shapes_image_path("a/."), "a.shapes.png");
    assert_eq!(shapes_image_path("a/./"), "a.shapes.png");
    assert_eq!(shapes_image_path("maps/cave.png//"), "maps/cave.shapes.png");
    assert_eq!(shapes_image_path("./map.png"), "./map.shapes.png");
}

#[test]
fn shapes_path_with_non_ascii_name() {
    assert_eq!(shapes_image_path("karte-ä.png"), "karte-ä.shapes.png");
}

#[test]
fn backup_path_replaces_extension() {
    assert_eq!(get_backup_path("castle.dungeondraft_map"), "castle.dungeondraft_map.bak");
    assert_eq!(get_backup_path("maps/castle"), "maps/castle.dungeondraft_map.bak");
}

#[test]
fn backup_path_of_directory_like_path() {
    assert_eq!(get_backup_path("maps/"), "maps.dungeondraft_map.bak");
    assert_eq!(get_backup_path("a/."), "a.dungeondraft_map.bak");
}

#[test]
fn backup_path_never_equals_original() {
    for p in ["x.dungeondraft_map.bak", "x.bak", "maps/", "a/.", "castle", ".hidden", "a.b.c"] {
        assert_ne!(get_backup_path(p), p);
    }
}
