use fsharp_tools::find_manifest_entry;
use fsharp_tools::find_manifest_in_listings;
use fsharp_tools::is_manifest_name;

fn listing(names: &[&str]) -> Vec<String> {
    names.iter().map(|n| n.to_string()).collect()
}

#[test]
fn manifest_names_end_with_the_extension() {
    assert!(is_manifest_name(&"project.fsproj".to_string()));
    assert!(is_manifest_name(&".fsproj".to_string()));
    assert!(!is_manifest_name(&"project.fs".to_string()));
    assert!(!is_manifest_name(&"fsproj".to_string()));
    assert!(!is_manifest_name(&"project.fsproj.bak".to_string()));
}

#[test]
fn first_manifest_entry_wins() {
    let names = listing(&["a.fs", "b.fsproj", "c.fsproj"]);
    assert_eq!(find_manifest_entry(&names), Some(1));
    assert_eq!(find_manifest_entry(&listing(&["a.fs", "b.fs"])), None);
    assert_eq!(find_manifest_entry(&Vec::new()), None);
}

#[test]
fn nested_file_needs_enough_depth() {
    // A source file in a subdirectory, the manifest one directory up:
    // depth one inspects only the start directory, depth two also the
    // parent and finds the manifest.
    let listings = vec![
        listing(&["file.fs"]),
        listing(&["proj.fsproj", "src"]),
    ];
    assert_eq!(find_manifest_in_listings(&listings, 1), None);
    assert_eq!(find_manifest_in_listings(&listings, 2), Some((1, 0)));
}

#[test]
fn depth_bound_is_hard() {
    let listings = vec![
        listing(&["a.fs"]),
        listing(&["b.fs"]),
        listing(&["deep.fsproj"]),
    ];
    assert_eq!(find_manifest_in_listings(&listings, 0), None);
    assert_eq!(find_manifest_in_listings(&listings, -1), None);
    assert_eq!(find_manifest_in_listings(&listings, 2), None);
    assert_eq!(find_manifest_in_listings(&listings, 3), Some((2, 0)));
    assert_eq!(find_manifest_in_listings(&listings, 100), Some((2, 0)));
}

#[test]
fn nearest_manifest_wins() {
    let listings = vec![
        listing(&["near.fsproj"]),
        listing(&["far.fsproj"]),
    ];
    assert_eq!(find_manifest_in_listings(&listings, 5), Some((0, 0)));
}
