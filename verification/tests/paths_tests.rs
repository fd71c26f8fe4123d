use std::path::{Component, Path};

use helios_api::storage::paths::{
    data_root_path, is_mount_boundary, path_extension, path_file_name, path_file_name_span, path_key_of,
    path_starts_with_exec, path_with_extension, paths_equal, set_data_root_for_tests, DataRootResolution,
};

const PATHS: [&str; 16] = [
    "",
    "/",
    "/data",
    "/data/",
    "/data/media",
    "/data//media/./clip.mp4",
    "/database",
    "data/media",
    "./data",
    ".",
    "..",
    "a/..",
    "/data/media/..",
    "clip.mp4",
    "./",
    "/data/./media",
];

#[test]
fn file_names_match_std() {
    for p in PATHS {
        let expected = Path::new(p).file_name().map(|n| n.to_str().unwrap().to_string());
        assert_eq!(path_file_name(p), expected, "{:?}", p);
        let span = path_file_name_span(p).map(|(a, b)| p.chars().skip(a).take(b - a).collect::<String>());
        assert_eq!(span, expected, "{:?}", p);
    }
}

#[test]
fn path_prefixes_match_std() {
    for p in PATHS {
        for base in PATHS {
            assert_eq!(
                path_starts_with_exec(p, base),
                Path::new(p).starts_with(Path::new(base)),
                "{:?} starts with {:?}",
                p,
                base
            );
        }
    }
}

#[test]
fn path_keys_follow_std_components() {
    for p in PATHS {
        let key = path_key_of(p);
        let comps: Vec<Component> = Path::new(p).components().collect();
        assert_eq!(key.rooted, comps.first() == Some(&Component::RootDir), "{:?}", p);
        assert_eq!(key.leading_dot, comps.first() == Some(&Component::CurDir), "{:?}", p);
        let names: Vec<String> = comps
            .iter()
            .filter_map(|c| match c {
                Component::Normal(n) => Some(n.to_str().unwrap().to_string()),
                Component::ParentDir => Some("..".to_string()),
                _ => None,
            })
            .collect();
        assert_eq!(key.names, names, "{:?}", p);
    }
}

#[test]
fn data_root_prefers_the_test_root() {
    assert_eq!(data_root_path(&Some("/tmp/root".to_string()), &Err("no data".to_string())), Ok("/tmp/root".to_string()));
    assert_eq!(data_root_path(&None, &Ok("/data".to_string())), Ok("/data".to_string()));
    assert_eq!(data_root_path(&None, &Err("no data".to_string())), Err("no data".to_string()));
    let mut slot = None;
    set_data_root_for_tests(&mut slot, "/tmp/a".to_string());
    set_data_root_for_tests(&mut slot, "/tmp/b".to_string());
    assert_eq!(slot.as_deref(), Some("/tmp/a"));
    assert!(is_mount_boundary(1, 2));
    assert!(!is_mount_boundary(3, 3));
}

#[test]
fn path_equality_and_extensions_match_std() {
    for p in PATHS {
        for q in PATHS {
            assert_eq!(paths_equal(p, q), Path::new(p) == Path::new(q), "{:?} == {:?}", p, q);
        }
        let ext = Path::new(p).extension().map(|e| e.to_str().unwrap().to_string());
        assert_eq!(path_extension(p), ext, "{:?}", p);
        for e in ["part", "", "mp4.part"] {
            let with = Path::new(p).with_extension(e).to_str().unwrap().to_string();
            assert_eq!(path_with_extension(p, e), with, "{:?} with {:?}", p, e);
        }
    }
    assert_eq!(path_extension("archive.tar.gz"), Some("gz".to_string()));
    assert_eq!(path_extension(".hidden"), None);
    assert_eq!(path_with_extension("/data/clip.mp4", "mp4.part"), "/data/clip.mp4.part");
}

#[test]
fn data_root_is_resolved_once() {
    let mut cell = DataRootResolution::new();
    assert!(cell.needs_resolution(&None));
    assert_eq!(cell.data_root(&None, None), None);
    assert_eq!(cell.data_root(&None, Some(Ok("/var/lib/helios/api".to_string()))), Some(Ok("/var/lib/helios/api".to_string())));
    assert!(!cell.needs_resolution(&None));
    assert_eq!(cell.data_root(&None, Some(Ok("/tmp/other".to_string()))), Some(Ok("/var/lib/helios/api".to_string())));
    assert_eq!(cell.data_root(&Some("/tmp/t".to_string()), None), Some(Ok("/tmp/t".to_string())));
    assert_eq!(cell.data_root(&None, None), Some(Ok("/var/lib/helios/api".to_string())));

    let mut failed = DataRootResolution::new();
    assert_eq!(failed.data_root(&None, Some(Err("no data root".to_string()))), Some(Err("no data root".to_string())));
    assert_eq!(failed.data_root(&None, Some(Ok("/later".to_string()))), Some(Err("no data root".to_string())));
    assert!(!DataRootResolution::new().needs_resolution(&Some("/tmp/t".to_string())));
}
