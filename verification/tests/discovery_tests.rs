use contrapunk::plugin_host::discovery::{descriptor_from_path, descriptors_for};

#[test]
fn descriptor_from_path_uses_file_stem() {
    let d = descriptor_from_path("/foo/bar/SuperSynth.clap");
    assert_eq!(d.name, "SuperSynth");
    assert_eq!(d.path, "/foo/bar/SuperSynth.clap");
    assert_eq!(d.id, "/foo/bar/SuperSynth.clap");
    assert!(d.vendor.is_empty());
    assert!(d.version.is_empty());
}

#[test]
fn descriptor_without_stem_is_unknown() {
    assert_eq!(descriptor_from_path("/").name, "Unknown");
}

#[test]
fn plain_name_is_its_own_stem() {
    assert_eq!(descriptor_from_path("Reverb").name, "Reverb");
}

#[test]
fn duplicate_bundle_paths_give_one_descriptor() {
    let found = vec![
        "/a/Dup.clap".to_string(),
        "/a/Other.clap".to_string(),
        "/a/Dup.clap".to_string(),
    ];
    let out = descriptors_for(&found);
    let paths: Vec<&str> = out.iter().map(|d| d.path.as_str()).collect();
    assert_eq!(paths, vec!["/a/Dup.clap", "/a/Other.clap"]);
    assert_eq!(out[1].name, "Other");
    assert!(out.iter().all(|d| d.vendor.is_empty() && d.version.is_empty() && d.id == d.path));
}

#[test]
fn no_bundles_no_descriptors() {
    assert!(descriptors_for(&Vec::new()).is_empty());
}

#[test]
fn one_component_name_loses_its_extension() {
    assert_eq!(descriptor_from_path("Synth.v2.clap").name, "Synth.v2");
}
