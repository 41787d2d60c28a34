use rdm::update::install::{Place, beside, locate, place_of};
use rdm::update::{
    Attempt, after_attempt, first_attempt,
    Asset, Channel, Manifest, Policy, Region, compare, matches_digest, ordinal, region_of_trace,
    routes, this_build, worth_telling,
};

fn asset(target: &str, kind: &str, file: &str, sha256: &str) -> Asset {
    Asset {
        target: target.to_owned(),
        kind: kind.to_owned(),
        file: file.to_owned(),
        size: 1,
        sha256: sha256.to_owned(),
    }
}

/// A nightly's manifest, with a file for each system it is built for.
fn manifest() -> Manifest {
    Manifest {
        channel: "nightly".to_owned(),
        version: "2026.9.5".to_owned(),
        build: 8,
        sha: "abc".to_owned(),
        assets: vec![
            asset("linux-x64", "AppImage", "rdm-nightly-linux-x64.AppImage", "aa"),
            asset("linux-x64", "tar.gz", "rdm-nightly-linux-x64.tar.gz", "bb"),
            asset("linux-arm64", "AppImage", "rdm-nightly-linux-arm64.AppImage", "ee"),
            asset("macos-arm64", "dmg", "rdm-nightly-macos-arm64.dmg", "cc"),
            asset("windows-x64", "zip", "rdm-nightly-windows-x64.zip", "dd"),
        ],
    }
}

const TARGET: &str = "linux-x64";

#[test]
fn an_update_is_told_once_and_a_higher_one_is_told_again() {
    assert!(worth_telling("2026.9.6", 41, None), "nothing told yet, so anything is news");
    assert!(!worth_telling("2026.9.6", 41, Some(("2026.9.6", 41))), "the same build is not");
    assert!(worth_telling("2026.9.6", 42, Some(("2026.9.6", 41))), "the same day, built again");
    assert!(!worth_telling("2026.9.6", 40, Some(("2026.9.6", 41))), "and not an older build");
    assert!(worth_telling("2026.9.7", 1, Some(("2026.9.6", 99))), "a later day, whatever its run");
    assert!(!worth_telling("2026.9.5", 99, Some(("2026.9.6", 1))), "an earlier day is not news");
}

#[test]
fn a_version_is_ordered_by_its_numbers_and_not_by_its_text() {
    assert!("2026.10.1" < "2026.9.6", "which is what reading them as text would say");
    assert!(worth_telling("2026.10.1", 1, Some(("2026.9.6", 1))), "and what the numbers say");
    assert!(!worth_telling("2026.9.6", 1, Some(("2026.10.1", 1))));
}

#[test]
fn update_china_goes_to_the_cdn_first_and_everywhere_else_to_github() {
    let [first, second] = routes(Channel::Nightly, Region::China, "latest.json");
    assert!(first.starts_with("https://cdn.ffoni.com/github/release/rdm/nightly/"), "{first}");
    assert!(second.starts_with("https://github.com/canmi21/rdm/releases/download/nightly/"), "{second}");
    let [first, _] = routes(Channel::Nightly, Region::Elsewhere, "x.dmg");
    assert_eq!(first, "https://github.com/canmi21/rdm/releases/download/nightly/x.dmg");
}

#[test]
fn mod_china_goes_to_the_cdn_first_and_everywhere_else_to_github() {
    let [first, second] = routes(Channel::Nightly, Region::China, "latest.json");
    assert!(first.starts_with("https://cdn.ffoni.com/github/release/rdm/nightly/"), "{first}");
    assert!(second.starts_with("https://github.com/canmi21/rdm/releases/download/nightly/"), "{second}");
    let [first, _] = routes(Channel::Nightly, Region::Elsewhere, "x.dmg");
    assert_eq!(first, "https://github.com/canmi21/rdm/releases/download/nightly/x.dmg");
}

#[test]
fn update_a_trace_says_where_the_reader_is_and_anything_unclear_is_elsewhere() {
    assert_eq!(region_of_trace("fl=1\nip=1.2.3.4\nloc=CN\ncolo=HKG\n"), Region::China);
    assert_eq!(region_of_trace("loc=US\n"), Region::Elsewhere);
    assert_eq!(region_of_trace("colo=IAD\n"), Region::Elsewhere);
    assert_eq!(region_of_trace(""), Region::Elsewhere);
}

#[test]
fn mod_a_trace_says_where_the_reader_is_and_anything_unclear_is_elsewhere() {
    assert_eq!(region_of_trace("fl=1\nip=1.2.3.4\nloc=CN\ncolo=HKG\n"), Region::China);
    assert_eq!(region_of_trace("loc=US\n"), Region::Elsewhere);
    assert_eq!(region_of_trace("colo=IAD\n"), Region::Elsewhere);
    assert_eq!(region_of_trace(""), Region::Elsewhere);
}

#[test]
fn the_manifest_names_one_file_per_system_and_linux_gets_the_appimage() {
    let manifest = manifest();
    assert_eq!(manifest.build, 8);
    assert_eq!(manifest.asset_for("linux-x64").unwrap().kind, "AppImage");
    assert_eq!(manifest.asset_for("macos-arm64").unwrap().file, "rdm-nightly-macos-arm64.dmg");
    assert!(manifest.asset_for("macos-x64").is_none());
}

#[test]
fn the_manifest_names_the_files_of_every_system_by_target_and_kind() {
    let manifest = manifest();
    assert_eq!(manifest.build, 8);
    let of = |target: &str| manifest.assets.iter().filter(|a| a.target == target).count();
    assert_eq!((of("linux-x64"), of("macos-arm64"), of("macos-x64")), (2, 1, 0));
    assert_eq!(manifest.assets[3].file, "rdm-nightly-macos-arm64.dmg");
}

#[test]
fn update_a_newer_build_is_available_and_an_older_or_equal_one_is_not() {
    let manifest = manifest();
    let newer = compare(&manifest, Some(7), TARGET).expect("8 is newer than 7");
    assert_eq!((newer.build, newer.version.as_str()), (8, "2026.9.5"));
    assert!(newer.assets[0].file.contains(TARGET));
    assert!(compare(&manifest, Some(8), TARGET).is_none());
    assert!(compare(&manifest, Some(9), TARGET).is_none());
    assert!(compare(&manifest, None, TARGET).is_some(), "a hand build has no number to be ahead of");
}

#[test]
fn mod_a_newer_build_is_available_and_an_older_or_equal_one_is_not() {
    let manifest = manifest();
    let newer = compare(&manifest, Some(7), TARGET).expect("8 is newer than 7");
    assert_eq!((newer.build, newer.version.as_str()), (8, "2026.9.5"));
    assert!(newer.assets.iter().all(|a| a.target == TARGET));
    assert!(newer.asset(Place::AppImage(String::new()).kind()).is_some());
    assert!(compare(&manifest, Some(8), TARGET).is_none());
    assert!(compare(&manifest, Some(9), TARGET).is_none());
    assert!(compare(&manifest, None, TARGET).is_some(), "a hand build has no number to be ahead of");
}

#[test]
fn a_newer_build_keeps_its_files_for_the_target_in_order_and_none_for_a_target_it_lacks() {
    let manifest = manifest();
    let newer = compare(&manifest, Some(1), "linux-x64").unwrap();
    let files: Vec<&str> = newer.assets.iter().map(|a| a.file.as_str()).collect();
    assert_eq!(files, ["rdm-nightly-linux-x64.AppImage", "rdm-nightly-linux-x64.tar.gz"]);
    assert_eq!(newer.asset("tar.gz").unwrap().sha256, "bb");
    assert!(newer.asset("dmg").is_none());
    assert!(compare(&manifest, Some(1), "macos-x64").is_none(), "nothing for this system");
}

#[test]
fn a_build_is_its_number_and_a_hand_build_has_none() {
    assert_eq!(this_build(Some("102")), Some(102));
    assert_eq!(this_build(Some("")), None);
    assert_eq!(this_build(Some("v102")), None);
    assert_eq!(this_build(None), None);
}

#[test]
fn a_version_is_its_numbers_with_nothing_for_a_part_that_is_no_number() {
    assert_eq!(ordinal("2026.9.6"), vec![2026, 9, 6]);
    assert_eq!(ordinal("2026.x.6"), vec![2026, 0, 6]);
    assert_eq!(ordinal(""), vec![0]);
    assert_eq!(ordinal("1."), vec![1, 0]);
}

#[test]
fn the_channel_and_the_policies_are_named_for_the_reader() {
    assert_eq!(Channel::Nightly.name(), "Nightly");
    assert_eq!(Channel::Nightly.tag(), "nightly");
    let names: Vec<&str> = Policy::ALL.iter().map(|p| p.name()).collect();
    assert_eq!(names, ["Download and install", "Download only", "Notify only"]);
}

#[test]
fn a_trace_line_is_read_trimmed_and_only_the_first_location_counts() {
    assert_eq!(region_of_trace("loc= CN \r\n"), Region::China);
    assert_eq!(region_of_trace("loc=US\nloc=CN\n"), Region::Elsewhere);
    assert_eq!(region_of_trace("xloc=CN\n"), Region::Elsewhere);
    assert_eq!(region_of_trace("loc=CN"), Region::China);
}

#[test]
fn a_file_is_kept_only_when_its_digest_is_the_one_named() {
    let empty = "e3b0c44298fc1c149afbf4c8996fb92427ae41e4649b934ca495991b7852b855";
    assert!(matches_digest(b"", empty));
    assert!(!matches_digest(b"x", empty));
    assert!(!matches_digest(b"", &empty.to_uppercase()), "the manifest writes lowercase");
    let abc = "ba7816bf8f01cfea414140de5dae2223b00361a396177a9cb410ff61f20015ad";
    assert!(matches_digest(b"abc", abc));
}

#[test]
fn a_bundle_is_the_third_ancestor_and_one_on_a_volume_is_the_installer() {
    let exe = "/Applications/Downloads.app/Contents/MacOS/Downloads";
    assert_eq!(locate(exe, None, "macos"), Ok(Place::Bundle("/Applications/Downloads.app".to_owned())));
    let exe = "/Volumes/Refined Installer/Downloads.app/Contents/MacOS/Downloads";
    assert!(locate(exe, None, "macos").unwrap_err().contains("Applications first"));
    assert!(locate("/usr/local/bin/Downloads", None, "macos").is_err());
}

#[test]
fn windows_is_the_executable_and_linux_the_appimage_or_the_binary() {
    let exe = "C:\\Users\\x\\Downloads\\Refined Download Manager.exe";
    assert_eq!(locate(exe, None, "windows"), Ok(Place::Exe(exe.to_owned())));
    let mounted = "/tmp/.mount_rdmXYZ/usr/bin/rdm";
    let image = "/home/x/Applications/rdm-nightly-linux-x64.AppImage";
    assert_eq!(locate(mounted, Some(image), "linux"), Ok(Place::AppImage(image.to_owned())));
    let bin = "/home/x/.local/bin/rdm";
    assert_eq!(locate(bin, None, "linux"), Ok(Place::Binary(bin.to_owned())));
    assert_eq!((Place::Bundle(String::new()).kind(), Place::Exe(String::new()).kind()), ("dmg", "zip"));
    assert_eq!(
        (Place::AppImage(String::new()).kind(), Place::Binary(String::new()).kind()),
        ("AppImage", "tar.gz")
    );
}

#[test]
fn a_build_in_its_build_tree_is_not_replaced() {
    let exe = "/Users/x/rdm/target/release/Downloads";
    assert!(locate(exe, None, "macos").unwrap_err().contains("build tree"));
}

#[test]
fn a_file_on_its_way_in_is_a_hidden_sibling() {
    assert_eq!(beside("/home/x/.local/bin/rdm", "update"), "/home/x/.local/bin/.rdm.update");
    assert_eq!(beside("/tmp/update.dmg", "mount"), "/tmp/.update.dmg.mount");
}

fn texts(parts: &[&str]) -> Vec<String> {
    parts.iter().map(|p| p.to_string()).collect()
}

#[test]
fn the_place_follows_from_what_the_path_says() {
    let exe = "/Applications/Downloads.app/Contents/MacOS/Downloads";
    let components = texts(&["/", "Applications", "Downloads.app", "Contents", "MacOS", "Downloads"]);
    let bundle = Some(("/Applications/Downloads.app".to_owned(), Some("app".to_owned()), false));
    assert_eq!(
        place_of(exe, None, "macos", &components, bundle.clone()),
        Ok(Place::Bundle("/Applications/Downloads.app".to_owned()))
    );
    let on_volume = Some(("/Volumes/I/Downloads.app".to_owned(), Some("app".to_owned()), true));
    assert_eq!(
        place_of(exe, None, "macos", &components, on_volume),
        Err("drag the application into Applications first; it runs from the installer".to_owned())
    );
    let not_app = Some(("/usr".to_owned(), None, false));
    assert_eq!(
        place_of(exe, None, "macos", &components, not_app),
        Err("this binary is not inside an application bundle".to_owned())
    );
    assert_eq!(
        place_of(exe, None, "macos", &components, None),
        Err("this binary is not inside an application bundle".to_owned())
    );
    let built = texts(&["/", "src", "rdm", "target", "debug", "rdm"]);
    assert_eq!(
        place_of("/src/rdm/target/debug/rdm", Some("/x.AppImage"), "linux", &built, None),
        Err("this build runs from its build tree and is not replaced".to_owned())
    );
    assert_eq!(
        place_of("/bin/rdm", Some("/x.AppImage"), "linux", &texts(&["/", "bin", "rdm"]), None),
        Ok(Place::AppImage("/x.AppImage".to_owned()))
    );
    assert_eq!(
        place_of("C:\\rdm.exe", None, "windows", &texts(&["C:", "rdm.exe"]), bundle),
        Ok(Place::Exe("C:\\rdm.exe".to_owned()))
    );
}

#[test]
fn a_file_is_fetched_by_each_address_in_turn_until_one_delivers() {
    assert!(matches!(first_attempt(0, "no address"), Attempt::Failed(why) if why == "no address"));
    assert!(matches!(first_attempt(3, "no address"), Attempt::Next(0)));
    assert!(matches!(after_attempt(0, 3, Ok(())), Attempt::Delivered));
    assert!(matches!(after_attempt(0, 3, Err("a: 404".to_owned())), Attempt::Next(1)));
    assert!(matches!(after_attempt(1, 3, Err("b: stale".to_owned())), Attempt::Next(2)));
    assert!(
        matches!(after_attempt(2, 3, Err("c: timed out".to_owned())), Attempt::Failed(last) if last == "c: timed out"),
        "the last failure is the one reported"
    );
    assert!(matches!(after_attempt(2, 3, Ok(())), Attempt::Delivered));
}
