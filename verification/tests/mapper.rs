use aligner_frontend::mapper::{
    map_piece, map_pieces, resolution_request, MappedArguments, MappedPiece, PathError,
    PathErrorKind, PathUse, Resolution, CONTAINER_PATH_FLAG, HOST_PATH_FLAG,
};
use aligner_frontend::mounts::DockerVolume;
use aligner_frontend::protocol::ArgsProtocolPieceInfo;

fn piece(text: &str, incomplete: bool, pre_exists: bool, created: bool) -> ArgsProtocolPieceInfo {
    ArgsProtocolPieceInfo {
        text: text.to_string(),
        incomplete,
        path_pre_exists: pre_exists,
        path_created: created,
    }
}

fn plain(text: &str) -> ArgsProtocolPieceInfo {
    piece(text, false, false, false)
}

fn existing(text: &str) -> ArgsProtocolPieceInfo {
    piece(text, false, true, false)
}

fn created(text: &str) -> ArgsProtocolPieceInfo {
    piece(text, false, false, true)
}

fn canonical(path: &str) -> Resolution {
    Resolution::Canonical(path.to_string())
}

fn error(kind: PathErrorKind, argument: &str) -> PathError {
    PathError { kind, argument: argument.to_string() }
}

fn volume(host: &str, container: &str, read_write: bool) -> DockerVolume {
    DockerVolume {
        host_path: host.to_string(),
        container_path: container.to_string(),
        read_write,
    }
}

fn strings(items: &[&str]) -> Vec<String> {
    items.iter().map(|s| s.to_string()).collect()
}

#[test]
fn side_channel_flags() {
    assert_eq!(HOST_PATH_FLAG, "--x-host-path");
    assert_eq!(CONTAINER_PATH_FLAG, "--x-container-path");
}

#[test]
fn plain_piece_asks_for_nothing() {
    assert_eq!(resolution_request(&plain("--verbose")), None);
    assert_eq!(resolution_request(&plain("a/b")), None);
}

#[test]
fn existing_path_asks_for_the_whole_path() {
    assert_eq!(resolution_request(&existing("data/in.fits")), Some("data/in.fits".to_string()));
    assert_eq!(resolution_request(&existing("")), Some("".to_string()));
}

#[test]
fn created_path_asks_for_its_directory() {
    assert_eq!(resolution_request(&created("out/new.fits")), Some("out".to_string()));
    assert_eq!(resolution_request(&created("new.fits")), Some(".".to_string()));
    assert_eq!(resolution_request(&created("/new.fits")), Some("".to_string()));
    assert_eq!(resolution_request(&created("a/b/c")), Some("a/b".to_string()));
}

#[test]
fn created_path_without_file_name_asks_for_nothing() {
    assert_eq!(resolution_request(&created("out/")), None);
    assert_eq!(resolution_request(&created("")), None);
}

#[test]
fn path_with_both_flags_asks_for_the_whole_path() {
    assert_eq!(
        resolution_request(&piece("out/x", false, true, true)),
        Some("out/x".to_string())
    );
}

#[test]
fn plain_piece_passes_through() {
    assert_eq!(
        map_piece(&plain("--verbose"), &Resolution::Unneeded),
        Ok(MappedPiece { text: "--verbose".to_string(), incomplete: false, path: None })
    );
    assert_eq!(
        map_piece(&piece("--out=", true, false, false), &canonical("/ignored")),
        Ok(MappedPiece { text: "--out=".to_string(), incomplete: true, path: None })
    );
}

#[test]
fn existing_path_is_seen_under_its_mount_point() {
    let mapped = map_piece(&existing("data/in.fits"), &canonical("/home/me/data/in.fits"));
    assert_eq!(
        mapped,
        Ok(MappedPiece {
            text: "/volumes/_home_me_data/in.fits".to_string(),
            incomplete: false,
            path: Some(PathUse {
                host_text: "data/in.fits".to_string(),
                host_dir: "/home/me/data".to_string(),
                container_dir: "/volumes/_home_me_data".to_string(),
                container_path: "/volumes/_home_me_data/in.fits".to_string(),
                created: false,
            }),
        })
    );
}

#[test]
fn symlink_is_addressed_by_the_name_of_its_target() {
    let mapped = map_piece(&existing("/tmp/link.fits"), &canonical("/archive/2021/real.fits"))
        .unwrap();
    assert_eq!(mapped.text, "/volumes/_archive_2021/real.fits");
    let path = mapped.path.unwrap();
    assert_eq!(path.host_text, "/tmp/link.fits");
    assert_eq!(path.host_dir, "/archive/2021");
    assert_eq!(path.container_path.rsplit('/').next(), Some("real.fits"));
    assert_ne!(path.container_path.rsplit('/').next(), Some("link.fits"));
}

#[test]
fn file_directly_under_the_root() {
    let mapped = map_piece(&existing("/x"), &canonical("/x")).unwrap();
    assert_eq!(mapped.text, "/volumes/_/x");
    assert_eq!(mapped.path.unwrap().host_dir, "/");
}

#[test]
fn existing_path_that_is_missing() {
    assert_eq!(
        map_piece(&existing("nowhere.fits"), &Resolution::Missing),
        Err(error(PathErrorKind::Unresolved, "nowhere.fits"))
    );
    assert_eq!(
        map_piece(&existing("nowhere.fits"), &Resolution::Unneeded),
        Err(error(PathErrorKind::Unresolved, "nowhere.fits"))
    );
}

#[test]
fn existing_path_that_is_not_unicode() {
    assert_eq!(
        map_piece(&existing("odd"), &Resolution::NotUnicode),
        Err(error(PathErrorKind::NotUnicode, "odd"))
    );
}

#[test]
fn existing_path_without_file_name() {
    assert_eq!(
        map_piece(&existing("/"), &canonical("/")),
        Err(error(PathErrorKind::NoFileName, "/"))
    );
}

#[test]
fn created_path_lies_in_its_resolved_directory() {
    let mapped = map_piece(&created("out/new.fits"), &canonical("/work/out"));
    assert_eq!(
        mapped,
        Ok(MappedPiece {
            text: "/volumes/_work_out/new.fits".to_string(),
            incomplete: false,
            path: Some(PathUse {
                host_text: "out/new.fits".to_string(),
                host_dir: "/work/out".to_string(),
                container_dir: "/volumes/_work_out".to_string(),
                container_path: "/volumes/_work_out/new.fits".to_string(),
                created: true,
            }),
        })
    );
}

#[test]
fn created_path_in_the_root_directory() {
    let mapped = map_piece(&created("new.fits"), &canonical("/")).unwrap();
    assert_eq!(mapped.text, "/volumes/_/new.fits");
    assert_eq!(mapped.path.unwrap().host_dir, "/");
}

#[test]
fn created_path_keeps_its_own_file_name() {
    let mapped = map_piece(&created("link/new.fits"), &canonical("/real/place")).unwrap();
    assert_eq!(mapped.text, "/volumes/_real_place/new.fits");
}

#[test]
fn created_path_without_file_name() {
    assert_eq!(
        map_piece(&created("out/"), &canonical("/work/out")),
        Err(error(PathErrorKind::EmptyFileName, "out/"))
    );
    assert_eq!(
        map_piece(&created(""), &canonical("/work")),
        Err(error(PathErrorKind::EmptyFileName, ""))
    );
    assert_eq!(
        map_piece(&created("out/"), &Resolution::Missing),
        Err(error(PathErrorKind::EmptyFileName, "out/"))
    );
}

#[test]
fn created_path_whose_directory_is_missing() {
    assert_eq!(
        map_piece(&created("gone/new.fits"), &Resolution::Missing),
        Err(error(PathErrorKind::UnresolvedDirectory, "gone/new.fits"))
    );
    assert_eq!(
        map_piece(&created("gone/new.fits"), &Resolution::Unneeded),
        Err(error(PathErrorKind::UnresolvedDirectory, "gone/new.fits"))
    );
}

#[test]
fn created_path_whose_directory_is_not_unicode() {
    assert_eq!(
        map_piece(&created("odd/new.fits"), &Resolution::NotUnicode),
        Err(error(PathErrorKind::NotUnicode, "odd/new.fits"))
    );
}

#[test]
fn created_path_that_ends_in_the_parent_directory() {
    assert_eq!(
        map_piece(&created("out/.."), &canonical("/work/out")),
        Err(error(PathErrorKind::NoFileName, "out/.."))
    );
}

#[test]
fn created_path_that_ends_in_the_directory_itself() {
    let mapped = map_piece(&created("out/."), &canonical("/work/out")).unwrap();
    assert_eq!(mapped.text, "/volumes/_work/out");
    assert_eq!(mapped.path.unwrap().host_dir, "/work");
}

#[test]
fn path_with_both_flags_is_resolved_whole_and_created() {
    let mapped = map_piece(&piece("d/f", false, true, true), &canonical("/real/d/f")).unwrap();
    assert_eq!(mapped.text, "/volumes/_real_d/f");
    let path = mapped.path.unwrap();
    assert_eq!(path.host_dir, "/real/d");
    assert!(path.created);
}

#[test]
fn incomplete_flag_is_kept() {
    let mapped = map_piece(&piece("d/f", true, true, false), &canonical("/d/f")).unwrap();
    assert!(mapped.incomplete);
}

#[test]
fn locate_without_file_name() {
    assert_eq!(
        PathUse::locate("t".to_string(), "/d".to_string(), None, false),
        Err(PathErrorKind::NoFileName)
    );
}

#[test]
fn locate_with_file_name() {
    assert_eq!(
        PathUse::locate("t".to_string(), "/my dir".to_string(), Some("f.x".to_string()), true),
        Ok(PathUse {
            host_text: "t".to_string(),
            host_dir: "/my dir".to_string(),
            container_dir: "/volumes/_my_dir".to_string(),
            container_path: "/volumes/_my_dir/f.x".to_string(),
            created: true,
        })
    );
}

#[test]
fn error_messages_name_the_argument() {
    assert_eq!(
        error(PathErrorKind::Unresolved, "a b").message(),
        "failed to resolve filesystem path `a b`"
    );
    assert_eq!(
        error(PathErrorKind::EmptyFileName, "out/").message(),
        "cannot process empty input path `out/`"
    );
    assert_eq!(
        error(PathErrorKind::UnresolvedDirectory, "x/y").message(),
        "failed to resolve directory of output path `x/y`"
    );
    assert_eq!(
        error(PathErrorKind::NoFileName, "/").message(),
        "cannot process path `/`, which lacks a filename component"
    );
    assert_eq!(
        error(PathErrorKind::NotUnicode, "odd").message(),
        "cannot handle path `odd`, which resolves to something inexpressible as Unicode"
    );
}

#[test]
fn no_pieces_map_to_nothing() {
    assert_eq!(
        map_pieces(&Vec::new(), &Vec::new()),
        Ok(MappedArguments { volumes: Vec::new(), side_args: Vec::new(), args: Vec::new() })
    );
}

#[test]
fn plain_pieces_need_no_resolutions() {
    let pieces = vec![plain("solve"), plain("--fast")];
    assert_eq!(
        map_pieces(&pieces, &Vec::new()),
        Ok(MappedArguments {
            volumes: Vec::new(),
            side_args: Vec::new(),
            args: strings(&["solve", "--fast"]),
        })
    );
}

#[test]
fn same_directory_is_mounted_once() {
    let pieces = vec![existing("a.fits"), existing("b.fits"), existing("../data/c.fits")];
    let resolutions =
        vec![canonical("/data/a.fits"), canonical("/data/b.fits"), canonical("/data/c.fits")];
    let mapped = map_pieces(&pieces, &resolutions).unwrap();
    assert_eq!(mapped.volumes, vec![volume("/data", "/volumes/_data", false)]);
    assert_eq!(
        mapped.args,
        strings(&["/volumes/_data/a.fits", "/volumes/_data/b.fits", "/volumes/_data/c.fits"])
    );
}

#[test]
fn mount_is_read_only_without_created_files() {
    let pieces = vec![existing("a"), existing("b")];
    let resolutions = vec![canonical("/in/a"), canonical("/other/b")];
    let mapped = map_pieces(&pieces, &resolutions).unwrap();
    assert_eq!(
        mapped.volumes,
        vec![volume("/in", "/volumes/_in", false), volume("/other", "/volumes/_other", false)]
    );
}

#[test]
fn mount_is_writable_when_a_file_is_created_in_it() {
    let pieces = vec![existing("a"), created("out/b"), existing("c")];
    let resolutions = vec![canonical("/data/a"), canonical("/data"), canonical("/data/c")];
    let mapped = map_pieces(&pieces, &resolutions).unwrap();
    assert_eq!(mapped.volumes, vec![volume("/data", "/volumes/_data", true)]);
}

#[test]
fn created_file_first_keeps_the_mount_writable() {
    let pieces = vec![created("b"), existing("a")];
    let resolutions = vec![canonical("/data"), canonical("/data/a")];
    let mapped = map_pieces(&pieces, &resolutions).unwrap();
    assert_eq!(mapped.volumes, vec![volume("/data", "/volumes/_data", true)]);
}

#[test]
fn only_the_directory_of_the_created_file_is_writable() {
    let pieces = vec![existing("in/a"), created("out/b")];
    let resolutions = vec![canonical("/in/a"), canonical("/out")];
    let mapped = map_pieces(&pieces, &resolutions).unwrap();
    assert_eq!(
        mapped.volumes,
        vec![volume("/in", "/volumes/_in", false), volume("/out", "/volumes/_out", true)]
    );
}

#[test]
fn path_pieces_are_announced_in_pairs() {
    let pieces = vec![plain("solve"), existing("in/a.fits"), created("out/b.fits")];
    let resolutions =
        vec![Resolution::Unneeded, canonical("/real/in/a.fits"), canonical("/real/out")];
    let mapped = map_pieces(&pieces, &resolutions).unwrap();
    assert_eq!(
        mapped.side_args,
        strings(&[
            "--x-host-path",
            "in/a.fits",
            "--x-container-path",
            "/volumes/_real_in/a.fits",
            "--x-host-path",
            "out/b.fits",
            "--x-container-path",
            "/volumes/_real_out/b.fits",
        ])
    );
    assert_eq!(
        mapped.args,
        strings(&["solve", "/volumes/_real_in/a.fits", "/volumes/_real_out/b.fits"])
    );
}

#[test]
fn path_inside_an_argument_is_rewritten_in_place() {
    let pieces = vec![
        piece("--output=", true, false, false),
        piece("out/b.fits", false, false, true),
        plain("-v"),
    ];
    let resolutions = vec![Resolution::Unneeded, canonical("/w/out"), Resolution::Unneeded];
    let mapped = map_pieces(&pieces, &resolutions).unwrap();
    assert_eq!(mapped.args, strings(&["--output=/volumes/_w_out/b.fits", "-v"]));
    assert_eq!(mapped.volumes, vec![volume("/w/out", "/volumes/_w_out", true)]);
}

#[test]
fn trailing_incomplete_path_is_kept() {
    let pieces = vec![piece("--in=", true, false, false), piece("a", true, true, false)];
    let resolutions = vec![Resolution::Unneeded, canonical("/d/a")];
    let mapped = map_pieces(&pieces, &resolutions).unwrap();
    assert_eq!(mapped.args, strings(&["--in=/volumes/_d/a"]));
}

#[test]
fn first_failing_piece_ends_the_mapping() {
    let pieces = vec![existing("a"), existing("b"), created("c/")];
    let resolutions = vec![canonical("/d/a"), Resolution::Missing, canonical("/d")];
    assert_eq!(map_pieces(&pieces, &resolutions), Err(error(PathErrorKind::Unresolved, "b")));
    let resolutions = vec![canonical("/d/a"), canonical("/d/b"), canonical("/d")];
    assert_eq!(map_pieces(&pieces, &resolutions), Err(error(PathErrorKind::EmptyFileName, "c/")));
}

#[test]
fn path_piece_without_resolution_counts_as_missing() {
    let pieces = vec![plain("x"), existing("a")];
    assert_eq!(
        map_pieces(&pieces, &vec![Resolution::Unneeded]),
        Err(error(PathErrorKind::Unresolved, "a"))
    );
    let pieces = vec![created("d/a")];
    assert_eq!(
        map_pieces(&pieces, &Vec::new()),
        Err(error(PathErrorKind::UnresolvedDirectory, "d/a"))
    );
}

#[test]
fn colliding_directories_are_two_mounts_on_one_container_directory() {
    let pieces = vec![existing("x"), existing("y")];
    let resolutions = vec![canonical("/a/b/x"), canonical("/a_b/y")];
    let mapped = map_pieces(&pieces, &resolutions).unwrap();
    assert_eq!(
        mapped.volumes,
        vec![volume("/a/b", "/volumes/_a_b", false), volume("/a_b", "/volumes/_a_b", false)]
    );
}

#[test]
fn texts_that_resolve_to_one_file_are_mapped_to_one_path() {
    let resolution = canonical("/store/real name.fits");
    let first = map_piece(&existing("link-a"), &resolution).unwrap();
    let second = map_piece(&existing("../elsewhere/link-b"), &resolution).unwrap();
    assert_eq!(first.text, "/volumes/_store/real name.fits");
    assert_eq!(first.text, second.text);
    assert_eq!(first.path.unwrap().host_dir, second.path.unwrap().host_dir);
}

#[test]
fn every_mount_belongs_to_a_path_piece() {
    let pieces = vec![plain("/etc/passwd"), existing("a"), plain("/home")];
    let resolutions = vec![canonical("/etc/passwd"), canonical("/d/a"), Resolution::Missing];
    let mapped = map_pieces(&pieces, &resolutions).unwrap();
    assert_eq!(mapped.volumes, vec![volume("/d", "/volumes/_d", false)]);
    assert_eq!(mapped.args, strings(&["/etc/passwd", "/volumes/_d/a", "/home"]));
}
