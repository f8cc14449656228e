use quarkdrive_webdav::drive::model::QuarkFile;
use quarkdrive_webdav::path::split_path;
use quarkdrive_webdav::populate::{FetchError, Outcome};
use quarkdrive_webdav::vfs::{
    find_in_listing, lookup_for, read_dir, sha1_of, starts_with, FsError, Lookup, OpenMode,
    QuarkDavFile,
    QuarkDriveFileSystem, ReadStep, SeekTarget,
};

const NOW: u64 = 1_700_000_000;

fn node(fid: &str, name: &str, dir: bool) -> QuarkFile {
    QuarkFile {
        fid: fid.to_string(),
        file_name: name.to_string(),
        pdir_fid: "0".to_string(),
        size: 1000,
        format_type: String::new(),
        status: 1,
        created_at: 1,
        updated_at: 2,
        dir,
        file: !dir,
        download_url: None,
    }
}

fn with_url(url: &str) -> QuarkFile {
    let mut file = node("f1", "a.bin", false);
    file.download_url = Some(url.to_string());
    file
}

fn handle(file: QuarkFile) -> QuarkDavFile {
    QuarkDavFile::new(file, "0".to_string(), "/".to_string())
}

fn link(expires: u64) -> String {
    format!("https://dl.example.com/a.bin?Expires={}&Signature=s", expires)
}

const READ: OpenMode = OpenMode { write: false, append: false, create_new: false };
const WRITE: OpenMode = OpenMode { write: true, append: false, create_new: false };

#[test]
fn a_new_file_system_has_every_switch_off() {
    let fs = QuarkDriveFileSystem::new("/", 1000, 600);
    assert!(fs.root.is_empty());
    assert!(!fs.no_trash);
    assert!(!fs.read_only);
    assert_eq!(fs.upload_buffer_size, 16 * 1024 * 1024);
    assert!(!fs.skip_upload_same_size);
    assert!(!fs.prefer_http_download);
    assert!(fs.dir_cache.get("/").is_none());
    let fs = QuarkDriveFileSystem::new("media/films/", 1000, 600);
    assert_eq!(fs.root, vec!["media", "films"]);
}

#[test]
fn each_switch_is_set_by_itself() {
    let mut fs = QuarkDriveFileSystem::new("/", 1000, 600);
    fs.set_read_only(true).set_upload_buffer_size(4096);
    assert!(fs.read_only);
    assert_eq!(fs.upload_buffer_size, 4096);
    assert!(!fs.no_trash);
    assert!(!fs.skip_upload_same_size);
    assert!(!fs.prefer_http_download);
    fs.set_no_trash(true).set_skip_upload_same_size(true).set_prefer_http_download(true);
    assert!(fs.no_trash && fs.skip_upload_same_size && fs.prefer_http_download);
    assert!(fs.read_only);
    fs.set_read_only(false);
    assert!(!fs.read_only);
    assert!(fs.no_trash);
}

#[test]
fn under_the_root_every_path_stands_for_itself() {
    let fs = QuarkDriveFileSystem::new("/", 1000, 600);
    assert_eq!(fs.normalize_dav_path("/docs/reports"), "/docs/reports");
    assert_eq!(fs.normalize_dav_path("/docs/reports/"), "/docs/reports");
    assert_eq!(fs.normalize_dav_path("/"), "/");
}

#[test]
fn a_path_is_put_under_the_root_that_is_shown() {
    let fs = QuarkDriveFileSystem::new("/media", 1000, 600);
    assert_eq!(fs.normalize_dav_path("/films/a.mkv"), "/media/films/a.mkv");
    assert_eq!(fs.normalize_dav_path("/"), "/media");
    assert_eq!(fs.normalize_dav_path(""), "/media");
    assert_eq!(fs.normalize_dav_path("/mediafiles"), "/media/mediafiles");
}

#[test]
fn a_path_under_the_root_already_stays() {
    let fs = QuarkDriveFileSystem::new("/media", 1000, 600);
    assert_eq!(fs.normalize_dav_path("/media/films"), "/media/films");
    assert_eq!(fs.normalize_dav_path("/media"), "/media");
}

#[test]
fn starts_with_goes_name_by_name() {
    assert!(starts_with(&split_path("/a/b/c"), &split_path("/a/b")));
    assert!(starts_with(&split_path("/a/b"), &split_path("/a/b")));
    assert!(starts_with(&split_path("/a/b"), &split_path("/")));
    assert!(!starts_with(&split_path("/a/bc"), &split_path("/a/b")));
    assert!(!starts_with(&split_path("/a"), &split_path("/a/b")));
    assert!(!starts_with(&split_path("/x/b"), &split_path("/a/b")));
}

#[test]
fn a_node_is_looked_for_in_its_directory() {
    match lookup_for("/docs/reports/q1.csv") {
        Lookup::Child { parent, name } => {
            assert_eq!(parent, "/docs/reports");
            assert_eq!(name, "q1.csv");
        }
        Lookup::Root => panic!("no root"),
    }
    match lookup_for("/docs") {
        Lookup::Child { parent, name } => {
            assert_eq!(parent, "/");
            assert_eq!(name, "docs");
        }
        Lookup::Root => panic!("no root"),
    }
    assert!(matches!(lookup_for("/"), Lookup::Root));
    assert!(matches!(lookup_for(""), Lookup::Root));
}

#[test]
fn the_first_child_of_a_name_is_found() {
    let list = vec![node("a", "x", false), node("b", "docs", true), node("c", "docs", false)];
    assert_eq!(find_in_listing(&list, &"docs".to_string()).unwrap().fid, "b");
    assert_eq!(find_in_listing(&list, &"x".to_string()).unwrap().fid, "a");
    assert!(find_in_listing(&list, &"y".to_string()).is_none());
    assert!(find_in_listing(&Vec::new(), &"x".to_string()).is_none());
}

#[test]
fn a_directory_without_children_reads_as_not_found() {
    assert_eq!(read_dir(Outcome::Found(Vec::new())).unwrap_err(), FsError::NotFound);
    assert_eq!(read_dir(Outcome::NotFound).unwrap_err(), FsError::NotFound);
    assert_eq!(read_dir(Outcome::Failed(FetchError::Transient)).unwrap_err(), FsError::GeneralFailure);
    assert_eq!(read_dir(Outcome::Failed(FetchError::Forbidden)).unwrap_err(), FsError::Forbidden);
    assert_eq!(read_dir(Outcome::Failed(FetchError::Permanent)).unwrap_err(), FsError::NotFound);
    let list = read_dir(Outcome::Found(vec![node("a", "x", false)])).unwrap();
    assert_eq!(list.len(), 1);
    assert_eq!(list[0].fid, "a");
}

#[test]
fn appending_is_not_served() {
    let append = OpenMode { write: true, append: true, create_new: false };
    assert_eq!(
        QuarkDriveFileSystem::open_path(append, "/docs/a.txt").unwrap_err(),
        FsError::NotImplemented
    );
    assert_eq!(QuarkDriveFileSystem::open_path(append, "/").unwrap_err(), FsError::NotImplemented);
}

#[test]
fn the_root_cannot_be_opened() {
    assert_eq!(QuarkDriveFileSystem::open_path(READ, "/").unwrap_err(), FsError::NotFound);
}

#[test]
fn a_file_is_opened_in_its_directory() {
    assert_eq!(QuarkDriveFileSystem::open_path(READ, "/docs/a.txt").unwrap(), "/docs");
    assert_eq!(QuarkDriveFileSystem::open_path(WRITE, "/a.txt").unwrap(), "/");
}

#[test]
fn an_open_file_starts_at_zero() {
    let mut fs = QuarkDriveFileSystem::new("/", 1000, 600);
    fs.set_prefer_http_download(true);
    let opened = fs
        .open(READ, "/docs".to_string(), Some(node("d1", "docs", true)), Some(node("f1", "a.txt", false)))
        .unwrap();
    assert_eq!(opened.file.fid, "f1");
    assert_eq!(opened.parent_file_id, "d1");
    assert_eq!(opened.parent_dir, "/docs");
    assert_eq!(opened.current_pos, 0);
    assert!(opened.http_download);
}

#[test]
fn a_missing_directory_or_file_is_not_found() {
    let fs = QuarkDriveFileSystem::new("/", 1000, 600);
    let dir = || Some(node("d1", "docs", true));
    let file = || Some(node("f1", "a.txt", false));
    assert_eq!(fs.open(READ, "/docs".to_string(), None, file()).err(), Some(FsError::NotFound));
    assert_eq!(fs.open(READ, "/docs".to_string(), dir(), None).err(), Some(FsError::NotFound));
    assert_eq!(fs.open(WRITE, "/docs".to_string(), None, None).err(), Some(FsError::NotFound));
}

#[test]
fn a_file_that_exists_is_not_created_anew() {
    let fs = QuarkDriveFileSystem::new("/", 1000, 600);
    let create = OpenMode { write: true, append: false, create_new: true };
    let opened =
        fs.open(create, "/".to_string(), Some(QuarkFile::root_at(0)), Some(node("f1", "a", false)));
    assert_eq!(opened.err(), Some(FsError::Exists));
    let read_new = OpenMode { write: false, append: false, create_new: true };
    assert!(fs
        .open(read_new, "/".to_string(), Some(QuarkFile::root_at(0)), Some(node("f1", "a", false)))
        .is_ok());
}

#[test]
fn a_read_only_file_system_forbids_writing() {
    let mut fs = QuarkDriveFileSystem::new("/", 1000, 600);
    fs.set_read_only(true);
    let dir = || Some(QuarkFile::root_at(0));
    let file = || Some(node("f1", "a", false));
    assert_eq!(fs.open(WRITE, "/".to_string(), dir(), file()).err(), Some(FsError::Forbidden));
    assert!(fs.open(READ, "/".to_string(), dir(), file()).is_ok());
    let create = OpenMode { write: true, append: false, create_new: true };
    assert_eq!(fs.open(create, "/".to_string(), dir(), file()).err(), Some(FsError::Exists));
    fs.set_read_only(false);
    assert!(fs.open(WRITE, "/".to_string(), dir(), file()).is_ok());
}

#[test]
fn a_file_without_a_link_asks_for_one() {
    assert!(matches!(handle(node("f1", "a.bin", false)).read_bytes(100, NOW), ReadStep::Refresh));
}

#[test]
fn a_link_that_expires_within_the_minute_is_renewed() {
    assert!(matches!(handle(with_url(&link(NOW + 30))).read_bytes(100, NOW), ReadStep::Refresh));
    assert!(matches!(handle(with_url(&link(NOW + 59))).read_bytes(100, NOW), ReadStep::Refresh));
    assert!(matches!(handle(with_url("no url")).read_bytes(100, NOW), ReadStep::Refresh));
    assert!(matches!(handle(with_url("")).read_bytes(100, NOW), ReadStep::Refresh));
}

#[test]
fn a_link_with_time_left_is_used_as_it_is() {
    let mut open = handle(with_url(&link(NOW + 120)));
    open.seek(SeekTarget::Start(500));
    match open.read_bytes(100, NOW) {
        ReadStep::Download { url, offset, count } => {
            assert_eq!(url, link(NOW + 120));
            assert_eq!(offset, 500);
            assert_eq!(count, 100);
        }
        _ => panic!("no download"),
    }
    assert!(matches!(open.read_bytes(100, NOW + 60), ReadStep::Download { .. }));
    assert!(matches!(open.read_bytes(100, NOW + 61), ReadStep::Refresh));
}

#[test]
fn a_file_without_an_id_has_no_content() {
    let mut file = with_url(&link(NOW + 120));
    file.fid = String::new();
    let open = handle(file);
    assert!(!open.has_content());
    assert!(matches!(open.read_bytes(100, NOW), ReadStep::NotFound));
    assert!(handle(node("f1", "a", false)).has_content());
}

#[test]
fn a_new_link_is_kept_by_the_handle() {
    let mut open = handle(with_url(&link(NOW - 5)));
    open.seek(SeekTarget::Start(7));
    match open.set_download_url(link(NOW + 3600), 64) {
        ReadStep::Download { url, offset, count } => {
            assert_eq!(url, link(NOW + 3600));
            assert_eq!(offset, 7);
            assert_eq!(count, 64);
        }
        _ => panic!("no download"),
    }
    assert_eq!(open.file.download_url, Some(link(NOW + 3600)));
    assert_eq!(open.file.fid, "f1");
    assert_eq!(open.current_pos, 7);
    assert!(matches!(open.read_bytes(64, NOW), ReadStep::Download { .. }));
}

#[test]
fn an_empty_new_link_is_no_content() {
    let mut open = handle(node("f1", "a", false));
    assert!(matches!(open.set_download_url(String::new(), 64), ReadStep::NotFound));
    assert_eq!(open.file.download_url, Some(String::new()));
}

#[test]
fn seek_moves_from_the_start_the_end_or_the_position() {
    let mut open = handle(node("f1", "a", false));
    assert_eq!(open.seek(SeekTarget::Start(10)), Some(10));
    assert_eq!(open.current_pos, 10);
    assert_eq!(open.seek(SeekTarget::Current(5)), Some(15));
    assert_eq!(open.seek(SeekTarget::Current(-15)), Some(0));
    assert_eq!(open.seek(SeekTarget::End(0)), Some(1000));
    assert_eq!(open.seek(SeekTarget::End(-1)), Some(999));
    assert_eq!(open.seek(SeekTarget::End(24)), Some(1024));
    assert_eq!(open.current_pos, 1024);
}

#[test]
fn seek_before_the_start_does_not_move() {
    let mut open = handle(node("f1", "a", false));
    open.seek(SeekTarget::Start(10));
    assert_eq!(open.seek(SeekTarget::Current(-11)), None);
    assert_eq!(open.current_pos, 10);
    assert_eq!(open.seek(SeekTarget::End(-1001)), None);
    assert_eq!(open.current_pos, 10);
    assert_eq!(open.seek(SeekTarget::Start(u64::MAX)), Some(u64::MAX));
    assert_eq!(open.seek(SeekTarget::Current(1)), None);
    assert_eq!(open.current_pos, u64::MAX);
}

#[test]
fn advance_counts_what_was_read() {
    let mut open = handle(node("f1", "a", false));
    open.advance(100);
    open.advance(0);
    open.advance(24);
    assert_eq!(open.current_pos, 124);
    open.seek(SeekTarget::Start(u64::MAX - 10));
    open.advance(10);
    assert_eq!(open.current_pos, u64::MAX);
    open.advance(1);
    assert_eq!(open.current_pos, u64::MAX);
}

#[test]
fn a_sha1_checksum_gives_its_hash() {
    assert_eq!(sha1_of("sha1:da39a3ee").as_deref(), Some("da39a3ee"));
    assert_eq!(sha1_of("SHA1:DA39").as_deref(), Some("DA39"));
    assert_eq!(sha1_of("Sha1:").as_deref(), Some(""));
    assert_eq!(sha1_of("sha1:a:b").as_deref(), Some("a:b"));
}

#[test]
fn any_other_checksum_gives_none() {
    for text in ["", "sha1", "md5:abc", "sha256:abc", ":abc", "sha1 :abc", " sha1:abc", "sha:1abc", "ſha1:abc", "sha１:abc"] {
        assert_eq!(sha1_of(text), None, "{:?}", text);
        let std = text.split_once(':').and_then(|(algo, hash)| {
            if algo.eq_ignore_ascii_case("sha1") { Some(hash.to_string()) } else { None }
        });
        assert_eq!(std, None, "{:?}", text);
    }
}
