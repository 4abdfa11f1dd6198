use std::collections::{HashMap, HashSet};

use canvas_mirror::canvas::{listed_courses, Course, File, Folder, ProcessOptions};
use canvas_mirror::crawl::{Crawl, ListingKind, Visit};
use canvas_mirror::download::{probe, Probe, Progress, Tally, Worker};
use canvas_mirror::links::courses_link;
use canvas_mirror::report::listing_failure;
use canvas_mirror::schedule::{partition, WorkSlice};

fn folder(id: u32, name: &str, parent_folder_id: Option<u32>) -> Folder {
    Folder {
        id,
        name: name.to_string(),
        folders_url: format!("https://canvas.test/api/v1/folders/{}/folders", id),
        files_url: format!("https://canvas.test/api/v1/folders/{}/files", id),
        for_submissions: false,
        can_upload: false,
        parent_folder_id,
    }
}

fn file(id: u32, folder_id: u32, filename: &str, size: u64) -> File {
    File {
        id,
        folder_id,
        filename: filename.to_string(),
        size,
        url: format!("https://canvas.test/files/{}/download", id),
        filepath: String::new(),
    }
}

fn options(link: &str, parent: &str) -> ProcessOptions {
    ProcessOptions {
        canvas_token: "token".to_string(),
        link: link.to_string(),
        parent_folder_path: parent.to_string(),
    }
}

fn visit(kind: ListingKind, link: &str, parent: &str) -> Visit {
    Visit { kind, options: options(link, parent) }
}

/// What a pretended account answers; a link without an entry answers with
/// something that cannot be decoded.
struct Account {
    folders: HashMap<String, Vec<Folder>>,
    files: HashMap<String, Vec<File>>,
}

fn copy_folder(f: &Folder) -> Folder {
    folder(f.id, &f.name, f.parent_folder_id)
}

/// Drives a crawl to its end the way a caller does; returns the directories
/// to create and the failure reports, in order.
fn drive(crawl: &mut Crawl, account: &Account, disk: &HashSet<String>) -> (Vec<String>, Vec<String>) {
    let mut directories = Vec::new();
    let mut reports = Vec::new();
    while let Some(visit) = crawl.next_visit() {
        match visit.kind {
            ListingKind::Folders => match account.folders.get(&visit.options.link) {
                Some(listing) => {
                    let listing: Vec<Folder> = listing.iter().map(copy_folder).collect();
                    directories.extend(crawl.process_folders(&visit.options, &listing));
                }
                None => reports.push(listing_failure(visit.kind, &visit.options, "no JSON")),
            },
            ListingKind::Files => match account.files.get(&visit.options.link) {
                Some(listing) => {
                    let listing: Vec<File> = listing.iter().map(|f| f.clone()).collect();
                    let placed = crawl.place_files(&visit.options, listing);
                    let exists: Vec<bool> =
                        placed.iter().map(|f| disk.contains(&f.filepath)).collect();
                    crawl.process_files(placed, &exists);
                }
                None => reports.push(listing_failure(visit.kind, &visit.options, "no JSON")),
            },
        }
    }
    (directories, reports)
}

fn small_account() -> Account {
    let root_link = "https://canvas.test/api/v1/courses/1/folders/by_path/".to_string();
    let mut folders = HashMap::new();
    let mut files = HashMap::new();
    folders.insert(root_link, vec![folder(10, "course files", None)]);
    files.insert(folder(10, "", None).files_url, vec![file(1, 10, "syllabus.pdf", 10)]);
    folders.insert(
        folder(10, "", None).folders_url,
        vec![folder(11, "week 1", Some(10)), folder(12, "week/2", Some(10))],
    );
    files.insert(
        folder(11, "", None).files_url,
        vec![file(2, 11, "slides.pdf", 20), file(3, 11, "notes?.txt", 30)],
    );
    folders.insert(folder(11, "", None).folders_url, vec![folder(13, "extra", Some(11))]);
    files.insert(folder(13, "", None).files_url, vec![file(4, 13, "..", 1), file(5, 13, "e.bin", 2)]);
    folders.insert(folder(13, "", None).folders_url, vec![]);
    files.insert(folder(12, "", None).files_url, vec![file(6, 12, "b.pdf", 40)]);
    folders.insert(folder(12, "", None).folders_url, vec![]);
    Account { folders, files }
}

fn start(crawl: &mut Crawl) -> String {
    let course = Course { id: 1, name: "Intro".to_string(), course_code: "CS101".to_string() };
    crawl.add_course(&courses_link("https://canvas.test"), ".", &course)
}

#[test]
fn new_crawl_is_empty() {
    let crawl = Crawl::new("token".to_string(), false);
    assert!(crawl.is_done());
    assert_eq!(crawl.canvas_token, "token");
    assert!(!crawl.windows);
    assert!(crawl.pending.is_empty());
    assert!(crawl.files_to_download.is_empty());
}

#[test]
fn add_course_queues_the_root_folder() {
    let mut crawl = Crawl::new("token".to_string(), false);
    let directory = start(&mut crawl);
    assert_eq!(directory, "./CS101");
    assert!(!crawl.is_done());
    assert_eq!(
        crawl.pending,
        vec![visit(
            ListingKind::Folders,
            "https://canvas.test/api/v1/courses/1/folders/by_path/",
            "./CS101"
        )]
    );
    assert!(crawl.files_to_download.is_empty());
}

#[test]
fn next_visit_takes_the_last_request() {
    let mut crawl = Crawl::new("token".to_string(), false);
    assert_eq!(crawl.next_visit(), None);
    crawl.pending.push(visit(ListingKind::Folders, "a", "x"));
    crawl.pending.push(visit(ListingKind::Files, "b", "y"));
    assert_eq!(crawl.next_visit(), Some(visit(ListingKind::Files, "b", "y")));
    assert_eq!(crawl.next_visit(), Some(visit(ListingKind::Folders, "a", "x")));
    assert_eq!(crawl.next_visit(), None);
    assert!(crawl.is_done());
}

#[test]
fn process_folders_queues_files_then_folders_in_listing_order() {
    let mut crawl = Crawl::new("token".to_string(), false);
    crawl.pending.push(visit(ListingKind::Files, "kept", "below"));
    let listing = vec![folder(11, "week 1", Some(10)), folder(12, "week/2", Some(10))];
    let directories = crawl.process_folders(&options("link", "./CS101"), &listing);
    assert_eq!(directories, vec!["./CS101/week 1".to_string(), "./CS101/week2".to_string()]);
    assert_eq!(
        crawl.pending,
        vec![
            visit(ListingKind::Files, "kept", "below"),
            visit(ListingKind::Folders, &listing[1].folders_url, "./CS101/week2"),
            visit(ListingKind::Files, &listing[1].files_url, "./CS101/week2"),
            visit(ListingKind::Folders, &listing[0].folders_url, "./CS101/week 1"),
            visit(ListingKind::Files, &listing[0].files_url, "./CS101/week 1"),
        ]
    );
    assert!(crawl.files_to_download.is_empty());
}

#[test]
fn process_folders_keeps_the_root_folder_in_the_course_directory() {
    let mut crawl = Crawl::new("token".to_string(), false);
    let listing = vec![folder(10, "course files", None)];
    let directories = crawl.process_folders(&options("link", "./CS101"), &listing);
    assert_eq!(directories, vec!["./CS101".to_string()]);
    assert_eq!(
        crawl.pending,
        vec![
            visit(ListingKind::Folders, &listing[0].folders_url, "./CS101"),
            visit(ListingKind::Files, &listing[0].files_url, "./CS101"),
        ]
    );
}

#[test]
fn empty_folder_listing_changes_nothing() {
    let mut crawl = Crawl::new("token".to_string(), false);
    crawl.pending.push(visit(ListingKind::Files, "kept", "below"));
    let directories = crawl.process_folders(&options("link", "./CS101"), &Vec::new());
    assert!(directories.is_empty());
    assert_eq!(crawl.pending, vec![visit(ListingKind::Files, "kept", "below")]);
}

#[test]
fn place_files_sets_only_the_local_path() {
    let crawl = Crawl::new("token".to_string(), false);
    let listing = vec![file(2, 11, "slides.pdf", 20), file(3, 11, "no/tes?.txt", 30)];
    let placed = crawl.place_files(&options("link", "./CS101/week 1"), listing);
    let mut first = file(2, 11, "slides.pdf", 20);
    first.filepath = "./CS101/week 1/slides.pdf".to_string();
    let mut second = file(3, 11, "no/tes?.txt", 30);
    second.filepath = "./CS101/week 1/notes.txt".to_string();
    assert_eq!(placed, vec![first, second]);
}

#[test]
fn place_files_follows_the_platform_of_the_crawl() {
    let listing = || vec![file(1, 1, "aux.txt", 1)];
    let general = Crawl::new("token".to_string(), false);
    assert_eq!(general.place_files(&options("l", "d"), listing())[0].filepath, "d/aux.txt");
    let windows = Crawl::new("token".to_string(), true);
    assert_eq!(windows.place_files(&options("l", "d"), listing())[0].filepath, "d/");
}

#[test]
fn process_files_keeps_what_is_not_on_disk() {
    let mut crawl = Crawl::new("token".to_string(), false);
    crawl.pending.push(visit(ListingKind::Folders, "kept", "below"));
    crawl.files_to_download.push(file(9, 9, "earlier", 9));
    let batch = vec![file(1, 1, "a", 1), file(2, 1, "b", 2), file(3, 1, "c", 3), file(4, 1, "d", 4)];
    crawl.process_files(batch, &vec![false, true, true, false]);
    assert_eq!(
        crawl.files_to_download,
        vec![file(9, 9, "earlier", 9), file(1, 1, "a", 1), file(4, 1, "d", 4)]
    );
    assert_eq!(crawl.pending, vec![visit(ListingKind::Folders, "kept", "below")]);
}

#[test]
fn process_files_keeps_duplicates_of_the_listing_apart() {
    let mut crawl = Crawl::new("token".to_string(), false);
    let batch = vec![file(1, 1, "a", 1), file(1, 1, "a", 1)];
    crawl.process_files(batch, &vec![false, false]);
    assert_eq!(crawl.files_to_download, vec![file(1, 1, "a", 1), file(1, 1, "a", 1)]);
}

#[test]
fn process_files_drops_a_batch_that_is_on_disk() {
    let mut crawl = Crawl::new("token".to_string(), false);
    crawl.process_files(vec![file(1, 1, "a", 1), file(2, 1, "b", 2)], &vec![true, true]);
    assert!(crawl.files_to_download.is_empty());
    crawl.process_files(Vec::new(), &Vec::new());
    assert!(crawl.files_to_download.is_empty());
}

#[test]
fn finish_waits_for_the_last_request() {
    let mut crawl = Crawl::new("token".to_string(), false);
    crawl.files_to_download.push(file(1, 1, "a", 1));
    crawl.pending.push(visit(ListingKind::Folders, "l", "p"));
    let crawl = match crawl.finish() {
        Ok(_) => panic!("a request is still pending"),
        Err(crawl) => crawl,
    };
    assert_eq!(crawl.pending, vec![visit(ListingKind::Folders, "l", "p")]);
    assert_eq!(crawl.files_to_download, vec![file(1, 1, "a", 1)]);
    let mut crawl = crawl;
    assert!(crawl.next_visit().is_some());
    match crawl.finish() {
        Ok(files) => assert_eq!(files, vec![file(1, 1, "a", 1)]),
        Err(_) => panic!("nothing is pending"),
    }
}

#[test]
fn listed_courses_pass_over_empty_entries() {
    let course = |id: u32, code: &str| Course {
        id,
        name: format!("course {}", id),
        course_code: code.to_string(),
    };
    let entries = vec![None, Some(course(1, "CS101")), None, None, Some(course(2, "MA201"))];
    assert_eq!(listed_courses(entries), vec![course(1, "CS101"), course(2, "MA201")]);
    assert_eq!(listed_courses(vec![None, None]), Vec::new());
    assert_eq!(listed_courses(Vec::new()), Vec::new());
}

#[test]
fn crawl_finds_every_missing_file_once() {
    let account = small_account();
    let disk: HashSet<String> = ["./CS101/week 1/slides.pdf".to_string()].into_iter().collect();
    let mut crawl = Crawl::new("token".to_string(), false);
    assert_eq!(start(&mut crawl), "./CS101");
    let (directories, reports) = drive(&mut crawl, &account, &disk);
    assert!(reports.is_empty());
    assert_eq!(
        directories,
        vec!["./CS101", "./CS101/week 1", "./CS101/week2", "./CS101/week 1/extra"]
    );
    let files = match crawl.finish() {
        Ok(files) => files,
        Err(_) => panic!("nothing is pending"),
    };
    let found: Vec<(u32, &str)> = files.iter().map(|f| (f.id, f.filepath.as_str())).collect();
    assert_eq!(
        found,
        vec![
            (1, "./CS101/syllabus.pdf"),
            (3, "./CS101/week 1/notes.txt"),
            (4, "./CS101/week 1/extra/"),
            (5, "./CS101/week 1/extra/e.bin"),
            (6, "./CS101/week2/b.pdf"),
        ]
    );
}

#[test]
fn second_crawl_of_a_mirrored_tree_finds_nothing() {
    let account = small_account();
    let mut disk = HashSet::new();
    let mut crawl = Crawl::new("token".to_string(), false);
    start(&mut crawl);
    drive(&mut crawl, &account, &disk);
    let files = crawl.finish().ok().unwrap();
    assert_eq!(files.len(), 6);
    for file in &files {
        disk.insert(file.filepath.clone());
    }
    let mut again = Crawl::new("token".to_string(), false);
    start(&mut again);
    let (directories, reports) = drive(&mut again, &account, &disk);
    assert_eq!(directories.len(), 4);
    assert!(reports.is_empty());
    assert_eq!(again.finish().ok().unwrap(), Vec::new());
}

#[test]
fn undecodable_folder_listing_is_reported_and_siblings_go_on() {
    let mut account = small_account();
    account.folders.remove(&folder(11, "", None).folders_url);
    let mut crawl = Crawl::new("token".to_string(), false);
    start(&mut crawl);
    let (directories, reports) = drive(&mut crawl, &account, &HashSet::new());
    assert_eq!(
        reports,
        vec![
            "Failed to deserialize folders at link:https://canvas.test/api/v1/folders/11/folders, \
             path:./CS101/week 1\nno JSON"
                .to_string()
        ]
    );
    assert_eq!(directories, vec!["./CS101", "./CS101/week 1", "./CS101/week2"]);
    let files = crawl.finish().ok().unwrap();
    let found: Vec<u32> = files.iter().map(|f| f.id).collect();
    assert_eq!(found, vec![1, 2, 3, 6]);
}

#[test]
fn undecodable_file_listing_is_reported_and_siblings_go_on() {
    let mut account = small_account();
    account.files.remove(&folder(11, "", None).files_url);
    let mut crawl = Crawl::new("token".to_string(), false);
    start(&mut crawl);
    let (_, reports) = drive(&mut crawl, &account, &HashSet::new());
    assert_eq!(
        reports,
        vec![
            "Failed to deserialize files at link:https://canvas.test/api/v1/folders/11/files, \
             path:./CS101/week 1\nno JSON"
                .to_string()
        ]
    );
    let found: Vec<u32> = crawl.finish().ok().unwrap().iter().map(|f| f.id).collect();
    assert_eq!(found, vec![1, 4, 5, 6]);
}

#[test]
fn one_course_one_file_is_mirrored() {
    let root_link = "https://canvas.test/api/v1/courses/1/folders/by_path/".to_string();
    let root = folder(10, "course files", None);
    let mut account = Account { folders: HashMap::new(), files: HashMap::new() };
    account.folders.insert(root_link, vec![copy_folder(&root)]);
    account.files.insert(root.files_url.clone(), vec![file(1, 10, "a.pdf", 100)]);
    account.folders.insert(root.folders_url.clone(), Vec::new());

    let course = Course { id: 1, name: "Intro".to_string(), course_code: "CS101".to_string() };
    let mut crawl = Crawl::new("token".to_string(), false);
    let course_directory = crawl.add_course(&courses_link("https://canvas.test"), "", &course);
    assert_eq!(course_directory, "/CS101");
    let mut crawl = Crawl::new("token".to_string(), false);
    let course_directory = crawl.add_course(&courses_link("https://canvas.test"), ".", &course);
    assert_eq!(course_directory, "./CS101");
    let (directories, reports) = drive(&mut crawl, &account, &HashSet::new());
    assert_eq!(directories, vec!["./CS101"]);
    assert!(reports.is_empty());
    let files = crawl.finish().ok().unwrap();
    assert_eq!(files.len(), 1);
    assert_eq!(files[0].filename, "a.pdf");
    assert_eq!(files[0].filepath, "./CS101/a.pdf");
    assert_eq!(files[0].size, 100);

    let slices = partition(files.len(), 1);
    assert_eq!(slices, vec![WorkSlice { start: 0, end: 1 }]);
    let mut worker = Worker::new(slices[0]).unwrap();
    let mut written: Vec<u8> = Vec::new();
    while let Some(index) = worker.current() {
        match probe(true, Some("100")) {
            Probe::Skip => worker.skip(),
            Probe::Fetch { expected } => {
                let mut progress = Progress::for_file(&files[index], expected);
                assert_eq!(progress.total, 100);
                assert_eq!(progress.message, "Downloading a.pdf to ./CS101/a.pdf");
                for chunk in [vec![0u8; 60], vec![1u8; 40]] {
                    progress.inc(chunk.len());
                    written.extend(chunk);
                }
                progress.finish();
                assert_eq!(progress.position, 100);
                assert_eq!(progress.position, progress.total);
                assert!(progress.finished);
                worker.complete();
            }
        }
    }
    assert_eq!(written.len(), 100);
    assert_eq!(worker.tally(), Tally { downloaded: 1, skipped: 0 });
}
