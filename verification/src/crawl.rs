//! The crawl over the remote folder tree.
//!
//! The crawl keeps a stack of listing requests still to be made and the list
//! of files found so far that are not on disk yet. The caller takes the next
//! request, performs it, and reports what came back; the crawl decides what
//! follows from it.

use crate::canvas::{
    file_views, folder_views, Course, File, FileView, Folder, FolderView, ProcessOptions,
    ProcessOptionsView,
};
use crate::links::{course_folders_link, course_folders_link_of};
use crate::paths::{file_path, file_path_of, folder_path, folder_path_of, join, joined, stays_under};
use vstd::prelude::*;

verus! {

/// What a listing link lists.
#[derive(Clone, Copy, Debug, PartialEq, Eq, Structural)]
pub enum ListingKind {
    /// The folders directly inside a folder.
    Folders,
    /// The files directly inside a folder.
    Files,
}

/// A listing request still to be made.
#[derive(Debug, PartialEq, Eq)]
pub struct Visit {
    pub kind: ListingKind,
    pub options: ProcessOptions,
}

/// Mathematical content of a [`Visit`].
pub struct VisitView {
    pub kind: ListingKind,
    pub options: ProcessOptionsView,
}

impl View for Visit {
    type V = VisitView;

    open spec fn view(&self) -> VisitView {
        VisitView { kind: self.kind, options: self.options@ }
    }
}

/// The contents of a list of visits, element by element.
pub open spec fn visit_views(visits: Seq<Visit>) -> Seq<VisitView> {
    visits.map_values(|v: Visit| v@)
}

/// The contents of a list of texts, element by element.
pub open spec fn text_views(texts: Seq<String>) -> Seq<Seq<char>> {
    texts.map_values(|t: String| t@)
}

/// A crawl in progress.
#[derive(Debug)]
pub struct Crawl {
    /// The token that authorises every request of this crawl.
    pub canvas_token: String,
    /// Whether remote names are sanitised under Windows rules.
    pub windows: bool,
    /// Requests still to be made; the last one is made next.
    pub pending: Vec<Visit>,
    /// Files found so far whose local path did not exist when they were found.
    pub files_to_download: Vec<File>,
}

/// Mathematical content of a [`Crawl`].
pub struct CrawlView {
    pub canvas_token: Seq<char>,
    pub windows: bool,
    pub pending: Seq<VisitView>,
    pub files_to_download: Seq<FileView>,
}

impl View for Crawl {
    type V = CrawlView;

    open spec fn view(&self) -> CrawlView {
        CrawlView {
            canvas_token: self.canvas_token@,
            windows: self.windows,
            pending: visit_views(self.pending@),
            files_to_download: file_views(self.files_to_download@),
        }
    }
}

/// The request for the root folder of `course`, whose directory is named by
/// the course code and lies in `destination`.
pub open spec fn course_visit(
    token: Seq<char>,
    courses_link: Seq<char>,
    destination: Seq<char>,
    course_id: u32,
    course_code: Seq<char>,
) -> VisitView {
    VisitView {
        kind: ListingKind::Folders,
        options: ProcessOptionsView {
            canvas_token: token,
            link: course_folders_link_of(courses_link, course_id),
            parent_folder_path: joined(destination, course_code),
        },
    }
}

/// The two requests that a listed folder gives rise to, in stack order: its
/// files are listed first, then the folders inside it. Both belong under the
/// folder's own directory.
pub open spec fn folder_visits(
    token: Seq<char>,
    parent: Seq<char>,
    windows: bool,
    folder: FolderView,
) -> Seq<VisitView> {
    let directory = folder_path_of(parent, folder, windows);
    seq![
        VisitView {
            kind: ListingKind::Folders,
            options: ProcessOptionsView {
                canvas_token: token,
                link: folder.folders_url,
                parent_folder_path: directory,
            },
        },
        VisitView {
            kind: ListingKind::Files,
            options: ProcessOptionsView {
                canvas_token: token,
                link: folder.files_url,
                parent_folder_path: directory,
            },
        },
    ]
}

/// The requests that a folder listing gives rise to, in stack order: the
/// requests of the first listed folder are on top, so folders are visited in
/// the order in which they were listed, each with everything below it before
/// the next.
pub open spec fn listing_visits(
    token: Seq<char>,
    parent: Seq<char>,
    windows: bool,
    folders: Seq<FolderView>,
) -> Seq<VisitView>
    decreases folders.len(),
{
    if folders.len() == 0 {
        Seq::empty()
    } else {
        listing_visits(token, parent, windows, folders.drop_first()) + folder_visits(
            token,
            parent,
            windows,
            folders.first(),
        )
    }
}

/// The local directories of the listed folders, in listing order.
pub open spec fn folder_paths(parent: Seq<char>, windows: bool, folders: Seq<FolderView>) -> Seq<
    Seq<char>,
> {
    Seq::new(folders.len(), |i: int| folder_path_of(parent, folders[i], windows))
}

/// `file` with its local path set to its place in the directory `parent`.
pub open spec fn placed_file(parent: Seq<char>, windows: bool, file: FileView) -> FileView {
    FileView { filepath: file_path_of(parent, file.filename, windows), ..file }
}

/// The listed files, each with its local path in the directory `parent`.
pub open spec fn placed_files(parent: Seq<char>, windows: bool, files: Seq<FileView>) -> Seq<
    FileView,
> {
    Seq::new(files.len(), |i: int| placed_file(parent, windows, files[i]))
}

/// The files of a batch that are not on disk, in batch order: file `i` is
/// kept exactly when `exists[i]` is false.
pub open spec fn missing(files: Seq<FileView>, exists: Seq<bool>) -> Seq<FileView>
    decreases files.len(),
{
    if files.len() == 0 {
        Seq::empty()
    } else {
        let earlier = missing(files.drop_last(), exists.drop_last());
        if exists.last() {
            earlier
        } else {
            earlier.push(files.last())
        }
    }
}

/// The crawl after the request `options` listed `folders`: the requests for
/// the listed folders are on top of the stack, nothing else has changed.
pub open spec fn with_folders(
    crawl: CrawlView,
    options: ProcessOptionsView,
    folders: Seq<FolderView>,
) -> CrawlView {
    CrawlView {
        pending: crawl.pending + listing_visits(
            options.canvas_token,
            options.parent_folder_path,
            crawl.windows,
            folders,
        ),
        ..crawl
    }
}

/// The crawl after a batch of placed files was checked against the disk: the
/// files that are not there follow the files found before, nothing else has
/// changed.
pub open spec fn with_files(crawl: CrawlView, placed: Seq<FileView>, exists: Seq<bool>) -> CrawlView {
    CrawlView { files_to_download: crawl.files_to_download + missing(placed, exists), ..crawl }
}

/// How many entries of `exists` are false.
pub open spec fn absent_count(exists: Seq<bool>) -> nat
    decreases exists.len(),
{
    if exists.len() == 0 {
        0
    } else {
        absent_count(exists.drop_last()) + if exists.last() {
            0nat
        } else {
            1nat
        }
    }
}

/// The kept files are as many as the files that are not on disk.
pub proof fn lemma_missing_len(files: Seq<FileView>, exists: Seq<bool>)
    requires
        files.len() == exists.len(),
    ensures
        missing(files, exists).len() == absent_count(exists),
    decreases files.len(),
{
    if files.len() > 0 {
        lemma_missing_len(files.drop_last(), exists.drop_last());
    }
}

/// The count of absent files never decreases along the batch, and it grows
/// across every absent file.
pub proof fn lemma_absent_count_grows(exists: Seq<bool>, i: int, j: int)
    requires
        0 <= i <= j <= exists.len(),
    ensures
        absent_count(exists.take(i)) <= absent_count(exists.take(j)),
        i < j && !exists[i] ==> absent_count(exists.take(i)) < absent_count(exists.take(j)),
    decreases j - i,
{
    if i < j {
        assert(exists.take(j).drop_last() =~= exists.take(j - 1));
        lemma_absent_count_grows(exists, i, j - 1);
    }
}

/// No omission and no duplicate: a file of the batch that is not on disk is
/// kept at the position given by the number of absent files before it, and
/// two such files are kept at different positions.
pub proof fn lemma_missing_keeps_each_once(files: Seq<FileView>, exists: Seq<bool>, i: int)
    requires
        files.len() == exists.len(),
        0 <= i < files.len(),
        !exists[i],
    ensures
        absent_count(exists.take(i)) < missing(files, exists).len(),
        missing(files, exists)[absent_count(exists.take(i)) as int] == files[i],
        forall|j: int|
            0 <= j < files.len() && j != i && !exists[j] ==> #[trigger] absent_count(
                exists.take(j),
            ) != absent_count(exists.take(i)),
    decreases files.len(),
{
    let last = files.len() - 1;
    lemma_missing_len(files, exists);
    lemma_missing_len(files.drop_last(), exists.drop_last());
    if i < last {
        lemma_missing_keeps_each_once(files.drop_last(), exists.drop_last(), i);
        assert(exists.drop_last().take(i) =~= exists.take(i));
    }
    assert forall|j: int| 0 <= j < files.len() && j != i && !exists[j] implies #[trigger] absent_count(
        exists.take(j),
    ) != absent_count(exists.take(i)) by {
        if j < i {
            lemma_absent_count_grows(exists, j, i);
        } else {
            lemma_absent_count_grows(exists, i, j);
        }
    }
}

/// Nothing but absent files is kept: every kept file is a file of the batch
/// that is not on disk.
pub proof fn lemma_missing_keeps_only_absent(files: Seq<FileView>, exists: Seq<bool>, at: int)
    requires
        files.len() == exists.len(),
        0 <= at < missing(files, exists).len(),
    ensures
        exists|i: int|
            0 <= i < files.len() && !exists[i] && #[trigger] files[i] == missing(files, exists)[at],
    decreases files.len(),
{
    let last = files.len() - 1;
    let earlier = missing(files.drop_last(), exists.drop_last());
    if at < earlier.len() {
        lemma_missing_keeps_only_absent(files.drop_last(), exists.drop_last(), at);
        let i = choose|i: int|
            0 <= i < files.drop_last().len() && !exists.drop_last()[i] && #[trigger] files.drop_last()[i]
                == earlier[at];
        assert(files[i] == missing(files, exists)[at]);
    } else {
        assert(files[last] == missing(files, exists)[at]);
    }
}

/// A batch that is on disk already leaves nothing to download.
pub proof fn lemma_nothing_missing_when_mirrored(files: Seq<FileView>, exists: Seq<bool>)
    requires
        files.len() == exists.len(),
        forall|i: int| 0 <= i < exists.len() ==> exists[i],
    ensures
        missing(files, exists) == Seq::<FileView>::empty(),
    decreases files.len(),
{
    if files.len() > 0 {
        lemma_nothing_missing_when_mirrored(files.drop_last(), exists.drop_last());
    }
}

impl Crawl {
    /// A crawl with nothing to visit and nothing found.
    pub fn new(canvas_token: String, windows: bool) -> (crawl: Crawl)
        ensures
            crawl@ == (CrawlView {
                canvas_token: canvas_token@,
                windows,
                pending: Seq::empty(),
                files_to_download: Seq::empty(),
            }),
    {
        let crawl = Crawl {
            canvas_token,
            windows,
            pending: Vec::new(),
            files_to_download: Vec::new(),
        };
        assert(crawl@.pending =~= Seq::empty());
        assert(crawl@.files_to_download =~= Seq::empty());
        crawl
    }

    /// Queues the root folder of `course` and returns the directory of the
    /// course, which the caller creates before it goes on.
    pub fn add_course(&mut self, courses_link: &str, destination: &str, course: &Course) -> (directory:
        String)
        ensures
            directory@ == joined(destination@, course@.course_code),
            final(self)@ == (CrawlView {
                pending: old(self)@.pending.push(
                    course_visit(
                        old(self)@.canvas_token,
                        courses_link@,
                        destination@,
                        course@.id,
                        course@.course_code,
                    ),
                ),
                ..old(self)@
            }),
    {
        let directory = join(destination, course.course_code.as_str());
        let visit = Visit {
            kind: ListingKind::Folders,
            options: ProcessOptions {
                canvas_token: self.canvas_token.clone(),
                link: course_folders_link(courses_link, course.id),
                parent_folder_path: directory.clone(),
            },
        };
        self.pending.push(visit);
        assert(self@.pending =~= old(self)@.pending.push(visit@));
        directory
    }

    /// Whether no request is left to make.
    pub fn is_done(&self) -> (done: bool)
        ensures
            done == (self@.pending.len() == 0),
    {
        self.pending.len() == 0
    }

    /// Takes the request to make next, if one is left.
    pub fn next_visit(&mut self) -> (visit: Option<Visit>)
        ensures
            match visit {
                Some(v) => old(self)@.pending.len() > 0 && v@ == old(self)@.pending.last()
                    && final(self)@ == (CrawlView {
                    pending: old(self)@.pending.drop_last(),
                    ..old(self)@
                }),
                None => old(self)@.pending.len() == 0 && final(self)@ == old(self)@,
            },
    {
        let visit = self.pending.pop();
        assert(self@.pending =~= if old(self)@.pending.len() > 0 {
            old(self)@.pending.drop_last()
        } else {
            old(self)@.pending
        });
        visit
    }

    /// Takes in the folders that the request `options` listed. Every folder
    /// gets its local directory under `options.parent_folder_path` (the root
    /// folder of a course gets that directory itself), and two requests are
    /// queued for it: one for its files and one for the folders inside it.
    /// Returns the directories, in listing order, for the caller to create.
    pub fn process_folders(&mut self, options: &ProcessOptions, folders: &Vec<Folder>) -> (directories:
        Vec<String>)
        ensures
            text_views(directories@) == folder_paths(
                options@.parent_folder_path,
                old(self)@.windows,
                folder_views(folders@),
            ),
            forall|i: int|
                0 <= i < folders@.len() && folders@[i]@.parent_folder_id is Some ==> stays_under(
                    #[trigger] directories@[i]@,
                    options@.parent_folder_path,
                ),
            final(self)@ == with_folders(old(self)@, options@, folder_views(folders@)),
    {
        let ghost token = options@.canvas_token;
        let ghost parent = options@.parent_folder_path;
        let ghost windows = self.windows;
        let ghost listed = folder_views(folders@);
        let mut directories: Vec<String> = Vec::new();
        let mut i: usize = 0;
        while i < folders.len()
            invariant
                i <= folders.len(),
                directories@.len() == i,
                windows == self.windows,
                parent == options@.parent_folder_path,
                listed == folder_views(folders@),
                *self == *old(self),
                forall|k: int|
                    0 <= k < i ==> (#[trigger] directories@[k])@ == folder_path_of(
                        parent,
                        listed[k],
                        windows,
                    ),
                forall|k: int|
                    0 <= k < i && listed[k].parent_folder_id is Some ==> stays_under(
                        (#[trigger] directories@[k])@,
                        parent,
                    ),
            decreases folders.len() - i,
        {
            let directory = folder_path(
                options.parent_folder_path.as_str(),
                &folders[i],
                self.windows,
            );
            directories.push(directory);
            i = i + 1;
        }
        let mut j: usize = folders.len();
        while j > 0
            invariant
                j <= folders.len(),
                directories@.len() == folders.len(),
                token == options@.canvas_token,
                parent == options@.parent_folder_path,
                windows == self.windows,
                listed == folder_views(folders@),
                forall|k: int|
                    0 <= k < folders.len() ==> (#[trigger] directories@[k])@ == folder_path_of(
                        parent,
                        listed[k],
                        windows,
                    ),
                self@ == (CrawlView {
                    pending: old(self)@.pending + listing_visits(
                        token,
                        parent,
                        windows,
                        listed.skip(j as int),
                    ),
                    ..old(self)@
                }),
            decreases j,
        {
            j = j - 1;
            let ghost before = self@.pending;
            let folder = &folders[j];
            let below = Visit {
                kind: ListingKind::Folders,
                options: ProcessOptions {
                    canvas_token: options.canvas_token.clone(),
                    link: folder.folders_url.clone(),
                    parent_folder_path: directories[j].clone(),
                },
            };
            let inside = Visit {
                kind: ListingKind::Files,
                options: ProcessOptions {
                    canvas_token: options.canvas_token.clone(),
                    link: folder.files_url.clone(),
                    parent_folder_path: directories[j].clone(),
                },
            };
            self.pending.push(below);
            self.pending.push(inside);
            proof {
                let rest = listed.skip(j as int);
                assert(rest.drop_first() =~= listed.skip(j as int + 1));
                assert(self@.pending =~= before + seq![below@, inside@]);
                assert(self@.pending =~= old(self)@.pending + listing_visits(
                    token,
                    parent,
                    windows,
                    rest,
                ));
            }
        }
        assert(listed.skip(0) =~= listed);
        directories
    }

    /// Gives every file that the request `options` listed its local path:
    /// the sanitised file name in `options.parent_folder_path`. Nothing else
    /// about a file changes, and no path leaves that directory.
    pub fn place_files(&self, options: &ProcessOptions, files: Vec<File>) -> (placed: Vec<File>)
        ensures
            file_views(placed@) == placed_files(
                options@.parent_folder_path,
                self@.windows,
                file_views(files@),
            ),
            forall|i: int|
                0 <= i < placed@.len() ==> stays_under(
                    (#[trigger] placed@[i])@.filepath,
                    options@.parent_folder_path,
                ),
    {
        let ghost parent = options@.parent_folder_path;
        let ghost listed = file_views(files@);
        let mut placed: Vec<File> = Vec::new();
        for file in it: files
            invariant
                it.seq() == files@,
                placed@.len() == it.index(),
                parent == options@.parent_folder_path,
                listed == file_views(files@),
                forall|k: int|
                    0 <= k < placed@.len() ==> (#[trigger] placed@[k])@ == placed_file(
                        parent,
                        self.windows,
                        listed[k],
                    ),
                forall|k: int|
                    0 <= k < placed@.len() ==> stays_under(
                        (#[trigger] placed@[k])@.filepath,
                        parent,
                    ),
        {
            let filepath = file_path(
                options.parent_folder_path.as_str(),
                file.filename.as_str(),
                self.windows,
            );
            placed.push(
                File {
                    id: file.id,
                    folder_id: file.folder_id,
                    filename: file.filename,
                    size: file.size,
                    url: file.url,
                    filepath,
                },
            );
        }
        placed
    }

    /// Takes in a batch of placed files together with the outcome of the
    /// existence check of each local path: the files that are not on disk are
    /// appended to the files to download, in batch order; the others are
    /// dropped. Nothing is appended for a batch that is on disk already.
    pub fn process_files(&mut self, files: Vec<File>, exists: &Vec<bool>)
        requires
            exists@.len() == files@.len(),
        ensures
            final(self)@ == with_files(old(self)@, file_views(files@), exists@),
    {
        let ghost batch = file_views(files@);
        let mut i: usize = 0;
        for file in it: files
            invariant
                i == it.index(),
                it.seq() == files@,
                exists@.len() == files@.len(),
                batch == file_views(files@),
                self@ == (CrawlView {
                    files_to_download: old(self)@.files_to_download + missing(
                        batch.take(i as int),
                        exists@.take(i as int),
                    ),
                    ..old(self)@
                }),
        {
            proof {
                assert(batch.take(i as int + 1).drop_last() =~= batch.take(i as int));
                assert(exists@.take(i as int + 1).drop_last() =~= exists@.take(i as int));
            }
            let ghost before = self@.files_to_download;
            assert(i < exists.len());
            if !exists[i] {
                self.files_to_download.push(file);
                assert(self@.files_to_download =~= before.push(file@));
            }
            i = i + 1;
        }
        assert(batch.take(i as int) =~= batch);
        assert(exists@.take(i as int) =~= exists@);
    }

    /// Ends the crawl. The files to download are handed out only once no
    /// request is left; until then the crawl is handed back unchanged.
    pub fn finish(self) -> (outcome: Result<Vec<File>, Crawl>)
        ensures
            match outcome {
                Ok(files) => self@.pending.len() == 0 && file_views(files@)
                    == self@.files_to_download,
                Err(crawl) => self@.pending.len() > 0 && crawl == self,
            },
    {
        if self.pending.len() == 0 {
            Ok(self.files_to_download)
        } else {
            Err(self)
        }
    }
}

} // verus!
