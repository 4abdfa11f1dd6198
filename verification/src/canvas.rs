//! The records exchanged with a Canvas account and the plain values the
//! mirror keeps about them.

use vstd::prelude::*;

verus! {

/// Address and access token of a Canvas account.
#[derive(Debug, PartialEq, Eq)]
pub struct Credentials {
    pub canvas_url: String,
    pub canvas_token: String,
}

/// Mathematical content of [`Credentials`].
pub struct CredentialsView {
    pub canvas_url: Seq<char>,
    pub canvas_token: Seq<char>,
}

impl View for Credentials {
    type V = CredentialsView;

    open spec fn view(&self) -> CredentialsView {
        CredentialsView { canvas_url: self.canvas_url@, canvas_token: self.canvas_token@ }
    }
}

impl Clone for Credentials {
    fn clone(&self) -> (copy: Self)
        ensures
            copy@ == self@,
    {
        Credentials {
            canvas_url: self.canvas_url.clone(),
            canvas_token: self.canvas_token.clone(),
        }
    }
}

/// A course of the account; it seeds the crawl with its root folder link and
/// names the local directory of the course.
#[derive(Debug, PartialEq, Eq)]
pub struct Course {
    pub id: u32,
    pub name: String,
    pub course_code: String,
}

/// Mathematical content of a [`Course`].
pub struct CourseView {
    pub id: u32,
    pub name: Seq<char>,
    pub course_code: Seq<char>,
}

impl View for Course {
    type V = CourseView;

    open spec fn view(&self) -> CourseView {
        CourseView { id: self.id, name: self.name@, course_code: self.course_code@ }
    }
}

/// The contents of a list of courses, element by element.
pub open spec fn course_views(courses: Seq<Course>) -> Seq<CourseView> {
    courses.map_values(|c: Course| c@)
}

/// The contents of the entries of a course listing, element by element.
pub open spec fn entry_views(entries: Seq<Option<Course>>) -> Seq<Option<CourseView>> {
    entries.map_values(
        |e: Option<Course>|
            match e {
                Some(course) => Some(course@),
                None => None,
            },
    )
}

/// The courses among the entries of a course listing, in listing order. An
/// entry that holds no course is passed over.
pub open spec fn present_courses(entries: Seq<Option<CourseView>>) -> Seq<CourseView>
    decreases entries.len(),
{
    if entries.len() == 0 {
        Seq::empty()
    } else {
        let earlier = present_courses(entries.drop_last());
        match entries.last() {
            Some(course) => earlier.push(course),
            None => earlier,
        }
    }
}

/// Picks the courses out of the entries of a course listing, in listing
/// order. An entry that holds no course is passed over.
pub fn listed_courses(entries: Vec<Option<Course>>) -> (courses: Vec<Course>)
    ensures
        course_views(courses@) == present_courses(entry_views(entries@)),
{
    let ghost listed = entry_views(entries@);
    let mut courses: Vec<Course> = Vec::new();
    for entry in it: entries
        invariant
            it.seq() == entries@,
            listed == entry_views(entries@),
            course_views(courses@) == present_courses(listed.take(it.index())),
    {
        proof {
            assert(listed.take(it.index() + 1).drop_last() =~= listed.take(it.index()));
        }
        match entry {
            Some(course) => {
                courses.push(course);
            },
            None => {},
        }
    }
    assert(listed.take(entries@.len() as int) =~= listed);
    courses
}

/// A remote folder as listed by the account. A folder without a parent is the
/// root folder of its course.
#[derive(Debug, PartialEq, Eq)]
pub struct Folder {
    pub id: u32,
    pub name: String,
    pub folders_url: String,
    pub files_url: String,
    pub for_submissions: bool,
    pub can_upload: bool,
    pub parent_folder_id: Option<u32>,
}

/// Mathematical content of a [`Folder`].
pub struct FolderView {
    pub id: u32,
    pub name: Seq<char>,
    pub folders_url: Seq<char>,
    pub files_url: Seq<char>,
    pub for_submissions: bool,
    pub can_upload: bool,
    pub parent_folder_id: Option<u32>,
}

impl View for Folder {
    type V = FolderView;

    open spec fn view(&self) -> FolderView {
        FolderView {
            id: self.id,
            name: self.name@,
            folders_url: self.folders_url@,
            files_url: self.files_url@,
            for_submissions: self.for_submissions,
            can_upload: self.can_upload,
            parent_folder_id: self.parent_folder_id,
        }
    }
}

/// A remote file together with the local path it is mirrored to. The path is
/// empty until the file has been placed under its folder's directory.
#[derive(Debug, PartialEq, Eq)]
pub struct File {
    pub id: u32,
    pub folder_id: u32,
    pub filename: String,
    pub size: u64,
    pub url: String,
    pub filepath: String,
}

/// Mathematical content of a [`File`].
pub struct FileView {
    pub id: u32,
    pub folder_id: u32,
    pub filename: Seq<char>,
    pub size: u64,
    pub url: Seq<char>,
    pub filepath: Seq<char>,
}

impl View for File {
    type V = FileView;

    open spec fn view(&self) -> FileView {
        FileView {
            id: self.id,
            folder_id: self.folder_id,
            filename: self.filename@,
            size: self.size,
            url: self.url@,
            filepath: self.filepath@,
        }
    }
}

impl Clone for File {
    fn clone(&self) -> (copy: Self)
        ensures
            copy@ == self@,
    {
        File {
            id: self.id,
            folder_id: self.folder_id,
            filename: self.filename.clone(),
            size: self.size,
            url: self.url.clone(),
            filepath: self.filepath.clone(),
        }
    }
}

/// The contents of a list of files, element by element.
pub open spec fn file_views(files: Seq<File>) -> Seq<FileView> {
    files.map_values(|f: File| f@)
}

/// The contents of a list of folders, element by element.
pub open spec fn folder_views(folders: Seq<Folder>) -> Seq<FolderView> {
    folders.map_values(|f: Folder| f@)
}

/// What one listing request needs: the token that authorises it, the link to
/// fetch and the local directory its results belong under.
#[derive(Debug, PartialEq, Eq)]
pub struct ProcessOptions {
    pub canvas_token: String,
    pub link: String,
    pub parent_folder_path: String,
}

/// Mathematical content of [`ProcessOptions`].
pub struct ProcessOptionsView {
    pub canvas_token: Seq<char>,
    pub link: Seq<char>,
    pub parent_folder_path: Seq<char>,
}

impl View for ProcessOptions {
    type V = ProcessOptionsView;

    open spec fn view(&self) -> ProcessOptionsView {
        ProcessOptionsView {
            canvas_token: self.canvas_token@,
            link: self.link@,
            parent_folder_path: self.parent_folder_path@,
        }
    }
}

impl Clone for ProcessOptions {
    fn clone(&self) -> (copy: Self)
        ensures
            copy@ == self@,
    {
        ProcessOptions {
            canvas_token: self.canvas_token.clone(),
            link: self.link.clone(),
            parent_folder_path: self.parent_folder_path.clone(),
        }
    }
}

} // verus!
