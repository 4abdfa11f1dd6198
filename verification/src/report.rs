//! The lines that the mirror reports to its user.

use crate::canvas::{Course, File, ProcessOptions};
use crate::crawl::ListingKind;
use crate::text::{decimal, render_decimal};
use vstd::prelude::*;
use vstd::string::*;

verus! {

/// The line that announces a course.
pub open spec fn course_line_of(course_code: Seq<char>, name: Seq<char>) -> Seq<char> {
    "  * "@ + course_code + " - "@ + name
}

/// The line that announces a course: its code, then its name.
pub fn course_line(course: &Course) -> (line: String)
    ensures
        line@ == course_line_of(course@.course_code, course@.name),
{
    let mut line = String::from_str("  * ");
    line.append(course.course_code.as_str());
    line.append(" - ");
    line.append(course.name.as_str());
    line
}

/// The line that announces how many files are about to be downloaded.
pub open spec fn download_banner_of(count: nat) -> Seq<char> {
    "Downloading "@ + decimal(count) + " file"@ + if count == 1 {
        ""@
    } else {
        "s"@
    }
}

/// The line that announces how many files are about to be downloaded; the
/// noun is singular for exactly one file.
pub fn download_banner(count: usize) -> (line: String)
    ensures
        line@ == download_banner_of(count as nat),
{
    let mut line = String::from_str("Downloading ");
    let number = render_decimal(count as u64);
    line.append(number.as_str());
    line.append(" file");
    line.append(
        if count == 1 {
            ""
        } else {
            "s"
        },
    );
    line
}

/// The line that reports a file given up after an unsuccessful header-only
/// request.
pub open spec fn download_failed_of(filename: Seq<char>) -> Seq<char> {
    "Failed to download "@ + filename
}

/// The line that reports a file given up after an unsuccessful header-only
/// request.
pub fn download_failed(file: &File) -> (line: String)
    ensures
        line@ == download_failed_of(file@.filename),
{
    let mut line = String::from_str("Failed to download ");
    line.append(file.filename.as_str());
    line
}

/// The label of a transfer's progress indicator.
pub open spec fn download_label_of(filename: Seq<char>, filepath: Seq<char>) -> Seq<char> {
    "Downloading "@ + filename + " to "@ + filepath
}

/// The label of a transfer's progress indicator: what is fetched and where
/// it is written.
pub fn download_label(file: &File) -> (label: String)
    ensures
        label@ == download_label_of(file@.filename, file@.filepath),
{
    let mut label = String::from_str("Downloading ");
    label.append(file.filename.as_str());
    label.append(" to ");
    label.append(file.filepath.as_str());
    label
}

/// The report of a listing that could not be decoded.
pub open spec fn listing_failure_of(
    kind: ListingKind,
    link: Seq<char>,
    path: Seq<char>,
    detail: Seq<char>,
) -> Seq<char> {
    "Failed to deserialize "@ + match kind {
        ListingKind::Folders => "folders"@,
        ListingKind::Files => "files"@,
    } + " at link:"@ + link + ", path:"@ + path + "\n"@ + detail
}

/// The report of a listing that could not be decoded. It names what was
/// listed, the link, the local directory the listing belongs under and, on
/// a line of its own, the decoder's complaint.
pub fn listing_failure(kind: ListingKind, options: &ProcessOptions, detail: &str) -> (line: String)
    ensures
        line@ == listing_failure_of(kind, options@.link, options@.parent_folder_path, detail@),
{
    let mut line = String::from_str("Failed to deserialize ");
    line.append(
        match kind {
            ListingKind::Folders => "folders",
            ListingKind::Files => "files",
        },
    );
    line.append(" at link:");
    line.append(options.link.as_str());
    line.append(", path:");
    line.append(options.parent_folder_path.as_str());
    line.append("\n");
    line.append(detail);
    line
}

/// The report of a request that could not be sent or answered.
pub open spec fn request_failure_of(link: Seq<char>) -> Seq<char> {
    "Something went wrong when reaching "@ + link
}

/// The report of a request that could not be sent or answered.
pub fn request_failure(link: &str) -> (line: String)
    ensures
        line@ == request_failure_of(link@),
{
    let mut line = String::from_str("Something went wrong when reaching ");
    line.append(link);
    line
}

/// The report of a directory that could not be created.
pub open spec fn directory_failure_of(path: Seq<char>) -> Seq<char> {
    "Failed to create directory: "@ + path
}

/// The report of a directory that could not be created.
pub fn directory_failure(path: &str) -> (line: String)
    ensures
        line@ == directory_failure_of(path@),
{
    let mut line = String::from_str("Failed to create directory: ");
    line.append(path);
    line
}

} // verus!
