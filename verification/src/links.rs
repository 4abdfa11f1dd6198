//! Links into the REST interface of a Canvas account.

use crate::text::{decimal, render_decimal};
use vstd::prelude::*;
use vstd::string::*;

verus! {

/// The link that lists the courses of the account at `canvas_url`.
pub open spec fn courses_link_of(canvas_url: Seq<char>) -> Seq<char> {
    canvas_url + "/api/v1/courses"@
}

/// The link that lists the root folder of course `course_id`, given the link
/// that lists the courses.
pub open spec fn course_folders_link_of(courses_link: Seq<char>, course_id: u32) -> Seq<char> {
    courses_link + "/"@ + decimal(course_id as nat) + "/folders/by_path/"@
}

/// The link that lists the courses of the account at `canvas_url`.
pub fn courses_link(canvas_url: &str) -> (link: String)
    ensures
        link@ == courses_link_of(canvas_url@),
{
    let mut link = String::from_str(canvas_url);
    link.append("/api/v1/courses");
    link
}

/// The link that lists the root folder of course `course_id`.
pub fn course_folders_link(courses_link: &str, course_id: u32) -> (link: String)
    ensures
        link@ == course_folders_link_of(courses_link@, course_id),
{
    let mut link = String::from_str(courses_link);
    link.append("/");
    let id = render_decimal(course_id as u64);
    link.append(id.as_str());
    link.append("/folders/by_path/");
    link
}

} // verus!
