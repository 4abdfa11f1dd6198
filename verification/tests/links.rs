use canvas_mirror::links::{course_folders_link, courses_link};

#[test]
fn courses_link_extends_the_account_address() {
    assert_eq!(courses_link("https://canvas.test"), "https://canvas.test/api/v1/courses");
    assert_eq!(courses_link(""), "/api/v1/courses");
}

#[test]
fn course_folders_link_names_the_course() {
    let courses = courses_link("https://canvas.test");
    assert_eq!(
        course_folders_link(&courses, 1),
        "https://canvas.test/api/v1/courses/1/folders/by_path/"
    );
    assert_eq!(
        course_folders_link(&courses, 4294967295),
        "https://canvas.test/api/v1/courses/4294967295/folders/by_path/"
    );
    assert_eq!(course_folders_link("x", 0), "x/0/folders/by_path/");
}
