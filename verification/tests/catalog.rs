use memegen::catalog::{choose_random_item, fill_in_path, fill_ins, is_comment_line};
use memegen::error::PipelineError;

fn strings(items: &[&str]) -> Vec<String> {
    items.iter().map(|s| s.to_string()).collect()
}

#[test]
fn comment_lines_are_filtered() {
    let entries = fill_ins(&strings(&["# header", "cat", "#dog", "bird", " # not a comment"]));
    assert_eq!(entries, strings(&["cat", "bird", " # not a comment"]));
}

#[test]
fn blank_lines_stay() {
    let entries = fill_ins(&strings(&["", "cat", ""]));
    assert_eq!(entries, strings(&["", "cat", ""]));
}

#[test]
fn comment_test() {
    assert!(is_comment_line("#"));
    assert!(is_comment_line("# text"));
    assert!(!is_comment_line(""));
    assert!(!is_comment_line(" #"));
    assert!(!is_comment_line("a#"));
}

#[test]
fn nothing_to_choose_from() {
    assert_eq!(choose_random_item(&Vec::new()), Err(PipelineError::EmptyCatalog));
    let entries = fill_ins(&strings(&["#only", "#comments"]));
    assert_eq!(choose_random_item(&entries), Err(PipelineError::EmptyCatalog));
}

#[test]
fn choice_is_a_candidate() {
    let entries = strings(&["cat", "dog"]);
    for _ in 0..20 {
        let item = choose_random_item(&entries).unwrap();
        assert!(item == "cat" || item == "dog");
    }
    assert_eq!(choose_random_item(&strings(&["owl"])), Ok("owl".to_string()));
}

#[test]
fn catalog_path() {
    assert_eq!(fill_in_path("animal"), "resources/animal.txt");
    assert_eq!(fill_in_path(""), "resources/.txt");
}
