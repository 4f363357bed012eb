use memegen::prompt::{choose_prompt, load_prompts, prompts_path, Prompt, PromptType};
use memegen::text::chars_of;

fn strings(items: &[&str]) -> Vec<String> {
    items.iter().map(|s| s.to_string()).collect()
}

#[test]
fn malformed_line_is_dropped() {
    let prompts = load_prompts(&strings(&["text;hello {mood}", "bad_line_no_delimiter"]));
    assert_eq!(prompts.len(), 1);
    assert_eq!(prompts[0].prompt_type, PromptType::Text);
    assert_eq!(prompts[0].prompt, "hello {mood}");
}

#[test]
fn kind_names() {
    assert_eq!(PromptType::from("text"), PromptType::Text);
    assert_eq!(PromptType::from("image"), PromptType::Image);
    assert_eq!(PromptType::from("video"), PromptType::Text);
    assert_eq!(PromptType::from(""), PromptType::Text);
    assert_eq!(PromptType::from("Image"), PromptType::Text);
    assert_eq!(PromptType::from(" image"), PromptType::Text);
}

#[test]
fn fields_are_trimmed() {
    let prompts = load_prompts(&strings(&["  image ;  Make a meme of \"doge\"  "]));
    assert_eq!(prompts.len(), 1);
    assert_eq!(prompts[0].prompt_type, PromptType::Image);
    assert_eq!(prompts[0].prompt, "Make a meme of \"doge\"");
}

#[test]
fn unknown_kind_degrades_to_text() {
    let prompt = Prompt::from_line("poem;Write a poem").unwrap();
    assert_eq!(prompt.prompt_type, PromptType::Text);
    assert_eq!(prompt.prompt, "Write a poem");
}

#[test]
fn comments_and_lines_without_delimiter_are_skipped() {
    let lines = strings(&[
        "# a comment; with a delimiter",
        "text;one",
        "",
        "text;two;three",
        "image;four",
        ";",
        "no delimiter",
        " #text;five",
    ]);
    let prompts = load_prompts(&lines);
    let bodies: Vec<&str> = prompts.iter().map(|p| p.prompt.as_str()).collect();
    assert_eq!(bodies, vec!["one", "two;three", "four", "", "five"]);
    assert_eq!(prompts[1].prompt_type, PromptType::Text);
    assert_eq!(prompts[2].prompt_type, PromptType::Image);
    assert_eq!(prompts[3].prompt_type, PromptType::Text);
    assert_eq!(prompts[4].prompt_type, PromptType::Text);
}

#[test]
fn line_is_parted_at_the_first_delimiter() {
    let prompts = load_prompts(&strings(&["text;a;b"]));
    assert_eq!(prompts.len(), 1);
    assert_eq!(prompts[0].prompt_type, PromptType::Text);
    assert_eq!(prompts[0].prompt, "a;b");
    let prompt = Prompt::from_line("image ; top; bottom ;").unwrap();
    assert_eq!(prompt.prompt_type, PromptType::Image);
    assert_eq!(prompt.prompt, "top; bottom ;");
    let prompt = Prompt::from_line(";;").unwrap();
    assert_eq!(prompt.prompt_type, PromptType::Text);
    assert_eq!(prompt.prompt, ";");
}

#[test]
fn store_keeps_order_and_duplicates() {
    let lines = strings(&["text;a", "#skip", "text;a", "none", "image;b", "text;a"]);
    let prompts = load_prompts(&lines);
    let bodies: Vec<&str> = prompts.iter().map(|p| p.prompt.as_str()).collect();
    assert_eq!(bodies, vec!["a", "a", "b", "a"]);
}

#[test]
fn line_without_prompt() {
    assert!(Prompt::from_line("bad_line_no_delimiter").is_none());
    assert!(Prompt::from_line("#text;hidden").is_none());
    assert!(Prompt::from_line("").is_none());
}

#[test]
fn empty_store_has_no_prompts() {
    assert!(load_prompts(&Vec::new()).is_empty());
    assert!(choose_prompt(&Vec::new()).is_none());
}

#[test]
fn prompt_from_fields_trims_both() {
    let prompt = Prompt::from_fields(&chars_of("\timage\n"), &chars_of(" body "));
    assert_eq!(prompt.prompt_type, PromptType::Image);
    assert_eq!(prompt.prompt, "body");
}

#[test]
fn only_prompt_is_chosen() {
    let prompts = load_prompts(&strings(&["text;only"]));
    let picked = choose_prompt(&prompts).unwrap();
    assert_eq!(picked.prompt, "only");
}

#[test]
fn chosen_prompt_is_one_of_the_store() {
    let prompts = load_prompts(&strings(&["text;a", "image;b", "text;c"]));
    for _ in 0..20 {
        let picked = choose_prompt(&prompts).unwrap();
        assert!(["a", "b", "c"].contains(&picked.prompt.as_str()));
    }
}

#[test]
fn prompt_starts_its_own_run() {
    let prompt = Prompt::from_line("text;Tell me about {animal}.").unwrap();
    let mut run = prompt.interpolation();
    assert_eq!(run.pending(), Some("animal".to_string()));
    run.substitute("cat");
    assert_eq!(run.finish(), "Tell me about cat.");
}

#[test]
fn store_path() {
    assert_eq!(prompts_path(), "resources/prompts.txt");
}
