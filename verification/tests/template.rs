use memegen::error::PipelineError;
use memegen::template::{find_tokens, interpolate_with, Interpolation, Token};
use memegen::text::chars_of;

fn spans(body: &str) -> Vec<(usize, usize)> {
    find_tokens(&chars_of(body)).iter().map(|t| (t.start, t.end)).collect()
}

fn strings(items: &[&str]) -> Vec<String> {
    items.iter().map(|s| s.to_string()).collect()
}

#[test]
fn body_without_placeholders_is_unchanged() {
    let mut run = Interpolation::begin("Tell me a joke.");
    assert!(run.pending().is_none());
    assert_eq!(run.remaining(), 0);
    run.substitute("ignored");
    assert_eq!(run.finish(), "Tell me a joke.");
    assert_eq!(interpolate_with("Tell me a joke.", &strings(&["cat"])), "Tell me a joke.");
    assert_eq!(interpolate_with("", &strings(&[])), "");
}

#[test]
fn single_placeholder_is_replaced() {
    let mut run = Interpolation::begin("Tell me about {animal}.");
    assert_eq!(run.pending(), Some("animal".to_string()));
    assert_eq!(run.remaining(), 1);
    run.substitute("cat");
    assert!(run.pending().is_none());
    let text = run.finish();
    assert_eq!(text, "Tell me about cat.");
    assert!(!text.contains("{animal}"));
    assert_eq!(text.matches("cat").count(), 1);
}

#[test]
fn same_placeholder_twice_takes_two_values() {
    let text = interpolate_with("{x} and {x}", &strings(&["a", "b"]));
    assert_eq!(text, "a and b");
    assert!(!text.contains("{x}"));
    let same = interpolate_with("{x} and {x}", &strings(&["a", "a"]));
    assert_eq!(same, "a and a");
}

#[test]
fn placeholders_are_resolved_from_left_to_right() {
    let mut run = Interpolation::begin("{mood} {animal} in {place}");
    assert_eq!(run.pending(), Some("mood".to_string()));
    run.substitute("happy");
    assert_eq!(run.pending(), Some("animal".to_string()));
    run.substitute("dog");
    assert_eq!(run.pending(), Some("place".to_string()));
    assert_eq!(run.remaining(), 1);
    run.substitute("Rome");
    assert_eq!(run.pending(), None);
    assert_eq!(run.finish(), "happy dog in Rome");
}

#[test]
fn value_is_drawn_from_the_candidates() {
    let lines = strings(&["# animals", "cat", "dog"]);
    let mut run = Interpolation::begin("Tell me about {animal}.");
    assert_eq!(run.resolve(&lines), Ok(()));
    let text = run.finish();
    assert!(text == "Tell me about cat." || text == "Tell me about dog.");
}

#[test]
fn single_candidate_is_always_drawn() {
    let lines = strings(&["#comment", "otter"]);
    let mut run = Interpolation::begin("{animal}!");
    assert_eq!(run.resolve(&lines), Ok(()));
    assert_eq!(run.remaining(), 0);
    assert_eq!(run.finish(), "otter!");
}

#[test]
fn catalog_of_comments_fails_and_changes_nothing() {
    let lines = strings(&["# one", "#two"]);
    let mut run = Interpolation::begin("a {thing} b");
    assert_eq!(run.resolve(&lines), Err(PipelineError::EmptyCatalog));
    assert_eq!(run.pending(), Some("thing".to_string()));
    assert_eq!(run.finish(), "a {thing} b");
}

#[test]
fn empty_catalog_fails() {
    let mut run = Interpolation::begin("{thing}");
    assert_eq!(run.resolve(&Vec::new()), Err(PipelineError::EmptyCatalog));
}

#[test]
fn complete_run_ignores_further_catalogs() {
    let mut run = Interpolation::begin("plain");
    assert_eq!(run.resolve(&Vec::new()), Ok(()));
    assert_eq!(run.resolve(&strings(&["x"])), Ok(()));
    assert_eq!(run.finish(), "plain");
}

#[test]
fn blank_line_is_a_candidate() {
    let mut run = Interpolation::begin("[{gap}]");
    assert_eq!(run.resolve(&strings(&[""])), Ok(()));
    assert_eq!(run.finish(), "[]");
}

#[test]
fn leftmost_occurrence_in_the_running_text_is_replaced() {
    let text = interpolate_with("{a} {b}", &strings(&["{b}", "x"]));
    assert_eq!(text, "x {b}");
}

#[test]
fn value_and_context_can_spell_a_placeholder_anew() {
    assert_eq!(spans("{{x}}"), vec![(1, 4)]);
    assert_eq!(interpolate_with("{{x}}", &strings(&["x"])), "{x}");
}

#[test]
fn fewer_values_leave_later_placeholders() {
    assert_eq!(interpolate_with("{a}-{b}-{c}", &strings(&["1"])), "1-{b}-{c}");
    assert_eq!(interpolate_with("{a}-{b}", &strings(&[])), "{a}-{b}");
}

#[test]
fn surplus_values_are_not_used() {
    assert_eq!(interpolate_with("{a}!", &strings(&["1", "2", "3"])), "1!");
}

#[test]
fn placeholder_grammar() {
    assert_eq!(spans("{animal}"), vec![(0, 8)]);
    assert_eq!(spans("a {b} c {d-e_f} g"), vec![(2, 5), (8, 15)]);
    assert_eq!(spans("{}"), vec![]);
    assert_eq!(spans("{Animal}"), vec![]);
    assert_eq!(spans("{a1}"), vec![]);
    assert_eq!(spans("{a b}"), vec![]);
    assert_eq!(spans("{abc"), vec![]);
    assert_eq!(spans("abc}"), vec![]);
    assert_eq!(spans("{a}{b}"), vec![(0, 3), (3, 6)]);
    assert_eq!(spans("{a{b}c}"), vec![(2, 5)]);
    assert_eq!(spans("{_}{-}"), vec![(0, 3), (3, 6)]);
    assert_eq!(spans(""), vec![]);
}

#[test]
fn placeholder_positions_count_characters() {
    assert_eq!(spans("é{a}ü{b}"), vec![(1, 4), (5, 8)]);
    assert_eq!(interpolate_with("é{a}ü{b}", &strings(&["1", "2"])), "é1ü2");
}

#[test]
fn scanner_agrees_with_the_pattern() {
    let pattern = regex::Regex::new(r"\{[a-z_\-]+\}").unwrap();
    let bodies = [
        "",
        "plain text",
        "{animal}",
        "Tell me about {animal}.",
        "{a}{b}{c}",
        "{{x}}",
        "{a{b}c}",
        "{}{a}{}",
        "{A}{a}",
        "{a-b}{a_b}{a b}",
        "}{a}{",
        "{abc",
        "{a}}{{b}",
        "Make a meme of \"{image}\" about {topic} in {mood} mood",
        "é{a}ü{b}ß{ç}",
        "{a1}{1a}{a}",
        "{--}{__}{-_-}",
    ];
    for body in bodies {
        let chars: Vec<char> = body.chars().collect();
        let expected: Vec<String> = pattern.find_iter(body).map(|m| m.as_str().to_string()).collect();
        let found: Vec<String> = find_tokens(&chars)
            .iter()
            .map(|t: &Token| chars[t.start..t.end].iter().collect())
            .collect();
        assert_eq!(found, expected, "body {:?}", body);
    }
}

#[test]
fn values_with_braces_stay_in_place_where_they_spell_no_placeholder() {
    assert_eq!(interpolate_with("{x} {x}", &strings(&["a{", "}b"])), "a{ }b");
    assert_eq!(interpolate_with("{{x} and {x}", &strings(&["1", "2"])), "{1 and 2");
}

#[test]
fn first_value_that_spells_the_placeholder_takes_the_second_value() {
    assert_eq!(interpolate_with("{x}{x}", &strings(&["{x}", "a"])), "a{x}");
}
