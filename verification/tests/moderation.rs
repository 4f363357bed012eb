use memegen::moderation::{ModerationConfig, WordCategory};

fn config(categories: &[WordCategory], denied: &[&str], allowed: &[&str]) -> ModerationConfig {
    ModerationConfig {
        categories: categories.to_vec(),
        denied: denied.iter().map(|s| s.to_string()).collect(),
        allowed: allowed.iter().map(|s| s.to_string()).collect(),
        mask: '*',
        keep_start: 0,
        keep_end: 0,
    }
}

#[test]
fn standard_configuration() {
    let standard = ModerationConfig::standard();
    assert_eq!(standard.categories, vec![WordCategory::Standard, WordCategory::Sex]);
    assert!(standard.denied.is_empty());
    assert_eq!(standard.allowed, vec!["sex".to_string(), "ass".to_string()]);
    assert_eq!(standard.mask, '*');
    assert_eq!(standard.keep_start, 1);
    assert_eq!(standard.keep_end, 0);
}

#[test]
fn denied_term_is_masked_and_allowed_term_stays() {
    let standard = ModerationConfig::standard();
    assert_eq!(standard.sanitize("Sussex is a shit place"), "Sussex is a s*** place");
    assert_eq!(standard.sanitize("sextet shit"), "sextet s***");
}

#[test]
fn clean_text_is_unchanged() {
    let standard = ModerationConfig::standard();
    assert_eq!(standard.sanitize("I like dogs"), "I like dogs");
    assert_eq!(standard.sanitize(""), "");
}

#[test]
fn matching_ignores_case() {
    let standard = ModerationConfig::standard();
    assert_eq!(standard.sanitize("SHIT happens"), "S*** happens");
}

#[test]
fn configuration_that_is_off_masks_nothing() {
    let off = ModerationConfig::off();
    assert_eq!(off.sanitize("fuck that shit"), "fuck that shit");
}

#[test]
fn whole_word_is_masked_without_offsets() {
    let plain = config(&[WordCategory::Standard], &[], &[]);
    assert_eq!(plain.sanitize("fuck that shit, dude"), "**** that ****, dude");
}

#[test]
fn inactive_list_is_not_filtered() {
    let standard_only = config(&[WordCategory::Standard], &[], &[]);
    assert_eq!(standard_only.sanitize("a condom and a damn"), "a condom and a damn");
    let with_sex = config(&[WordCategory::Standard, WordCategory::Sex], &[], &[]);
    assert_eq!(with_sex.sanitize("a condom and a damn"), "a ****** and a damn");
    let zealous = config(&[WordCategory::Zealous], &[], &[]);
    assert_eq!(zealous.sanitize("a condom and a damn"), "a condom and a ****");
}

#[test]
fn denied_word_is_filtered() {
    let custom = config(&[], &["dong"], &[]);
    assert_eq!(custom.sanitize("my magnum dong"), "my magnum ****");
}

#[test]
fn allowed_word_overrides_the_denied() {
    let custom = config(&[WordCategory::Standard], &["dong"], &["dong", "shit"]);
    assert_eq!(custom.sanitize("dong shit fuck"), "dong shit ****");
}

#[test]
fn mask_and_offsets_are_configurable() {
    let mut custom = config(&[WordCategory::Standard], &[], &[]);
    custom.mask = '#';
    custom.keep_start = 1;
    custom.keep_end = 1;
    assert_eq!(custom.sanitize("what the fuck"), "what the f##k");
}

#[test]
fn length_is_kept() {
    let standard = ModerationConfig::standard();
    for text in ["shit", "héllo shit wörld", "fuuuuck yoouuu", "f!u!c!k", ""] {
        let clean = standard.sanitize(text);
        assert_eq!(clean.chars().count(), text.chars().count());
        for (a, b) in clean.chars().zip(text.chars()) {
            assert!(a == b || a == '*');
        }
    }
}
