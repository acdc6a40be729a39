use swype_kbd::learning::{word_less, NextWords, PersonalWords, PERSONAL_THRESHOLD};

fn strings(v: &[&str]) -> Vec<String> {
    v.iter().map(|s| s.to_string()).collect()
}

#[test]
fn word_order_is_lexicographic() {
    let s = |x: &str| x.to_string();
    assert!(word_less(&s("and"), &s("ant")));
    assert!(word_less(&s("an"), &s("and")));
    assert!(!word_less(&s("and"), &s("an")));
    assert!(!word_less(&s("and"), &s("and")));
    assert!(word_less(&s(""), &s("a")));
}

#[test]
fn predictions_rank_by_count_then_word() {
    let mut m = NextWords::new();
    for next in ["time", "way", "time", "day", "way", "time", "end"] {
        m.record("the", next);
    }
    m.record("a", "lot");
    // time 3, way 2, day 1, end 1: ties in word order
    assert_eq!(m.predict("the", 4), strings(&["time", "way", "day", "end"]));
    assert_eq!(m.predict("The", 2), strings(&["time", "way"]));
    assert_eq!(m.predict("the", 0), Vec::<String>::new());
    assert_eq!(m.predict("a", 4), strings(&["lot"]));
    assert_eq!(m.predict("nothing", 4), Vec::<String>::new());
}

#[test]
fn recording_is_case_insensitive() {
    let mut m = NextWords::new();
    m.record("Good", "Morning");
    m.record("good", "morning");
    m.record("good", "night");
    assert_eq!(m.predict("GOOD", 4), strings(&["morning", "night"]));
}

#[test]
fn repoint_moves_one_count() {
    let mut m = NextWords::new();
    m.record("of", "course");
    m.record("of", "curse");
    m.record("of", "curse");
    m.repoint("of", "curse", "course");
    // course 2, curse 1
    assert_eq!(m.predict("of", 4), strings(&["course", "curse"]));
    m.repoint("of", "curse", "course");
    // the rejected word's count reached zero: it is no longer predicted
    assert_eq!(m.predict("of", 4), strings(&["course"]));
    // repointing a pair never counted changes nothing
    m.repoint("of", "kurs", "cause");
    assert_eq!(m.predict("of", 4), strings(&["course"]));
}

#[test]
fn loaded_counts_are_ranked() {
    let mut m = NextWords::new();
    m.set_count("i", "am", 5);
    m.set_count("i", "was", 9);
    m.set_count("i", "have", 0);
    assert_eq!(m.predict("i", 4), strings(&["was", "am"]));
    let saved: Vec<(String, String, u32)> = m.entries().clone();
    assert!(saved.contains(&("i".to_string(), "was".to_string(), 9)));
}

#[test]
fn a_personal_word_joins_at_the_threshold() {
    assert_eq!(PERSONAL_THRESHOLD, 3);
    let mut p = PersonalWords::new();
    assert!(!p.note("Verus"));
    assert!(!p.note("verus"));
    assert!(p.note("VERUS"));
    assert!(p.note("verus"));
    assert!(!p.note("typo"));
    assert_eq!(p.promoted(), strings(&["verus"]));
    p.set_count("sway", 7);
    p.set_count("wlroots", 2);
    let promoted = p.promoted();
    assert!(promoted.contains(&"sway".to_string()));
    assert!(!promoted.contains(&"wlroots".to_string()));
}
