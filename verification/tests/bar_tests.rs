use string_utils::delim_ok;
use string_utils::render_bar;

#[test]
fn render_bar_fill_levels() {
    assert_eq!(render_bar("[", "]", 3), "[===       ]");
    assert_eq!(render_bar("|", "?", 7), "|=======   ?");
    assert_eq!(render_bar("|", "?", 10), "|==========?");
    assert_eq!(render_bar("[", "]", 0), "[          ]");
}

#[test]
fn render_bar_empty_is_all_spaces() {
    assert_eq!(render_bar("<", ">", 0), "<          >");
}

#[test]
fn render_bar_full_is_all_equals() {
    assert_eq!(render_bar("<", ">", 10), "<==========>");
}

#[test]
fn render_bar_length_is_always_twelve() {
    for filled in 0..=10u8 {
        assert_eq!(render_bar("[", "]", filled).chars().count(), 12);
    }
}

#[test]
fn delim_ok_accepts_single_characters_only() {
    assert!(delim_ok("["));
    assert!(delim_ok("?"));
    assert!(!delim_ok(""));
    assert!(!delim_ok("[["));
}
