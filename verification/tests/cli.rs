use jinspect::cli::VerboseMode;

#[test]
fn empty_selection_renders_everything() {
    let mode = VerboseMode::build(&vec![]);
    assert!(mode.can_verbose_header());
    assert!(mode.can_verbose_class());
    assert!(mode.can_verbose_pool());
    assert!(mode.can_verbose_interfaces());
    assert!(mode.can_verbose_methods());
    assert!(mode.can_verbose_fields());
    assert!(mode.can_verbose_attributes());
}

#[test]
fn unrecognized_names_alone_render_everything() {
    let mode = VerboseMode::build(&vec!["all".to_string(), "banana".to_string()]);
    assert!(mode.can_verbose_header());
    assert!(mode.can_verbose_pool());
}

#[test]
fn chosen_sections_only() {
    let mode = VerboseMode::build(&vec!["header".to_string(), "field".to_string()]);
    assert!(mode.can_verbose_header());
    assert!(mode.can_verbose_fields());
    assert!(!mode.can_verbose_class());
    assert!(!mode.can_verbose_pool());
    assert!(!mode.can_verbose_interfaces());
    assert!(!mode.can_verbose_methods());
    assert!(!mode.can_verbose_attributes());
}

#[test]
fn selection_is_independent_of_option_order() {
    let a = VerboseMode::build(&vec!["pool".to_string(), "method".to_string()]);
    let b = VerboseMode::build(&vec!["method".to_string(), "pool".to_string()]);
    assert_eq!(a.can_verbose_pool(), b.can_verbose_pool());
    assert_eq!(a.can_verbose_methods(), b.can_verbose_methods());
    assert_eq!(a.can_verbose_header(), b.can_verbose_header());
    assert!(a.can_verbose_pool());
    assert!(a.can_verbose_methods());
    assert!(!a.can_verbose_header());
}
