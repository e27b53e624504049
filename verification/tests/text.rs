use reactive_transform::markers::{
    collection_method, frontend_qualifier, lookup_marker, reserved_name, value_accessor, Marker,
    Wrap,
};
use reactive_transform::text::{same_text, strip_marker};

#[test]
fn marker_is_stripped_from_the_end_of_text() {
    assert_eq!(strip_marker("#static"), Some(String::new()));
    assert_eq!(strip_marker("Count is #static"), Some("Count is ".to_string()));
    assert_eq!(strip_marker("a#static#static"), Some("a#static".to_string()));
}

#[test]
fn white_space_after_the_marker_is_dropped_with_it() {
    assert_eq!(strip_marker("#static "), Some(String::new()));
    assert_eq!(strip_marker("abc #static \n\t\r "), Some("abc ".to_string()));
    assert_eq!(strip_marker("x#static\u{b}\u{c}\u{85}\u{a0}"), Some("x".to_string()));
    assert_eq!(strip_marker("x#static\u{1680}\u{2000}\u{200a}"), Some("x".to_string()));
    assert_eq!(strip_marker("x#static\u{2028}\u{2029}\u{202f}\u{205f}\u{3000}"), Some("x".to_string()));
}

#[test]
fn characters_that_are_no_white_space_stay() {
    // a zero-width space and a Mongolian vowel separator are no white space
    assert_eq!(strip_marker("x#static\u{200b}"), None);
    assert_eq!(strip_marker("x#static\u{180e}"), None);
    assert_eq!(strip_marker("x#static\u{feff}"), None);
}

#[test]
fn text_without_the_marker_at_its_end_has_none() {
    assert_eq!(strip_marker(""), None);
    assert_eq!(strip_marker("   "), None);
    assert_eq!(strip_marker("static"), None);
    assert_eq!(strip_marker("#staticxy"), None);
    assert_eq!(strip_marker("#static{"), None);
    assert_eq!(strip_marker("#STATIC"), None);
    assert_eq!(strip_marker("# static"), None);
}

#[test]
fn marker_is_found_after_text_beyond_ascii() {
    assert_eq!(strip_marker("Zur\u{fc}ck \u{4f60}\u{597d}#static\n"), Some("Zur\u{fc}ck \u{4f60}\u{597d}".to_string()));
}

#[test]
fn texts_are_compared_exactly() {
    assert!(same_text("map", "map"));
    assert!(!same_text("map", "Map"));
    assert!(!same_text("map", "maps"));
    assert!(same_text("", ""));
}

#[test]
fn every_marker_is_found_under_its_name() {
    let all = [
        Marker::Always,
        Marker::Reactive,
        Marker::Stable,
        Marker::PreTracked,
        Marker::Prop,
        Marker::Method,
        Marker::Use,
        Marker::Run,
        Marker::RenderFrontend,
        Marker::RenderBackend,
        Marker::RenderStatic,
        Marker::RenderDynamic,
        Marker::RenderHybrid,
        Marker::RenderPreview,
    ];
    for m in all {
        assert_eq!(lookup_marker(m.text()), Some(m));
        assert_eq!(lookup_marker(&m.text().to_uppercase()), Some(m));
        assert_eq!(lookup_marker(&m.text().to_lowercase()), Some(m));
    }
}

#[test]
fn marker_names_are_written_as_the_runtime_expects() {
    assert_eq!(Marker::Always.text(), "always");
    assert_eq!(Marker::Reactive.text(), "_$");
    assert_eq!(Marker::Stable.text(), "$");
    assert_eq!(Marker::PreTracked.text(), "$$");
    assert_eq!(Marker::Prop.text(), "prop");
    assert_eq!(Marker::Method.text(), "_$method");
    assert_eq!(Marker::Use.text(), "use");
    assert_eq!(Marker::Run.text(), "run");
    assert_eq!(Marker::RenderFrontend.text(), "renderFrontend");
    assert_eq!(Marker::RenderBackend.text(), "renderBackend");
    assert_eq!(Marker::RenderStatic.text(), "renderStatic");
    assert_eq!(Marker::RenderDynamic.text(), "renderDynamic");
    assert_eq!(Marker::RenderHybrid.text(), "renderHybrid");
    assert_eq!(Marker::RenderPreview.text(), "renderPreview");
}

#[test]
fn other_names_are_no_markers() {
    for name in ["", "alway", "alwayss", "_", "$$$", "props", "render", "renderfront", "used", "\u{212a}"] {
        assert_eq!(lookup_marker(name), None);
    }
    // only ASCII letters are folded: a Kelvin sign is no `k`
    assert_eq!(lookup_marker("renderBac\u{212a}end"), None);
}

#[test]
fn markers_fall_into_their_groups() {
    assert!(Marker::Reactive.no_wrap());
    assert!(Marker::Stable.no_wrap());
    assert!(Marker::PreTracked.no_wrap());
    assert!(Marker::Prop.no_wrap());
    assert!(Marker::Method.no_wrap());
    assert!(!Marker::Always.no_wrap());
    assert!(!Marker::Run.no_wrap());
    assert!(!Marker::RenderFrontend.no_wrap());
    assert!(Marker::RenderFrontend.render());
    assert!(Marker::RenderPreview.render());
    assert!(!Marker::Run.render());
    assert!(!Marker::Always.render());
    assert_eq!(Wrap::Always.as_marker(), Marker::Always);
    assert_eq!(Wrap::Reactive.as_marker(), Marker::Reactive);
}

#[test]
fn fixed_names_are_matched_exactly() {
    assert!(collection_method("map"));
    assert!(collection_method("filter"));
    assert!(collection_method("reduce"));
    assert!(!collection_method("Map"));
    assert!(!collection_method("forEach"));
    assert!(value_accessor("$"));
    assert!(value_accessor("$$"));
    assert!(!value_accessor("$$$"));
    for name in ["globalThis", "self", "window", "undefined", "NaN", "Infinity", "use"] {
        assert!(reserved_name(name));
    }
    for name in ["globalthis", "Self", "nan", "Use", "this", "null"] {
        assert!(!reserved_name(name));
    }
}

#[test]
fn frontend_qualifier_ignores_case() {
    assert!(frontend_qualifier("frontend"));
    assert!(frontend_qualifier("Frontend"));
    assert!(frontend_qualifier("FRONTEND"));
    assert!(!frontend_qualifier("front"));
    assert!(!frontend_qualifier("backend"));
}
