use pundoc::refs::{biber_check, references_ok, iter_multiple_biber, parse_references, parse_single_biber, LinkType, ReferenceParseResult};

#[test]
fn single_biber_reference_with_attributes() {
    let (r, a) = parse_single_biber("  @foo p. 5 ".to_string());
    assert_eq!(r, "foo");
    assert_eq!(a, Some("p. 5".to_string()));
    let (r, a) = parse_single_biber("@bar".to_string());
    assert_eq!(r, "bar");
    assert_eq!(a, None);
}

#[test]
fn multiple_biber_references() {
    let refs = iter_multiple_biber("@a, @b p. 3".to_string());
    assert_eq!(
        refs,
        vec![("a".to_string(), None), ("b".to_string(), Some("p. 3".to_string()))]
    );
    // without a comma the first citation runs to the end of the text
    let refs = iter_multiple_biber("@a @b".to_string());
    assert_eq!(
        refs,
        vec![("a".to_string(), Some("@b".to_string())), ("b".to_string(), None)]
    );
}

#[test]
fn include_and_command() {
    match parse_references(true, LinkType::ShortcutUnknown, "include foo.md".into(), "include foo.md".into(), false) {
        ReferenceParseResult::ResolveInclude(s) => assert_eq!(s, "foo.md"),
        r => panic!("unexpected {:?}", r),
    }
    match parse_references(true, LinkType::ShortcutUnknown, "toc".into(), "  toc".into(), true) {
        ReferenceParseResult::Command(s) => assert_eq!(s, "toc"),
        r => panic!("unexpected {:?}", r),
    }
}

#[test]
fn biber_without_bibliography_is_text() {
    match parse_references(false, LinkType::ShortcutUnknown, "@foo".into(), "@foo".into(), false) {
        ReferenceParseResult::Text(s) => assert_eq!(s, "[@foo]"),
        r => panic!("unexpected {:?}", r),
    }
    match parse_references(true, LinkType::ShortcutUnknown, "@foo".into(), "@foo".into(), false) {
        ReferenceParseResult::BiberReferences(v) => {
            assert_eq!(v.len(), 1);
            assert_eq!(v[0].reference, "foo");
            assert_eq!(v[0].attributes, None);
        },
        r => panic!("unexpected {:?}", r),
    }
}

#[test]
fn interlinks_and_urls() {
    match parse_references(true, LinkType::ShortcutUnknown, "#foo".into(), "#Foo".into(), false) {
        ReferenceParseResult::InterLink(l) => {
            assert_eq!(l.label, "foo");
            assert!(l.uppercase);
        },
        r => panic!("unexpected {:?}", r),
    }
    match parse_references(true, LinkType::Inline, "#bar".into(), "".into(), false) {
        ReferenceParseResult::InterLinkWithContent(l) => {
            assert_eq!(l.label, "bar");
            assert!(!l.uppercase);
        },
        r => panic!("unexpected {:?}", r),
    }
    match parse_references(true, LinkType::Inline, "https://x.org".into(), "T".into(), false) {
        ReferenceParseResult::UrlWithContent(u) => {
            assert_eq!(u.destination, "https://x.org");
            assert_eq!(u.title, Some("T".to_string()));
        },
        r => panic!("unexpected {:?}", r),
    }
    match parse_references(true, LinkType::Autolink, "https://x.org".into(), "".into(), false) {
        ReferenceParseResult::Url(u) => {
            assert_eq!(u.destination, "https://x.org");
            assert_eq!(u.title, None);
        },
        r => panic!("unexpected {:?}", r),
    }
}

#[test]
fn references_defined_on_usual_links() {
    assert!(biber_check("@a, @b p. 3"));
    assert!(!biber_check("a, @b"));
    assert!(references_ok(true, LinkType::Inline, "https://x.org", "", false));
    assert!(!references_ok(true, LinkType::Inline, "", "", false));
    assert!(!references_ok(true, LinkType::Inline, "#", "", false));
    assert!(references_ok(true, LinkType::ShortcutUnknown, "", "@a, @b", false));
    assert!(references_ok(false, LinkType::ShortcutUnknown, "", "@a", false));
    assert!(!references_ok(true, LinkType::ShortcutUnknown, "", "foo", false));
    assert!(references_ok(true, LinkType::ShortcutUnknown, "", "foo", true));
}
