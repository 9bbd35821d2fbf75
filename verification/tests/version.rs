use yarner_toc::version::version_warning;

#[test]
fn same_version_gives_no_warning() {
    assert_eq!(version_warning("toc", "0.6.1", "0.6.1"), None);
    assert_eq!(version_warning("", "", ""), None);
}

#[test]
fn other_version_gives_the_warning() {
    assert_eq!(
        version_warning("toc", "0.6.1", "0.5.2"),
        Some(
            "  Warning: The toc plugin was built against version 0.6.1 of Yarner, \
             but we're being called from version 0.5.2"
                .to_string()
        )
    );
}

#[test]
fn versions_are_compared_as_text() {
    assert!(version_warning("toc", "1.0", "1.0.0").is_some());
    assert!(version_warning("toc", "1.0", " 1.0").is_some());
    assert_eq!(
        version_warning("p", "a", "b"),
        Some(
            "  Warning: The p plugin was built against version a of Yarner, \
             but we're being called from version b"
                .to_string()
        )
    );
}
