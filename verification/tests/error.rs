//! How failures are reported.

use arkyve_refresh_shop::error::Error;

fn denied() -> String {
    std::io::Error::from(std::io::ErrorKind::PermissionDenied).to_string()
}

#[test]
fn report_appends_the_cause_that_display_no_longer_inlines() {
    let err = Error::ConfigWrite {
        path: "C:/Users/x/config.toml".to_owned(),
        causes: vec![denied()],
    };
    // One layer each, neither repeated.
    let displayed = err.to_text();
    assert_eq!(displayed, "could not write C:/Users/x/config.toml");
    let reported = err.report();
    assert!(
        reported.starts_with(&format!("{displayed}: ")),
        "{reported}"
    );
    assert!(reported.contains(&denied()), "{reported}");
}

#[test]
fn report_of_a_sourceless_variant_is_just_its_message() {
    let err = Error::Capture("no adapter".to_owned());
    assert_eq!(err.report(), err.to_text());
    assert_eq!(err.report(), "network capture: no adapter");
}

#[test]
fn no_variants_display_repeats_its_own_source() {
    let text = std::io::Error::from(std::io::ErrorKind::NotFound).to_string();
    for err in [
        Error::ConfigRead {
            path: "p".to_owned(),
            causes: vec![text.clone()],
        },
        Error::ConfigWrite {
            path: "p".to_owned(),
            causes: vec![text.clone()],
        },
    ] {
        assert!(!err.to_text().contains(&text), "{err:?}");
        assert_eq!(err.report().matches(text.as_str()).count(), 1, "{err:?}");
    }
}

#[test]
fn every_variant_has_its_message() {
    let causes = vec!["why".to_owned(), "and why that".to_owned()];
    assert_eq!(Error::Config("x".to_owned()).to_text(), "invalid configuration: x");
    assert_eq!(
        Error::ConfigParse { causes: causes.clone() }.report(),
        "config.toml is not valid: why: and why that"
    );
    assert_eq!(
        Error::ConfigReparse { causes: causes.clone() }.to_text(),
        "config.toml could not be re-parsed to be edited"
    );
    assert_eq!(
        Error::ConfigSerialize { causes }.to_text(),
        "a config section could not be serialized"
    );
    assert_eq!(Error::Fatal("gone".to_owned()).report(), "gone");
}
