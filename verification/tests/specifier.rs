use msc::error::InstallError;
use msc::specifier::PackageSpecifier;

#[test]
fn parses_plain_specifier() {
    let spec = PackageSpecifier::parse("a/b").unwrap();
    assert_eq!(spec.author(), "a");
    assert_eq!(spec.name(), "b");
}

#[test]
fn parses_marked_specifier() {
    let spec = PackageSpecifier::parse("@a/b").unwrap();
    assert_eq!(spec.author(), "a");
    assert_eq!(spec.name(), "b");
}

#[test]
fn marked_and_plain_specifier_are_one_package() {
    let marked = PackageSpecifier::parse("@sesocell/profilestore").unwrap();
    let plain = PackageSpecifier::parse("sesocell/profilestore").unwrap();
    assert_eq!(marked, plain);
    assert_eq!(marked.author(), "sesocell");
    assert_eq!(marked.name(), "profilestore");
}

#[test]
fn parses_components_with_dashes_and_unicode() {
    let spec = PackageSpecifier::parse("@mosaic-games/übung_1").unwrap();
    assert_eq!(spec.author(), "mosaic-games");
    assert_eq!(spec.name(), "übung_1");
}

#[test]
fn rejects_text_without_separator() {
    assert_eq!(PackageSpecifier::parse("ab"), Err(InstallError::InvalidSpecifier));
    assert_eq!(PackageSpecifier::parse("@ab"), Err(InstallError::InvalidSpecifier));
    assert_eq!(PackageSpecifier::parse(""), Err(InstallError::InvalidSpecifier));
    assert_eq!(PackageSpecifier::parse("@"), Err(InstallError::InvalidSpecifier));
}

#[test]
fn rejects_text_with_two_separators() {
    assert_eq!(PackageSpecifier::parse("a/b/c"), Err(InstallError::InvalidSpecifier));
    assert_eq!(PackageSpecifier::parse("@a/b/c"), Err(InstallError::InvalidSpecifier));
    assert_eq!(PackageSpecifier::parse("a//b"), Err(InstallError::InvalidSpecifier));
}

#[test]
fn rejects_empty_components() {
    assert_eq!(PackageSpecifier::parse("/b"), Err(InstallError::InvalidSpecifier));
    assert_eq!(PackageSpecifier::parse("a/"), Err(InstallError::InvalidSpecifier));
    assert_eq!(PackageSpecifier::parse("@/b"), Err(InstallError::InvalidSpecifier));
    assert_eq!(PackageSpecifier::parse("@a/"), Err(InstallError::InvalidSpecifier));
    assert_eq!(PackageSpecifier::parse("/"), Err(InstallError::InvalidSpecifier));
}

#[test]
fn rejects_marker_inside() {
    assert_eq!(PackageSpecifier::parse("@@a/b"), Err(InstallError::InvalidSpecifier));
    assert_eq!(PackageSpecifier::parse("a@/b"), Err(InstallError::InvalidSpecifier));
    assert_eq!(PackageSpecifier::parse("a/@b"), Err(InstallError::InvalidSpecifier));
    assert_eq!(PackageSpecifier::parse("a/b@"), Err(InstallError::InvalidSpecifier));
}

#[test]
fn dependency_key_has_no_marker() {
    let spec = PackageSpecifier::parse("@x/y").unwrap();
    assert_eq!(spec.dependency_key(), "x/y");
    assert_eq!(spec.display_name(), "@x/y");
}

#[test]
fn key_and_display_name_parse_back() {
    let spec = PackageSpecifier::parse("@author/package").unwrap();
    assert_eq!(PackageSpecifier::parse(&spec.dependency_key()), Ok(spec.clone()));
    assert_eq!(PackageSpecifier::parse(&spec.display_name()), Ok(spec.clone()));
}

#[test]
fn every_error_has_a_message() {
    let errors = [
        InstallError::NotFound,
        InstallError::RemoteError { status: 500 },
        InstallError::TransportError,
        InstallError::ProtocolError,
        InstallError::InvalidSpecifier,
        InstallError::ManifestError,
        InstallError::LocalIo,
    ];
    for error in errors {
        assert!(!error.message().is_empty());
    }
    assert_eq!(
        InstallError::InvalidSpecifier.message(),
        "invalid package format, use @username/package-name or username/package-name"
    );
}
