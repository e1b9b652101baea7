use crates_index::Crate;
use crates_index::DecodeError;
use crates_index::Dependency;
use crates_index::DependencyKind;
use crates_index::Error;
use crates_index::Index;
use crates_index::ParsePolicy;
use crates_index::Version;
use crates_index::admit_entry;
use crates_index::encode;

fn version(name: &str, vers: &str) -> Version {
    Version {
        name: String::from(name),
        vers: String::from(vers),
        deps: vec![Dependency {
            name: String::from("dep"),
            req: String::from("*"),
            features: vec![],
            optional: false,
            default_features: true,
            target: None,
            kind: DependencyKind::Normal,
            package: None,
        }],
        cksum: vec![7u8; 32],
        features: vec![],
        yanked: false,
    }
}

fn file_of(versions: &[Version]) -> Vec<u8> {
    let mut out = Vec::new();
    for v in versions {
        out.extend_from_slice(encode(v).as_bytes());
        out.push(b'\n');
    }
    out
}

#[test]
fn empty_file_is_empty_history() {
    assert_eq!(Crate::from_slice(b""), Err(Error::EmptyHistory));
}

#[test]
fn newline_only_file_is_empty_history() {
    assert_eq!(Crate::from_slice(b"\n"), Err(Error::EmptyHistory));
    assert_eq!(Crate::from_slice(b"\n\n\n"), Err(Error::EmptyHistory));
}

#[test]
fn whitespace_only_file_is_empty_history() {
    assert_eq!(Crate::from_slice(b"  \t\r\n"), Err(Error::EmptyHistory));
    assert_eq!(Crate::from_slice(b" \n \n"), Err(Error::EmptyHistory));
}

#[test]
fn one_record_per_line_in_file_order() {
    let newer = version("pkg", "2.0.0");
    let older = version("pkg", "1.0.0");
    let bytes = file_of(&[newer.clone(), older.clone()]);
    let parsed = Crate::from_slice(&bytes).unwrap();
    assert_eq!(parsed.versions().len(), 2);
    assert_eq!(parsed.name(), "pkg");
    assert_eq!(parsed.earliest_version().version(), "2.0.0");
    assert_eq!(parsed.latest_version().version(), "1.0.0");
}

#[test]
fn trailing_newline_is_optional() {
    let v = version("pkg", "1.0.0");
    let with_newline = file_of(&[v.clone()]);
    let mut without_newline = with_newline.clone();
    without_newline.pop();
    let a = Crate::from_slice(&with_newline).unwrap();
    let b = Crate::from_slice(&without_newline).unwrap();
    assert_eq!(a, b);
    assert_eq!(a.versions().len(), 1);
}

#[test]
fn corrupt_line_surfaces_a_decode_error() {
    let mut bytes = file_of(&[version("pkg", "1.0.0")]);
    bytes.extend_from_slice(b"{corrupt\n");
    assert!(matches!(Crate::from_slice(&bytes), Err(Error::Decode(DecodeError::Json))));
}

#[test]
fn lenient_scan_skips_what_strict_lookup_surfaces() {
    let corrupt = Crate::from_slice(b"{corrupt");
    let valid = Crate::from_slice(&file_of(&[version("pkg", "1.0.0")]));
    assert!(corrupt.is_err());
    assert!(valid.is_ok());
    assert_eq!(admit_entry(ParsePolicy::SkipInvalid, corrupt.clone()), Ok(None));
    let kept = admit_entry(ParsePolicy::SkipInvalid, valid.clone()).unwrap();
    assert_eq!(kept.unwrap().name(), "pkg");
    assert!(matches!(
        admit_entry(ParsePolicy::Strict, corrupt),
        Err(Error::Decode(DecodeError::Json))
    ));
    assert!(admit_entry(ParsePolicy::Strict, valid).unwrap().is_some());
}

#[test]
fn lookup_is_strict_about_existing_content() {
    let index = Index::new(String::from("root"));
    let corrupt: Vec<u8> = b"{corrupt".to_vec();
    let good = file_of(&[version("pkg", "1.0.0")]);
    assert!(matches!(
        index.crate_from_content("pkg", Some(&corrupt)),
        Err(Error::Decode(DecodeError::Json))
    ));
    let found = index.crate_from_content("pkg", Some(&good)).unwrap().unwrap();
    assert_eq!(found.name(), "pkg");
}

#[test]
fn lookup_misses_are_not_errors() {
    let index = Index::new(String::from("root"));
    assert_eq!(index.crate_from_content("pkg", None), Ok(None));
    assert_eq!(index.crate_from_content("\u{7121}", None), Ok(None));
    let good = file_of(&[version("pkg", "1.0.0")]);
    assert_eq!(index.crate_from_content("\u{7121}", Some(&good)), Ok(None));
    assert_eq!(index.crate_from_content("", Some(&good)), Ok(None));
}

#[test]
fn empty_content_in_lookup_is_empty_history() {
    let index = Index::new(String::from("root"));
    let empty: Vec<u8> = Vec::new();
    assert_eq!(index.crate_from_content("pkg", Some(&empty)), Err(Error::EmptyHistory));
}
