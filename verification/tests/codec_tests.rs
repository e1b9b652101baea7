use crates_index::Crate;
use crates_index::DecodeError;
use crates_index::Dependency;
use crates_index::DependencyKind;
use crates_index::RawVersion;
use crates_index::Version;
use crates_index::decode_line;
use crates_index::encode;
use crates_index::hex_decode;
use crates_index::hex_encode;
use crates_index::lower;
use crates_index::validate;

fn sample_checksum() -> Vec<u8> {
    let mut b = Vec::new();
    let mut i = 0u32;
    while i < 32 {
        b.push((i * 7 % 256) as u8);
        i += 1;
    }
    b
}

fn plain_dependency() -> Dependency {
    Dependency {
        name: String::from("serde_lib"),
        req: String::from("^1"),
        features: vec![String::from("derive")],
        optional: false,
        default_features: true,
        target: None,
        kind: DependencyKind::Normal,
        package: Some(String::from("serde")),
    }
}

fn sample_version() -> Version {
    Version {
        name: String::from("sval"),
        vers: String::from("0.0.1"),
        deps: vec![plain_dependency()],
        cksum: sample_checksum(),
        features: vec![(String::from("std"), vec![String::from("alloc")])],
        yanked: false,
    }
}

#[test]
fn round_trip_with_normal_kind_and_absent_package() {
    let v = Version {
        name: String::from("toml"),
        vers: String::from("1.2.3"),
        deps: vec![Dependency {
            name: String::from("indexmap"),
            req: String::from("^2"),
            features: vec![],
            optional: true,
            default_features: false,
            target: None,
            kind: DependencyKind::Normal,
            package: None,
        }],
        cksum: sample_checksum(),
        features: vec![],
        yanked: false,
    };
    let line = encode(&v);
    assert!(!line.contains("\"kind\""));
    assert!(!line.contains("\"package\""));
    let back = decode_line(line.as_bytes()).unwrap();
    assert_eq!(back, v);
    assert_eq!(back.dependencies()[0].kind(), DependencyKind::Normal);
}

#[test]
fn round_trip_with_every_field_present() {
    let v = Version {
        name: String::from("winapi-util"),
        vers: String::from("0.1.5"),
        deps: vec![Dependency {
            name: String::from("winapi"),
            req: String::from("^0.3"),
            features: vec![String::from("std"), String::from("winerror")],
            optional: false,
            default_features: true,
            target: Some(String::from("cfg(windows)")),
            kind: DependencyKind::Build,
            package: Some(String::from("winapi-real")),
        }],
        cksum: sample_checksum(),
        features: vec![
            (String::from("alpha"), vec![String::from("beta")]),
            (String::from("beta"), vec![]),
        ],
        yanked: true,
    };
    let line = encode(&v);
    let back = decode_line(line.as_bytes()).unwrap();
    assert_eq!(back, v);
}

#[test]
fn round_trip_escapes_special_characters() {
    let mut v = sample_version();
    v.vers = String::from("1.0.0+quote\"back\\slash");
    let line = encode(&v);
    let back = decode_line(line.as_bytes()).unwrap();
    assert_eq!(back, v);
}

#[test]
fn encode_produces_the_exact_wire_line() {
    let v = Version {
        name: String::from("a"),
        vers: String::from("1.0.0"),
        deps: vec![],
        cksum: vec![0u8; 32],
        features: vec![],
        yanked: false,
    };
    let zeros: String = std::iter::repeat('0').take(64).collect();
    let expected = format!(
        "{{\"name\":\"a\",\"vers\":\"1.0.0\",\"deps\":[],\"cksum\":\"{}\",\"features\":{{}},\"yanked\":false}}",
        zeros
    );
    assert_eq!(encode(&v), expected);
}

#[test]
fn decode_parses_a_real_index_line() {
    let mut line = String::new();
    line.push_str("{\"name\":\"sval\",\"vers\":\"0.0.1\",\"deps\":[{\"name\":\"serde_lib\",");
    line.push_str("\"req\":\"^1.0\",\"features\":[],\"optional\":true,\"default_features\":false,");
    line.push_str("\"target\":null,\"kind\":\"normal\",\"package\":\"serde\"}],");
    line.push_str("\"cksum\":\"3f5b3bd9bfba1b3f3f418eab3aa6a53e1f1b78d4a52236410e19ce22da0a034a\",");
    line.push_str("\"features\":{\"std\":[\"serde_lib/std\"]},\"yanked\":false}");
    let v = decode_line(line.as_bytes()).unwrap();
    assert_eq!(v.name(), "sval");
    assert_eq!(v.version(), "0.0.1");
    assert_eq!(v.checksum().len(), 32);
    assert_eq!(v.checksum()[0], 0x3f);
    assert!(!v.is_yanked());
    let dep = &v.dependencies()[0];
    assert_eq!(dep.name(), "serde_lib");
    assert_eq!(dep.requirement(), "^1.0");
    assert!(dep.is_optional());
    assert!(!dep.has_default_features());
    assert_eq!(dep.target(), None);
    assert_eq!(dep.kind(), DependencyKind::Normal);
    assert_eq!(dep.package(), Some("serde"));
    assert_eq!(v.features()[0].0, "std");
}

#[test]
fn checksum_of_63_characters_is_rejected() {
    let short: String = std::iter::repeat('a').take(63).collect();
    let line = format!(
        "{{\"name\":\"x\",\"vers\":\"1.0.0\",\"deps\":[],\"cksum\":\"{}\",\"features\":{{}},\"yanked\":false}}",
        short
    );
    assert_eq!(decode_line(line.as_bytes()), Err(DecodeError::ChecksumFormat));
}

#[test]
fn checksum_with_non_hex_content_is_rejected() {
    let bad: String = std::iter::repeat('g').take(64).collect();
    let line = format!(
        "{{\"name\":\"x\",\"vers\":\"1.0.0\",\"deps\":[],\"cksum\":\"{}\",\"features\":{{}},\"yanked\":false}}",
        bad
    );
    assert_eq!(decode_line(line.as_bytes()), Err(DecodeError::ChecksumFormat));
}

#[test]
fn missing_required_field_is_rejected() {
    let line = b"{\"name\":\"x\",\"deps\":[],\"features\":{},\"yanked\":false}";
    assert_eq!(decode_line(line), Err(DecodeError::MissingField));
}

#[test]
fn unknown_kind_string_is_rejected() {
    let zeros: String = std::iter::repeat('0').take(64).collect();
    let line = format!(
        "{{\"name\":\"x\",\"vers\":\"1.0.0\",\"deps\":[{{\"name\":\"d\",\"req\":\"*\",\"features\":[],\"optional\":false,\"default_features\":true,\"kind\":\"weird\"}}],\"cksum\":\"{}\",\"features\":{{}},\"yanked\":false}}",
        zeros
    );
    assert_eq!(decode_line(line.as_bytes()), Err(DecodeError::FieldType));
}

#[test]
fn wrongly_typed_field_is_rejected() {
    let line = b"{\"name\":7,\"vers\":\"1.0.0\",\"deps\":[],\"cksum\":\"00\",\"features\":{},\"yanked\":false}";
    assert_eq!(decode_line(line), Err(DecodeError::FieldType));
}

#[test]
fn malformed_json_line_is_rejected() {
    assert_eq!(decode_line(b""), Err(DecodeError::Json));
    assert_eq!(decode_line(b"{not json"), Err(DecodeError::Json));
}

#[test]
fn a_line_that_is_no_object_is_rejected() {
    assert_eq!(decode_line(b"[1,2]"), Err(DecodeError::FieldType));
    assert_eq!(decode_line(b"7"), Err(DecodeError::FieldType));
    assert_eq!(decode_line(b"\"text\""), Err(DecodeError::FieldType));
}

#[test]
fn null_kind_counts_as_absent() {
    let zeros: String = std::iter::repeat('0').take(64).collect();
    let line = format!(
        "{{\"name\":\"x\",\"vers\":\"1.0.0\",\"deps\":[{{\"name\":\"d\",\"req\":\"*\",\"features\":[],\"optional\":false,\"default_features\":true,\"kind\":null,\"package\":null}}],\"cksum\":\"{}\",\"features\":{{}},\"yanked\":false}}",
        zeros
    );
    let v = decode_line(line.as_bytes()).unwrap();
    assert_eq!(v.dependencies()[0].kind(), DependencyKind::Normal);
    assert_eq!(v.dependencies()[0].package(), None);
}

#[test]
fn dependency_kind_defaults_to_normal_when_absent() {
    let zeros: String = std::iter::repeat('0').take(64).collect();
    let line = format!(
        "{{\"name\":\"x\",\"vers\":\"1.0.0\",\"deps\":[{{\"name\":\"d\",\"req\":\"*\",\"features\":[],\"optional\":false,\"default_features\":true}}],\"cksum\":\"{}\",\"features\":{{}},\"yanked\":false}}",
        zeros
    );
    let v = decode_line(line.as_bytes()).unwrap();
    let dep = &v.dependencies()[0];
    assert_eq!(dep.kind(), DependencyKind::Normal);
    assert_eq!(dep.package(), None);
    assert_eq!(dep.crate_name(), "d");
}

#[test]
fn dependency_kinds_round_trip_on_the_wire() {
    for kind in [DependencyKind::Dev, DependencyKind::Build] {
        let mut v = sample_version();
        v.deps[0].kind = kind;
        let line = encode(&v);
        assert!(line.contains("\"kind\""));
        let back = decode_line(line.as_bytes()).unwrap();
        assert_eq!(back.dependencies()[0].kind(), kind);
        assert_eq!(back, v);
    }
}

#[test]
fn crate_name_resolves_the_alias() {
    let dep = plain_dependency();
    assert_eq!(dep.name(), "serde_lib");
    assert_eq!(dep.package(), Some("serde"));
    assert_ne!(dep.name(), dep.package().unwrap());
    assert_eq!(dep.crate_name(), "serde");
}

#[test]
fn crate_name_falls_back_to_the_declared_name() {
    let mut dep = plain_dependency();
    dep.package = None;
    assert_eq!(dep.crate_name(), "serde_lib");
}

#[test]
fn hex_codec_round_trips_and_rejects() {
    let b = sample_checksum();
    let s = hex_encode(&b);
    assert_eq!(s.len(), 64);
    assert_eq!(hex_decode(&s), Some(b));
    assert_eq!(hex_decode("00ff"), Some(vec![0u8, 255u8]));
    assert_eq!(hex_decode("00FF"), Some(vec![0u8, 255u8]));
    assert_eq!(hex_decode("0"), None);
    assert_eq!(hex_decode("0g"), None);
    assert_eq!(hex_encode(&vec![0u8, 255u8]), "00ff");
}

#[test]
fn lowering_then_validating_gives_the_record_back() {
    let v = sample_version();
    let raw = lower(&v);
    let dep = &raw.deps.as_ref().unwrap()[0];
    assert_eq!(dep.kind, None);
    assert_eq!(dep.package.as_deref(), Some("serde"));
    assert_eq!(raw.cksum.as_ref().unwrap().len(), 64);
    assert_eq!(validate(&raw), Ok(v));
}

#[test]
fn lowering_spells_out_a_non_default_kind() {
    let mut v = sample_version();
    v.deps[0].kind = DependencyKind::Dev;
    let raw = lower(&v);
    assert_eq!(raw.deps.as_ref().unwrap()[0].kind.as_deref(), Some("dev"));
    assert_eq!(validate(&raw), Ok(v));
}

#[test]
fn validate_reports_each_missing_field() {
    let raw = RawVersion {
        name: None,
        vers: Some(String::from("1.0.0")),
        deps: Some(vec![]),
        cksum: Some(hex_encode(&vec![0u8; 32])),
        features: Some(vec![]),
        yanked: Some(false),
    };
    assert!(matches!(validate(&raw), Err(DecodeError::MissingField)));
}

#[test]
fn validate_rejects_duplicate_feature_keys() {
    let raw = RawVersion {
        name: Some(String::from("x")),
        vers: Some(String::from("1.0.0")),
        deps: Some(vec![]),
        cksum: Some(hex_encode(&vec![0u8; 32])),
        features: Some(vec![
            (String::from("k"), vec![]),
            (String::from("k"), vec![String::from("other")]),
        ]),
        yanked: Some(false),
    };
    assert!(matches!(validate(&raw), Err(DecodeError::FieldType)));
}

#[test]
fn supports_debug_formatting() {
    let parsed = Crate::from_slice(encode(&sample_version()).as_bytes()).unwrap();
    let _ = format!("supports debug {:?}", parsed);
}
