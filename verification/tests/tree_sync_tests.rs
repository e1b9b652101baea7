use crates_index::Index;
use crates_index::MirrorProbe;
use crates_index::MirrorState;
use crates_index::SyncAction;
use crates_index::canonical_upstream;
use crates_index::chain_passes;
use crates_index::deep_pattern;
use crates_index::flat_pattern;
use crates_index::mirror_state;
use crates_index::resolve;
use crates_index::sync_step;

#[test]
fn the_two_pass_patterns() {
    assert_eq!(deep_pattern("root"), "root/*/*/*");
    assert_eq!(flat_pattern("root"), "root/[12]/*");
    assert_eq!(deep_pattern("/tmp/index"), "/tmp/index/*/*/*");
}

#[test]
fn passes_are_chained_deep_before_flat() {
    let deep = vec![String::from("se/rd/serde"), String::from("3/g/gcc")];
    let flat = vec![String::from("1/a"), String::from("2/cc")];
    let all = chain_passes(deep, flat);
    assert_eq!(all, vec![
        String::from("se/rd/serde"),
        String::from("3/g/gcc"),
        String::from("1/a"),
        String::from("2/cc"),
    ]);
}

#[test]
fn each_bucket_shape_falls_under_one_pass() {
    // one fixture name per bucket shape; the flat pass covers the
    // short ones, the three-segment pass the rest
    let one = resolve("a").unwrap();
    let two = resolve("cc").unwrap();
    let three = resolve("gcc").unwrap();
    let four = resolve("serde").unwrap();
    assert_eq!(one.matches('/').count(), 1);
    assert!(one.starts_with("1/"));
    assert_eq!(two.matches('/').count(), 1);
    assert!(two.starts_with("2/"));
    assert_eq!(three.matches('/').count(), 2);
    assert_eq!(four.matches('/').count(), 2);
}

#[test]
fn probe_observations_decide_presence() {
    assert_eq!(mirror_state(&MirrorProbe::NoWorkingCopy), MirrorState::Absent);
    assert_eq!(mirror_state(&MirrorProbe::NoOrigin), MirrorState::Present);
    assert_eq!(mirror_state(&MirrorProbe::Origin(None)), MirrorState::Present);
    assert_eq!(
        mirror_state(&MirrorProbe::Origin(Some(canonical_upstream()))),
        MirrorState::Present
    );
    assert_eq!(
        mirror_state(&MirrorProbe::Origin(Some(String::from("https://example.com/other")))),
        MirrorState::Absent
    );
}

#[test]
fn canonical_upstream_is_the_index_repository() {
    assert_eq!(canonical_upstream(), "https://github.com/rust-lang/crates.io-index");
}

#[test]
fn sync_retrieves_once_and_then_only_updates() {
    let index = Index::new(String::from("root"));
    let (first_action, after_first) = index.retrieve_or_update(MirrorState::Absent);
    assert_eq!(first_action, SyncAction::Retrieve);
    assert_eq!(after_first, MirrorState::Present);
    let (second_action, after_second) = index.retrieve_or_update(after_first);
    assert_eq!(second_action, SyncAction::Update);
    assert_eq!(after_second, MirrorState::Present);
    let (third_action, _) = index.retrieve_or_update(after_second);
    assert_eq!(third_action, SyncAction::Update);
}

#[test]
fn an_existing_mirror_is_never_cloned_over() {
    assert_eq!(sync_step(MirrorState::Present).0, SyncAction::Update);
    assert_eq!(sync_step(MirrorState::Absent), (SyncAction::Retrieve, MirrorState::Present));
}
