//! A read/sync client for a sharded, version-controlled package index:
//! path sharding, tree enumeration patterns, the line-oriented record
//! codec with its data model, and the mirror synchronization state machine.

mod codec;
mod crate_file;
mod hex;
mod index;
mod json;
mod model;
mod render;
mod shard;
mod strings;
mod sync;
mod tree;

pub use codec::DecodeError;
pub use codec::RawDependency;
pub use codec::RawDependencyView;
pub use codec::RawVersion;
pub use codec::RawVersionView;
pub use codec::features_unique;
pub use codec::kind_from_str;
pub use codec::lemma_validate_lower;
pub use codec::lower;
pub use codec::lower_dep;
pub use codec::raw_deps_view;
pub use codec::spec_kind_of;
pub use codec::spec_kind_str;
pub use codec::spec_lower;
pub use codec::spec_lower_dep;
pub use codec::spec_validate;
pub use codec::spec_validate_dep;
pub use codec::spec_validate_deps;
pub use codec::validate;
pub use codec::validate_dep;
pub use index::Index;
pub use tree::ParsePolicy;
pub use tree::admit_entry;
pub use tree::chain_passes;
pub use tree::deep_pattern;
pub use tree::deep_shape;
pub use tree::flat_pattern;
pub use tree::flat_shape;
pub use tree::lemma_resolve_pass_coverage;
pub use tree::plain_name;
pub use tree::seg_ok;
pub use crate_file::Crate;
pub use crate_file::Error;
pub use crate_file::all_ws;
pub use crate_file::first_nl;
pub use crate_file::spec_from_slice;
pub use crate_file::spec_parse_history;
pub use crate_file::is_ws;
pub use crate_file::trim_trailing_newlines;
pub use crate_file::versions_view;
pub use json::Json;
pub use json::decode_line;
pub use json::json_of;
pub use json::spec_bool_field;
pub use json::spec_decode_line;
pub use json::spec_feature_items;
pub use json::spec_get;
pub use json::spec_obj;
pub use json::spec_opt_str_field;
pub use json::spec_raw_dep_of;
pub use json::spec_raw_deps;
pub use json::spec_raw_of_json;
pub use json::spec_str_field;
pub use json::spec_str_items;
pub use json::spec_str_list_field;
pub use render::comma_joined;
pub use render::encode;
pub use render::json_escape;
pub use render::json_escape_char;
pub use render::quoted;
pub use render::render_bool;
pub use render::render_dep;
pub use render::render_features;
pub use render::render_str_list;
pub use render::render_version;
pub use hex::hex_decode;
pub use hex::hex_encode;
pub use hex::hex_decoded;
pub use hex::hex_encoded;
pub use hex::hex_valid;
pub use hex::is_hex_char;
pub use hex::lemma_hex_round_trip;
pub use model::Dependency;
pub use model::DependencyKind;
pub use model::DependencyView;
pub use model::Version;
pub use model::VersionView;
pub use model::deps_view;
pub use shard::lower_char;
pub use shard::lower_chars;
pub use shard::lower_str;
pub use shard::lemma_lower_chars_basic;
pub use shard::lemma_resolve_case_insensitive;
pub use shard::resolve;
pub use shard::spec_lower_char;
pub use shard::spec_resolve;
pub use sync::MirrorProbe;
pub use sync::MirrorState;
pub use sync::SyncAction;
pub use sync::canonical_upstream;
pub use sync::mirror_state;
pub use sync::sync_step;
