//! The index facade: one configured root path, lookup of one package's
//! file, and the sync decision.
//!
//! The facade computes; the embedding application performs the I/O
//! around it. For a lookup the application reads the file the resolved
//! path names and hands its bytes in; for a sync round it observes the
//! mirror, asks which action to run, and runs it.

use vstd::prelude::*;
use crate::crate_file::Crate;
use crate::crate_file::Error;
use crate::crate_file::all_ws;
use crate::crate_file::spec_from_slice;
use crate::shard::resolve;
use crate::shard::spec_resolve;
use crate::sync::MirrorState;
use crate::sync::SyncAction;
use crate::sync::spec_sync_step;
use crate::sync::sync_step;

verus! {

/// The index at one configured root path.
#[derive(Clone, Debug, PartialEq)]
pub struct Index {
    pub path: String,
}

impl Index {
    /// An index at the given root, where the mirror lives or will live.
    pub fn new(path: String) -> (r: Index)
        ensures
            r.path@ == path@,
    {
        Index { path }
    }

    /// The configured root path.
    pub fn path(&self) -> (r: &str)
        ensures
            r@ == self.path@,
    {
        self.path.as_str()
    }

    /// One sync round on a mirror observed in the given state: retrieve
    /// it when absent, update it when present; either action leaves it
    /// present, so a second round never retrieves again. The embedding
    /// application performs the returned action.
    pub fn retrieve_or_update(&self, state: MirrorState) -> (r: (SyncAction, MirrorState))
        ensures
            r == spec_sync_step(state),
    {
        sync_step(state)
    }

    /// The path of a package's index file under this root: the root,
    /// a separator, and the sharded relative path; `None` exactly when
    /// the name does not resolve (empty or non-ASCII).
    pub fn crate_path(&self, name: &str) -> (r: Option<String>)
        ensures
            r is Some <==> spec_resolve(name@) is Some,
            r is Some ==> r->0@ == self.path@ + seq!['/'] + spec_resolve(name@)->0,
    {
        let rel = match resolve(name) {
            Some(rel) => rel,
            None => { return None; },
        };
        let mut p = self.path.clone();
        p.push('/');
        p.append(rel.as_str());
        Some(p)
    }

    /// Look one package up, given the content of its index file where
    /// one exists.
    ///
    /// A name that does not resolve, or a path with no file behind it,
    /// is a normal `None`. Existing content is parsed exactly as
    /// [`spec_from_slice`] fixes it, and a file that fails to parse
    /// surfaces its error: this single-entity lookup is strict, unlike
    /// a bulk scan.
    pub fn crate_from_content(&self, name: &str, content: Option<&Vec<u8>>) -> (r: Result<
        Option<Crate>,
        Error,
    >)
        requires
            content is Some ==> content->0@.len() < usize::MAX,
        ensures
            spec_resolve(name@) is None || content is None ==> r == Ok::<Option<Crate>, Error>(
                None),
            spec_resolve(name@) is Some && content is Some ==> (r is Ok <==> spec_from_slice(
                content->0@) is Ok),
            spec_resolve(name@) is Some && content is Some && r is Ok ==> r->Ok_0 is Some
                && (r->Ok_0->0)@ == spec_from_slice(content->0@)->Ok_0 && (r->Ok_0->0).wf(),
            spec_resolve(name@) is Some && content is Some && r is Err ==> r->Err_0
                == spec_from_slice(content->0@)->Err_0,
            spec_resolve(name@) is Some && content is Some ==> (r == Err::<Option<Crate>, Error>(
                Error::EmptyHistory) <==> all_ws(content->0@)),
            r is Ok && r->Ok_0 is Some ==> (r->Ok_0->0).wf(),
    {
        if resolve(name).is_none() {
            return Ok(None);
        }
        let bytes = match content {
            Some(b) => b,
            None => { return Ok(None); },
        };
        match Crate::from_slice(bytes.as_slice()) {
            Ok(c) => Ok(Some(c)),
            Err(e) => Err(e),
        }
    }
}

} // verus!
