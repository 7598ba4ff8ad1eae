//! Changing the origin of a deployment in place.
use vstd::prelude::*;
use vstd::string::StringExecFns;

use crate::error::DeployError;
use crate::stage::{is_origin_of, origin_from_imageref, Origin};

verus! {

/// Where the stateroots lie.
pub const DEPLOY_ROOT: &'static str = "sysroot/ostree/deploy";

/// The directory of a stateroot that holds its deployments.
pub const DEPLOY_DIR: &'static str = "deploy";

/// What is found while the stateroots are searched.
#[derive(Debug, Clone, Copy, PartialEq, Eq, Structural)]
pub enum Found {
    /// No further entry.
    Nothing,
    /// An entry that is not a directory.
    Other,
    /// A directory without a directory of deployments in it.
    Empty,
    /// A directory with a directory of deployments in it.
    Deployments,
}

/// What is to be done next.
#[derive(Debug, Clone, Copy, PartialEq, Eq, Structural)]
pub enum Search {
    /// Look at the next entry.
    Continue,
    /// Take the directory of deployments that was found.
    Take,
}

/// What is to be done on what was found; nothing can be done when the entries have ended.
pub open spec fn next_search(found: Found) -> Option<Search> {
    match found {
        Found::Nothing => None,
        Found::Other => Some(Search::Continue),
        Found::Empty => Some(Search::Continue),
        Found::Deployments => Some(Search::Take),
    }
}

/// What is to be done on what was found.
pub fn search_step(found: Found) -> (r: Result<Search, DeployError>)
    ensures
        r is Ok <==> next_search(found) is Some,
        r is Ok ==> r->Ok_0 == next_search(found)->0,
        r is Err ==> r->Err_0 is NoDeployment,
        r is Err <==> found is Nothing,
        r is Ok ==> (r->Ok_0 is Take <==> found is Deployments),
{
    match found {
        Found::Nothing => Err(DeployError::NoDeployment),
        Found::Other => Ok(Search::Continue),
        Found::Empty => Ok(Search::Continue),
        Found::Deployments => Ok(Search::Take),
    }
}

/// The name of an entry if it counts as a deployment: it is a directory whose name is Unicode.
pub fn deployment_entry(is_dir: bool, name: Option<&str>) -> (r: Option<String>)
    ensures
        r is Some <==> is_dir && name is Some,
        r is Some ==> r->0@ == name->0@,
{
    if !is_dir {
        return None;
    }
    match name {
        Some(n) => Some(n.to_owned()),
        None => None,
    }
}

/// A deployment directory: its name, and when it was last modified.
#[derive(Debug)]
pub struct DeploymentDir {
    pub name: String,
    pub mtime: i64,
}

/// Whether the directory at `i` was modified last; there may be more than one such.
pub open spec fn is_newest(dirs: Seq<DeploymentDir>, i: int) -> bool {
    &&& 0 <= i < dirs.len()
    &&& forall|k: int| 0 <= k < dirs.len() ==> (#[trigger] dirs[k]).mtime <= dirs[i].mtime
}

/// Whether the name is that of a directory that was modified last.
pub open spec fn names_newest(dirs: Seq<DeploymentDir>, name: Seq<char>) -> bool {
    exists|i: int| #[trigger] is_newest(dirs, i) && dirs[i].name@ == name
}

/// The name of the directory that was modified last; of several such, one of them.
pub fn find_newest_deployment_name(dirs: &Vec<DeploymentDir>) -> (r: Result<String, DeployError>)
    ensures
        r is Ok <==> dirs@.len() > 0,
        r is Ok ==> names_newest(dirs@, r->Ok_0@),
        r is Ok ==> exists|i: int|
            {
                &&& 0 <= i < dirs@.len()
                &&& (#[trigger] dirs@[i]).name@ == r->Ok_0@
                &&& forall|k: int| 0 <= k < dirs@.len() ==> dirs@[i].mtime >= (
                #[trigger] dirs@[k]).mtime
            },
        r is Err ==> r->Err_0 is NoDeploymentDirectory,
{
    if dirs.len() == 0 {
        return Err(DeployError::NoDeploymentDirectory);
    }
    let mut best: usize = 0;
    let mut i: usize = 1;
    while i < dirs.len()
        invariant
            best < i <= dirs.len(),
            forall|k: int| 0 <= k < i ==> (#[trigger] dirs@[k]).mtime <= dirs@[best as int].mtime,
        decreases dirs.len() - i,
    {
        if dirs[i].mtime >= dirs[best].mtime {
            best = i;
        }
        i = i + 1;
    }
    assert(is_newest(dirs@, best as int));
    Ok(dirs[best].name.clone())
}

/// A change of origin that is to be made.
#[derive(Debug)]
pub struct SwitchInplace {
    /// The deployment whose origin is changed.
    pub deployment: String,
    /// The file that holds it, beside the deployment.
    pub origin_path: String,
    /// What that file is to hold.
    pub origin: Origin,
}

/// The deployment whose origin is changed, the newest one, the file that holds it, and the new origin.
/// The image is written with its transport and signature source.
pub fn switch_origin_inplace(dirs: &Vec<DeploymentDir>, imgref: &str) -> (r: Result<
    SwitchInplace,
    DeployError,
>)
    ensures
        r is Ok <==> dirs@.len() > 0,
        r is Ok ==> names_newest(dirs@, r->Ok_0.deployment@),
        r is Ok ==> exists|i: int|
            {
                &&& 0 <= i < dirs@.len()
                &&& (#[trigger] dirs@[i]).name@ == r->Ok_0.deployment@
                &&& forall|k: int| 0 <= k < dirs@.len() ==> dirs@[i].mtime >= (
                #[trigger] dirs@[k]).mtime
            },
        r is Ok ==> r->Ok_0.origin_path@ == r->Ok_0.deployment@ + ".origin"@,
        r is Ok ==> is_origin_of(r->Ok_0.origin, imgref@),
        r is Ok ==> r->Ok_0.origin.group@ == "origin"@,
        r is Ok ==> r->Ok_0.origin.key@ == "container-image-reference"@,
        r is Ok ==> r->Ok_0.origin.value@ == imgref@,
        r is Err ==> r->Err_0 is NoDeploymentDirectory,
{
    match find_newest_deployment_name(dirs) {
        Ok(deployment) => {
            let origin_path = deployment.clone().concat(".origin");
            let origin = origin_from_imageref(imgref);
            Ok(SwitchInplace { deployment, origin_path, origin })
        },
        Err(e) => Err(e),
    }
}

// ---------------------------------------------------------------------------
// Laws

/// What the search ends in: the position of the entry that is taken, or nothing.
pub open spec fn search(found: Seq<Found>) -> Option<int>
    decreases found.len(),
{
    if found.len() == 0 {
        None
    } else {
        match next_search(found[0]) {
            None => None,
            Some(Search::Take) => Some(0),
            Some(Search::Continue) => match search(found.skip(1)) {
                Some(i) => Some(i + 1),
                None => None,
            },
        }
    }
}

/// The search takes the first directory with deployments in it, and fails only if there is none
/// before the entries end.
pub proof fn search_takes_first(found: Seq<Found>)
    ensures
        match search(found) {
            Some(i) => {
                &&& 0 <= i < found.len()
                &&& found[i] is Deployments
                &&& forall|k: int|
                    0 <= k < i ==> !((#[trigger] found[k]) is Deployments) && !(found[k] is Nothing)
            },
            None => forall|k: int|
                0 <= k < found.len() && (#[trigger] found[k]) is Deployments ==> exists|m: int|
                    0 <= m < k && (#[trigger] found[m]) is Nothing,
        },
    decreases found.len(),
{
    if found.len() > 0 && !(found[0] is Nothing) && !(found[0] is Deployments) {
        let rest = found.skip(1);
        search_takes_first(rest);
        assert(forall|k: int| 0 <= k < rest.len() ==> #[trigger] rest[k] == found[k + 1]);
        match search(rest) {
            Some(i) => {
                assert forall|k: int| 0 <= k < i + 1 implies !((#[trigger] found[k]) is Deployments)
                    && !(found[k] is Nothing) by {
                    if k > 0 {
                        assert(rest[k - 1] == found[k]);
                    }
                }
            },
            None => {
                assert forall|k: int|
                    0 <= k < found.len() && (#[trigger] found[k]) is Deployments implies exists|
                    m: int,
                |
                    0 <= m < k && (#[trigger] found[m]) is Nothing by {
                    assert(rest[k - 1] == found[k]);
                    let m = choose|m: int| 0 <= m < k - 1 && (#[trigger] rest[m]) is Nothing;
                    assert(found[m + 1] is Nothing);
                }
            },
        }
    }
}

/// Where one directory was modified after all others, the name is fixed.
pub proof fn newest_is_unique(dirs: Seq<DeploymentDir>, i: int, name: Seq<char>)
    requires
        0 <= i < dirs.len(),
        forall|k: int| 0 <= k < dirs.len() && k != i ==> (#[trigger] dirs[k]).mtime < dirs[i].mtime,
    ensures
        names_newest(dirs, name) <==> name == dirs[i].name@,
{
    assert(is_newest(dirs, i));
    if names_newest(dirs, name) {
        let k = choose|k: int| #[trigger] is_newest(dirs, k) && dirs[k].name@ == name;
        assert(dirs[i].mtime <= dirs[k].mtime);
    }
}

/// The directories that are searched.
pub proof fn names_of_directories()
    ensures
        DEPLOY_ROOT@ == "sysroot/ostree/deploy"@,
        DEPLOY_DIR@ == "deploy"@,
{
}

} // verus!
