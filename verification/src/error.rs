//! What can go wrong.
use vstd::prelude::*;
use vstd::string::StringExecFns;

verus! {

/// The errors of the library.
#[derive(Debug)]
pub enum DeployError {
    /// A host specification names no image.
    MissingImage,
    /// A change of the specification sets both the boot order and the image.
    RollbackWithImageChange,
    /// There is nothing to roll back to.
    NoRollback,
    /// What there is to roll back to did not come from a container image.
    RollbackNotContainer,
    /// No merge deployment exists for the named stateroot.
    NoMergeDeployment { stateroot: String },
    /// The filesystem is too full to fetch the image.
    InsufficientSpace { image: String, available: u64, required: u64 },
    /// No stateroot with deployments was found.
    NoDeployment,
    /// A stateroot holds no deployment directory.
    NoDeploymentDirectory,
}

/// The message of an error; the sizes in it are given as text.
pub open spec fn message_text(e: DeployError, available: Seq<char>, required: Seq<char>) -> Seq<
    char,
> {
    match e {
        DeployError::MissingImage => "Missing image in specification"@,
        DeployError::RollbackWithImageChange =>
            "Invalid state transition: rollback and image change"@,
        DeployError::NoRollback => "No rollback available"@,
        DeployError::RollbackNotContainer => "Rollback is not container image based"@,
        DeployError::NoMergeDeployment { stateroot } =>
            "No merge deployment found for stateroot "@ + stateroot@,
        DeployError::InsufficientSpace { image, .. } => "Insufficient free space for "@ + image@
            + " (available: "@ + available + " required: "@ + required + ")"@,
        DeployError::NoDeployment => "Failed to find a deployment"@,
        DeployError::NoDeploymentDirectory => "No deployment directory found"@,
    }
}

impl DeployError {
    /// The message, with `available` and `required` in place of the sizes of `InsufficientSpace`.
    pub fn message(&self, available: &str, required: &str) -> (r: String)
        ensures
            r@ == message_text(*self, available@, required@),
            self is MissingImage ==> r@ == "Missing image in specification"@,
            self is RollbackWithImageChange ==> r@
                == "Invalid state transition: rollback and image change"@,
            self is NoRollback ==> r@ == "No rollback available"@,
            self is RollbackNotContainer ==> r@ == "Rollback is not container image based"@,
            self is NoMergeDeployment ==> r@ == "No merge deployment found for stateroot "@
                + self->stateroot@,
            self is InsufficientSpace ==> r@ == "Insufficient free space for "@ + self->image@
                + " (available: "@ + available@ + " required: "@ + required@ + ")"@,
            self is NoDeployment ==> r@ == "Failed to find a deployment"@,
            self is NoDeploymentDirectory ==> r@ == "No deployment directory found"@,
    {
        match self {
            DeployError::MissingImage => "Missing image in specification".to_owned(),
            DeployError::RollbackWithImageChange =>
                "Invalid state transition: rollback and image change".to_owned(),
            DeployError::NoRollback => "No rollback available".to_owned(),
            DeployError::RollbackNotContainer => "Rollback is not container image based".to_owned(),
            DeployError::NoMergeDeployment { stateroot } =>
                "No merge deployment found for stateroot ".to_owned().concat(stateroot.as_str()),
            DeployError::InsufficientSpace { image, .. } => {
                "Insufficient free space for ".to_owned().concat(image.as_str()).concat(
                    " (available: ",
                ).concat(available).concat(" required: ").concat(required).concat(")")
            },
            DeployError::NoDeployment => "Failed to find a deployment".to_owned(),
            DeployError::NoDeploymentDirectory => "No deployment directory found".to_owned(),
        }
    }
}

} // verus!
