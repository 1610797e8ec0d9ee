//! The operations of the deployment service. Each type names one
//! operation; the requests and replies that go over the wire are built
//! outside this library.

use vstd::prelude::*;

verus! {

/// How the service writes a point in time.
pub type DateTime = String;

/// An operation of the service, known to it by a name.
pub trait Operation {
    /// The name of the operation.
    spec fn operation_name() -> Seq<char>;

    /// The name under which the operation is sent.
    fn name() -> (name: &'static str)
        ensures
            name@ == Self::operation_name(),
    ;
}

/// Commits a deployment whose package has been uploaded.
pub struct RunDeploymentCreation;

impl Operation for RunDeploymentCreation {
    open spec fn operation_name() -> Seq<char> {
        "RunDeploymentCreation"@
    }

    fn name() -> (name: &'static str) {
        "RunDeploymentCreation"
    }
}

/// Asks where to upload the package of a new deployment.
pub struct RunDeploymentPreparation;

impl Operation for RunDeploymentPreparation {
    open spec fn operation_name() -> Seq<char> {
        "RunDeploymentPreparation"@
    }

    fn name() -> (name: &'static str) {
        "RunDeploymentPreparation"
    }
}

/// Lists the deployments of an application.
pub struct RunDeploymentList;

impl Operation for RunDeploymentList {
    open spec fn operation_name() -> Seq<char> {
        "RunDeploymentList"@
    }

    fn name() -> (name: &'static str) {
        "RunDeploymentList"
    }
}

/// Reads a page of the logs of an application's current deployment.
pub struct GetAppLogs;

impl Operation for GetAppLogs {
    open spec fn operation_name() -> Seq<char> {
        "GetAppLogs"@
    }

    fn name() -> (name: &'static str) {
        "GetAppLogs"
    }
}

/// Reads a page of the logs of one deployment.
pub struct GetDeploymentLogs;

impl Operation for GetDeploymentLogs {
    open spec fn operation_name() -> Seq<char> {
        "GetDeploymentLogs"@
    }

    fn name() -> (name: &'static str) {
        "GetDeploymentLogs"
    }
}

} // verus!
