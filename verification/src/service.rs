//! The decisions of a deployment, apart from the transport. A caller sends
//! what the library asks for and hands back what the service replied.

use vstd::prelude::*;
use vstd::string::StringExecFns;

verus! {

/// An error that the service reports in a reply.
#[derive(Debug)]
pub struct GqlError {
    pub message: String,
}

/// A reply of the service: the data asked for, the errors it met, or both.
#[derive(Debug)]
pub struct GqlResponse<D> {
    pub data: Option<D>,
    pub errors: Option<Vec<GqlError>>,
}

/// Why a call or a deployment was given up.
#[derive(Debug)]
pub enum ServiceError {
    /// The reply lists at least one error; this is the message of the first.
    Reported { message: String },
    /// The reply to the preparation carries no data.
    MissingPreparation,
    /// The storage turned the package down; `status` is what it answered.
    UploadFailed { status: String },
    /// The reply to the creation carries no data.
    MissingResult,
    /// A reply came that the deployment was not waiting for.
    UnexpectedReply,
}

/// A `ServiceError` over plain sequences of characters.
pub enum ServiceErrorView {
    Reported { message: Seq<char> },
    MissingPreparation,
    UploadFailed { status: Seq<char> },
    MissingResult,
    UnexpectedReply,
}

impl DeepView for ServiceError {
    type V = ServiceErrorView;

    open spec fn deep_view(&self) -> ServiceErrorView {
        match self {
            ServiceError::Reported { message } => ServiceErrorView::Reported { message: message@ },
            ServiceError::MissingPreparation => ServiceErrorView::MissingPreparation,
            ServiceError::UploadFailed { status } => ServiceErrorView::UploadFailed { status: status@ },
            ServiceError::MissingResult => ServiceErrorView::MissingResult,
            ServiceError::UnexpectedReply => ServiceErrorView::UnexpectedReply,
        }
    }
}

impl ServiceErrorView {
    /// The error in words.
    pub open spec fn message(self) -> Seq<char> {
        match self {
            ServiceErrorView::Reported { message } => "service returned error: "@ + message,
            ServiceErrorView::MissingPreparation => "missing data in prep"@,
            ServiceErrorView::UploadFailed { status } => "s3 upload failed: "@ + status,
            ServiceErrorView::MissingResult => "missing data in result"@,
            ServiceErrorView::UnexpectedReply => "unexpected reply"@,
        }
    }
}

impl ServiceError {
    /// The error in words.
    pub fn message(&self) -> (text: String)
        ensures
            text@ == self.deep_view().message(),
    {
        match self {
            ServiceError::Reported { message } => {
                let mut text = "service returned error: ".to_owned();
                text.append(message.as_str());
                text
            },
            ServiceError::MissingPreparation => "missing data in prep".to_owned(),
            ServiceError::UploadFailed { status } => {
                let mut text = "s3 upload failed: ".to_owned();
                text.append(status.as_str());
                text
            },
            ServiceError::MissingResult => "missing data in result".to_owned(),
            ServiceError::UnexpectedReply => "unexpected reply".to_owned(),
        }
    }
}

/// Replies that may carry errors of the service.
pub trait GqlResponseExt: Sized {
    /// The message of the first error that the reply lists, if it lists
    /// one.
    spec fn first_error(&self) -> Option<Seq<char>>;

    /// Turns a reply that lists an error into a failure with the message
    /// of the first one; a reply without errors passes through unchanged.
    fn check_service_error(self) -> (checked: Result<Self, ServiceError>)
        ensures
            match self.first_error() {
                Some(message) => checked matches Err(e) && e.deep_view() == (ServiceErrorView::Reported {
                    message,
                }),
                None => checked == Ok::<Self, ServiceError>(self),
            },
    ;
}

impl<D> GqlResponseExt for GqlResponse<D> {
    open spec fn first_error(&self) -> Option<Seq<char>> {
        match self.errors {
            Some(errors) => if errors@.len() > 0 {
                Some(errors@[0].message@)
            } else {
                None
            },
            None => None,
        }
    }

    fn check_service_error(self) -> (checked: Result<Self, ServiceError>) {
        let reported = match &self.errors {
            Some(errors) => if errors.len() > 0 {
                Some(errors[0].message.clone())
            } else {
                None
            },
            None => None,
        };
        match reported {
            Some(message) => Err(ServiceError::Reported { message }),
            None => Ok(self),
        }
    }
}

/// Where the service wants the package, and the name under which it will
/// know it.
#[derive(Debug)]
pub struct PreparedUpload {
    pub url: String,
    pub package: String,
}

/// The deployment that the service created.
#[derive(Debug)]
pub struct CreatedDeployment {
    pub id: String,
    pub url: String,
}

/// How far a deployment has come.
#[derive(Debug)]
pub enum Deployment {
    /// The preparation has been asked for.
    Preparing,
    /// The package is on its way to the storage.
    Uploading { package: String },
    /// The creation has been asked for.
    Creating,
    /// Nothing more is to be done.
    Finished,
}

/// What came back from outside.
#[derive(Debug)]
pub enum Reply {
    Prepared(GqlResponse<PreparedUpload>),
    Uploaded { success: bool, status: String },
    Created(GqlResponse<CreatedDeployment>),
}

/// What to do next.
#[derive(Debug)]
pub enum Command {
    /// Send the package to `url`.
    Upload { url: String },
    /// Ask the service to create the deployment from `package`.
    Create { package: String },
    /// Tell the user about the new deployment.
    Announce { id: String, url: String },
    /// Give up.
    Abort(ServiceError),
}

/// `Deployment` over plain sequences of characters.
pub enum DeploymentView {
    Preparing,
    Uploading { package: Seq<char> },
    Creating,
    Finished,
}

impl DeepView for Deployment {
    type V = DeploymentView;

    open spec fn deep_view(&self) -> DeploymentView {
        match self {
            Deployment::Preparing => DeploymentView::Preparing,
            Deployment::Uploading { package } => DeploymentView::Uploading { package: package@ },
            Deployment::Creating => DeploymentView::Creating,
            Deployment::Finished => DeploymentView::Finished,
        }
    }
}

/// `Command` over plain sequences of characters.
pub enum CommandView {
    Upload { url: Seq<char> },
    Create { package: Seq<char> },
    Announce { id: Seq<char>, url: Seq<char> },
    Abort(ServiceErrorView),
}

impl DeepView for Command {
    type V = CommandView;

    open spec fn deep_view(&self) -> CommandView {
        match self {
            Command::Upload { url } => CommandView::Upload { url: url@ },
            Command::Create { package } => CommandView::Create { package: package@ },
            Command::Announce { id, url } => CommandView::Announce { id: id@, url: url@ },
            Command::Abort(e) => CommandView::Abort(e.deep_view()),
        }
    }
}

/// The step that a reply calls for. A preparation is followed by the
/// upload, a successful upload by the creation, and a creation by the
/// announcement. An error in a reply, a reply without data, a failed
/// upload or a reply out of turn ends the deployment.
pub open spec fn next_step(state: Deployment, reply: Reply) -> (DeploymentView, CommandView) {
    match (state, reply) {
        (Deployment::Preparing, Reply::Prepared(rsp)) => match rsp.first_error() {
            Some(message) => (
                DeploymentView::Finished,
                CommandView::Abort(ServiceErrorView::Reported { message }),
            ),
            None => match rsp.data {
                Some(prep) => (
                    DeploymentView::Uploading { package: prep.package@ },
                    CommandView::Upload { url: prep.url@ },
                ),
                None => (DeploymentView::Finished, CommandView::Abort(ServiceErrorView::MissingPreparation)),
            },
        },
        (Deployment::Uploading { package }, Reply::Uploaded { success, status }) => if success {
            (DeploymentView::Creating, CommandView::Create { package: package@ })
        } else {
            (
                DeploymentView::Finished,
                CommandView::Abort(ServiceErrorView::UploadFailed { status: status@ }),
            )
        },
        (Deployment::Creating, Reply::Created(rsp)) => match rsp.first_error() {
            Some(message) => (
                DeploymentView::Finished,
                CommandView::Abort(ServiceErrorView::Reported { message }),
            ),
            None => match rsp.data {
                Some(created) => (
                    DeploymentView::Finished,
                    CommandView::Announce { id: created.id@, url: created.url@ },
                ),
                None => (DeploymentView::Finished, CommandView::Abort(ServiceErrorView::MissingResult)),
            },
        },
        _ => (DeploymentView::Finished, CommandView::Abort(ServiceErrorView::UnexpectedReply)),
    }
}

/// Takes a deployment one step further on a reply.
pub fn advance(state: Deployment, reply: Reply) -> (step: (Deployment, Command))
    ensures
        (step.0.deep_view(), step.1.deep_view()) == next_step(state, reply),
{
    match (state, reply) {
        (Deployment::Preparing, Reply::Prepared(rsp)) => match rsp.check_service_error() {
            Err(e) => (Deployment::Finished, Command::Abort(e)),
            Ok(rsp) => match rsp.data {
                Some(prep) => (Deployment::Uploading { package: prep.package }, Command::Upload { url: prep.url }),
                None => (Deployment::Finished, Command::Abort(ServiceError::MissingPreparation)),
            },
        },
        (Deployment::Uploading { package }, Reply::Uploaded { success, status }) => if success {
            (Deployment::Creating, Command::Create { package })
        } else {
            (Deployment::Finished, Command::Abort(ServiceError::UploadFailed { status }))
        },
        (Deployment::Creating, Reply::Created(rsp)) => match rsp.check_service_error() {
            Err(e) => (Deployment::Finished, Command::Abort(e)),
            Ok(rsp) => match rsp.data {
                Some(created) => (Deployment::Finished, Command::Announce { id: created.id, url: created.url }),
                None => (Deployment::Finished, Command::Abort(ServiceError::MissingResult)),
            },
        },
        _ => (Deployment::Finished, Command::Abort(ServiceError::UnexpectedReply)),
    }
}

} // verus!
