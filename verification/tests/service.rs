use boatctl::cursor::ServiceCursor;
use boatctl::logloader::{GenericLog, GenericLogList, LogLoader, LogQuery};
use boatctl::schema::{
    GetAppLogs, GetDeploymentLogs, Operation, RunDeploymentCreation, RunDeploymentList, RunDeploymentPreparation,
};
use boatctl::service::{
    advance, Command, CreatedDeployment, Deployment, GqlError, GqlResponse, GqlResponseExt, PreparedUpload, Reply,
    ServiceError,
};

fn failing<D>(data: Option<D>, messages: &[&str]) -> GqlResponse<D> {
    GqlResponse { data, errors: Some(messages.iter().map(|m| GqlError { message: m.to_string() }).collect()) }
}

#[test]
fn a_reply_with_errors_fails_with_the_first_message() {
    let rsp: GqlResponse<u8> = failing(Some(1), &["first", "second"]);
    match rsp.check_service_error() {
        Err(ServiceError::Reported { message }) => assert_eq!(message, "first"),
        other => panic!("unexpected outcome: {:?}", other),
    }
    let e = ServiceError::Reported { message: "first".to_string() };
    assert_eq!(e.message(), "service returned error: first");
}

#[test]
fn a_reply_without_errors_passes_through() {
    let rsp: GqlResponse<u8> = GqlResponse { data: Some(7), errors: None };
    assert_eq!(rsp.check_service_error().unwrap().data, Some(7));
    let rsp: GqlResponse<u8> = GqlResponse { data: None, errors: Some(vec![]) };
    let checked = rsp.check_service_error().unwrap();
    assert_eq!(checked.data, None);
    assert_eq!(checked.errors.map(|e| e.len()), Some(0));
}

#[test]
fn every_service_error_says_what_is_wrong() {
    assert_eq!(ServiceError::MissingPreparation.message(), "missing data in prep");
    assert_eq!(ServiceError::MissingResult.message(), "missing data in result");
    assert_eq!(
        ServiceError::UploadFailed { status: "403 Forbidden".to_string() }.message(),
        "s3 upload failed: 403 Forbidden"
    );
    assert_eq!(ServiceError::UnexpectedReply.message(), "unexpected reply");
}

fn prepared() -> Reply {
    Reply::Prepared(GqlResponse {
        data: Some(PreparedUpload { url: "https://s3/put".to_string(), package: "pkg-1".to_string() }),
        errors: None,
    })
}

#[test]
fn a_deployment_goes_from_preparation_over_upload_to_creation() {
    let (state, command) = advance(Deployment::Preparing, prepared());
    assert!(matches!(&state, Deployment::Uploading { package } if package == "pkg-1"));
    assert!(matches!(&command, Command::Upload { url } if url == "https://s3/put"));

    let (state, command) = advance(state, Reply::Uploaded { success: true, status: "200 OK".to_string() });
    assert!(matches!(&state, Deployment::Creating));
    assert!(matches!(&command, Command::Create { package } if package == "pkg-1"));

    let created = Reply::Created(GqlResponse {
        data: Some(CreatedDeployment { id: "d-9".to_string(), url: "https://preview".to_string() }),
        errors: None,
    });
    let (state, command) = advance(state, created);
    assert!(matches!(&state, Deployment::Finished));
    assert!(matches!(&command, Command::Announce { id, url } if id == "d-9" && url == "https://preview"));
}

#[test]
fn a_deployment_ends_on_the_first_thing_that_goes_wrong() {
    let (state, command) = advance(Deployment::Preparing, Reply::Prepared(failing(None, &["denied"])));
    assert!(matches!(&state, Deployment::Finished));
    assert!(matches!(&command, Command::Abort(ServiceError::Reported { message }) if message == "denied"));

    let (_, command) = advance(Deployment::Preparing, Reply::Prepared(GqlResponse { data: None, errors: None }));
    assert!(matches!(&command, Command::Abort(ServiceError::MissingPreparation)));

    let (state, command) = advance(
        Deployment::Uploading { package: "pkg-1".to_string() },
        Reply::Uploaded { success: false, status: "403 Forbidden".to_string() },
    );
    assert!(matches!(&state, Deployment::Finished));
    assert!(matches!(&command, Command::Abort(ServiceError::UploadFailed { status }) if status == "403 Forbidden"));

    let (_, command) = advance(Deployment::Creating, Reply::Created(GqlResponse { data: None, errors: None }));
    assert!(matches!(&command, Command::Abort(ServiceError::MissingResult)));

    let (_, command) = advance(Deployment::Creating, Reply::Created(failing(None, &["late"])));
    assert!(matches!(&command, Command::Abort(ServiceError::Reported { message }) if message == "late"));
}

#[test]
fn a_reply_out_of_turn_ends_the_deployment() {
    let (state, command) = advance(Deployment::Creating, prepared());
    assert!(matches!(&state, Deployment::Finished));
    assert!(matches!(&command, Command::Abort(ServiceError::UnexpectedReply)));
    let (_, command) = advance(Deployment::Finished, prepared());
    assert!(matches!(&command, Command::Abort(ServiceError::UnexpectedReply)));
}

fn line(message: &str) -> GenericLog {
    GenericLog { ts: 1, request_id: "r".to_string(), seq: 0, message: message.to_string() }
}

#[test]
fn logs_are_read_page_by_page_until_no_cursor_comes_back() {
    let mut loader = LogLoader::new("app-1", None);
    assert!(matches!(loader.cursor, ServiceCursor::Initial));
    match loader.next_query(100) {
        Some(LogQuery::App { id, first, before }) => {
            assert_eq!(id, "app-1");
            assert_eq!(first, 100);
            assert_eq!(before, None);
        },
        other => panic!("unexpected query: {:?}", other),
    }
    let lines = loader.accept_page(GenericLogList { data: vec![line("a"), line("b")], cursor: Some("c1".to_string()) });
    assert_eq!(lines.len(), 2);
    assert_eq!(lines[1].message, "b");
    match loader.next_query(50) {
        Some(LogQuery::App { id, first, before }) => {
            assert_eq!(id, "app-1");
            assert_eq!(first, 50);
            assert_eq!(before.as_deref(), Some("c1"));
        },
        other => panic!("unexpected query: {:?}", other),
    }
    let lines = loader.accept_page(GenericLogList { data: vec![line("c")], cursor: None });
    assert_eq!(lines.len(), 1);
    assert!(matches!(loader.cursor, ServiceCursor::End));
    assert!(loader.next_query(50).is_none());
}

#[test]
fn a_named_deployment_is_asked_for_its_own_logs() {
    let loader = LogLoader::new("app-1", Some("dep-2"));
    match loader.next_query(u32::MAX) {
        Some(LogQuery::Deployment { id, first, before }) => {
            assert_eq!(id, "dep-2");
            assert_eq!(first, 4294967295);
            assert_eq!(before, None);
        },
        other => panic!("unexpected query: {:?}", other),
    }
}

#[test]
fn every_operation_goes_by_its_name() {
    assert_eq!(RunDeploymentCreation::name(), "RunDeploymentCreation");
    assert_eq!(RunDeploymentPreparation::name(), "RunDeploymentPreparation");
    assert_eq!(RunDeploymentList::name(), "RunDeploymentList");
    assert_eq!(GetAppLogs::name(), "GetAppLogs");
    assert_eq!(GetDeploymentLogs::name(), "GetDeploymentLogs");
}
