use cachet_webhook::aggregator::reduce;
use cachet_webhook::credential::{AuthorizationHeader, CredentialError};
use cachet_webhook::dispatcher::{
    component_url, directives, outcome, report, status_body, Delivery, Dispatcher,
    OutboundRequest, Plan, COMPONENTS_PATH, TOKEN_HEADER,
};
use cachet_webhook::reply::{
    health_check, reply_reported, reply_unauthorized, ENCODING_FAILED, STATUS_INTERNAL_ERROR,
    STATUS_OK, STATUS_UNAUTHORIZED,
};
use cachet_webhook::{Alert, AlertHook, CachetAnnotation, CachetResponse, Status};
use std::collections::HashMap;

fn hook_of(records: &[(Status, i8, i8)]) -> AlertHook {
    let alerts = records
        .iter()
        .map(|&(status, component, severity)| Alert::new(status, component, severity))
        .collect();
    AlertHook::new(Status::Firing, alerts)
}

fn dispatcher(fallback: Option<&str>) -> Dispatcher {
    Dispatcher::new("https://status.example.org".to_string(), fallback.map(str::to_string))
}

fn bearer(token: &str) -> AuthorizationHeader {
    AuthorizationHeader::Text(format!("Bearer {}", token))
}

fn requests_of(plan: Plan) -> (String, Vec<OutboundRequest>) {
    match plan {
        Plan::Dispatch { token, requests } => (token, requests),
        Plan::Unauthorized(error) => panic!("refused: {:?}", error),
    }
}

fn update(component: i8, severity: i8) -> CachetAnnotation {
    CachetAnnotation { component, severity }
}

#[test]
fn names_of_the_status_api() {
    assert_eq!(TOKEN_HEADER, "X-Cachet-Token");
    assert_eq!(COMPONENTS_PATH, "/api/v1/components/");
}

#[test]
fn url_names_the_component() {
    assert_eq!(
        component_url("https://status.example.org", 5),
        "https://status.example.org/api/v1/components/5"
    );
    assert_eq!(component_url("http://cachet", -128), "http://cachet/api/v1/components/-128");
    assert_eq!(component_url("", 127), "/api/v1/components/127");
}

#[test]
fn body_sets_the_status() {
    assert_eq!(status_body(3), "{\"status\":3}");
    assert_eq!(status_body(1), "{\"status\":1}");
    assert_eq!(status_body(-12), "{\"status\":-12}");
    assert_eq!(status_body(127), "{\"status\":127}");
}

#[test]
fn directives_come_in_order_of_component() {
    let mut components = HashMap::new();
    components.insert(7, 1);
    components.insert(-3, 4);
    components.insert(5, 3);
    components.insert(127, 2);
    components.insert(-128, 9);
    assert_eq!(
        directives(&components),
        vec![update(-128, 9), update(-3, 4), update(5, 3), update(7, 1), update(127, 2)]
    );
}

#[test]
fn empty_map_has_no_directives() {
    assert!(directives(&HashMap::new()).is_empty());
}

#[test]
fn empty_batch_yields_no_directives_and_no_outcomes() {
    let plan = dispatcher(None).plan(&hook_of(&[]), &bearer("secret"));
    let (token, requests) = requests_of(plan);
    assert_eq!(token, "secret");
    assert!(requests.is_empty());
    assert!(report(&requests, &Vec::new()).is_empty());
}

#[test]
fn plan_holds_one_request_per_component() {
    let batch = hook_of(&[
        (Status::Firing, 5, 3),
        (Status::Firing, 5, 2),
        (Status::Resolved, 7, 4),
    ]);
    let (token, requests) = requests_of(dispatcher(None).plan(&batch, &bearer("secret")));
    assert_eq!(token, "secret");
    assert_eq!(requests.len(), 2);
    assert_eq!(requests[0].directive, update(5, 3));
    assert_eq!(requests[0].url, "https://status.example.org/api/v1/components/5");
    assert_eq!(requests[0].body, "{\"status\":3}");
    assert_eq!(requests[1].directive, update(7, 1));
    assert_eq!(requests[1].url, "https://status.example.org/api/v1/components/7");
    assert_eq!(requests[1].body, "{\"status\":1}");
}

#[test]
fn plan_goes_by_each_alert_not_by_the_group() {
    let alerts = vec![Alert::new(Status::Firing, 5, 3)];
    let resolved_group = AlertHook::new(Status::Resolved, alerts);
    let (_, requests) = requests_of(dispatcher(None).plan(&resolved_group, &bearer("secret")));
    assert_eq!(requests.len(), 1);
    assert_eq!(requests[0].directive, update(5, 3));
}

#[test]
fn plan_uses_the_fallback_credential() {
    let batch = hook_of(&[(Status::Firing, 5, 3)]);
    let plan = dispatcher(Some("configured")).plan(&batch, &AuthorizationHeader::Absent);
    let (token, requests) = requests_of(plan);
    assert_eq!(token, "configured");
    assert_eq!(requests.len(), 1);
}

#[test]
fn missing_credential_refuses_the_whole_batch() {
    let batch = hook_of(&[(Status::Firing, 5, 3), (Status::Firing, 7, 2)]);
    match dispatcher(None).plan(&batch, &AuthorizationHeader::Absent) {
        Plan::Unauthorized(error) => assert_eq!(error, CredentialError::NoAuthorizationHeader),
        Plan::Dispatch { .. } => panic!("requests were planned without a credential"),
    }
    let invalid = AuthorizationHeader::Text("Basic dXNlcg==".to_string());
    match dispatcher(None).plan(&batch, &invalid) {
        Plan::Unauthorized(error) => assert_eq!(error, CredentialError::NotBearer),
        Plan::Dispatch { .. } => panic!("requests were planned without a credential"),
    }
    let reply = reply_unauthorized();
    assert_eq!(reply.status, 401);
    assert_eq!(reply.body, "");
}

#[test]
fn missing_credential_refuses_an_empty_batch_too() {
    match dispatcher(None).plan(&hook_of(&[]), &AuthorizationHeader::Unreadable) {
        Plan::Unauthorized(error) => assert_eq!(error, CredentialError::UnreadableHeader),
        Plan::Dispatch { .. } => panic!("requests were planned without a credential"),
    }
}

#[test]
fn plan_with_takes_the_credential_as_given() {
    let mut components = HashMap::new();
    components.insert(9, 2);
    let adapter = dispatcher(Some("configured"));
    let (token, requests) = requests_of(adapter.plan_with(&components, Ok("given".to_string())));
    assert_eq!(token, "given");
    assert_eq!(requests.len(), 1);
    assert_eq!(requests[0].directive, update(9, 2));
    match adapter.plan_with(&components, Err(CredentialError::NotBearer)) {
        Plan::Unauthorized(error) => assert_eq!(error, CredentialError::NotBearer),
        Plan::Dispatch { .. } => panic!("requests were planned after a refusal"),
    }
}

#[test]
fn delivered_update_keeps_the_remote_code() {
    assert_eq!(
        outcome(update(5, 3), Delivery::Delivered(200)),
        CachetResponse { http_status: 200, status: update(5, 3) }
    );
    assert_eq!(outcome(update(5, 3), Delivery::Delivered(404)).http_status, 404);
}

#[test]
fn failed_transport_is_an_internal_error() {
    assert_eq!(
        outcome(update(5, 3), Delivery::TransportFailure),
        CachetResponse { http_status: 500, status: update(5, 3) }
    );
}

#[test]
fn one_failed_delivery_leaves_the_other_outcome_in_place() {
    let batch = hook_of(&[(Status::Firing, 5, 3), (Status::Firing, 7, 2)]);
    let (_, requests) = requests_of(dispatcher(None).plan(&batch, &bearer("secret")));
    let deliveries = vec![Delivery::Delivered(200), Delivery::TransportFailure];
    assert_eq!(
        report(&requests, &deliveries),
        vec![
            CachetResponse { http_status: 200, status: update(5, 3) },
            CachetResponse { http_status: 500, status: update(7, 2) },
        ]
    );
}

#[test]
fn every_entry_has_one_outcome() {
    let batch = hook_of(&[
        (Status::Firing, 1, 2),
        (Status::Firing, 2, 3),
        (Status::Resolved, 3, 4),
        (Status::Firing, 2, 4),
        (Status::Firing, 4, 0),
    ]);
    let components = reduce(&batch.alerts);
    let (_, requests) = requests_of(dispatcher(None).plan(&batch, &bearer("secret")));
    let deliveries: Vec<Delivery> = requests
        .iter()
        .map(|request| match request.directive.component {
            2 => Delivery::TransportFailure,
            component => Delivery::Delivered(200 + component as u16),
        })
        .collect();
    let outcomes = report(&requests, &deliveries);
    assert_eq!(outcomes.len(), components.len());
    assert_eq!(outcomes.len(), 3);
    for (component, severity) in &components {
        let found: Vec<&CachetResponse> =
            outcomes.iter().filter(|o| o.status.component == *component).collect();
        assert_eq!(found.len(), 1);
        assert_eq!(found[0].status.severity, *severity);
    }
    assert_eq!(outcomes[0].http_status, 201);
    assert_eq!(outcomes[1].http_status, 500);
    assert_eq!(outcomes[2].http_status, 203);
}

#[test]
fn reply_carries_the_encoded_outcomes() {
    let reply = reply_reported(Some("[]".to_string()));
    assert_eq!(reply.status, STATUS_OK);
    assert_eq!(reply.status, 200);
    assert_eq!(reply.body, "[]");
}

#[test]
fn reply_for_failed_encoding_is_an_internal_error() {
    let reply = reply_reported(None);
    assert_eq!(reply.status, STATUS_INTERNAL_ERROR);
    assert_eq!(reply.status, 500);
    assert_eq!(reply.body, ENCODING_FAILED);
    assert_eq!(reply.body, "Couldn't serialize cachet responses.");
}

#[test]
fn unauthorized_reply_is_empty() {
    let reply = reply_unauthorized();
    assert_eq!(reply.status, STATUS_UNAUTHORIZED);
    assert!(reply.body.is_empty());
}

#[test]
fn health_check_answers_with_an_empty_body() {
    assert_eq!(health_check(), "");
}

#[test]
fn body_is_what_serde_json_writes_for_the_status() {
    for severity in i8::MIN..=i8::MAX {
        let mut document = HashMap::new();
        document.insert("status", severity);
        assert_eq!(status_body(severity), serde_json::to_string(&document).unwrap());
    }
}

#[test]
fn url_is_base_path_and_component() {
    for component in i8::MIN..=i8::MAX {
        assert_eq!(
            component_url("http://cachet.local", component),
            format!("{}/api/v1/components/{}", "http://cachet.local", component)
        );
    }
}

#[test]
fn new_delivery_carries_only_status_and_alerts() {
    let batch = AlertHook::new(Status::Resolved, vec![Alert::new(Status::Firing, 5, 3)]);
    assert_eq!(batch.status, Status::Resolved);
    assert_eq!(batch.alerts.len(), 1);
    assert_eq!(batch.alerts[0].annotations, update(5, 3));
    assert!(batch.version.is_empty());
    assert!(batch.group_key.is_empty());
    assert!(batch.receiver.is_empty());
    assert!(batch.external_url.is_empty());
    assert!(batch.group_labels.is_empty());
    assert!(batch.common_labels.is_empty());
    assert!(batch.common_annotations.is_empty());
}

#[test]
fn new_dispatcher_keeps_its_configuration() {
    let adapter = dispatcher(Some("configured"));
    assert_eq!(adapter.base_url, "https://status.example.org");
    assert_eq!(adapter.fallback_credential, Some("configured".to_string()));
}
