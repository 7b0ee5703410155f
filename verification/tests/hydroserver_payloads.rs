use streaming_data_loader::datastreams::{listing_step, ListingStep};
use streaming_data_loader::datastreams::{
    bootstrap_is_complete, collection_summaries, expanded_datastream_to_summary, expanded_page_summaries,
    summaries_from_bootstrap, DatastreamCache,
};
use streaming_data_loader::hydroserver::{
    bulk_create_path, observation_batch_body, ObservationPayloadRow,
    after_auth_probe, after_data_probe, associated_workspaces_from, connection_test_response, format_error_detail, is_json_content_type,
    looks_like_hydroserver_auth_response, looks_like_hydroserver_data_response, response_error_message,
    response_payload, retry_with_fresh_token, session_token_from, ProbeAnswer, RequestError, UrlProbe,
};
use streaming_data_loader::json::{string_value, JsonValue};
use streaming_data_loader::models::{AuthType, UtcDateTime};
use streaming_data_loader::pipeline::ObservationValue;
use streaming_data_loader::responses::DatastreamSummary;

fn s(v: &str) -> JsonValue {
    JsonValue::Str(v.to_string())
}

fn obj(members: Vec<(&str, JsonValue)>) -> JsonValue {
    JsonValue::Object(members.into_iter().map(|(k, v)| (k.to_string(), v)).collect())
}

fn arr(items: Vec<JsonValue>) -> JsonValue {
    JsonValue::Array(items)
}

fn items(v: Vec<JsonValue>) -> Vec<JsonValue> {
    v
}

#[test]
fn string_values_are_trimmed_and_blank_ones_dropped() {
    let item = obj(vec![("name", s("  Stage  ")), ("blank", s("   ")), ("count", JsonValue::Number("3".to_string()))]);
    assert_eq!(string_value(&item, "name"), Some("Stage".to_string()));
    assert_eq!(string_value(&item, "blank"), None);
    assert_eq!(string_value(&item, "count"), None);
    assert_eq!(string_value(&item, "missing"), None);
}

#[test]
fn expanded_items_read_nested_records() {
    let item = obj(vec![
        ("uid", s("ds-1")),
        ("thing", obj(vec![("id", s("thing-1")), ("name", s("Creek"))])),
        ("observedProperty", obj(vec![("name", s("Stage"))])),
        ("processing_level", obj(vec![("definition", s("Raw"))])),
        ("unit", obj(vec![("name", s("Feet")), ("symbol", s("ft"))])),
        ("sensor", obj(vec![("name", s("Pressure transducer"))])),
        ("sampledMedium", s("Water")),
        ("result_type", s("Time series")),
    ]);
    let summary = expanded_datastream_to_summary(&item);
    assert_eq!(
        summary,
        DatastreamSummary {
            id: "ds-1".to_string(),
            name: "Unnamed datastream".to_string(),
            thing_id: "thing-1".to_string(),
            thing_name: "Creek".to_string(),
            observed_property_name: "Stage".to_string(),
            processing_level_definition: "Raw".to_string(),
            unit_name: "Feet".to_string(),
            unit_symbol: "ft".to_string(),
            sampled_medium: "Water".to_string(),
            sensor_name: "Pressure transducer".to_string(),
            result_type: "Time series".to_string(),
        }
    );
    assert!(expanded_page_summaries(&obj(vec![])).is_none());
    assert_eq!(expanded_page_summaries(&arr(vec![item])).map(|v| v.len()), Some(1));
}

#[test]
fn bootstrap_documents_need_all_collections() {
    let payload = obj(vec![
        ("datastreams", arr(vec![obj(vec![
            ("id", s("ds-1")),
            ("name", s("Stage")),
            ("thingId", s("t-1")),
            ("observed_property_id", s("op-1")),
            ("processingLevelId", s("pl-1")),
            ("unit_id", s("u-1")),
        ])])),
        ("things", arr(vec![obj(vec![("id", s("t-1")), ("name", s("Old name"))]), obj(vec![("id", s("t-1")), ("name", s("Creek"))])])),
        ("observedProperties", arr(vec![obj(vec![("id", s("op-1")), ("name", s("Gage height"))])])),
        ("processing_levels", arr(vec![obj(vec![("uid", s("pl-1")), ("definition", s("Raw"))])])),
    ]);
    assert!(bootstrap_is_complete(&payload));
    let units = items(vec![obj(vec![("id", s("u-1")), ("name", s("Feet")), ("symbol", s("ft"))])]);
    let summaries = summaries_from_bootstrap(&payload, &units).expect("complete document");
    assert_eq!(summaries.len(), 1);
    assert_eq!(summaries[0].name, "Stage");
    assert_eq!(summaries[0].thing_name, "Creek", "the last item with an id wins");
    assert_eq!(summaries[0].observed_property_name, "Gage height");
    assert_eq!(summaries[0].processing_level_definition, "Raw");
    assert_eq!(summaries[0].unit_symbol, "ft");
    assert_eq!(summaries[0].sensor_name, "");

    let partial = obj(vec![("datastreams", arr(vec![])), ("things", arr(vec![]))]);
    assert!(!bootstrap_is_complete(&partial));
    assert!(summaries_from_bootstrap(&partial, &units).is_none());
}

#[test]
fn collection_summaries_look_up_related_records() {
    let datastreams = items(vec![obj(vec![("id", s("ds-1")), ("name", s("Temp")), ("sensor_id", s("s-1")), ("thing_id", s("t-9"))])]);
    let sensors = items(vec![obj(vec![("id", s("s-1")), ("name", s("Thermistor"))])]);
    let empty: Vec<JsonValue> = Vec::new();
    let summaries = collection_summaries(&datastreams, &empty, &empty, &empty, &empty, &sensors);
    assert_eq!(summaries.len(), 1);
    assert_eq!(summaries[0].sensor_name, "Thermistor");
    assert_eq!(summaries[0].thing_id, "t-9");
    assert_eq!(summaries[0].thing_name, "");
}

#[test]
fn datastream_cache_serves_fresh_listings_only() {
    let mut cache = DatastreamCache::new();
    let at = UtcDateTime { secs: 1_000, nanos: 0 };
    let listing = vec![DatastreamSummary { id: "ds-1".to_string(), ..DatastreamSummary::default() }];
    cache.store("key", at, listing.clone());
    assert_eq!(cache.get("key", UtcDateTime { secs: 1_300, nanos: 999_999_999 }), Some(listing));
    assert_eq!(cache.get("other", at), None);
    assert_eq!(cache.get("key", UtcDateTime { secs: 1_301, nanos: 0 }), None);
    assert_eq!(cache.get("key", at), None, "a stale listing is dropped");
}

#[test]
fn probes_recognise_hydroserver_answers() {
    assert!(is_json_content_type("Application/JSON; charset=utf-8"));
    assert!(!is_json_content_type("text/html"));
    assert_eq!(response_payload("text/html", Some(obj(vec![]))), None);

    let auth = obj(vec![("meta", obj(vec![("is_authenticated", JsonValue::Bool(false))]))]);
    assert!(looks_like_hydroserver_auth_response(401, Some(&auth)));
    assert!(!looks_like_hydroserver_auth_response(500, Some(&auth)));
    assert!(looks_like_hydroserver_auth_response(422, Some(&obj(vec![("detail", arr(vec![]))]))));
    assert!(!looks_like_hydroserver_auth_response(200, Some(&arr(vec![]))));
    assert!(looks_like_hydroserver_data_response(200, Some(&arr(vec![]))));
    assert!(looks_like_hydroserver_data_response(403, Some(&obj(vec![("status", s("forbidden"))]))));
    assert!(!looks_like_hydroserver_data_response(200, None));

    assert_eq!(after_auth_probe(ProbeAnswer::Responded(true)), Some(UrlProbe::Detected));
    assert_eq!(after_auth_probe(ProbeAnswer::Responded(false)), None);
    assert_eq!(after_auth_probe(ProbeAnswer::Unreachable), Some(UrlProbe::Unreachable));
    assert_eq!(after_data_probe(ProbeAnswer::Responded(false)), UrlProbe::NotHydroserver);
    assert_eq!(after_data_probe(ProbeAnswer::Failed), UrlProbe::Failed);
}

#[test]
fn workspace_answers_give_the_first_workspace_and_count() {
    let page = arr(vec![obj(vec![("id", s("w-1")), ("name", s("Main"))]), obj(vec![("id", s("w-2"))])]);
    let found = vec![("w-1".to_string(), "Main".to_string()), ("w-2".to_string(), String::new())];
    assert_eq!(associated_workspaces_from(&page, Some("7")), (found.clone(), 7));
    assert_eq!(associated_workspaces_from(&page, Some("many")), (found, 2));
    assert_eq!(associated_workspaces_from(&obj(vec![]), Some("7")), (Vec::new(), 0));
    let with_anonymous = arr(vec![obj(vec![("name", s("No id"))]), obj(vec![("uid", s("w-9"))])]);
    assert_eq!(associated_workspaces_from(&with_anonymous, None), (vec![("w-9".to_string(), String::new())], 2));
}

#[test]
fn session_tokens_and_error_details() {
    let signed_in = obj(vec![("meta", obj(vec![("session_token", s("abc"))]))]);
    assert_eq!(session_token_from(&signed_in), Ok("abc".to_string()));
    assert_eq!(
        session_token_from(&obj(vec![])),
        Err(RequestError::Other("Authentication failed: No access token returned.".to_string()))
    );
    assert!(retry_with_fresh_token(0, AuthType::Userpass, 401));
    assert!(!retry_with_fresh_token(1, AuthType::Userpass, 401));
    assert!(!retry_with_fresh_token(0, AuthType::Apikey, 403));

    assert_eq!(format_error_detail(&s("Bad request"), "\"Bad request\""), "Bad request");
    assert_eq!(format_error_detail(&s("  "), "\"  \""), "\"  \"");
    let list = arr(vec![obj(vec![("loc", s("body"))]), obj(vec![("msg", s("field required"))])]);
    assert_eq!(format_error_detail(&list, "[...]"), "field required");
    assert_eq!(format_error_detail(&JsonValue::Null, "null"), "null");
    assert_eq!(response_error_message(502, None), "HydroServer returned status 502.");
    assert_eq!(response_error_message(400, Some((s("nope"), "\"nope\"".to_string()))), "nope");
}

fn member<'a>(v: &'a JsonValue, key: &str) -> &'a JsonValue {
    match v {
        JsonValue::Object(members) => &members.iter().find(|(k, _)| k == key).expect("member").1,
        _ => panic!("not an object"),
    }
}

fn elements(v: &JsonValue) -> &Vec<JsonValue> {
    match v {
        JsonValue::Array(items) => items,
        _ => panic!("not an array"),
    }
}

#[test]
fn hydroserver_observation_batch_payload_matches_sensorthings_schema() {
    let observations = vec![
        ObservationPayloadRow {
            phenomenon_time: UtcDateTime { secs: 1_775_203_200, nanos: 0 },
            result: ObservationValue::Number("2.41".to_string()),
        },
        ObservationPayloadRow {
            phenomenon_time: UtcDateTime { secs: 1_775_203_500, nanos: 0 },
            result: ObservationValue::Text("qualitative".to_string()),
        },
    ];
    let body = observation_batch_body(&observations).expect("times can be written");
    assert_eq!(
        member(&body, "fields"),
        &arr(vec![s("phenomenonTime"), s("result")]),
        "fields must use SensorThings naming"
    );
    let data = elements(member(&body, "data"));
    assert_eq!(data.len(), 2);
    assert_eq!(elements(&data[0])[0], s("2026-04-03T08:00:00+00:00"));
    assert_eq!(elements(&data[0])[1], JsonValue::Number("2.41".to_string()));
    assert_eq!(elements(&data[1])[1], s("qualitative"));
    assert_eq!(bulk_create_path("ds-1"), "/api/data/datastreams/ds-1/observations/bulk-create");
}

fn saved_key_server(workspace_id: &str) -> streaming_data_loader::models::ServerConfig {
    streaming_data_loader::models::ServerConfig {
        auth_type: AuthType::Apikey,
        url: "https://example.com".to_string(),
        api_key: "test-key".to_string(),
        username: String::new(),
        password: String::new(),
        workspace_id: workspace_id.to_string(),
        workspace_name: String::new(),
    }
}

fn reachable(pairs: &[(&str, &str)]) -> Vec<(String, String)> {
    pairs.iter().map(|(i, n)| (i.to_string(), n.to_string())).collect()
}

#[test]
fn connection_test_refuses_a_key_that_lost_its_saved_workspace() {
    let server = saved_key_server("workspace-saved");
    let r = connection_test_response(
        &server,
        Ok((reachable(&[("workspace-a", "Workspace A"), ("workspace-b", "Workspace B")]), 2)),
    );
    assert!(!r.ok);
    assert_eq!(r.state, streaming_data_loader::models::ConnectionState::Error);
    assert!(r.workspace_id.is_none());
    assert!(!r.permissions_ok);
    assert!(r.message.contains("does not have access"), "got {}", r.message);
}

#[test]
fn connection_test_keeps_a_reachable_saved_workspace() {
    let server = saved_key_server("workspace-saved");
    let r = connection_test_response(
        &server,
        Ok((reachable(&[("workspace-a", "Workspace A"), ("workspace-saved", "Saved Workspace")]), 2)),
    );
    assert!(r.ok);
    assert_eq!(r.state, streaming_data_loader::models::ConnectionState::Connected);
    assert_eq!(r.workspace_id, Some("workspace-saved".to_string()));
    assert_eq!(r.workspace_name, Some("Saved Workspace".to_string()));
    assert_eq!(r.message, "Connected to example.com.");
}

#[test]
fn connection_test_without_saved_workspace_takes_the_first() {
    let r = connection_test_response(&saved_key_server(""), Ok((reachable(&[("w-1", ""), ("w-2", "Two")]), 5)));
    assert!(r.ok);
    assert_eq!(r.workspace_id, Some("w-1".to_string()));
    assert_eq!(r.workspace_name, None);
    assert_eq!(r.workspace_count, 5);
    let none = connection_test_response(&saved_key_server("w"), Ok((Vec::new(), 0)));
    assert!(!none.ok);
    assert!(none.message.starts_with("That API key is invalid"));
    let unreachable = connection_test_response(&saved_key_server("w"), Err(RequestError::Timeout));
    assert_eq!(unreachable.message, "Couldn't reach HydroServer. Check the server URL and try again.");
}

#[test]
fn listing_answers_from_the_cache_without_a_request() {
    let mut cache = DatastreamCache::new();
    let at = UtcDateTime { secs: 1_000, nanos: 0 };
    let unconfigured = streaming_data_loader::models::ServerConfig::empty();
    assert!(matches!(listing_step(&unconfigured, None, &mut cache, at), ListingStep::Answer(v) if v.is_empty()));
    assert!(matches!(listing_step(&saved_key_server(""), None, &mut cache, at), ListingStep::ResolveWorkspace));
    assert!(matches!(
        listing_step(&saved_key_server(""), Some(String::new()), &mut cache, at),
        ListingStep::Answer(v) if v.is_empty()
    ));
    let key = match listing_step(&saved_key_server("ws"), None, &mut cache, at) {
        ListingStep::Fetch(workspace, key) => {
            assert_eq!(workspace, "ws");
            key
        }
        _ => panic!("expected a fetch"),
    };
    let listing = vec![DatastreamSummary { id: "ds-1".to_string(), ..DatastreamSummary::default() }];
    cache.store(&key, at, listing.clone());
    match listing_step(&saved_key_server(" ws "), None, &mut cache, UtcDateTime { secs: 1_100, nanos: 0 }) {
        ListingStep::Answer(v) => assert_eq!(v, listing),
        _ => panic!("expected the cached listing"),
    }
    assert!(matches!(
        listing_step(&saved_key_server("ws"), None, &mut cache, UtcDateTime { secs: 2_000, nanos: 0 }),
        ListingStep::Fetch(..)
    ));
}
