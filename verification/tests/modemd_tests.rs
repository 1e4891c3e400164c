use sms_relay::message::Message;
use sms_relay::modemd::{
    get_modemd, set_base_url, ModemdInfo, Response, ResultModemd, Settings, DEFAULT_BASE_URL,
    STATUS_OK,
};

fn client() -> ModemdInfo {
    ModemdInfo::new("http://modem.local:222".to_string())
}

fn message(index: u32, text: &str) -> Message {
    Message {
        from: "+491700000000".to_string(),
        index,
        text: text.to_string(),
        timestamp: "2024-01-01 10:00:00 +0000".to_string(),
    }
}

fn report(result: &str, code: &str) -> ResultModemd {
    ResultModemd { result_code: code.to_string(), result: result.to_string() }
}

#[test]
fn settings_start_at_the_default_address() {
    assert_eq!(DEFAULT_BASE_URL, "http://127.0.0.1:222");
    assert_eq!(Settings::new().base_url, "http://127.0.0.1:222");
    assert_eq!(STATUS_OK, 200);
}

#[test]
fn set_base_url_replaces_the_address() {
    let mut settings = Settings::new();
    set_base_url(&mut settings, "http://10.0.0.1:8080".to_string());
    assert_eq!(settings.base_url, "http://10.0.0.1:8080");
    set_base_url(&mut settings, String::new());
    assert_eq!(settings.base_url, "");
}

#[test]
fn get_modemd_uses_the_configured_address() {
    let mut settings = Settings::new();
    assert_eq!(get_modemd(&settings).base_url, "http://127.0.0.1:222");
    set_base_url(&mut settings, "http://gw".to_string());
    assert_eq!(get_modemd(&settings).base_url, "http://gw");
    assert_eq!(get_modemd(&settings).sms_list_url(3), "http://gw/sms_list?M3");
}

#[test]
fn sms_list_url_names_the_slot() {
    assert_eq!(client().sms_list_url(2), "http://modem.local:222/sms_list?M2");
    assert_eq!(client().sms_list_url(0), "http://modem.local:222/sms_list?M0");
    assert_eq!(client().sms_list_url(255), "http://modem.local:222/sms_list?M255");
}

#[test]
fn sms_delete_url_names_slot_and_index() {
    assert_eq!(client().sms_delete_url(2, 17), "http://modem.local:222/sms_delete?M2&index=17");
    assert_eq!(
        client().sms_delete_url(255, u32::MAX),
        "http://modem.local:222/sms_delete?M255&index=4294967295"
    );
}

#[test]
fn get_sms_list_hands_the_messages_on_in_order() {
    let messages = vec![message(3, "third"), message(1, "first"), message(2, "second")];
    let response = Response::Answered {
        status: 200,
        status_text: "200 OK".to_string(),
        body: Ok(messages.clone()),
    };
    assert_eq!(client().get_sms_list(response), Ok(messages));
}

#[test]
fn get_sms_list_of_an_empty_slot() {
    let response = Response::Answered { status: 200, status_text: "200 OK".to_string(), body: Ok(vec![]) };
    assert_eq!(client().get_sms_list(response), Ok(vec![]));
}

#[test]
fn get_sms_list_reports_transport_failure() {
    let response = Response::Failed { cause: "connection refused".to_string() };
    assert_eq!(client().get_sms_list(response), Err("connection refused".to_string()));
}

#[test]
fn get_sms_list_reports_other_status() {
    let response = Response::Answered {
        status: 404,
        status_text: "404 Not Found".to_string(),
        body: Ok(vec![message(1, "ignored")]),
    };
    assert_eq!(
        client().get_sms_list(response),
        Err("Error getting SMS list: Status is not 200 (Got: 404 Not Found)".to_string())
    );
}

#[test]
fn get_sms_list_reports_malformed_body() {
    let response = Response::Answered {
        status: 200,
        status_text: "200 OK".to_string(),
        body: Err("expected value at line 1 column 1".to_string()),
    };
    assert_eq!(
        client().get_sms_list(response),
        Err("expected value at line 1 column 1".to_string())
    );
}

#[test]
fn delete_sms_succeeds_on_ok_result() {
    let response =
        Response::Answered { status: 200, status_text: "200 OK".to_string(), body: Ok(report("OK", "0")) };
    assert_eq!(client().delete_sms(response), Ok(()));
}

#[test]
fn delete_sms_reports_logical_failure_despite_status_200() {
    let response = Response::Answered {
        status: 200,
        status_text: "200 OK".to_string(),
        body: Ok(report("ERROR", "321")),
    };
    assert_eq!(client().delete_sms(response), Err("Got result ERROR (321)".to_string()));
}

#[test]
fn delete_sms_result_is_compared_exactly() {
    for near in ["ok", "OK ", " OK", "", "OKAY"] {
        let response = Response::Answered {
            status: 200,
            status_text: "200 OK".to_string(),
            body: Ok(report(near, "7")),
        };
        assert_eq!(client().delete_sms(response), Err(format!("Got result {} (7)", near)));
    }
}

#[test]
fn delete_sms_reports_other_status_before_the_body() {
    let response = Response::Answered {
        status: 500,
        status_text: "500 Internal Server Error".to_string(),
        body: Ok(report("OK", "0")),
    };
    assert_eq!(
        client().delete_sms(response),
        Err("Status is not 200 (Got: 500 Internal Server Error)".to_string())
    );
}

#[test]
fn delete_sms_reports_transport_failure() {
    let response = Response::Failed { cause: "timed out".to_string() };
    assert_eq!(client().delete_sms(response), Err("timed out".to_string()));
}

#[test]
fn delete_sms_reports_malformed_body() {
    let response = Response::Answered {
        status: 200,
        status_text: "200 OK".to_string(),
        body: Err("missing field `result`".to_string()),
    };
    assert_eq!(client().delete_sms(response), Err("missing field `result`".to_string()));
}

#[test]
fn status_is_decided_by_its_number_and_shown_by_its_text() {
    let response: Response<Vec<Message>> = Response::Answered {
        status: 201,
        status_text: "201 Created".to_string(),
        body: Ok(vec![]),
    };
    assert_eq!(
        client().get_sms_list(response),
        Err("Error getting SMS list: Status is not 200 (Got: 201 Created)".to_string())
    );
    let response = Response::Answered {
        status: 200,
        status_text: "anything".to_string(),
        body: Ok(report("OK", "0")),
    };
    assert_eq!(client().delete_sms(response), Ok(()));
    let response = Response::Answered {
        status: 599,
        status_text: "599 <unknown status code>".to_string(),
        body: Ok(report("OK", "0")),
    };
    assert_eq!(
        client().delete_sms(response),
        Err("Status is not 200 (Got: 599 <unknown status code>)".to_string())
    );
}
