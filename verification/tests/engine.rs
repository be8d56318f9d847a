use smarthy::config::{default_log_level, Cli, SmartDeviceConfig};
use smarthy::device::{
    read_step, write_step, Incoming, Outgoing, ReadAction, SendMessage, SmartDevice, SmartInput,
    SmartSwitch, SmartTemperature,
};
use smarthy::error::{AppError, EngineError};
use smarthy::message::{Input, ParamField, Params, ShellyMessage, SmartDeviceMessage, Switch, Temperature};
use smarthy::switch::{poll_step, serve_step, PollAction, PollReply, ServeAction, ServeIncoming};
use smarthy::text::starts_with;
use smarthy::ws::{accept_first_frame, connect_device, parse_value, FirstFrame};

fn field(
    key: &str,
    temperature: Option<Temperature<f64>>,
    switch: Option<Switch>,
    input: Option<Input>,
) -> ParamField<f64> {
    ParamField { key: key.to_string(), temperature, switch, input }
}

fn sample_params() -> Params<f64> {
    let t0 = Temperature { id: 0, tc: 21.5, tf: 70.7 };
    Params {
        rest: vec![
            field("sys", None, Some(Switch { output: true }), None),
            field("temperature:0", Some(t0), None, None),
            field("switch:0", None, Some(Switch { output: true }), None),
            field("input:0", None, None, Some(Input { id: 0, state: false })),
            field("switch:1", None, None, None),
            field("switch:2", None, Some(Switch { output: false }), Some(Input { id: 2, state: true })),
            field("input:1", None, None, Some(Input { id: 1, state: true })),
        ],
    }
}

fn sample_message() -> ShellyMessage<f64> {
    ShellyMessage {
        method: "NotifyStatus".to_string(),
        src: "shellyplus1-a8032ab12345".to_string(),
        params: sample_params(),
    }
}

fn keys<U>(entries: &[(String, U)]) -> Vec<&str> {
    entries.iter().map(|(k, _)| k.as_str()).collect()
}

#[test]
fn starts_with_compares_characters() {
    assert!(starts_with("switch:0", "switch:"));
    assert!(starts_with("switch:", "switch:"));
    assert!(starts_with("anything", ""));
    assert!(starts_with("", ""));
    assert!(!starts_with("switch", "switch:"));
    assert!(!starts_with("input:0", "switch:"));
    assert!(!starts_with("", "a"));
    assert!(starts_with("héllo wörld", "héllo"));
    assert!(!starts_with("hello", "hé"));
}

#[test]
fn temperatures_are_the_prefixed_fields_that_decode() {
    let temps = sample_params().temperatures();
    assert_eq!(keys(&temps), vec!["temperature:0"]);
    assert_eq!(temps[0].1.id, 0);
    assert_eq!(temps[0].1.tc, 21.5);
    assert_eq!(temps[0].1.tf, 70.7);
}

#[test]
fn switches_are_the_prefixed_fields_that_decode() {
    let switches = sample_params().switches();
    assert_eq!(keys(&switches), vec!["switch:0", "switch:2"]);
    assert_eq!(switches[0].1, Switch { output: true });
    assert_eq!(switches[1].1, Switch { output: false });
}

#[test]
fn inputs_are_the_prefixed_fields_that_decode() {
    let inputs = sample_params().inputs();
    assert_eq!(keys(&inputs), vec!["input:0", "input:1"]);
    assert_eq!(inputs[0].1, Input { id: 0, state: false });
    assert_eq!(inputs[1].1, Input { id: 1, state: true });
}

#[test]
fn empty_params_have_no_components() {
    let params: Params<f64> = Params { rest: vec![] };
    assert!(params.temperatures().is_empty());
    assert!(params.switches().is_empty());
    assert!(params.inputs().is_empty());
}

#[test]
fn no_key_is_read_as_two_kinds() {
    let params = sample_params();
    let t = params.temperatures();
    let s = params.switches();
    let i = params.inputs();
    for (k, _) in &t {
        assert!(!s.iter().any(|(k2, _)| k2 == k));
        assert!(!i.iter().any(|(k2, _)| k2 == k));
    }
    for (k, _) in &s {
        assert!(!i.iter().any(|(k2, _)| k2 == k));
    }
}

#[test]
fn device_message_reads_the_notification() {
    let reported = SmartDeviceMessage::from_shelly(sample_message());
    assert_eq!(reported.id, "shellyplus1-a8032ab12345");
    assert_eq!(keys(&reported.temperatures), vec!["temperature:0"]);
    assert_eq!(keys(&reported.switches), vec!["switch:0", "switch:2"]);
    assert_eq!(keys(&reported.inputs), vec!["input:0", "input:1"]);
}

#[test]
fn components_take_the_reported_state() {
    let s: SmartSwitch = SmartSwitch::from(Switch { output: true });
    assert!(s.state);
    let s: SmartSwitch = SmartSwitch::from(Switch { output: false });
    assert!(!s.state);
    let i: SmartInput = SmartInput::from(Input { id: 7, state: true });
    assert!(i.state);
    let t: SmartTemperature<f64> = SmartTemperature::from(Temperature { id: 1, tc: -3.25, tf: 26.15 });
    assert_eq!(t.tc, -3.25);
}

#[test]
fn device_is_built_from_what_it_reported() {
    let device = SmartDevice::from_message(SmartDeviceMessage::from_shelly(sample_message()));
    assert_eq!(device.id, "shellyplus1-a8032ab12345");
    assert_eq!(keys(&device.temperatures), vec!["temperature:0"]);
    assert_eq!(device.temperatures[0].1.tc, 21.5);
    assert_eq!(keys(&device.switches), vec!["switch:0", "switch:2"]);
    assert!(device.switches[0].1.state);
    assert!(!device.switches[1].1.state);
    assert_eq!(keys(&device.inputs), vec!["input:0", "input:1"]);
    assert!(!device.inputs[0].1.state);
    assert!(device.inputs[1].1.state);
}

#[test]
fn reader_publishes_notifications() {
    match read_step(Incoming::Text(Some(sample_message()))) {
        ReadAction::Publish(reported) => {
            assert_eq!(reported.id, "shellyplus1-a8032ab12345");
            assert_eq!(keys(&reported.switches), vec!["switch:0", "switch:2"]);
        }
        _ => panic!("a notification is published"),
    }
}

#[test]
fn reader_handles_other_frames() {
    assert!(matches!(read_step::<f64>(Incoming::Text(None)), ReadAction::Skip));
    assert!(matches!(read_step::<f64>(Incoming::Ping), ReadAction::ReplyPong));
    assert!(matches!(read_step::<f64>(Incoming::Other), ReadAction::Unhandled));
    assert!(matches!(read_step::<f64>(Incoming::Failed), ReadAction::Fail));
    assert!(matches!(read_step::<f64>(Incoming::Closed), ReadAction::Finish));
}

#[test]
fn writer_frames_messages() {
    let msg = SendMessage::Switch(Switch { output: true });
    assert_eq!(
        write_step(msg, Some("{\"output\":true}".to_string())),
        Some(Outgoing::Text("{\"output\":true}".to_string()))
    );
    assert_eq!(write_step(msg, None), None);
    assert_eq!(write_step(SendMessage::Pong, None), Some(Outgoing::Pong(vec![])));
    assert_eq!(write_step(SendMessage::Pong, Some("x".to_string())), Some(Outgoing::Pong(vec![])));
}

#[test]
fn engine_error_text() {
    assert_eq!(EngineError::WebSocketError("closed".to_string()).to_string(), "WebSocket error: closed");
    assert_eq!(
        EngineError::SerdeError("EOF".to_string()).to_string(),
        "Serialize/Deserialize error: EOF"
    );
}

#[test]
fn app_error_text() {
    let e = AppError::from(EngineError::WebSocketError("reset".to_string()));
    assert_eq!(e, AppError::EngineError(EngineError::WebSocketError("reset".to_string())));
    assert_eq!(e.to_string(), "EngineError -> WebSocket error: reset");
    assert_eq!(AppError::SerdeError("bad".to_string()).to_string(), "Serialize/Deserialize error: bad");
    assert_eq!(AppError::ConfigError("missing".to_string()).to_string(), "config error: missing");
}

#[test]
fn json_errors_become_engine_errors() {
    let err = serde_json::from_str::<serde_json::Value>("{").unwrap_err();
    let text = err.to_string();
    assert_eq!(EngineError::from_serde(err), EngineError::SerdeError(text));
}

#[test]
fn parse_value_reads_json() {
    let v = parse_value("{\"src\":\"dev\",\"params\":{\"switch:0\":{\"output\":true}}}").unwrap();
    assert_eq!(v["params"]["switch:0"]["output"], serde_json::Value::Bool(true));
    assert_eq!(parse_value("42").unwrap(), serde_json::Value::from(42));
}

#[test]
fn parse_value_refuses_what_is_not_json() {
    assert!(matches!(parse_value("{"), Err(EngineError::SerdeError(_))));
    assert!(matches!(parse_value("not json"), Err(EngineError::SerdeError(_))));
    assert!(matches!(parse_value(""), Err(EngineError::SerdeError(_))));
}

#[test]
fn connecting_device_builds_it() {
    let text = "{\"method\":\"NotifyFullStatus\",\"src\":\"shellyplus1-a8032ab12345\",\"params\":{}}";
    let device = connect_device(text, Ok(sample_message())).unwrap();
    assert_eq!(device.id, "shellyplus1-a8032ab12345");
    assert_eq!(keys(&device.switches), vec!["switch:0", "switch:2"]);
    assert_eq!(keys(&device.inputs), vec!["input:0", "input:1"]);
    assert_eq!(keys(&device.temperatures), vec!["temperature:0"]);
}

#[test]
fn connecting_device_refuses_bad_frames() {
    let err = connect_device("{\"src\":", Ok(sample_message())).unwrap_err();
    assert!(matches!(err, EngineError::SerdeError(_)));
    let err = connect_device::<f64>("{\"src\":1}", Err("missing field `method`".to_string())).unwrap_err();
    assert_eq!(err, EngineError::SerdeError("missing field `method`".to_string()));
}

#[test]
fn poller_shows_json_replies() {
    match poll_step(PollReply::Text("{\"output\":true}".to_string())) {
        PollAction::Show(v) => assert_eq!(v["output"], serde_json::Value::Bool(true)),
        _ => panic!("a JSON reply is shown"),
    }
}

#[test]
fn poller_stops_and_goes_on() {
    assert!(matches!(
        poll_step(PollReply::Text("nope".to_string())),
        PollAction::Stop(Err(EngineError::SerdeError(_)))
    ));
    assert!(matches!(poll_step(PollReply::Other), PollAction::Query));
    match poll_step(PollReply::Failed("reset".to_string())) {
        PollAction::Stop(Err(e)) => assert_eq!(e, EngineError::WebSocketError("reset".to_string())),
        _ => panic!("a failed connection stops polling"),
    }
    assert!(matches!(poll_step(PollReply::Closed), PollAction::Stop(Ok(()))));
}

#[test]
fn default_log_level_is_info() {
    assert_eq!(default_log_level(), "info");
}

#[test]
fn config_types_hold_their_fields() {
    let cli = Cli { config: "smarthy.yaml".to_string() };
    assert_eq!(cli.config, "smarthy.yaml");
    let dev = SmartDeviceConfig {
        temperatures: vec!["temperature:0".to_string()],
        switches: vec!["switch:0".to_string()],
        inputs: vec![],
    };
    assert_eq!(dev.clone(), dev);
}

#[test]
fn device_has_each_component_key_once() {
    let device = connect_device("{}", Ok(sample_message())).unwrap();
    let mut all: Vec<&str> = keys(&device.temperatures);
    all.extend(keys(&device.switches));
    all.extend(keys(&device.inputs));
    let mut sorted = all.clone();
    sorted.sort();
    sorted.dedup();
    assert_eq!(sorted.len(), all.len());
}

#[test]
fn json_errors_carry_serde_json_description() {
    let expected = serde_json::from_str::<serde_json::Value>("{\"src\":").unwrap_err().to_string();
    assert_eq!(parse_value("{\"src\":").unwrap_err(), EngineError::SerdeError(expected.clone()));
    assert_eq!(connect_device::<f64>("{\"src\":", Err("unused".to_string())).unwrap_err(), EngineError::SerdeError(expected.clone()));
    match poll_step(PollReply::Text("{\"src\":".to_string())) {
        PollAction::Stop(Err(e)) => assert_eq!(e, EngineError::SerdeError(expected)),
        _ => panic!("a reply that is not JSON stops polling"),
    }
}

#[test]
fn serving_switch_answers_every_frame() {
    assert_eq!(serve_step(ServeIncoming::Text("hi".to_string())), ServeAction::ShowAndReply("hi".to_string()));
    assert_eq!(serve_step(ServeIncoming::Other), ServeAction::Reply);
    assert_eq!(serve_step(ServeIncoming::Failed), ServeAction::Stop);
    assert_eq!(serve_step(ServeIncoming::Closed), ServeAction::Stop);
}

#[test]
fn unprefixed_field_never_matters() {
    let params = sample_params();
    let mut more = sample_params();
    more.rest.insert(
        2,
        field(
            "sys:extra",
            Some(Temperature { id: 9, tc: 1.0, tf: 33.8 }),
            Some(Switch { output: true }),
            Some(Input { id: 9, state: true }),
        ),
    );
    assert_eq!(keys(&more.temperatures()), keys(&params.temperatures()));
    assert_eq!(more.switches(), params.switches());
    assert_eq!(more.inputs(), params.inputs());
}

#[test]
fn default_device_is_empty() {
    let d: SmartDevice<f64> = SmartDevice::default();
    assert!(d.id.is_empty());
    assert!(d.temperatures.is_empty() && d.switches.is_empty() && d.inputs.is_empty());
}

#[test]
fn parse_value_gives_the_value_of_the_text() {
    let text = "{\"a\":[1,2,{\"b\":null}],\"c\":\"d\"}";
    let expected: serde_json::Value = serde_json::from_str(text).unwrap();
    assert_eq!(parse_value(text).unwrap(), expected);
    match poll_step(PollReply::Text(text.to_string())) {
        PollAction::Show(v) => assert_eq!(v, expected),
        _ => panic!("a JSON reply is shown"),
    }
}

#[test]
fn first_text_frame_makes_the_device() {
    let text = "{\"method\":\"NotifyFullStatus\",\"src\":\"shellyplus1-a8032ab12345\",\"params\":{}}";
    let device = accept_first_frame(FirstFrame::Text(text.to_string(), Ok(sample_message())))
        .unwrap()
        .unwrap();
    assert_eq!(device.id, "shellyplus1-a8032ab12345");
    assert_eq!(keys(&device.switches), vec!["switch:0", "switch:2"]);
    let err = accept_first_frame::<f64>(FirstFrame::Text("{".to_string(), Err("unused".to_string()))).unwrap_err();
    assert!(matches!(err, EngineError::SerdeError(_)));
}

#[test]
fn other_first_frames_end_quietly() {
    assert!(matches!(accept_first_frame::<f64>(FirstFrame::Other), Ok(None)));
    assert!(matches!(accept_first_frame::<f64>(FirstFrame::Failed), Ok(None)));
    assert!(matches!(accept_first_frame::<f64>(FirstFrame::Closed), Ok(None)));
}
