//! What the server makes of the first frame that a device sends when it connects.

use vstd::prelude::*;
use crate::device::{SmartDevice, inputs_from, switches_from, temperatures_from};
use crate::error::EngineError;
use crate::message::{
    ShellyMessage, SmartDeviceMessage, keyed_view, keys_distinct, lemma_component_kinds_disjoint,
    lemma_components_keyed_once,
};

verus! {

/// `serde_json`'s representation of any JSON value.
#[verifier::external_type_specification]
#[verifier::external_body]
pub struct ExJsonValue(serde_json::Value);

/// Whether `text` is one JSON value, as `serde_json` reads JSON text.
pub uninterp spec fn is_json(text: Seq<char>) -> bool;

/// The description that `serde_json` gives of why `text` is not one JSON value
/// (what its error displays: the fault and the line and column where it stands).
pub uninterp spec fn json_error_text(text: Seq<char>) -> Seq<char>;

/// The JSON value that `serde_json` reads from `text`, where `is_json(text)`.
pub uninterp spec fn json_value(text: Seq<char>) -> serde_json::Value;

/// Calls `serde_json::from_str` to read `text` as a JSON value, and on failure
/// takes the error's text (`to_string`). Claimed: it succeeds exactly on the
/// texts that `is_json` names, the value it reads is `json_value` of the text,
/// and the error's text is `json_error_text` of the text; all three are
/// functions of the text alone. What the value holds is left to those names.
#[verifier::external_body]
fn json_from_str(text: &str) -> (res: Result<serde_json::Value, String>)
    ensures
        res is Ok <==> is_json(text@),
        res matches Ok(value) ==> value == json_value(text@),
        res matches Err(why) ==> why@ == json_error_text(text@),
{
    match serde_json::from_str::<serde_json::Value>(text) {
        Ok(value) => Ok(value),
        Err(e) => Err(e.to_string()),
    }
}

/// Reads `text` as a JSON value; where it is not JSON, the error is the
/// engine's error for JSON that cannot be read, with `serde_json`'s description.
pub fn parse_value(text: &str) -> (res: Result<serde_json::Value, EngineError>)
    ensures
        res is Ok <==> is_json(text@),
        res matches Ok(value) ==> value == json_value(text@),
        !is_json(text@) ==> (res matches Err(EngineError::SerdeError(why)) && why@ == json_error_text(text@)),
{
    match json_from_str(text) {
        Ok(v) => Ok(v),
        Err(why) => Err(EngineError::SerdeError(why)),
    }
}

/// Whether `device` is the device that the notification `msg` describes.
pub open spec fn describes<R>(device: SmartDevice<R>, msg: ShellyMessage<R>) -> bool {
    &&& device.id@ == msg.src@
    &&& keyed_view(device.temperatures@) == temperatures_from(msg.params.spec_temperatures())
    &&& keyed_view(device.switches@) == switches_from(msg.params.spec_switches())
    &&& keyed_view(device.inputs@) == inputs_from(msg.params.spec_inputs())
}

/// Whether `res` is what the first text frame `text` of a new connection makes:
/// a frame that is not JSON is refused with `serde_json`'s description, one
/// that does not decode with the description of why, and a notification gives
/// the device that it describes, which has each component key once where the
/// notification's `params` name each key once.
pub open spec fn connects<R>(
    text: Seq<char>,
    decoded: Result<ShellyMessage<R>, String>,
    res: Result<SmartDevice<R>, EngineError>,
) -> bool {
    &&& !is_json(text) ==> (res matches Err(EngineError::SerdeError(why)) && why@ == json_error_text(text))
    &&& is_json(text) ==> match decoded {
        Ok(msg) => res matches Ok(device) && describes(device, msg) && (msg.params.wf() ==> {
            &&& keys_distinct(keyed_view(device.temperatures@))
            &&& keys_distinct(keyed_view(device.switches@))
            &&& keys_distinct(keyed_view(device.inputs@))
        }),
        Err(why) => res == Err::<SmartDevice<R>, EngineError>(EngineError::SerdeError(why)),
    }
}

/// Makes the device out of the first text frame of a new connection. `text` is
/// the frame; `decoded` is what decoding it as a notification gave, or the
/// description of why it did not decode. A frame that is not JSON, or does not
/// decode, is refused with the engine's JSON error.
pub fn connect_device<R: Copy>(text: &str, decoded: Result<ShellyMessage<R>, String>) -> (res: Result<SmartDevice<R>, EngineError>)
    ensures
        connects(text@, decoded, res),
        is_json(text@) && decoded is Ok ==> ({
            let rest = decoded->Ok_0.params.rest@;
            let device = res->Ok_0;
            &&& res is Ok
            &&& device.id@ == decoded->Ok_0.src@
            &&& forall|j: int| #![trigger rest[j]]
                    0 <= j < rest.len() && "temperature:"@.is_prefix_of(rest[j].key@) && rest[j].temperature is Some
                        ==> exists|i: int| 0 <= i < device.temperatures@.len() && #[trigger] device.temperatures@[i].0@ == rest[j].key@
                            && device.temperatures@[i].1.tc == rest[j].temperature->0.tc
            &&& forall|i: int| #![trigger device.temperatures@[i]]
                    0 <= i < device.temperatures@.len() ==> "temperature:"@.is_prefix_of(device.temperatures@[i].0@)
                        && exists|j: int| 0 <= j < rest.len() && #[trigger] rest[j].key@ == device.temperatures@[i].0@
                            && rest[j].temperature is Some && rest[j].temperature->0.tc == device.temperatures@[i].1.tc
            &&& forall|j: int| #![trigger rest[j]]
                    0 <= j < rest.len() && "switch:"@.is_prefix_of(rest[j].key@) && rest[j].switch is Some
                        ==> exists|i: int| 0 <= i < device.switches@.len() && #[trigger] device.switches@[i].0@ == rest[j].key@
                            && device.switches@[i].1.state == rest[j].switch->0.output
            &&& forall|i: int| #![trigger device.switches@[i]]
                    0 <= i < device.switches@.len() ==> "switch:"@.is_prefix_of(device.switches@[i].0@)
                        && exists|j: int| 0 <= j < rest.len() && #[trigger] rest[j].key@ == device.switches@[i].0@
                            && rest[j].switch is Some && rest[j].switch->0.output == device.switches@[i].1.state
            &&& forall|j: int| #![trigger rest[j]]
                    0 <= j < rest.len() && "input:"@.is_prefix_of(rest[j].key@) && rest[j].input is Some
                        ==> exists|i: int| 0 <= i < device.inputs@.len() && #[trigger] device.inputs@[i].0@ == rest[j].key@
                            && device.inputs@[i].1.state == rest[j].input->0.state
            &&& forall|i: int| #![trigger device.inputs@[i]]
                    0 <= i < device.inputs@.len() ==> "input:"@.is_prefix_of(device.inputs@[i].0@)
                        && exists|j: int| 0 <= j < rest.len() && #[trigger] rest[j].key@ == device.inputs@[i].0@
                            && rest[j].input is Some && rest[j].input->0.state == device.inputs@[i].1.state
        }),
{
    match parse_value(text) {
        Err(e) => Err(e),
        Ok(_value) => match decoded {
            Err(why) => Err(EngineError::SerdeError(why)),
            Ok(msg) => {
                let ghost rest = msg.params.rest@;
                let reported = SmartDeviceMessage::from_shelly(msg);
                let device = SmartDevice::from_message(reported);
                proof {
                    assert forall|j: int| #![trigger rest[j]]
                        0 <= j < rest.len() && "temperature:"@.is_prefix_of(rest[j].key@) && rest[j].temperature is Some
                            implies exists|i: int| 0 <= i < device.temperatures@.len() && #[trigger] device.temperatures@[i].0@ == rest[j].key@
                                && device.temperatures@[i].1.tc == rest[j].temperature->0.tc by {
                        let i = choose|i: int| 0 <= i < reported.temperatures@.len() && #[trigger] reported.temperatures@[i].0@ == rest[j].key@
                            && reported.temperatures@[i].1 == rest[j].temperature->0;
                        assert(device.temperatures@[i].0@ == reported.temperatures@[i].0@);
                    }
                    assert forall|i: int| #![trigger device.temperatures@[i]]
                        0 <= i < device.temperatures@.len() implies "temperature:"@.is_prefix_of(device.temperatures@[i].0@)
                            && exists|j: int| 0 <= j < rest.len() && #[trigger] rest[j].key@ == device.temperatures@[i].0@
                                && rest[j].temperature is Some && rest[j].temperature->0.tc == device.temperatures@[i].1.tc by {
                        assert(device.temperatures@[i].0@ == reported.temperatures@[i].0@);
                        assert("temperature:"@.is_prefix_of(reported.temperatures@[i].0@));
                        let j = choose|j: int| 0 <= j < rest.len() && #[trigger] rest[j].key@ == reported.temperatures@[i].0@
                            && rest[j].temperature == Some(reported.temperatures@[i].1);
                    }
                    assert forall|j: int| #![trigger rest[j]]
                        0 <= j < rest.len() && "switch:"@.is_prefix_of(rest[j].key@) && rest[j].switch is Some
                            implies exists|i: int| 0 <= i < device.switches@.len() && #[trigger] device.switches@[i].0@ == rest[j].key@
                                && device.switches@[i].1.state == rest[j].switch->0.output by {
                        let i = choose|i: int| 0 <= i < reported.switches@.len() && #[trigger] reported.switches@[i].0@ == rest[j].key@
                            && reported.switches@[i].1 == rest[j].switch->0;
                        assert(device.switches@[i].0@ == reported.switches@[i].0@);
                    }
                    assert forall|i: int| #![trigger device.switches@[i]]
                        0 <= i < device.switches@.len() implies "switch:"@.is_prefix_of(device.switches@[i].0@)
                            && exists|j: int| 0 <= j < rest.len() && #[trigger] rest[j].key@ == device.switches@[i].0@
                                && rest[j].switch is Some && rest[j].switch->0.output == device.switches@[i].1.state by {
                        assert(device.switches@[i].0@ == reported.switches@[i].0@);
                        assert("switch:"@.is_prefix_of(reported.switches@[i].0@));
                        let j = choose|j: int| 0 <= j < rest.len() && #[trigger] rest[j].key@ == reported.switches@[i].0@
                            && rest[j].switch == Some(reported.switches@[i].1);
                    }
                    assert forall|j: int| #![trigger rest[j]]
                        0 <= j < rest.len() && "input:"@.is_prefix_of(rest[j].key@) && rest[j].input is Some
                            implies exists|i: int| 0 <= i < device.inputs@.len() && #[trigger] device.inputs@[i].0@ == rest[j].key@
                                && device.inputs@[i].1.state == rest[j].input->0.state by {
                        let i = choose|i: int| 0 <= i < reported.inputs@.len() && #[trigger] reported.inputs@[i].0@ == rest[j].key@
                            && reported.inputs@[i].1 == rest[j].input->0;
                        assert(device.inputs@[i].0@ == reported.inputs@[i].0@);
                    }
                    assert forall|i: int| #![trigger device.inputs@[i]]
                        0 <= i < device.inputs@.len() implies "input:"@.is_prefix_of(device.inputs@[i].0@)
                            && exists|j: int| 0 <= j < rest.len() && #[trigger] rest[j].key@ == device.inputs@[i].0@
                                && rest[j].input is Some && rest[j].input->0.state == device.inputs@[i].1.state by {
                        assert(device.inputs@[i].0@ == reported.inputs@[i].0@);
                        assert("input:"@.is_prefix_of(reported.inputs@[i].0@));
                        let j = choose|j: int| 0 <= j < rest.len() && #[trigger] rest[j].key@ == reported.inputs@[i].0@
                            && rest[j].input == Some(reported.inputs@[i].1);
                    }
                }
                Ok(device)
            },
        },
    }
}

/// What a new connection brought first.
pub enum FirstFrame<R> {
    /// A text frame, with what decoding it as a notification gave, or the
    /// description of why it did not decode.
    Text(String, Result<ShellyMessage<R>, String>),
    /// Any other frame.
    Other,
    /// Reading from the connection failed.
    Failed,
    /// The connection ended before any frame.
    Closed,
}

/// What the server makes of the first thing a new connection brought: only a
/// text frame leads to a device (`Some`), made as `connect_device` makes it;
/// anything else ends the connection quietly, without a device and without error.
pub fn accept_first_frame<R: Copy>(first: FirstFrame<R>) -> (res: Result<Option<SmartDevice<R>>, EngineError>)
    ensures
        match first {
            FirstFrame::Text(text, decoded) => match res {
                Ok(Some(device)) => connects(text@, decoded, Ok(device)),
                Ok(None) => false,
                Err(e) => connects(text@, decoded, Err(e)),
            },
            _ => res == Ok::<Option<SmartDevice<R>>, EngineError>(None),
        },
        first matches FirstFrame::Text(text, decoded) ==> (is_json(text@) && decoded is Ok ==> ({
            let rest = decoded->Ok_0.params.rest@;
            let device = res->Ok_0->0;
            &&& res matches Ok(Some(_))
            &&& device.id@ == decoded->Ok_0.src@
            &&& forall|j: int| #![trigger rest[j]]
                    0 <= j < rest.len() && "temperature:"@.is_prefix_of(rest[j].key@) && rest[j].temperature is Some
                        ==> exists|i: int| 0 <= i < device.temperatures@.len() && #[trigger] device.temperatures@[i].0@ == rest[j].key@
                            && device.temperatures@[i].1.tc == rest[j].temperature->0.tc
            &&& forall|i: int| #![trigger device.temperatures@[i]]
                    0 <= i < device.temperatures@.len() ==> "temperature:"@.is_prefix_of(device.temperatures@[i].0@)
                        && exists|j: int| 0 <= j < rest.len() && #[trigger] rest[j].key@ == device.temperatures@[i].0@
                            && rest[j].temperature is Some && rest[j].temperature->0.tc == device.temperatures@[i].1.tc
            &&& forall|j: int| #![trigger rest[j]]
                    0 <= j < rest.len() && "switch:"@.is_prefix_of(rest[j].key@) && rest[j].switch is Some
                        ==> exists|i: int| 0 <= i < device.switches@.len() && #[trigger] device.switches@[i].0@ == rest[j].key@
                            && device.switches@[i].1.state == rest[j].switch->0.output
            &&& forall|i: int| #![trigger device.switches@[i]]
                    0 <= i < device.switches@.len() ==> "switch:"@.is_prefix_of(device.switches@[i].0@)
                        && exists|j: int| 0 <= j < rest.len() && #[trigger] rest[j].key@ == device.switches@[i].0@
                            && rest[j].switch is Some && rest[j].switch->0.output == device.switches@[i].1.state
            &&& forall|j: int| #![trigger rest[j]]
                    0 <= j < rest.len() && "input:"@.is_prefix_of(rest[j].key@) && rest[j].input is Some
                        ==> exists|i: int| 0 <= i < device.inputs@.len() && #[trigger] device.inputs@[i].0@ == rest[j].key@
                            && device.inputs@[i].1.state == rest[j].input->0.state
            &&& forall|i: int| #![trigger device.inputs@[i]]
                    0 <= i < device.inputs@.len() ==> "input:"@.is_prefix_of(device.inputs@[i].0@)
                        && exists|j: int| 0 <= j < rest.len() && #[trigger] rest[j].key@ == device.inputs@[i].0@
                            && rest[j].input is Some && rest[j].input->0.state == device.inputs@[i].1.state
        })),
{
    match first {
        FirstFrame::Text(text, decoded) => match connect_device(text.as_str(), decoded) {
            Ok(device) => {
                let res: Result<Option<SmartDevice<R>>, EngineError> = Ok(Some(device));
                assert(res->Ok_0->0 == device);
                res
            },
            Err(e) => Err(e),
        },
        _ => Ok(None),
    }
}

/// A device made from a notification whose `params` name each key once has
/// each of its components under a key of its own: no key twice among its
/// temperature sensors, its switches or its inputs, and no key in two of them.
pub proof fn lemma_device_components_keyed_once<R>(device: SmartDevice<R>, msg: ShellyMessage<R>)
    requires
        describes(device, msg),
        msg.params.wf(),
    ensures
        keys_distinct(keyed_view(device.temperatures@)),
        keys_distinct(keyed_view(device.switches@)),
        keys_distinct(keyed_view(device.inputs@)),
        forall|i: int, j: int|
            0 <= i < device.temperatures@.len() && 0 <= j < device.switches@.len()
                ==> #[trigger] device.temperatures@[i].0@ != #[trigger] device.switches@[j].0@,
        forall|i: int, j: int|
            0 <= i < device.temperatures@.len() && 0 <= j < device.inputs@.len()
                ==> #[trigger] device.temperatures@[i].0@ != #[trigger] device.inputs@[j].0@,
        forall|i: int, j: int|
            0 <= i < device.switches@.len() && 0 <= j < device.inputs@.len()
                ==> #[trigger] device.switches@[i].0@ != #[trigger] device.inputs@[j].0@,
{
    lemma_components_keyed_once(msg.params);
    lemma_component_kinds_disjoint(msg.params);
    let t = keyed_view(device.temperatures@);
    let s = keyed_view(device.switches@);
    let n = keyed_view(device.inputs@);
    assert(t.len() == device.temperatures@.len() && t.len() == msg.params.spec_temperatures().len());
    assert(s.len() == device.switches@.len() && s.len() == msg.params.spec_switches().len());
    assert(n.len() == device.inputs@.len() && n.len() == msg.params.spec_inputs().len());
    assert forall|i: int, j: int| 0 <= i < j < t.len() implies t[i].0 != t[j].0 by {
        assert(t[i].0 == msg.params.spec_temperatures()[i].0);
        assert(t[j].0 == msg.params.spec_temperatures()[j].0);
    }
    assert forall|i: int, j: int| 0 <= i < j < s.len() implies s[i].0 != s[j].0 by {
        assert(s[i].0 == msg.params.spec_switches()[i].0);
        assert(s[j].0 == msg.params.spec_switches()[j].0);
    }
    assert forall|i: int, j: int| 0 <= i < j < n.len() implies n[i].0 != n[j].0 by {
        assert(n[i].0 == msg.params.spec_inputs()[i].0);
        assert(n[j].0 == msg.params.spec_inputs()[j].0);
    }
    assert forall|i: int, j: int|
        0 <= i < device.temperatures@.len() && 0 <= j < device.switches@.len()
            implies #[trigger] device.temperatures@[i].0@ != #[trigger] device.switches@[j].0@ by {
        assert(t[i].0 == device.temperatures@[i].0@ && s[j].0 == device.switches@[j].0@);
        assert(t[i].0 == msg.params.spec_temperatures()[i].0);
        assert(s[j].0 == msg.params.spec_switches()[j].0);
    }
    assert forall|i: int, j: int|
        0 <= i < device.temperatures@.len() && 0 <= j < device.inputs@.len()
            implies #[trigger] device.temperatures@[i].0@ != #[trigger] device.inputs@[j].0@ by {
        assert(t[i].0 == device.temperatures@[i].0@ && n[j].0 == device.inputs@[j].0@);
        assert(t[i].0 == msg.params.spec_temperatures()[i].0);
        assert(n[j].0 == msg.params.spec_inputs()[j].0);
    }
    assert forall|i: int, j: int|
        0 <= i < device.switches@.len() && 0 <= j < device.inputs@.len()
            implies #[trigger] device.switches@[i].0@ != #[trigger] device.inputs@[j].0@ by {
        assert(s[i].0 == device.switches@[i].0@ && n[j].0 == device.inputs@[j].0@);
        assert(s[i].0 == msg.params.spec_switches()[i].0);
        assert(n[j].0 == msg.params.spec_inputs()[j].0);
    }
}

} // verus!
