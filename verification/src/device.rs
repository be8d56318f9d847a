//! The model of a connected device, built from what it reports, and the
//! decisions of the tasks that read from and write to its connection.

use vstd::prelude::*;
use vstd::std_specs::convert::FromSpecImpl;
use crate::message::{Input, ShellyMessage, SmartDeviceMessage, Switch, Temperature, keyed_view, keys_distinct};

verus! {

/// A switch of a device, with the state it last reported.
#[derive(Clone, Copy, Debug, Default)]
pub struct SmartSwitch {
    pub state: bool,
}

/// An input of a device, with the state it last reported.
#[derive(Clone, Copy, Debug, Default)]
pub struct SmartInput {
    pub state: bool,
}

/// A temperature sensor of a device, with the reading in degrees Celsius it last reported.
#[derive(Clone, Copy, Debug, Default)]
pub struct SmartTemperature<R> {
    pub tc: R,
}

impl From<Switch> for SmartSwitch {
    fn from(msg: Switch) -> (res: SmartSwitch) {
        SmartSwitch { state: msg.output }
    }
}

impl FromSpecImpl<Switch> for SmartSwitch {
    open spec fn obeys_from_spec() -> bool {
        true
    }

    open spec fn from_spec(msg: Switch) -> SmartSwitch {
        SmartSwitch { state: msg.output }
    }
}

impl From<Input> for SmartInput {
    fn from(msg: Input) -> (res: SmartInput) {
        SmartInput { state: msg.state }
    }
}

impl FromSpecImpl<Input> for SmartInput {
    open spec fn obeys_from_spec() -> bool {
        true
    }

    open spec fn from_spec(msg: Input) -> SmartInput {
        SmartInput { state: msg.state }
    }
}

impl<R: Copy> From<Temperature<R>> for SmartTemperature<R> {
    fn from(msg: Temperature<R>) -> (res: SmartTemperature<R>) {
        SmartTemperature { tc: msg.tc }
    }
}

impl<R: Copy> FromSpecImpl<Temperature<R>> for SmartTemperature<R> {
    open spec fn obeys_from_spec() -> bool {
        true
    }

    open spec fn from_spec(msg: Temperature<R>) -> SmartTemperature<R> {
        SmartTemperature { tc: msg.tc }
    }
}

/// A connected device: its id and its components, keyed as the device keys them.
#[derive(Clone, Debug)]
pub struct SmartDevice<R> {
    pub id: String,
    pub temperatures: Vec<(String, SmartTemperature<R>)>,
    pub switches: Vec<(String, SmartSwitch)>,
    pub inputs: Vec<(String, SmartInput)>,
}

impl<R> Default for SmartDevice<R> {
    /// A device with an empty id and no components.
    fn default() -> (res: SmartDevice<R>)
        ensures
            res.id@ == Seq::<char>::empty(),
            res.temperatures@.len() == 0,
            res.switches@.len() == 0,
            res.inputs@.len() == 0,
    {
        SmartDevice { id: String::new(), temperatures: Vec::new(), switches: Vec::new(), inputs: Vec::new() }
    }
}

/// The switches of a device built from reported switch states, in the same order.
pub open spec fn switches_from(reported: Seq<(Seq<char>, Switch)>) -> Seq<(Seq<char>, SmartSwitch)> {
    reported.map_values(|e: (Seq<char>, Switch)| (e.0, SmartSwitch { state: e.1.output }))
}

/// The inputs of a device built from reported input states, in the same order.
pub open spec fn inputs_from(reported: Seq<(Seq<char>, Input)>) -> Seq<(Seq<char>, SmartInput)> {
    reported.map_values(|e: (Seq<char>, Input)| (e.0, SmartInput { state: e.1.state }))
}

/// The temperature sensors of a device built from reported readings, in the same order.
pub open spec fn temperatures_from<R>(reported: Seq<(Seq<char>, Temperature<R>)>) -> Seq<(Seq<char>, SmartTemperature<R>)> {
    reported.map_values(|e: (Seq<char>, Temperature<R>)| (e.0, SmartTemperature { tc: e.1.tc }))
}

impl<R: Copy> SmartDevice<R> {
    /// Builds the device that a notification describes: each reported component
    /// becomes a component of the device under the same key, holding the state or
    /// reading that was reported.
    pub fn from_message(msg: SmartDeviceMessage<R>) -> (res: SmartDevice<R>)
        ensures
            res.id@ == msg.id@,
            keyed_view(res.temperatures@) == temperatures_from(keyed_view(msg.temperatures@)),
            keyed_view(res.switches@) == switches_from(keyed_view(msg.switches@)),
            keyed_view(res.inputs@) == inputs_from(keyed_view(msg.inputs@)),
            keys_distinct(keyed_view(msg.temperatures@)) ==> keys_distinct(keyed_view(res.temperatures@)),
            keys_distinct(keyed_view(msg.switches@)) ==> keys_distinct(keyed_view(res.switches@)),
            keys_distinct(keyed_view(msg.inputs@)) ==> keys_distinct(keyed_view(res.inputs@)),
            res.temperatures@.len() == msg.temperatures@.len(),
            forall|i: int| #![trigger res.temperatures@[i]] 0 <= i < msg.temperatures@.len()
                ==> res.temperatures@[i].0@ == msg.temperatures@[i].0@
                    && res.temperatures@[i].1.tc == msg.temperatures@[i].1.tc,
            res.switches@.len() == msg.switches@.len(),
            forall|i: int| #![trigger res.switches@[i]] 0 <= i < msg.switches@.len()
                ==> res.switches@[i].0@ == msg.switches@[i].0@
                    && res.switches@[i].1.state == msg.switches@[i].1.output,
            res.inputs@.len() == msg.inputs@.len(),
            forall|i: int| #![trigger res.inputs@[i]] 0 <= i < msg.inputs@.len()
                ==> res.inputs@[i].0@ == msg.inputs@[i].0@
                    && res.inputs@[i].1.state == msg.inputs@[i].1.state,
    {
        let mut temperatures: Vec<(String, SmartTemperature<R>)> = Vec::new();
        let mut i: usize = 0;
        while i < msg.temperatures.len()
            invariant
                i <= msg.temperatures@.len(),
                keyed_view(temperatures@) == temperatures_from(keyed_view(msg.temperatures@.take(i as int))),
            decreases msg.temperatures@.len() - i,
        {
            let key = msg.temperatures[i].0.clone();
            let t = SmartTemperature::from(msg.temperatures[i].1);
            assert(t.tc == msg.temperatures@[i as int].1.tc);
            let ghost before = temperatures@;
            temperatures.push((key, t));
            proof {
                assert(keyed_view(temperatures@) =~= keyed_view(before).push((key@, t)));
                assert(msg.temperatures@.take(i + 1) == msg.temperatures@.take(i as int).push(msg.temperatures@[i as int]));
                assert(keyed_view(temperatures@) =~= temperatures_from(keyed_view(msg.temperatures@.take(i + 1))));
            }
            i = i + 1;
        }
        let mut switches: Vec<(String, SmartSwitch)> = Vec::new();
        let mut i: usize = 0;
        while i < msg.switches.len()
            invariant
                i <= msg.switches@.len(),
                keyed_view(switches@) == switches_from(keyed_view(msg.switches@.take(i as int))),
            decreases msg.switches@.len() - i,
        {
            let key = msg.switches[i].0.clone();
            let sw = SmartSwitch::from(msg.switches[i].1);
            assert(sw.state == msg.switches@[i as int].1.output);
            let ghost before = switches@;
            switches.push((key, sw));
            proof {
                assert(keyed_view(switches@) =~= keyed_view(before).push((key@, sw)));
                assert(msg.switches@.take(i + 1) == msg.switches@.take(i as int).push(msg.switches@[i as int]));
                assert(keyed_view(switches@) =~= switches_from(keyed_view(msg.switches@.take(i + 1))));
            }
            i = i + 1;
        }
        let mut inputs: Vec<(String, SmartInput)> = Vec::new();
        let mut i: usize = 0;
        while i < msg.inputs.len()
            invariant
                i <= msg.inputs@.len(),
                keyed_view(inputs@) == inputs_from(keyed_view(msg.inputs@.take(i as int))),
            decreases msg.inputs@.len() - i,
        {
            let key = msg.inputs[i].0.clone();
            let inp = SmartInput::from(msg.inputs[i].1);
            assert(inp.state == msg.inputs@[i as int].1.state);
            let ghost before = inputs@;
            inputs.push((key, inp));
            proof {
                assert(keyed_view(inputs@) =~= keyed_view(before).push((key@, inp)));
                assert(msg.inputs@.take(i + 1) == msg.inputs@.take(i as int).push(msg.inputs@[i as int]));
                assert(keyed_view(inputs@) =~= inputs_from(keyed_view(msg.inputs@.take(i + 1))));
            }
            i = i + 1;
        }
        proof {
            assert(msg.temperatures@.take(msg.temperatures@.len() as int) == msg.temperatures@);
            assert(msg.switches@.take(msg.switches@.len() as int) == msg.switches@);
            assert(msg.inputs@.take(msg.inputs@.len() as int) == msg.inputs@);
        }
        proof {
            let (t, t0) = (keyed_view(temperatures@), keyed_view(msg.temperatures@));
            let (w, w0) = (keyed_view(switches@), keyed_view(msg.switches@));
            let (n, n0) = (keyed_view(inputs@), keyed_view(msg.inputs@));
            assert(forall|i: int| 0 <= i < t.len() ==> #[trigger] t[i].0 == t0[i].0);
            assert(forall|i: int| 0 <= i < w.len() ==> #[trigger] w[i].0 == w0[i].0);
            assert(forall|i: int| 0 <= i < n.len() ==> #[trigger] n[i].0 == n0[i].0);
            assert forall|i: int| #![trigger temperatures@[i]] 0 <= i < msg.temperatures@.len() implies
                temperatures@[i].0@ == msg.temperatures@[i].0@
                    && temperatures@[i].1.tc == msg.temperatures@[i].1.tc by {
                assert(t[i] == (temperatures@[i].0@, temperatures@[i].1));
                assert(t0[i] == (msg.temperatures@[i].0@, msg.temperatures@[i].1));
            }
            assert forall|i: int| #![trigger switches@[i]] 0 <= i < msg.switches@.len() implies
                switches@[i].0@ == msg.switches@[i].0@
                    && switches@[i].1.state == msg.switches@[i].1.output by {
                assert(w[i] == (switches@[i].0@, switches@[i].1));
                assert(w0[i] == (msg.switches@[i].0@, msg.switches@[i].1));
            }
            assert forall|i: int| #![trigger inputs@[i]] 0 <= i < msg.inputs@.len() implies
                inputs@[i].0@ == msg.inputs@[i].0@
                    && inputs@[i].1.state == msg.inputs@[i].1.state by {
                assert(n[i] == (inputs@[i].0@, inputs@[i].1));
                assert(n0[i] == (msg.inputs@[i].0@, msg.inputs@[i].1));
            }
        }
        SmartDevice { id: msg.id, temperatures, switches, inputs }
    }
}

/// What the task that reads a device's connection got next.
pub enum Incoming<R> {
    /// A text frame, with what decoding it as a notification gave (`None` where
    /// it does not decode).
    Text(Option<ShellyMessage<R>>),
    /// A ping frame.
    Ping,
    /// Any other frame.
    Other,
    /// The connection failed.
    Failed,
    /// The connection has no more frames.
    Closed,
}

/// What the reading task does next.
pub enum ReadAction<R> {
    /// Hands what the device reported to those who listen to the device.
    Publish(SmartDeviceMessage<R>),
    /// Asks the writing task to answer with a pong.
    ReplyPong,
    /// Goes on reading: a text frame that is no notification is dropped.
    Skip,
    /// Goes on reading, noting a frame it does not handle.
    Unhandled,
    /// Stops: the device has disconnected.
    Finish,
    /// Stops with the connection's error.
    Fail,
}

/// A message for the task that writes to a device's connection.
#[derive(Clone, Copy, Debug)]
pub enum SendMessage {
    /// A switch state to send to the device.
    Switch(Switch),
    /// An answer to a ping.
    Pong,
}

/// A frame that the writing task puts on the connection.
#[derive(Clone, Debug, PartialEq, Eq)]
pub enum Outgoing {
    Text(String),
    Pong(Vec<u8>),
}

/// The step of the reading task: what it does with what it got next.
pub fn read_step<R: Copy>(incoming: Incoming<R>) -> (res: ReadAction<R>)
    ensures
        match incoming {
            Incoming::Text(Some(msg)) => res matches ReadAction::Publish(reported) && {
                &&& reported.id@ == msg.src@
                &&& keyed_view(reported.temperatures@) == msg.params.spec_temperatures()
                &&& keyed_view(reported.switches@) == msg.params.spec_switches()
                &&& keyed_view(reported.inputs@) == msg.params.spec_inputs()
            },
            Incoming::Text(None) => res is Skip,
            Incoming::Ping => res is ReplyPong,
            Incoming::Other => res is Unhandled,
            Incoming::Failed => res is Fail,
            Incoming::Closed => res is Finish,
        },
{
    match incoming {
        Incoming::Text(Some(msg)) => ReadAction::Publish(SmartDeviceMessage::from_shelly(msg)),
        Incoming::Text(None) => ReadAction::Skip,
        Incoming::Ping => ReadAction::ReplyPong,
        Incoming::Other => ReadAction::Unhandled,
        Incoming::Failed => ReadAction::Fail,
        Incoming::Closed => ReadAction::Finish,
    }
}

/// The step of the writing task: the frame it sends for `msg`. `encoded` is the
/// JSON text of the switch state where `msg` carries one and it could be
/// written; a switch state that could not be written is dropped. A pong is an
/// empty pong frame.
pub fn write_step(msg: SendMessage, encoded: Option<String>) -> (res: Option<Outgoing>)
    ensures
        match msg {
            SendMessage::Switch(_) => match encoded {
                Some(text) => res == Some(Outgoing::Text(text)),
                None => res is None,
            },
            SendMessage::Pong => res matches Some(Outgoing::Pong(payload)) && payload@.len() == 0,
        },
{
    match msg {
        SendMessage::Switch(_) => match encoded {
            Some(text) => Some(Outgoing::Text(text)),
            None => None,
        },
        SendMessage::Pong => Some(Outgoing::Pong(Vec::new())),
    }
}

} // verus!
