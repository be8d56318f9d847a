//! Status notifications that devices send, and the components they report.

use vstd::prelude::*;
use crate::text::starts_with;

verus! {

/// A temperature sensor's reading. `R` is the type of a reading in degrees;
/// the engine uses a floating-point type, which this library only carries.
#[derive(Clone, Copy, Debug)]
pub struct Temperature<R> {
    pub id: u32,
    /// degrees Celsius
    pub tc: R,
    /// degrees Fahrenheit
    pub tf: R,
}

/// The state that a switch reports.
#[derive(Clone, Copy, Debug, PartialEq, Eq)]
pub struct Switch {
    pub output: bool,
}

/// The state that an input reports.
#[derive(Clone, Copy, Debug, PartialEq, Eq)]
pub struct Input {
    pub id: u32,
    pub state: bool,
}

/// One entry of the `params` object of a notification: the key under which a
/// device reports a component, and what the entry's value decodes to as each
/// kind of component (`None` where it does not decode as that kind).
#[derive(Clone, Debug)]
pub struct ParamField<R> {
    pub key: String,
    pub temperature: Option<Temperature<R>>,
    pub switch: Option<Switch>,
    pub input: Option<Input>,
}

/// The `params` object of a notification, one field per key.
#[derive(Clone, Debug)]
pub struct Params<R> {
    pub rest: Vec<ParamField<R>>,
}

/// A status notification: its method, the device that sent it (`src`) and its parameters.
#[derive(Clone, Debug)]
pub struct ShellyMessage<R> {
    pub method: String,
    pub src: String,
    pub params: Params<R>,
}

/// What a device reported in one notification: who it is and its components, keyed
/// as the device keys them.
#[derive(Clone, Debug)]
pub struct SmartDeviceMessage<R> {
    pub id: String,
    pub temperatures: Vec<(String, Temperature<R>)>,
    pub switches: Vec<(String, Switch)>,
    pub inputs: Vec<(String, Input)>,
}

impl<R: Copy> SmartDeviceMessage<R> {
    /// Reads a notification: the sender becomes the device's id, and the
    /// temperature sensors, switches and inputs are read from its parameters.
    pub fn from_shelly(msg: ShellyMessage<R>) -> (res: SmartDeviceMessage<R>)
        ensures
            res.id@ == msg.src@,
            keyed_view(res.temperatures@) == msg.params.spec_temperatures(),
            keyed_view(res.switches@) == msg.params.spec_switches(),
            keyed_view(res.inputs@) == msg.params.spec_inputs(),
            msg.params.wf() ==> keys_distinct(keyed_view(res.temperatures@))
                && keys_distinct(keyed_view(res.switches@)) && keys_distinct(keyed_view(res.inputs@)),
            forall|j: int| #![trigger msg.params.rest@[j]]
                0 <= j < msg.params.rest@.len() && "temperature:"@.is_prefix_of(msg.params.rest@[j].key@) && msg.params.rest@[j].temperature is Some
                    ==> exists|i: int| 0 <= i < res.temperatures@.len() && #[trigger] res.temperatures@[i].0@ == msg.params.rest@[j].key@
                        && res.temperatures@[i].1 == msg.params.rest@[j].temperature->0,
            forall|i: int| #![trigger res.temperatures@[i]]
                0 <= i < res.temperatures@.len() ==> "temperature:"@.is_prefix_of(res.temperatures@[i].0@)
                    && exists|j: int| 0 <= j < msg.params.rest@.len() && #[trigger] msg.params.rest@[j].key@ == res.temperatures@[i].0@
                        && msg.params.rest@[j].temperature == Some(res.temperatures@[i].1),
            forall|j: int| #![trigger msg.params.rest@[j]]
                0 <= j < msg.params.rest@.len() && "switch:"@.is_prefix_of(msg.params.rest@[j].key@) && msg.params.rest@[j].switch is Some
                    ==> exists|i: int| 0 <= i < res.switches@.len() && #[trigger] res.switches@[i].0@ == msg.params.rest@[j].key@
                        && res.switches@[i].1 == msg.params.rest@[j].switch->0,
            forall|i: int| #![trigger res.switches@[i]]
                0 <= i < res.switches@.len() ==> "switch:"@.is_prefix_of(res.switches@[i].0@)
                    && exists|j: int| 0 <= j < msg.params.rest@.len() && #[trigger] msg.params.rest@[j].key@ == res.switches@[i].0@
                        && msg.params.rest@[j].switch == Some(res.switches@[i].1),
            forall|j: int| #![trigger msg.params.rest@[j]]
                0 <= j < msg.params.rest@.len() && "input:"@.is_prefix_of(msg.params.rest@[j].key@) && msg.params.rest@[j].input is Some
                    ==> exists|i: int| 0 <= i < res.inputs@.len() && #[trigger] res.inputs@[i].0@ == msg.params.rest@[j].key@
                        && res.inputs@[i].1 == msg.params.rest@[j].input->0,
            forall|i: int| #![trigger res.inputs@[i]]
                0 <= i < res.inputs@.len() ==> "input:"@.is_prefix_of(res.inputs@[i].0@)
                    && exists|j: int| 0 <= j < msg.params.rest@.len() && #[trigger] msg.params.rest@[j].key@ == res.inputs@[i].0@
                        && msg.params.rest@[j].input == Some(res.inputs@[i].1),
    {
        let temperatures = msg.params.temperatures();
        let switches = msg.params.switches();
        let inputs = msg.params.inputs();
        let ghost rest = msg.params.rest@;
        proof {
            assert forall|j: int| #![trigger rest[j]]
                0 <= j < rest.len() && "switch:"@.is_prefix_of(rest[j].key@) && rest[j].switch is Some
                    implies exists|i: int| 0 <= i < switches@.len() && #[trigger] switches@[i].0@ == rest[j].key@
                        && switches@[i].1 == rest[j].switch->0 by {
                assert(msg.params.rest@[j] == rest[j]);
            }
            assert forall|j: int| #![trigger rest[j]]
                0 <= j < rest.len() && "input:"@.is_prefix_of(rest[j].key@) && rest[j].input is Some
                    implies exists|i: int| 0 <= i < inputs@.len() && #[trigger] inputs@[i].0@ == rest[j].key@
                        && inputs@[i].1 == rest[j].input->0 by {
                assert(msg.params.rest@[j] == rest[j]);
            }
        }
        SmartDeviceMessage { id: msg.src, temperatures, switches, inputs }
    }
}

/// The key prefix under which a device reports its temperature sensors.
pub open spec fn temperature_prefix() -> Seq<char> {
    "temperature:"@
}

/// The key prefix under which a device reports its switches.
pub open spec fn switch_prefix() -> Seq<char> {
    "switch:"@
}

/// The key prefix under which a device reports its inputs.
pub open spec fn input_prefix() -> Seq<char> {
    "input:"@
}

/// The entries of `entries`, in order, whose key starts with `prefix` and whose
/// value is present, with the value taken out of its `Option`.
pub open spec fn select_prefixed<U>(entries: Seq<(Seq<char>, Option<U>)>, prefix: Seq<char>) -> Seq<(Seq<char>, U)>
    decreases entries.len(),
{
    if entries.len() == 0 {
        Seq::empty()
    } else {
        let rest = select_prefixed(entries.drop_last(), prefix);
        let last = entries.last();
        if prefix.is_prefix_of(last.0) && last.1 is Some {
            rest.push((last.0, last.1->0))
        } else {
            rest
        }
    }
}

/// A list of keyed components, with each key taken by its characters.
pub open spec fn keyed_view<U>(entries: Seq<(String, U)>) -> Seq<(Seq<char>, U)> {
    entries.map_values(|e: (String, U)| (e.0@, e.1))
}

/// Whether no key occurs twice in `entries`.
pub open spec fn keys_distinct<U>(entries: Seq<(Seq<char>, U)>) -> bool {
    forall|i: int, j: int| 0 <= i < j < entries.len() ==> entries[i].0 != entries[j].0
}

/// Selection by prefix keeps exactly the right entries: every selected entry has
/// a key that starts with `prefix` and stands, with its value present, in
/// `entries`; and every entry of `entries` whose key starts with `prefix` and
/// whose value is present is selected.
pub proof fn lemma_select_prefixed_exact<U>(entries: Seq<(Seq<char>, Option<U>)>, prefix: Seq<char>)
    ensures
        forall|i: int| #![trigger select_prefixed(entries, prefix)[i]]
            0 <= i < select_prefixed(entries, prefix).len() ==> {
                let e = select_prefixed(entries, prefix)[i];
                &&& prefix.is_prefix_of(e.0)
                &&& exists|j: int| 0 <= j < entries.len() && #[trigger] entries[j] == (e.0, Some(e.1))
            },
        forall|j: int| #![trigger entries[j]]
            0 <= j < entries.len() && prefix.is_prefix_of(entries[j].0) && entries[j].1 is Some ==>
                exists|i: int| 0 <= i < select_prefixed(entries, prefix).len()
                    && #[trigger] select_prefixed(entries, prefix)[i] == (entries[j].0, entries[j].1->0),
    decreases entries.len(),
{
    if entries.len() > 0 {
        let init = entries.drop_last();
        lemma_select_prefixed_exact(init, prefix);
        let sel = select_prefixed(entries, prefix);
        let sel0 = select_prefixed(init, prefix);
        assert forall|i: int| #![trigger sel[i]] 0 <= i < sel.len() implies {
            &&& prefix.is_prefix_of(sel[i].0)
            &&& exists|j: int| 0 <= j < entries.len() && #[trigger] entries[j] == (sel[i].0, Some(sel[i].1))
        } by {
            if i < sel0.len() {
                assert(sel[i] == sel0[i]);
                let j = choose|j: int| 0 <= j < init.len() && #[trigger] init[j] == (sel0[i].0, Some(sel0[i].1));
                assert(entries[j] == init[j]);
            } else {
                assert(entries[entries.len() - 1] == entries.last());
            }
        }
        assert forall|j: int| #![trigger entries[j]]
            0 <= j < entries.len() && prefix.is_prefix_of(entries[j].0) && entries[j].1 is Some implies
                exists|i: int| 0 <= i < sel.len() && #[trigger] sel[i] == (entries[j].0, entries[j].1->0) by {
            if j < init.len() {
                assert(init[j] == entries[j]);
                let i = choose|i: int| 0 <= i < sel0.len() && #[trigger] sel0[i] == (init[j].0, init[j].1->0);
                assert(sel[i] == sel0[i]);
            } else {
                assert(sel[sel.len() - 1] == (entries[j].0, entries[j].1->0));
            }
        }
    }
}

/// Selection by prefix never brings a key twice when the entries name each key once.
pub proof fn lemma_select_prefixed_keys_distinct<U>(entries: Seq<(Seq<char>, Option<U>)>, prefix: Seq<char>)
    requires
        keys_distinct(entries),
    ensures
        keys_distinct(select_prefixed(entries, prefix)),
    decreases entries.len(),
{
    if entries.len() > 0 {
        let init = entries.drop_last();
        assert(keys_distinct(init)) by {
            assert forall|i: int, j: int| 0 <= i < j < init.len() implies init[i].0 != init[j].0 by {
                assert(init[i] == entries[i] && init[j] == entries[j]);
            }
        }
        lemma_select_prefixed_keys_distinct(init, prefix);
        lemma_select_prefixed_exact(init, prefix);
        let sel = select_prefixed(entries, prefix);
        let sel0 = select_prefixed(init, prefix);
        let last = entries.last();
        if prefix.is_prefix_of(last.0) && last.1 is Some {
            assert forall|i: int, j: int| 0 <= i < j < sel.len() implies sel[i].0 != sel[j].0 by {
                if j == sel.len() - 1 {
                    assert(sel[i] == sel0[i]);
                    let k = choose|k: int| 0 <= k < init.len() && #[trigger] init[k] == (sel0[i].0, Some(sel0[i].1));
                    assert(entries[k] == init[k]);
                    assert(entries[entries.len() - 1] == last);
                } else {
                    assert(sel[i] == sel0[i] && sel[j] == sel0[j]);
                }
            }
        }
    }
}

/// No key starts with two of the prefixes `temperature:`, `switch:` and `input:`.
pub proof fn lemma_prefixes_exclusive(key: Seq<char>)
    ensures
        !(temperature_prefix().is_prefix_of(key) && switch_prefix().is_prefix_of(key)),
        !(temperature_prefix().is_prefix_of(key) && input_prefix().is_prefix_of(key)),
        !(switch_prefix().is_prefix_of(key) && input_prefix().is_prefix_of(key)),
{
    reveal_strlit("temperature:");
    reveal_strlit("switch:");
    reveal_strlit("input:");
    if temperature_prefix().is_prefix_of(key) {
        assert(key[0] == temperature_prefix()[0]);
    }
    if switch_prefix().is_prefix_of(key) {
        assert(key[0] == switch_prefix()[0]);
    }
    if input_prefix().is_prefix_of(key) {
        assert(key[0] == input_prefix()[0]);
    }
}

/// What a list keyed by strings holds when it is the selection by `prefix` of
/// `entries`: each of its entries has a key starting with `prefix` and stands,
/// with its value present, in `entries`; and each entry of `entries` whose key
/// starts with `prefix` and whose value is present stands in it.
pub proof fn lemma_keyed_selection<U>(res: Seq<(String, U)>, entries: Seq<(Seq<char>, Option<U>)>, prefix: Seq<char>)
    requires
        keyed_view(res) == select_prefixed(entries, prefix),
    ensures
        forall|j: int| #![trigger entries[j]]
            0 <= j < entries.len() && prefix.is_prefix_of(entries[j].0) && entries[j].1 is Some
                ==> exists|i: int| 0 <= i < res.len() && #[trigger] res[i].0@ == entries[j].0 && res[i].1 == entries[j].1->0,
        forall|i: int| #![trigger res[i]]
            0 <= i < res.len() ==> prefix.is_prefix_of(res[i].0@)
                && exists|j: int| 0 <= j < entries.len() && #[trigger] entries[j] == (res[i].0@, Some(res[i].1)),
{
    lemma_select_prefixed_exact(entries, prefix);
    let sel = select_prefixed(entries, prefix);
    assert forall|j: int| #![trigger entries[j]]
        0 <= j < entries.len() && prefix.is_prefix_of(entries[j].0) && entries[j].1 is Some
            implies exists|i: int| 0 <= i < res.len() && #[trigger] res[i].0@ == entries[j].0 && res[i].1 == entries[j].1->0 by {
        let i = choose|i: int| 0 <= i < sel.len() && #[trigger] sel[i] == (entries[j].0, entries[j].1->0);
        assert(keyed_view(res)[i] == (res[i].0@, res[i].1));
    }
    assert forall|i: int| #![trigger res[i]]
        0 <= i < res.len() implies prefix.is_prefix_of(res[i].0@)
            && exists|j: int| 0 <= j < entries.len() && #[trigger] entries[j] == (res[i].0@, Some(res[i].1)) by {
        assert(keyed_view(res)[i] == (res[i].0@, res[i].1));
        assert(sel[i] == keyed_view(res)[i]);
    }
}

/// Distinct keys of a keyed list, read on its entries.
pub proof fn lemma_keys_distinct_entries<U>(res: Seq<(String, U)>)
    ensures
        keys_distinct(keyed_view(res)) ==> forall|i: int, k: int| 0 <= i < k < res.len() ==> res[i].0@ != res[k].0@,
{
    if keys_distinct(keyed_view(res)) {
        assert forall|i: int, k: int| 0 <= i < k < res.len() implies res[i].0@ != res[k].0@ by {
            assert(keyed_view(res)[i].0 == res[i].0@);
            assert(keyed_view(res)[k].0 == res[k].0@);
        }
    }
}

impl<R> Params<R> {
    /// A well-formed `params` object names each key once, as a JSON object does.
    pub open spec fn wf(self) -> bool {
        forall|i: int, j: int| 0 <= i < j < self.rest@.len() ==> self.rest@[i].key@ != self.rest@[j].key@
    }

    pub open spec fn temperature_fields(self) -> Seq<(Seq<char>, Option<Temperature<R>>)> {
        self.rest@.map_values(|f: ParamField<R>| (f.key@, f.temperature))
    }

    pub open spec fn switch_fields(self) -> Seq<(Seq<char>, Option<Switch>)> {
        self.rest@.map_values(|f: ParamField<R>| (f.key@, f.switch))
    }

    pub open spec fn input_fields(self) -> Seq<(Seq<char>, Option<Input>)> {
        self.rest@.map_values(|f: ParamField<R>| (f.key@, f.input))
    }

    /// The temperature sensors: the fields whose key starts with `temperature:`
    /// and whose value decodes as a temperature.
    pub open spec fn spec_temperatures(self) -> Seq<(Seq<char>, Temperature<R>)> {
        select_prefixed(self.temperature_fields(), temperature_prefix())
    }

    /// The switches: the fields whose key starts with `switch:` and whose value
    /// decodes as a switch.
    pub open spec fn spec_switches(self) -> Seq<(Seq<char>, Switch)> {
        select_prefixed(self.switch_fields(), switch_prefix())
    }

    /// The inputs: the fields whose key starts with `input:` and whose value
    /// decodes as an input.
    pub open spec fn spec_inputs(self) -> Seq<(Seq<char>, Input)> {
        select_prefixed(self.input_fields(), input_prefix())
    }
}

impl<R: Copy> Params<R> {
    /// The temperature sensors that the notification reports, keyed as the device keys them.
    pub fn temperatures(&self) -> (res: Vec<(String, Temperature<R>)>)
        ensures
            keyed_view(res@) == self.spec_temperatures(),
            self.wf() ==> keys_distinct(keyed_view(res@)),
            (forall|a: int, b: int| 0 <= a < b < self.rest@.len() ==> self.rest@[a].key@ != self.rest@[b].key@)
                ==> forall|i: int, k: int| 0 <= i < k < res@.len() ==> res@[i].0@ != res@[k].0@,
            forall|j: int| #![trigger self.rest@[j]]
                0 <= j < self.rest@.len() && "temperature:"@.is_prefix_of(self.rest@[j].key@) && self.rest@[j].temperature is Some
                    ==> exists|i: int| 0 <= i < res@.len() && #[trigger] res@[i].0@ == self.rest@[j].key@
                        && res@[i].1 == self.rest@[j].temperature->0,
            forall|i: int| #![trigger res@[i]]
                0 <= i < res@.len() ==> "temperature:"@.is_prefix_of(res@[i].0@)
                    && exists|j: int| 0 <= j < self.rest@.len() && #[trigger] self.rest@[j].key@ == res@[i].0@
                        && self.rest@[j].temperature == Some(res@[i].1),
    {
        proof {
            if self.wf() {
                lemma_components_keyed_once(*self);
            }
        }
        let pick = |f: &ParamField<R>| -> (r: Option<Temperature<R>>)
            ensures
                r == f.temperature,
            { f.temperature };
        let ghost spec_pick = |f: ParamField<R>| f.temperature;
        assert(self.rest@.map_values(|f: ParamField<R>| (f.key@, spec_pick(f))) =~= self.temperature_fields());
        let res = self.extract_prefixed("temperature:", pick, Ghost(spec_pick));
        proof {
            let fields = self.temperature_fields();
            lemma_keyed_selection(res@, fields, "temperature:"@);
            lemma_keys_distinct_entries(res@);
            assert forall|j: int| 0 <= j < self.rest@.len() implies #[trigger] fields[j] == (self.rest@[j].key@, self.rest@[j].temperature) by {}
            assert forall|i: int| #![trigger res@[i]] 0 <= i < res@.len() implies
                exists|j: int| 0 <= j < self.rest@.len() && #[trigger] self.rest@[j].key@ == res@[i].0@
                    && self.rest@[j].temperature == Some(res@[i].1) by {
                let j = choose|j: int| 0 <= j < fields.len() && #[trigger] fields[j] == (res@[i].0@, Some(res@[i].1));
                assert(fields[j] == (self.rest@[j].key@, self.rest@[j].temperature));
            }
            assert forall|j: int| #![trigger self.rest@[j]]
                0 <= j < self.rest@.len() && "temperature:"@.is_prefix_of(self.rest@[j].key@) && self.rest@[j].temperature is Some
                    implies exists|i: int| 0 <= i < res@.len() && #[trigger] res@[i].0@ == self.rest@[j].key@
                        && res@[i].1 == self.rest@[j].temperature->0 by {
                assert(fields[j] == (self.rest@[j].key@, self.rest@[j].temperature));
            }
        }
        res
    }

    /// The switches that the notification reports, keyed as the device keys them.
    pub fn switches(&self) -> (res: Vec<(String, Switch)>)
        ensures
            keyed_view(res@) == self.spec_switches(),
            self.wf() ==> keys_distinct(keyed_view(res@)),
            (forall|a: int, b: int| 0 <= a < b < self.rest@.len() ==> self.rest@[a].key@ != self.rest@[b].key@)
                ==> forall|i: int, k: int| 0 <= i < k < res@.len() ==> res@[i].0@ != res@[k].0@,
            forall|j: int| #![trigger self.rest@[j]]
                0 <= j < self.rest@.len() && "switch:"@.is_prefix_of(self.rest@[j].key@) && self.rest@[j].switch is Some
                    ==> exists|i: int| 0 <= i < res@.len() && #[trigger] res@[i].0@ == self.rest@[j].key@
                        && res@[i].1 == self.rest@[j].switch->0,
            forall|i: int| #![trigger res@[i]]
                0 <= i < res@.len() ==> "switch:"@.is_prefix_of(res@[i].0@)
                    && exists|j: int| 0 <= j < self.rest@.len() && #[trigger] self.rest@[j].key@ == res@[i].0@
                        && self.rest@[j].switch == Some(res@[i].1),
    {
        proof {
            if self.wf() {
                lemma_components_keyed_once(*self);
            }
        }
        let pick = |f: &ParamField<R>| -> (r: Option<Switch>)
            ensures
                r == f.switch,
            { f.switch };
        let ghost spec_pick = |f: ParamField<R>| f.switch;
        assert(self.rest@.map_values(|f: ParamField<R>| (f.key@, spec_pick(f))) =~= self.switch_fields());
        let res = self.extract_prefixed("switch:", pick, Ghost(spec_pick));
        proof {
            let fields = self.switch_fields();
            lemma_keyed_selection(res@, fields, "switch:"@);
            lemma_keys_distinct_entries(res@);
            assert forall|j: int| 0 <= j < self.rest@.len() implies #[trigger] fields[j] == (self.rest@[j].key@, self.rest@[j].switch) by {}
            assert forall|i: int| #![trigger res@[i]] 0 <= i < res@.len() implies
                exists|j: int| 0 <= j < self.rest@.len() && #[trigger] self.rest@[j].key@ == res@[i].0@
                    && self.rest@[j].switch == Some(res@[i].1) by {
                let j = choose|j: int| 0 <= j < fields.len() && #[trigger] fields[j] == (res@[i].0@, Some(res@[i].1));
                assert(fields[j] == (self.rest@[j].key@, self.rest@[j].switch));
            }
            assert forall|j: int| #![trigger self.rest@[j]]
                0 <= j < self.rest@.len() && "switch:"@.is_prefix_of(self.rest@[j].key@) && self.rest@[j].switch is Some
                    implies exists|i: int| 0 <= i < res@.len() && #[trigger] res@[i].0@ == self.rest@[j].key@
                        && res@[i].1 == self.rest@[j].switch->0 by {
                assert(fields[j] == (self.rest@[j].key@, self.rest@[j].switch));
            }
        }
        res
    }

    /// The inputs that the notification reports, keyed as the device keys them.
    pub fn inputs(&self) -> (res: Vec<(String, Input)>)
        ensures
            keyed_view(res@) == self.spec_inputs(),
            self.wf() ==> keys_distinct(keyed_view(res@)),
            (forall|a: int, b: int| 0 <= a < b < self.rest@.len() ==> self.rest@[a].key@ != self.rest@[b].key@)
                ==> forall|i: int, k: int| 0 <= i < k < res@.len() ==> res@[i].0@ != res@[k].0@,
            forall|j: int| #![trigger self.rest@[j]]
                0 <= j < self.rest@.len() && "input:"@.is_prefix_of(self.rest@[j].key@) && self.rest@[j].input is Some
                    ==> exists|i: int| 0 <= i < res@.len() && #[trigger] res@[i].0@ == self.rest@[j].key@
                        && res@[i].1 == self.rest@[j].input->0,
            forall|i: int| #![trigger res@[i]]
                0 <= i < res@.len() ==> "input:"@.is_prefix_of(res@[i].0@)
                    && exists|j: int| 0 <= j < self.rest@.len() && #[trigger] self.rest@[j].key@ == res@[i].0@
                        && self.rest@[j].input == Some(res@[i].1),
    {
        proof {
            if self.wf() {
                lemma_components_keyed_once(*self);
            }
        }
        let pick = |f: &ParamField<R>| -> (r: Option<Input>)
            ensures
                r == f.input,
            { f.input };
        let ghost spec_pick = |f: ParamField<R>| f.input;
        assert(self.rest@.map_values(|f: ParamField<R>| (f.key@, spec_pick(f))) =~= self.input_fields());
        let res = self.extract_prefixed("input:", pick, Ghost(spec_pick));
        proof {
            let fields = self.input_fields();
            lemma_keyed_selection(res@, fields, "input:"@);
            lemma_keys_distinct_entries(res@);
            assert forall|j: int| 0 <= j < self.rest@.len() implies #[trigger] fields[j] == (self.rest@[j].key@, self.rest@[j].input) by {}
            assert forall|i: int| #![trigger res@[i]] 0 <= i < res@.len() implies
                exists|j: int| 0 <= j < self.rest@.len() && #[trigger] self.rest@[j].key@ == res@[i].0@
                    && self.rest@[j].input == Some(res@[i].1) by {
                let j = choose|j: int| 0 <= j < fields.len() && #[trigger] fields[j] == (res@[i].0@, Some(res@[i].1));
                assert(fields[j] == (self.rest@[j].key@, self.rest@[j].input));
            }
            assert forall|j: int| #![trigger self.rest@[j]]
                0 <= j < self.rest@.len() && "input:"@.is_prefix_of(self.rest@[j].key@) && self.rest@[j].input is Some
                    implies exists|i: int| 0 <= i < res@.len() && #[trigger] res@[i].0@ == self.rest@[j].key@
                        && res@[i].1 == self.rest@[j].input->0 by {
                assert(fields[j] == (self.rest@[j].key@, self.rest@[j].input));
            }
        }
        res
    }

    /// The fields whose key starts with `prefix` and whose value `pick` finds
    /// present, in the order of the fields.
    fn extract_prefixed<U: Copy, F: Fn(&ParamField<R>) -> Option<U>>(
        &self,
        prefix: &str,
        pick: F,
        Ghost(spec_pick): Ghost<spec_fn(ParamField<R>) -> Option<U>>,
    ) -> (res: Vec<(String, U)>)
        requires
            forall|f: &ParamField<R>| #[trigger] call_requires(pick, (f,)),
            forall|f: &ParamField<R>, r: Option<U>| call_ensures(pick, (f,), r) ==> r == spec_pick(*f),
        ensures
            keyed_view(res@) == select_prefixed(
                self.rest@.map_values(|f: ParamField<R>| (f.key@, spec_pick(f))),
                prefix@,
            ),
    {
        let ghost fields = self.rest@.map_values(|f: ParamField<R>| (f.key@, spec_pick(f)));
        let mut res: Vec<(String, U)> = Vec::new();
        let mut i: usize = 0;
        while i < self.rest.len()
            invariant
                i <= self.rest@.len(),
                fields == self.rest@.map_values(|f: ParamField<R>| (f.key@, spec_pick(f))),
                forall|f: &ParamField<R>| #[trigger] call_requires(pick, (f,)),
                forall|f: &ParamField<R>, r: Option<U>| call_ensures(pick, (f,), r) ==> r == spec_pick(*f),
                keyed_view(res@) == select_prefixed(fields.take(i as int), prefix@),
            decreases self.rest@.len() - i,
        {
            let field = &self.rest[i];
            let picked = pick(field);
            proof {
                assert(fields.take(i + 1).drop_last() == fields.take(i as int));
                assert(fields.take(i + 1).last() == fields[i as int]);
            }
            if starts_with(field.key.as_str(), prefix) {
                match picked {
                    Some(value) => {
                        let ghost before = res@;
                        res.push((field.key.clone(), value));
                        proof {
                            assert(keyed_view(res@) == keyed_view(before).push((field.key@, value)));
                        }
                    },
                    None => {},
                }
            }
            i = i + 1;
        }
        proof {
            assert(fields.take(i as int) == fields);
        }
        res
    }
}

/// A key names at most one kind of component: no key is reported both as a
/// temperature sensor and as a switch, both as a temperature sensor and as an
/// input, or both as a switch and as an input.
pub proof fn lemma_component_kinds_disjoint<R>(params: Params<R>)
    ensures
        forall|i: int, j: int|
            0 <= i < params.spec_temperatures().len() && 0 <= j < params.spec_switches().len()
                ==> #[trigger] params.spec_temperatures()[i].0 != #[trigger] params.spec_switches()[j].0,
        forall|i: int, j: int|
            0 <= i < params.spec_temperatures().len() && 0 <= j < params.spec_inputs().len()
                ==> #[trigger] params.spec_temperatures()[i].0 != #[trigger] params.spec_inputs()[j].0,
        forall|i: int, j: int|
            0 <= i < params.spec_switches().len() && 0 <= j < params.spec_inputs().len()
                ==> #[trigger] params.spec_switches()[i].0 != #[trigger] params.spec_inputs()[j].0,
{
    lemma_select_prefixed_exact(params.temperature_fields(), temperature_prefix());
    lemma_select_prefixed_exact(params.switch_fields(), switch_prefix());
    lemma_select_prefixed_exact(params.input_fields(), input_prefix());
    assert forall|i: int, j: int|
        0 <= i < params.spec_temperatures().len() && 0 <= j < params.spec_switches().len()
            implies #[trigger] params.spec_temperatures()[i].0 != #[trigger] params.spec_switches()[j].0 by {
        lemma_prefixes_exclusive(params.spec_temperatures()[i].0);
    }
    assert forall|i: int, j: int|
        0 <= i < params.spec_temperatures().len() && 0 <= j < params.spec_inputs().len()
            implies #[trigger] params.spec_temperatures()[i].0 != #[trigger] params.spec_inputs()[j].0 by {
        lemma_prefixes_exclusive(params.spec_temperatures()[i].0);
    }
    assert forall|i: int, j: int|
        0 <= i < params.spec_switches().len() && 0 <= j < params.spec_inputs().len()
            implies #[trigger] params.spec_switches()[i].0 != #[trigger] params.spec_inputs()[j].0 by {
        lemma_prefixes_exclusive(params.spec_switches()[i].0);
    }
}

/// When the `params` object names each key once, so do the temperature
/// sensors, the switches and the inputs read from it.
pub proof fn lemma_components_keyed_once<R>(params: Params<R>)
    requires
        params.wf(),
    ensures
        keys_distinct(params.spec_temperatures()),
        keys_distinct(params.spec_switches()),
        keys_distinct(params.spec_inputs()),
{
    assert(keys_distinct(params.temperature_fields()));
    assert(keys_distinct(params.switch_fields()));
    assert(keys_distinct(params.input_fields()));
    lemma_select_prefixed_keys_distinct(params.temperature_fields(), temperature_prefix());
    lemma_select_prefixed_keys_distinct(params.switch_fields(), switch_prefix());
    lemma_select_prefixed_keys_distinct(params.input_fields(), input_prefix());
}

/// Selecting from two lists one after the other selects from each in turn.
pub proof fn lemma_select_prefixed_concat<U>(
    a: Seq<(Seq<char>, Option<U>)>,
    b: Seq<(Seq<char>, Option<U>)>,
    prefix: Seq<char>,
)
    ensures
        select_prefixed(a + b, prefix) == select_prefixed(a, prefix) + select_prefixed(b, prefix),
    decreases b.len(),
{
    if b.len() == 0 {
        assert(a + b =~= a);
        assert(select_prefixed(a, prefix) + select_prefixed(b, prefix) =~= select_prefixed(a, prefix));
    } else {
        lemma_select_prefixed_concat(a, b.drop_last(), prefix);
        assert((a + b).drop_last() =~= a + b.drop_last());
        assert((a + b).last() == b.last());
        let last = b.last();
        if prefix.is_prefix_of(last.0) && last.1 is Some {
            assert(select_prefixed(a, prefix) + select_prefixed(b.drop_last(), prefix).push((last.0, last.1->0))
                =~= (select_prefixed(a, prefix) + select_prefixed(b.drop_last(), prefix)).push((last.0, last.1->0)));
        }
    }
}

/// An entry whose key does not start with `prefix`, or whose value is absent,
/// never changes what is selected, wherever it stands among the entries.
pub proof fn lemma_select_prefixed_ignores_unselected<U>(
    entries: Seq<(Seq<char>, Option<U>)>,
    i: int,
    extra: (Seq<char>, Option<U>),
    prefix: Seq<char>,
)
    requires
        0 <= i <= entries.len(),
        !prefix.is_prefix_of(extra.0) || extra.1 is None,
    ensures
        select_prefixed(entries.insert(i, extra), prefix) == select_prefixed(entries, prefix),
{
    let front = entries.take(i);
    let back = entries.skip(i);
    assert(entries.insert(i, extra) =~= front + seq![extra] + back);
    assert(entries =~= front + back);
    lemma_select_prefixed_concat(front + seq![extra], back, prefix);
    lemma_select_prefixed_concat(front, seq![extra], prefix);
    lemma_select_prefixed_concat(front, back, prefix);
    assert(seq![extra].drop_last() =~= Seq::<(Seq<char>, Option<U>)>::empty());
    assert(seq![extra].last() == extra);
    assert(select_prefixed(Seq::<(Seq<char>, Option<U>)>::empty(), prefix) =~= Seq::<(Seq<char>, U)>::empty());
    assert(select_prefixed(seq![extra], prefix) =~= Seq::<(Seq<char>, U)>::empty());
    assert(select_prefixed(front, prefix) + Seq::<(Seq<char>, U)>::empty() =~= select_prefixed(front, prefix));
}

/// A field whose key has none of a kind's prefix never changes the components
/// of that kind: adding it to a `params` object, at any place, leaves the
/// temperature sensors, the switches or the inputs read from it as they were.
pub proof fn lemma_unprefixed_field_ignored<R>(params: Params<R>, more: Params<R>, i: int, field: ParamField<R>)
    requires
        0 <= i <= params.rest@.len(),
        more.rest@ == params.rest@.insert(i, field),
    ensures
        !temperature_prefix().is_prefix_of(field.key@) ==> more.spec_temperatures() == params.spec_temperatures(),
        !switch_prefix().is_prefix_of(field.key@) ==> more.spec_switches() == params.spec_switches(),
        !input_prefix().is_prefix_of(field.key@) ==> more.spec_inputs() == params.spec_inputs(),
{
    assert(more.temperature_fields() =~= params.temperature_fields().insert(i, (field.key@, field.temperature)));
    assert(more.switch_fields() =~= params.switch_fields().insert(i, (field.key@, field.switch)));
    assert(more.input_fields() =~= params.input_fields().insert(i, (field.key@, field.input)));
    if !temperature_prefix().is_prefix_of(field.key@) {
        lemma_select_prefixed_ignores_unselected(params.temperature_fields(), i, (field.key@, field.temperature), temperature_prefix());
    }
    if !switch_prefix().is_prefix_of(field.key@) {
        lemma_select_prefixed_ignores_unselected(params.switch_fields(), i, (field.key@, field.switch), switch_prefix());
    }
    if !input_prefix().is_prefix_of(field.key@) {
        lemma_select_prefixed_ignores_unselected(params.input_fields(), i, (field.key@, field.input), input_prefix());
    }
}

} // verus!
