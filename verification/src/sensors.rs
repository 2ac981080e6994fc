use vstd::prelude::*;

use crate::text::{chars_of, contains, contains_chars, same_chars};

verus! {

/// What a temperature sensor measures, judged by its label.
#[derive(Clone, Copy, Debug, PartialEq, Eq, Structural)]
pub enum SensorRole {
    Cpu,
    Gpu,
    Other,
}

/// The role of the sensor labelled `label`: the processor for `Tctl` or a
/// label holding `CPU` or `Package id 0`; else the graphics card for `edge` or
/// a label holding `nvidia`; else neither.
pub open spec fn sensor_role(label: Seq<char>) -> SensorRole {
    if label == "Tctl"@ || contains(label, "CPU"@) || contains(label, "Package id 0"@) {
        SensorRole::Cpu
    } else if label == "edge"@ || contains(label, "nvidia"@) {
        SensorRole::Gpu
    } else {
        SensorRole::Other
    }
}

/// The role of the sensor labelled `label`.
pub fn classify_sensor(label: &str) -> (r: SensorRole)
    ensures
        r == sensor_role(label@),
{
    let l = chars_of(label);
    if same_chars(&l, &chars_of("Tctl")) || contains_chars(&l, &chars_of("CPU")) || contains_chars(
        &l,
        &chars_of("Package id 0"),
    ) {
        SensorRole::Cpu
    } else if same_chars(&l, &chars_of("edge")) || contains_chars(&l, &chars_of("nvidia")) {
        SensorRole::Gpu
    } else {
        SensorRole::Other
    }
}

/// `pick` is the position of the last label in `labels` whose role is `role`,
/// or `None` when no label has it.
pub open spec fn is_last_with_role(labels: Seq<String>, role: SensorRole, pick: Option<usize>) -> bool {
    match pick {
        Some(i) => {
            &&& i < labels.len()
            &&& sensor_role(labels[i as int]@) == role
            &&& forall|j: int| i < j < labels.len() ==> sensor_role(#[trigger] labels[j]@) != role
        },
        None => forall|j: int| 0 <= j < labels.len() ==> sensor_role(#[trigger] labels[j]@) != role,
    }
}

/// The sensors whose readings become the processor's and the graphics card's
/// temperature.
#[derive(Clone, Copy, Debug, PartialEq, Eq, Structural)]
pub struct SensorPick {
    pub cpu: Option<usize>,
    pub gpu: Option<usize>,
}

/// Among sensors labelled `labels`, in the order the system lists them, picks
/// the one each temperature comes from: the last one with that role, since a
/// later match overwrites an earlier one.
pub fn pick_temperature_sensors(labels: &Vec<String>) -> (p: SensorPick)
    ensures
        is_last_with_role(labels@, SensorRole::Cpu, p.cpu),
        is_last_with_role(labels@, SensorRole::Gpu, p.gpu),
{
    let mut cpu: Option<usize> = None;
    let mut gpu: Option<usize> = None;
    let mut i: usize = 0;
    while i < labels.len()
        invariant
            i <= labels.len(),
            is_last_with_role(labels@.take(i as int), SensorRole::Cpu, cpu),
            is_last_with_role(labels@.take(i as int), SensorRole::Gpu, gpu),
        decreases labels.len() - i,
    {
        let role = classify_sensor(labels[i].as_str());
        let ghost prev = labels@.take(i as int);
        let ghost next = labels@.take(i + 1);
        assert(forall|j: int| 0 <= j < i ==> next[j] == prev[j]);
        assert(next[i as int] == labels@[i as int]);
        match role {
            SensorRole::Cpu => cpu = Some(i),
            SensorRole::Gpu => gpu = Some(i),
            SensorRole::Other => {},
        }
        i = i + 1;
    }
    assert(labels@.take(labels.len() as int) =~= labels@);
    SensorPick { cpu, gpu }
}

/// A label that is `Tctl`, or holds `CPU` or `Package id 0` at any position,
/// is the processor's; else a label that is `edge` or holds `nvidia` at any
/// position is the graphics card's; a label with none of these is neither's.
pub proof fn lemma_roles_by_label(label: Seq<char>, i: int)
    ensures
        label == "Tctl"@ ==> sensor_role(label) == SensorRole::Cpu,
        0 <= i && i + "CPU"@.len() <= label.len() && label.subrange(i, i + "CPU"@.len()) == "CPU"@
            ==> sensor_role(label) == SensorRole::Cpu,
        0 <= i && i + "Package id 0"@.len() <= label.len() && label.subrange(
            i,
            i + "Package id 0"@.len(),
        ) == "Package id 0"@ ==> sensor_role(label) == SensorRole::Cpu,
        sensor_role(label) == SensorRole::Cpu ==> label == "Tctl"@ || contains(label, "CPU"@)
            || contains(label, "Package id 0"@),
        label != "Tctl"@ && !contains(label, "CPU"@) && !contains(label, "Package id 0"@) ==> (
        label == "edge"@ || contains(label, "nvidia"@) <==> sensor_role(label) == SensorRole::Gpu),
        label != "Tctl"@ && !contains(label, "CPU"@) && !contains(label, "Package id 0"@) && label
            != "edge"@ && !contains(label, "nvidia"@) ==> sensor_role(label) == SensorRole::Other,
{
    crate::text::lemma_contains_means_somewhere(label, "CPU"@, i);
    crate::text::lemma_contains_means_somewhere(label, "Package id 0"@, i);
}

/// The last sensor with a role gives that role's reading: when the last label
/// of the list has the role, it is the one picked; when it has not, the pick
/// is the one of the list without it; an empty list picks nothing.
pub proof fn lemma_last_sensor_wins(labels: Seq<String>, x: String, role: SensorRole, p: Option<usize>)
    ensures
        sensor_role(x@) == role && is_last_with_role(labels.push(x), role, p) ==> p == Some(
            labels.len() as usize,
        ),
        sensor_role(x@) != role && is_last_with_role(labels.push(x), role, p) ==> is_last_with_role(
            labels,
            role,
            p,
        ),
        is_last_with_role(Seq::<String>::empty(), role, p) ==> p is None,
{
    let s = labels.push(x);
    assert(s[labels.len() as int] == x);
    assert forall|j: int| 0 <= j < labels.len() implies #[trigger] s[j] == labels[j] by {}
    if sensor_role(x@) == role && is_last_with_role(s, role, p) {
        match p {
            Some(i) => {
                if i < labels.len() {
                    assert(sensor_role(s[labels.len() as int]@) != role);
                }
            },
            None => {
                assert(sensor_role(s[labels.len() as int]@) != role);
            },
        }
    }
    if sensor_role(x@) != role && is_last_with_role(s, role, p) {
        match p {
            Some(i) => {
                assert(i != labels.len());
                assert(s[i as int] == labels[i as int]);
                assert forall|j: int| i < j < labels.len() implies sensor_role(#[trigger] labels[j]@)
                    != role by {
                    assert(s[j] == labels[j]);
                }
            },
            None => {
                assert forall|j: int| 0 <= j < labels.len() implies sensor_role(
                    #[trigger] labels[j]@,
                ) != role by {
                    assert(s[j] == labels[j]);
                }
            },
        }
    }
}

} // verus!
