//! Calldata fuzzing: generates random field values for a program's
//! parameters.  Only the draw of raw random words is delegated to the
//! random-number generator; assembling them into field values and input
//! maps is ordinary verified code.

use vstd::prelude::*;

use crate::field::FieldElement;

verus! {

/// Options of one test run.
#[derive(Clone, Copy, Debug, PartialEq, Eq, Structural)]
pub struct TestOptions {
    pub fuzz_runs: u32,
}

impl TestOptions {
    pub fn new(fuzz_runs: u32) -> (r: TestOptions)
        ensures
            r.fuzz_runs == fuzz_runs,
    {
        TestOptions { fuzz_runs }
    }
}

/// The declared type of one program parameter.
#[derive(Clone, Copy, Debug, PartialEq, Eq, Structural)]
pub enum AbiType {
    Field,
    Boolean,
    Integer { width: u32 },
}

/// A concrete value for one program parameter.
#[derive(Clone, Copy, Debug, PartialEq, Eq, Structural)]
pub enum InputValue {
    Field(FieldElement),
}

/// One declared parameter of the program's interface.
#[derive(Clone, Debug, PartialEq, Eq)]
pub struct AbiParameter {
    pub name: String,
    pub typ: AbiType,
}

/// The program's parameter interface.
#[derive(Clone, Debug, PartialEq, Eq)]
pub struct Abi {
    pub parameters: Vec<AbiParameter>,
}

/// Calldata: one value per parameter name.  Binding an already-bound
/// name overwrites the earlier value, as a map does.
#[derive(Clone, Debug, PartialEq, Eq)]
pub struct InputMap {
    pub entries: Vec<(String, InputValue)>,
}

impl InputMap {
    /// No two entries share a name.
    pub open spec fn keys_unique(self) -> bool {
        forall|i: int, j: int|
            0 <= i < j < self.entries@.len() ==> (#[trigger] self.entries@[i]).0@ != (
            #[trigger] self.entries@[j]).0@
    }

    /// Whether some entry binds the name.
    pub open spec fn has_name(self, name: Seq<char>) -> bool {
        exists|i: int| 0 <= i < self.entries@.len() && (#[trigger] self.entries@[i]).0@ == name
    }

    pub fn new() -> (r: InputMap)
        ensures
            r.entries@.len() == 0,
            r.keys_unique(),
    {
        InputMap { entries: Vec::new() }
    }

    /// Binds a value to a name.  A name bound before keeps one entry:
    /// the new value overwrites the old one in place.
    pub fn insert(&mut self, name: String, value: InputValue)
        requires
            old(self).keys_unique(),
        ensures
            final(self).keys_unique(),
            final(self).has_name(name@),
            // An already-bound name is overwritten in place.
            old(self).has_name(name@) ==> {
                &&& final(self).entries@.len() == old(self).entries@.len()
                &&& forall|j: int|
                    0 <= j < old(self).entries@.len() && old(self).entries@[j].0@ != name@
                        ==> #[trigger] final(self).entries@[j] == old(self).entries@[j]
                &&& forall|j: int|
                    0 <= j < old(self).entries@.len() && old(self).entries@[j].0@ == name@ ==> ((
                    #[trigger] final(self).entries@[j]).0@ == name@ && final(self).entries@[j].1
                        == value)
            },
            // A fresh name is appended.
            !old(self).has_name(name@) ==> {
                &&& final(self).entries@.len() == old(self).entries@.len() + 1
                &&& final(self).entries@.subrange(0, old(self).entries@.len() as int) == old(
                    self,
                ).entries@
                &&& final(self).entries@.last().0@ == name@
                &&& final(self).entries@.last().1 == value
            },
    {
        let n = self.entries.len();
        let mut k: usize = 0;
        while k < n
            invariant
                self.entries@ == old(self).entries@,
                self.keys_unique(),
                n == self.entries@.len(),
                k <= n,
                forall|j: int| 0 <= j < k ==> (#[trigger] self.entries@[j]).0@ != name@,
            decreases n - k,
        {
            if self.entries[k].0 == name {
                proof {
                    assert(old(self).entries@[k as int].0@ == name@);
                    assert(old(self).has_name(name@));
                }
                self.entries.set(k, (name, value));
                proof {
                    assert(self.entries@[k as int].0@ == name@);
                    assert(self.has_name(name@));
                    assert forall|i: int, j: int|
                        0 <= i < j < self.entries@.len() implies (
                    #[trigger] self.entries@[i]).0@ != (#[trigger] self.entries@[j]).0@ by {
                        assert(old(self).entries@[i].0@ != old(self).entries@[j].0@);
                        if i != k as int {
                            assert(self.entries@[i] == old(self).entries@[i]);
                        }
                        if j != k as int {
                            assert(self.entries@[j] == old(self).entries@[j]);
                        }
                    }
                }
                return ;
            }
            k += 1;
        }
        proof {
            assert(!old(self).has_name(name@));
        }
        self.entries.push((name, value));
        proof {
            assert(self.entries@.subrange(0, old(self).entries@.len() as int) =~= old(
                self,
            ).entries@);
            assert(self.entries@[old(self).entries@.len() as int].0@ == name@);
            assert(self.has_name(name@));
            assert forall|i: int, j: int|
                0 <= i < j < self.entries@.len() implies (#[trigger] self.entries@[i]).0@ != (
            #[trigger] self.entries@[j]).0@ by {
                if j < old(self).entries@.len() {
                    assert(self.entries@[i] == old(self).entries@[i]);
                    assert(self.entries@[j] == old(self).entries@[j]);
                } else {
                    assert(self.entries@[i] == old(self).entries@[i]);
                    assert(self.entries@[j].0@ == name@);
                }
            }
        }
    }
}

/// Relies on rand::random::<u64>: draws one word from the thread-local
/// generator.  Nothing can be promised of a random value.
#[verifier::external_body]
fn random_u64() -> u64 {
    rand::random::<u64>()
}

/// Glues two words into one 128-bit value: the upper word shifted into
/// the high half, the lower word in the low half.
fn compose_u128(upper: u64, lower: u64) -> (r: u128)
    ensures
        r == upper as u128 * 0x1_0000_0000_0000_0000u128 + lower as u128,
{
    (upper as u128) * 0x1_0000_0000_0000_0000u128 + (lower as u128)
}

/// A 128-bit random value, composed from two drawn words.
fn random_u128() -> (r: u128) {
    let upper: u64 = random_u64();
    let lower: u64 = random_u64();
    compose_u128(upper, lower)
}

/// A random value for one parameter of the given type.  Only field
/// parameters can be fuzzed.
pub fn fuzz_param(param: &AbiType) -> (r: InputValue)
    requires
        param is Field,
    ensures
        r matches InputValue::Field(v) && v.wf(),
{
    match param {
        AbiType::Field => InputValue::Field(FieldElement::from_u128(random_u128())),
        // Other parameter types cannot be fuzzed; the precondition
        // rules them out.
        _ => InputValue::Field(FieldElement::zero()),
    }
}

/// Every entry of the map is bound under the name of some parameter of
/// the interface.
pub open spec fn only_param_names(m: InputMap, abi: Abi) -> bool {
    forall|j: int| #![trigger m.entries@[j]]
        0 <= j < m.entries@.len() ==> exists|i: int|
            0 <= i < abi.parameters@.len() && m.entries@[j].0@ == (
            #[trigger] abi.parameters@[i]).name@
}

/// Random calldata for every parameter of the program: every parameter
/// name is bound to a freshly drawn field value; a name declared twice
/// keeps one entry, the later draw overwriting the earlier one.
pub fn fuzz_params(abi: &Abi) -> (r: InputMap)
    requires
        forall|i: int| 0 <= i < abi.parameters@.len() ==> (#[trigger] abi.parameters@[i]).typ is Field,
    ensures
        r.keys_unique(),
        // Every parameter name is bound.
        forall|i: int|
            0 <= i < abi.parameters@.len() ==> r.has_name((#[trigger] abi.parameters@[i]).name@),
        // Only parameter names are bound.
        only_param_names(r, *abi),
        // Every bound value is a drawn field element.
        forall|j: int|
            0 <= j < r.entries@.len() ==> ((#[trigger] r.entries@[j]).1 matches InputValue::Field(
                v,
            ) && v.wf()),
{
    let mut inputs_map = InputMap::new();
    let n = abi.parameters.len();
    let mut i: usize = 0;
    while i < n
        invariant
            i <= n,
            n == abi.parameters@.len(),
            forall|k: int|
                0 <= k < abi.parameters@.len() ==> (#[trigger] abi.parameters@[k]).typ is Field,
            inputs_map.keys_unique(),
            forall|k: int|
                0 <= k < i ==> inputs_map.has_name((#[trigger] abi.parameters@[k]).name@),
            only_param_names(inputs_map, *abi),
            forall|j: int|
                0 <= j < inputs_map.entries@.len() ==> ((#[trigger] inputs_map.entries@[j]).1
                    matches InputValue::Field(v) && v.wf()),
        decreases n - i,
    {
        let input = &abi.parameters[i];
        let value = fuzz_param(&input.typ);
        let ghost before = inputs_map;
        inputs_map.insert(input.name.clone(), value);
        proof {
            assert forall|k: int|
                0 <= k < i + 1 implies inputs_map.has_name(
                (#[trigger] abi.parameters@[k]).name@,
            ) by {
                if k < i {
                    let w = choose|w: int|
                        0 <= w < before.entries@.len() && (#[trigger] before.entries@[w]).0@
                            == abi.parameters@[k].name@;
                    if before.has_name(abi.parameters@[i as int].name@) {
                        if before.entries@[w].0@ == abi.parameters@[i as int].name@ {
                            assert(inputs_map.entries@[w].0@ == abi.parameters@[i as int].name@);
                        } else {
                            assert(inputs_map.entries@[w] == before.entries@[w]);
                        }
                        assert(inputs_map.entries@[w].0@ == abi.parameters@[k].name@);
                    } else {
                        assert(inputs_map.entries@[w] == before.entries@.subrange(
                            0,
                            before.entries@.len() as int,
                        )[w]);
                        assert(inputs_map.entries@[w].0@ == abi.parameters@[k].name@);
                    }
                }
            }
            assert forall|j: int| #![trigger inputs_map.entries@[j]]
                0 <= j < inputs_map.entries@.len() implies exists|k: int|
                    0 <= k < abi.parameters@.len() && inputs_map.entries@[j].0@ == (
                    #[trigger] abi.parameters@[k]).name@ by {
                assert(only_param_names(before, *abi));
                if before.has_name(abi.parameters@[i as int].name@) {
                    if before.entries@[j].0@ == abi.parameters@[i as int].name@ {
                        assert(0 <= i < abi.parameters@.len() && inputs_map.entries@[j].0@
                            == abi.parameters@[i as int].name@);
                    } else {
                        assert(inputs_map.entries@[j] == before.entries@[j]);
                    }
                } else {
                    if j < before.entries@.len() {
                        assert(inputs_map.entries@[j] == before.entries@.subrange(
                            0,
                            before.entries@.len() as int,
                        )[j]);
                    } else {
                        assert(0 <= i < abi.parameters@.len() && inputs_map.entries@[j].0@
                            == abi.parameters@[i as int].name@);
                    }
                }
            }
            assert forall|j: int|
                0 <= j < inputs_map.entries@.len() implies (
            #[trigger] inputs_map.entries@[j]).1 matches InputValue::Field(v) && v.wf() by {
                if before.has_name(abi.parameters@[i as int].name@) {
                    if before.entries@[j].0@ != abi.parameters@[i as int].name@ {
                        assert(inputs_map.entries@[j] == before.entries@[j]);
                    }
                } else {
                    if j < before.entries@.len() {
                        assert(inputs_map.entries@[j] == before.entries@.subrange(
                            0,
                            before.entries@.len() as int,
                        )[j]);
                    }
                }
            }
            assert(only_param_names(inputs_map, *abi));
        }
        i += 1;
    }
    inputs_map
}

} // verus!
