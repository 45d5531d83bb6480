//! Loaded FMUs, and the names of their instances.

use crate::error::FmuLoadError;
use crate::fmi2::fmi2Type;
use crate::fmu::Fmu;
use crate::text::{
    decimal, decimal_text, lemma_decimal_holds_no_nul, lemma_decimal_injective,
};
use std::path::PathBuf;
use vstd::arithmetic::div_mod::{lemma_add_mod_noop_right, lemma_mod_self_0, lemma_small_mod};
use vstd::prelude::*;

verus! {

/// An FMU whose dynamic library is about to be opened.
#[derive(Debug)]
pub struct FmuLoading {
    pub fmu: Fmu,
    pub simulation_type: fmi2Type,
    /// The identifier of the model that was asked for.
    pub model_identifier: String,
    /// The file to open.
    pub library_path: PathBuf,
}

impl FmuLoading {
    /// What the opening of the dynamic library comes to: the loaded FMU, and
    /// the names of its instances to come.
    pub fn finish<D>(self, opened: Result<D, libloading::Error>) -> (library: Result<
        (FmuLibrary<D>, InstanceNameFactory),
        FmuLoadError,
    >)
        ensures
            match opened {
                Err(error) => library == Err::<(FmuLibrary<D>, InstanceNameFactory), FmuLoadError>(
                    FmuLoadError::DLOpen(error),
                ),
                Ok(fmi) => {
                    &&& library is Ok
                    &&& library->Ok_0.0 == (FmuLibrary {
                        fmi,
                        simulation_type: self.simulation_type,
                        fmu: self.fmu,
                    })
                    &&& library->Ok_0.1@ == (InstanceNames {
                        model_identifier: self.model_identifier@,
                        counter: 0,
                    })
                },
            },
    {
        match opened {
            Err(error) => Err(FmuLoadError::DLOpen(error)),
            Ok(fmi) => Ok(
                (
                    FmuLibrary { fmi, simulation_type: self.simulation_type, fmu: self.fmu },
                    InstanceNameFactory::new(self.model_identifier),
                ),
            ),
        }
    }
}

/// A loaded FMU. `D` is what the dynamic library is called through. The names of
/// its instances are kept beside it, as they alone change.
#[derive(Debug)]
pub struct FmuLibrary<D> {
    /// The dynamic library.
    pub fmi: D,
    /// The kind of model that the dynamic library was opened for. The standard
    /// has different libraries for the two kinds.
    pub simulation_type: fmi2Type,
    /// The unpacked FMU, whose temporary directory has to stay.
    pub fmu: Fmu,
}

impl<D> std::ops::Deref for FmuLibrary<D> {
    type Target = Fmu;

    fn deref(&self) -> (fmu: &Fmu)
        ensures
            *fmu == self.fmu,
    {
        &self.fmu
    }
}

/// Gives out names for instances, each of them once.
#[derive(Debug)]
pub struct InstanceNameFactory {
    model_identifier: String,
    /// Grows with every name, and is a part of it.
    instance_counter: usize,
}

/// What a name factory goes by.
pub struct InstanceNames {
    pub model_identifier: Seq<char>,
    pub counter: nat,
}

impl View for InstanceNameFactory {
    type V = InstanceNames;

    closed spec fn view(&self) -> InstanceNames {
        InstanceNames {
            model_identifier: self.model_identifier@,
            counter: self.instance_counter as nat,
        }
    }
}

impl InstanceNames {
    /// The counter after some more names.
    pub open spec fn counter_after(self, names: nat) -> nat {
        (self.counter + names) % (usize::MAX as nat + 1)
    }

    /// The state after some more names.
    pub open spec fn after(self, names: nat) -> InstanceNames {
        InstanceNames { counter: self.counter_after(names), ..self }
    }

    /// The name that comes after some more names.
    pub open spec fn name_after(self, names: nat) -> Seq<char> {
        instance_name(self.model_identifier, self.counter_after(names))
    }
}

/// The name of an instance of a model.
pub open spec fn instance_name(model_identifier: Seq<char>, counter: nat) -> Seq<char> {
    model_identifier + "_"@ + decimal(counter)
}

impl InstanceNameFactory {
    /// A factory that has given out no name yet.
    pub fn new(model_identifier: String) -> (factory: Self)
        ensures
            factory@ == (InstanceNames { model_identifier: model_identifier@, counter: 0 }),
    {
        InstanceNameFactory { model_identifier, instance_counter: 0 }
    }

    /// The identifier that all names begin with.
    pub fn model_identifier(&self) -> (model_identifier: &str)
        ensures
            model_identifier@ == self@.model_identifier,
    {
        self.model_identifier.as_str()
    }

    /// The next name.
    pub fn next(&mut self) -> (name: String)
        ensures
            name@ == instance_name(old(self)@.model_identifier, old(self)@.counter),
            name@ == old(self)@.name_after(0),
            name@ == old(self)@.model_identifier + seq!['_'] + decimal(old(self)@.counter),
            final(self)@ == old(self)@.after(1),
            final(self)@.model_identifier == old(self)@.model_identifier,
            old(self)@.counter <= usize::MAX,
            final(self)@.counter == if old(self)@.counter < usize::MAX {
                old(self)@.counter + 1
            } else {
                0
            },
    {
        let instance_counter: usize = self.instance_counter;
        self.instance_counter = instance_counter.wrapping_add(1);
        let mut name = self.model_identifier.clone();
        name.append("_");
        name.append(decimal_text(instance_counter).as_str());
        proof {
            reveal_strlit("_");
            assert("_"@ == seq!['_']);
            lemma_small_mod(instance_counter as nat, usize::MAX as nat + 1);
            if instance_counter < usize::MAX {
                lemma_small_mod(instance_counter as nat + 1, usize::MAX as nat + 1);
            } else {
                lemma_mod_self_0(usize::MAX as int + 1);
            }
        }
        name
    }
}

/// The names of a model whose identifier holds no NUL hold none either.
pub proof fn lemma_instance_name_holds_no_nul(model_identifier: Seq<char>, counter: nat)
    requires
        !model_identifier.contains('\0'),
    ensures
        !instance_name(model_identifier, counter).contains('\0'),
{
    reveal_strlit("_");
    lemma_decimal_holds_no_nul(counter);
    let front = model_identifier + "_"@;
    let name = instance_name(model_identifier, counter);
    assert forall|i: int| 0 <= i < name.len() implies #[trigger] name[i] != '\0' by {
        if i < model_identifier.len() {
            assert(model_identifier.contains(model_identifier[i]));
        } else if i >= front.len() {
            assert(decimal(counter).contains(decimal(counter)[i - front.len()]));
        }
    }
}

/// The names that a factory gives out are all different, until its counter has
/// run through all of its values.
pub proof fn law_instance_names_are_unique(names: InstanceNames, i: nat, j: nat)
    requires
        i < j <= i + usize::MAX,
    ensures
        names.name_after(i) != names.name_after(j),
{
    let a = names.counter_after(i);
    let b = names.counter_after(j);
    assert(a != b) by (nonlinear_arith)
        requires
            a == (names.counter + i) % (usize::MAX as nat + 1),
            b == (names.counter + j) % (usize::MAX as nat + 1),
            i < j <= i + usize::MAX,
    ;
    let front = names.model_identifier + "_"@;
    if names.name_after(i) == names.name_after(j) {
        assert(names.name_after(i).skip(front.len() as int) == decimal(a));
        assert(names.name_after(j).skip(front.len() as int) == decimal(b));
        lemma_decimal_injective(a, b);
    }
}

/// The name of an instance is the identifier, an underscore and the counter.
pub proof fn law_instance_name_parts(model_identifier: Seq<char>, counter: nat)
    ensures
        instance_name(model_identifier, counter) == model_identifier + seq!['_'] + decimal(counter),
{
    reveal_strlit("_");
    assert("_"@ == seq!['_']);
}

/// A new factory counts up from zero.
pub proof fn law_instance_names_count_up(model_identifier: Seq<char>, names: nat)
    requires
        names <= usize::MAX,
    ensures
        (InstanceNames { model_identifier, counter: 0 }).name_after(names) == instance_name(
            model_identifier,
            names,
        ),
{
    lemma_small_mod(names, usize::MAX as nat + 1);
}

/// Giving out names one after the other is giving them out together.
pub proof fn law_instance_names_in_sequence(names: InstanceNames, first: nat, second: nat)
    ensures
        names.after(first).after(second) == names.after(first + second),
        names.after(first).name_after(second) == names.name_after(first + second),
{
    lemma_add_mod_noop_right(
        second as int,
        (names.counter + first) as int,
        usize::MAX as int + 1,
    );
    assert(names.after(first).counter_after(second) == names.counter_after(first + second));
}

/// A loaded FMU is the one that was about to be loaded, with the dynamic library
/// that was opened and names that count up from zero.
pub proof fn law_loaded_fmu_is_the_one_asked_for<D>(
    loading: FmuLoading,
    opened: Result<D, libloading::Error>,
    library: Result<(FmuLibrary<D>, InstanceNameFactory), FmuLoadError>,
)
    requires
        call_ensures(FmuLoading::finish::<D>, (loading, opened), library),
    ensures
        library is Ok <==> opened is Ok,
        opened is Err ==> library->Err_0 == FmuLoadError::DLOpen(opened->Err_0),
        opened is Ok ==> {
            &&& library->Ok_0.0.fmi == opened->Ok_0
            &&& library->Ok_0.0.simulation_type == loading.simulation_type
            &&& library->Ok_0.0.fmu == loading.fmu
            &&& library->Ok_0.1@.model_identifier == loading.model_identifier@
            &&& library->Ok_0.1@.counter == 0
        },
{
}

/// The counter of a factory goes up by one with each name, and starts over behind
/// its largest value. The identifier stays.
pub proof fn law_instance_names_step(names: InstanceNames)
    requires
        names.counter <= usize::MAX,
    ensures
        names.after(1).model_identifier == names.model_identifier,
        names.counter < usize::MAX ==> names.after(1).counter == names.counter + 1,
        names.counter == usize::MAX ==> names.after(1).counter == 0,
{
    if names.counter < usize::MAX {
        lemma_small_mod(names.counter + 1, usize::MAX as nat + 1);
    } else {
        lemma_mod_self_0(usize::MAX as int + 1);
    }
}

} // verus!
