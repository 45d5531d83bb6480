//! The types of the FMI 2.0 C interface that the library decides on, and the
//! calls of that interface that it asks for.

use vstd::prelude::*;

verus! {

/// The two kinds of model that an FMU can hold.
#[allow(non_camel_case_types)]
#[derive(Debug, Clone, Copy, PartialEq, Eq, Hash, Structural)]
pub enum fmi2Type {
    fmi2ModelExchange,
    fmi2CoSimulation,
}

/// What a function of the interface returns about how it went.
#[allow(non_camel_case_types)]
#[derive(Debug, Clone, Copy, PartialEq, Eq, Hash, Structural)]
pub enum fmi2Status {
    fmi2OK,
    fmi2Warning,
    fmi2Discard,
    fmi2Error,
    fmi2Fatal,
    fmi2Pending,
}

impl fmi2Status {
    /// The name that the standard gives to the status.
    pub open spec fn spec_name(self) -> Seq<char> {
        match self {
            fmi2Status::fmi2OK => "fmi2OK"@,
            fmi2Status::fmi2Warning => "fmi2Warning"@,
            fmi2Status::fmi2Discard => "fmi2Discard"@,
            fmi2Status::fmi2Error => "fmi2Error"@,
            fmi2Status::fmi2Fatal => "fmi2Fatal"@,
            fmi2Status::fmi2Pending => "fmi2Pending"@,
        }
    }

    /// The name that the standard gives to the status.
    pub fn name(self) -> (name: &'static str)
        ensures
            name@ == self.spec_name(),
            self is fmi2OK ==> name@ == "fmi2OK"@,
            self is fmi2Warning ==> name@ == "fmi2Warning"@,
            self is fmi2Discard ==> name@ == "fmi2Discard"@,
            self is fmi2Error ==> name@ == "fmi2Error"@,
            self is fmi2Fatal ==> name@ == "fmi2Fatal"@,
            self is fmi2Pending ==> name@ == "fmi2Pending"@,
    {
        match self {
            fmi2Status::fmi2OK => "fmi2OK",
            fmi2Status::fmi2Warning => "fmi2Warning",
            fmi2Status::fmi2Discard => "fmi2Discard",
            fmi2Status::fmi2Error => "fmi2Error",
            fmi2Status::fmi2Fatal => "fmi2Fatal",
            fmi2Status::fmi2Pending => "fmi2Pending",
        }
    }
}

/// A truth value as the interface passes it.
pub open spec fn spec_fmi2_boolean(value: bool) -> i32 {
    if value {
        1
    } else {
        0
    }
}

/// A truth value as the interface passes it.
#[verifier::when_used_as_spec(spec_fmi2_boolean)]
pub fn fmi2_boolean(value: bool) -> (passed: i32)
    ensures
        passed == spec_fmi2_boolean(value),
        value ==> passed == 1,
        !value ==> passed == 0,
{
    if value {
        1
    } else {
        0
    }
}

/// A call of `fmi2Instantiate`. The callback functions, which are the same for
/// every instance, are left to the caller.
pub struct InstantiateCall {
    pub instance_name: String,
    pub fmu_type: fmi2Type,
    pub fmu_guid: String,
    pub fmu_resource_location: String,
    pub visible: i32,
    pub logging_on: i32,
}

impl InstantiateCall {
    /// Whether all texts of the call can be passed as C strings.
    pub open spec fn is_passable(&self) -> bool {
        &&& !self.instance_name@.contains('\0')
        &&& !self.fmu_guid@.contains('\0')
        &&& !self.fmu_resource_location@.contains('\0')
    }
}

/// A call on an instance that is not about its saved states. `H` is the handle
/// of an instance and `R` the type of real numbers.
pub enum Fmi2Call<H, R> {
    FreeInstance { component: H },
    SetDebugLogging { component: H, logging_on: i32, categories: Vec<String> },
    SetupExperiment {
        component: H,
        tolerance_defined: i32,
        tolerance: R,
        start_time: R,
        stop_time_defined: i32,
        stop_time: R,
    },
    EnterInitializationMode { component: H },
    ExitInitializationMode { component: H },
    GetReal { component: H, value_references: Vec<u32> },
    GetInteger { component: H, value_references: Vec<u32> },
    GetBoolean { component: H, value_references: Vec<u32> },
    SetReal { component: H, value_references: Vec<u32>, reals: Vec<R> },
    SetInteger { component: H, value_references: Vec<u32>, integers: Vec<i32> },
    SetBoolean { component: H, value_references: Vec<u32>, booleans: Vec<i32> },
    DoStep {
        component: H,
        current_communication_point: R,
        communication_step_size: R,
        no_set_fmu_state_prior_to_current_point: i32,
    },
}

/// A call on an instance about one of its saved states. `H` is the handle of an
/// instance and `S` that of a saved state.
pub enum Fmi2StateCall<'a, H, S> {
    GetFmuState { component: H },
    SetFmuState { component: H, state: S },
    FreeFmuState { component: H, state: S },
    SerializedFmuStateSize { component: H, state: S },
    SerializeFmuState { component: H, state: S, size: usize },
    DeserializeFmuState { component: H, serialized_state: &'a [u8] },
}

/// The names of the statuses, and the truth values, are those of the standard.
pub proof fn law_values_of_the_standard(status: fmi2Status)
    ensures
        status is fmi2OK ==> status.spec_name() == "fmi2OK"@,
        status is fmi2Warning ==> status.spec_name() == "fmi2Warning"@,
        status is fmi2Discard ==> status.spec_name() == "fmi2Discard"@,
        status is fmi2Error ==> status.spec_name() == "fmi2Error"@,
        status is fmi2Fatal ==> status.spec_name() == "fmi2Fatal"@,
        status is fmi2Pending ==> status.spec_name() == "fmi2Pending"@,
        spec_fmi2_boolean(true) == 1,
        spec_fmi2_boolean(false) == 0,
{
}

} // verus!
