//! Saved states of an instance.

use crate::error::FmuError;
use crate::fmi2::{fmi2Status, Fmi2StateCall};
use crate::instance::{spec_ok_or_err, FmuInstance};
use vstd::prelude::*;

verus! {

/// A saved state and the instance that it belongs to. `S` is the handle of a
/// state in the dynamic library.
#[derive(Debug)]
pub struct FmuState<'fmu, C, H, S>(pub S, pub &'fmu FmuInstance<C, H>);

/// Leave to save and restore states of an instance.
#[derive(Debug)]
pub struct FmuGetSetStateCapability<'fmu, C, H>(&'fmu FmuInstance<C, H>);

/// Leave to turn saved states of an instance into bytes and back.
#[derive(Debug)]
pub struct FmuSerializeStateCapability<'fmu, C, H>(&'fmu FmuInstance<C, H>);

impl<'fmu, C, H: Copy, S: Copy> FmuState<'fmu, C, H, S> {
    /// The call that gives the state back to the instance that it belongs to.
    pub fn free(&self) -> (call: Fmi2StateCall<'static, H, S>)
        ensures
            call == (Fmi2StateCall::FreeFmuState {
                component: self.1.instance,
                state: self.0,
            }),
    {
        Fmi2StateCall::FreeFmuState { component: self.1.instance, state: self.0 }
    }
}

impl<'fmu, C, H> FmuGetSetStateCapability<'fmu, C, H> {
    /// The instance that the leave is for.
    pub closed spec fn spec_instance(&self) -> &'fmu FmuInstance<C, H> {
        self.0
    }

    /// Leave for an instance.
    pub(crate) fn new(instance: &'fmu FmuInstance<C, H>) -> (capability: Self)
        ensures
            capability.spec_instance() == instance,
    {
        FmuGetSetStateCapability(instance)
    }

    /// The instance that the leave is for.
    pub fn instance(&self) -> (instance: &'fmu FmuInstance<C, H>)
        ensures
            instance == self.spec_instance(),
    {
        self.0
    }
}

impl<'fmu, C, H: Copy> FmuGetSetStateCapability<'fmu, C, H> {
    /// The call that saves the state of the instance.
    pub fn get_state_call<S>(&self) -> (call: Fmi2StateCall<'static, H, S>)
        ensures
            call is GetFmuState,
            call->GetFmuState_component == self.spec_instance().instance,
    {
        Fmi2StateCall::GetFmuState { component: self.0.instance }
    }

    /// What the call that saves the state comes to.
    pub fn get_state<S>(&self, status: fmi2Status, state: S) -> (saved: Result<
        FmuState<'fmu, C, H, S>,
        FmuError,
    >)
        ensures
            saved == match spec_ok_or_err(status) {
                Ok(_) => Ok::<FmuState<'fmu, C, H, S>, FmuError>(FmuState(state, self.spec_instance())),
                Err(error) => Err(error),
            },
    {
        match FmuInstance::<C, H>::ok_or_err(status) {
            Ok(_) => Ok(FmuState(state, self.0)),
            Err(error) => Err(error),
        }
    }

    /// The call that restores a state.
    pub fn set_state_call<S: Copy>(&self, state: &FmuState<'fmu, C, H, S>) -> (call: Fmi2StateCall<
        'static,
        H,
        S,
    >)
        ensures
            call == (Fmi2StateCall::SetFmuState {
                component: self.spec_instance().instance,
                state: state.0,
            }),
    {
        Fmi2StateCall::SetFmuState { component: self.0.instance, state: state.0 }
    }

    /// What the call that restores a state comes to.
    pub fn set_state(&self, status: fmi2Status) -> (restored: Result<(), FmuError>)
        ensures
            restored == spec_ok_or_err(status),
    {
        FmuInstance::<C, H>::ok_or_err(status)
    }
}

impl<'fmu, C, H> FmuSerializeStateCapability<'fmu, C, H> {
    /// The instance that the leave is for.
    pub closed spec fn spec_instance(&self) -> &'fmu FmuInstance<C, H> {
        self.0
    }

    /// Leave for an instance.
    pub(crate) fn new(instance: &'fmu FmuInstance<C, H>) -> (capability: Self)
        ensures
            capability.spec_instance() == instance,
    {
        FmuSerializeStateCapability(instance)
    }

    /// The instance that the leave is for.
    pub fn instance(&self) -> (instance: &'fmu FmuInstance<C, H>)
        ensures
            instance == self.spec_instance(),
    {
        self.0
    }
}

impl<'fmu, C, H: Copy> FmuSerializeStateCapability<'fmu, C, H> {
    /// The call that asks how many bytes a state takes.
    pub fn serialized_size_call<S: Copy>(&self, state: &FmuState<'fmu, C, H, S>) -> (call:
        Fmi2StateCall<'static, H, S>)
        ensures
            call == (Fmi2StateCall::SerializedFmuStateSize {
                component: self.spec_instance().instance,
                state: state.0,
            }),
    {
        Fmi2StateCall::SerializedFmuStateSize { component: self.0.instance, state: state.0 }
    }

    /// What the question for the size comes to: a call that fills in the bytes,
    /// and the zeroed bytes for it to fill in.
    pub fn serialize_state_call<S: Copy>(
        &self,
        state: &FmuState<'fmu, C, H, S>,
        status: fmi2Status,
        size: usize,
    ) -> (call: Result<(Fmi2StateCall<'static, H, S>, Vec<u8>), FmuError>)
        requires
            status == fmi2Status::fmi2OK ==> size <= isize::MAX,
        ensures
            match spec_ok_or_err(status) {
                Ok(_) => {
                    &&& call is Ok
                    &&& call->Ok_0.0 == (Fmi2StateCall::SerializeFmuState {
                        component: self.spec_instance().instance,
                        state: state.0,
                        size,
                    })
                    &&& call->Ok_0.1@ == Seq::new(size as nat, |i: int| 0u8)
                },
                Err(error) => call == Err::<(Fmi2StateCall<'static, H, S>, Vec<u8>), FmuError>(
                    error,
                ),
            },
    {
        match FmuInstance::<C, H>::ok_or_err(status) {
            Ok(_) => {
                let serialized_state: Vec<u8> = vec![0u8; size];
                assert(serialized_state@ == Seq::new(size as nat, |i: int| 0u8));
                Ok(
                    (
                        Fmi2StateCall::SerializeFmuState {
                            component: self.0.instance,
                            state: state.0,
                            size,
                        },
                        serialized_state,
                    ),
                )
            },
            Err(error) => Err(error),
        }
    }

    /// What the call that fills in the bytes comes to.
    pub fn serialize_state(&self, status: fmi2Status, serialized_state: Vec<u8>) -> (serialized:
        Result<Vec<u8>, FmuError>)
        ensures
            serialized == match spec_ok_or_err(status) {
                Ok(_) => Ok::<Vec<u8>, FmuError>(serialized_state),
                Err(error) => Err(error),
            },
    {
        match FmuInstance::<C, H>::ok_or_err(status) {
            Ok(_) => Ok(serialized_state),
            Err(error) => Err(error),
        }
    }

    /// The call that makes a state from bytes.
    pub fn deserialize_state_call<'a, S>(&self, serialized_state: &'a [u8]) -> (call: Fmi2StateCall<
        'a,
        H,
        S,
    >)
        ensures
            call is DeserializeFmuState,
            call->DeserializeFmuState_component == self.spec_instance().instance,
            call->serialized_state@ == serialized_state@,
    {
        Fmi2StateCall::DeserializeFmuState { component: self.0.instance, serialized_state }
    }

    /// What the call that makes a state from bytes comes to.
    pub fn deserialize_state<S>(&self, status: fmi2Status, state: S) -> (saved: Result<
        FmuState<'fmu, C, H, S>,
        FmuError,
    >)
        ensures
            saved == match spec_ok_or_err(status) {
                Ok(_) => Ok::<FmuState<'fmu, C, H, S>, FmuError>(FmuState(state, self.spec_instance())),
                Err(error) => Err(error),
            },
    {
        match FmuInstance::<C, H>::ok_or_err(status) {
            Ok(_) => Ok(FmuState(state, self.0)),
            Err(error) => Err(error),
        }
    }
}

/// Any status but `fmi2OK` makes a failure of a call about states, with that
/// status. On `fmi2OK` a new state has the handle that came back and belongs to
/// the instance of the leave, and bytes are what was filled in.
pub proof fn law_state_replies<'fmu, C, H: Copy, S>(
    get_set: &FmuGetSetStateCapability<'fmu, C, H>,
    serialize: &FmuSerializeStateCapability<'fmu, C, H>,
    status: fmi2Status,
    state: S,
    bytes: Vec<u8>,
    saved: Result<FmuState<'fmu, C, H, S>, FmuError>,
    restored: Result<(), FmuError>,
    serialized: Result<Vec<u8>, FmuError>,
    deserialized: Result<FmuState<'fmu, C, H, S>, FmuError>,
)
    requires
        call_ensures(
            FmuGetSetStateCapability::<'fmu, C, H>::get_state::<S>,
            (get_set, status, state),
            saved,
        ),
        call_ensures(
            FmuGetSetStateCapability::<'fmu, C, H>::set_state,
            (get_set, status),
            restored,
        ),
        call_ensures(
            FmuSerializeStateCapability::<'fmu, C, H>::serialize_state,
            (serialize, status, bytes),
            serialized,
        ),
        call_ensures(
            FmuSerializeStateCapability::<'fmu, C, H>::deserialize_state::<S>,
            (serialize, status, state),
            deserialized,
        ),
    ensures
        status == fmi2Status::fmi2OK ==> {
            &&& saved is Ok && saved->Ok_0.0 == state && saved->Ok_0.1 == get_set.spec_instance()
            &&& restored is Ok
            &&& serialized is Ok && serialized->Ok_0 == bytes
            &&& deserialized is Ok && deserialized->Ok_0.0 == state && deserialized->Ok_0.1
                == serialize.spec_instance()
        },
        status != fmi2Status::fmi2OK ==> {
            let error = FmuError::BadFunctionCall(status);
            &&& saved is Err && saved->Err_0 == error
            &&& restored is Err && restored->Err_0 == error
            &&& serialized is Err && serialized->Err_0 == error
            &&& deserialized is Err && deserialized->Err_0 == error
        },
{
}

/// A state that was just saved is restored, measured and given back by the handle
/// that it was saved under, on the instance that it was saved from.
pub proof fn law_saved_state_is_restored<'fmu, C, H: Copy, S: Copy>(
    get_set: &FmuGetSetStateCapability<'fmu, C, H>,
    serialize: &FmuSerializeStateCapability<'fmu, C, H>,
    state: S,
    saved: Result<FmuState<'fmu, C, H, S>, FmuError>,
    save: Fmi2StateCall<'static, H, S>,
    restore: Fmi2StateCall<'static, H, S>,
    measure: Fmi2StateCall<'static, H, S>,
    free: Fmi2StateCall<'static, H, S>,
)
    requires
        get_set.spec_instance() == serialize.spec_instance(),
        call_ensures(
            FmuGetSetStateCapability::<'fmu, C, H>::get_state::<S>,
            (get_set, fmi2Status::fmi2OK, state),
            saved,
        ),
        call_ensures(
            FmuGetSetStateCapability::<'fmu, C, H>::get_state_call::<S>,
            (get_set,),
            save,
        ),
        call_ensures(
            FmuGetSetStateCapability::<'fmu, C, H>::set_state_call::<S>,
            (get_set, &saved->Ok_0),
            restore,
        ),
        call_ensures(
            FmuSerializeStateCapability::<'fmu, C, H>::serialized_size_call::<S>,
            (serialize, &saved->Ok_0),
            measure,
        ),
        call_ensures(FmuState::<'fmu, C, H, S>::free, (&saved->Ok_0,), free),
    ensures
        saved is Ok,
        save is GetFmuState && save->GetFmuState_component == get_set.spec_instance().instance,
        restore == (Fmi2StateCall::SetFmuState {
            component: get_set.spec_instance().instance,
            state,
        }),
        measure == (Fmi2StateCall::SerializedFmuStateSize {
            component: get_set.spec_instance().instance,
            state,
        }),
        free == (Fmi2StateCall::FreeFmuState {
            component: get_set.spec_instance().instance,
            state,
        }),
{
}

/// A state is turned into as many bytes as its size says, all zero before they
/// are filled in. Bytes are turned back into a state whole.
pub proof fn law_states_are_serialized_whole<'fmu, 'a, C, H: Copy, S: Copy>(
    serialize: &FmuSerializeStateCapability<'fmu, C, H>,
    state: &FmuState<'fmu, C, H, S>,
    status: fmi2Status,
    size: usize,
    fill: Result<(Fmi2StateCall<'static, H, S>, Vec<u8>), FmuError>,
    bytes: &'a [u8],
    restore: Fmi2StateCall<'a, H, S>,
)
    requires
        call_ensures(
            FmuSerializeStateCapability::<'fmu, C, H>::serialize_state_call::<S>,
            (serialize, state, status, size),
            fill,
        ),
        call_ensures(
            FmuSerializeStateCapability::<'fmu, C, H>::deserialize_state_call::<S>,
            (serialize, bytes),
            restore,
        ),
    ensures
        status != fmi2Status::fmi2OK ==> fill is Err && fill->Err_0 == FmuError::BadFunctionCall(
            status,
        ),
        status == fmi2Status::fmi2OK ==> {
            &&& fill is Ok
            &&& fill->Ok_0.0 == (Fmi2StateCall::SerializeFmuState {
                component: serialize.spec_instance().instance,
                state: state.0,
                size,
            })
            &&& fill->Ok_0.1@.len() == size
            &&& forall|i: int| 0 <= i < size ==> #[trigger] fill->Ok_0.1@[i] == 0
        },
        restore is DeserializeFmuState,
        restore->DeserializeFmuState_component == serialize.spec_instance().instance,
        restore->serialized_state@ == bytes@,
{
}

} // verus!
