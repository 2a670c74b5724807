//! The definitions in force, one slot for each local message type.

use vstd::prelude::*;
use crate::definition::{DefinitionMessage, DefinitionView};

verus! {

/// The number of local message types.
pub const LOCAL_MESSAGE_TYPES: usize = 16;

/// What a slot holds, as a mathematical value.
pub open spec fn slot_view(slot: Option<DefinitionMessage>) -> Option<DefinitionView> {
    match slot {
        Some(definition) => Some(definition@),
        None => None,
    }
}

/// A registry in which no local message type is defined.
pub open spec fn empty_registry() -> Seq<Option<DefinitionView>> {
    Seq::new(LOCAL_MESSAGE_TYPES as nat, |i: int| None::<DefinitionView>)
}

/// The definition that is in force for each local message type. A decoding
/// session owns one registry; a definition record replaces what its slot held.
pub struct LocalMessageTypeRegistry {
    slots: Vec<Option<DefinitionMessage>>,
}

impl View for LocalMessageTypeRegistry {
    type V = Seq<Option<DefinitionView>>;

    closed spec fn view(&self) -> Seq<Option<DefinitionView>> {
        Seq::new(self.slots@.len(), |i: int| slot_view(self.slots@[i]))
    }
}

impl LocalMessageTypeRegistry {
    /// The registry has its sixteen slots, and what they hold is well formed.
    pub open spec fn wf(&self) -> bool {
        registry_wf(self@)
    }

    /// A registry with every slot empty.
    pub fn new() -> (registry: Self)
        ensures
            registry.wf(),
            registry@ == empty_registry(),
    {
        let mut slots: Vec<Option<DefinitionMessage>> = Vec::new();
        let mut i: usize = 0;
        while i < LOCAL_MESSAGE_TYPES
            invariant
                i <= LOCAL_MESSAGE_TYPES,
                slots@.len() == i,
                forall|k: int| 0 <= k < i ==> slots@[k] is None,
            decreases LOCAL_MESSAGE_TYPES - i,
        {
            slots.push(None);
            i = i + 1;
        }
        let registry = LocalMessageTypeRegistry { slots };
        assert(registry@ =~= empty_registry());
        registry
    }

    /// Puts `definition` in force for `local_message_type`, in place of
    /// whatever was in force for it. The other slots keep what they hold.
    pub fn register(&mut self, local_message_type: u8, definition: DefinitionMessage)
        requires
            old(self).wf(),
            local_message_type < LOCAL_MESSAGE_TYPES,
            definition@.wf(),
        ensures
            final(self).wf(),
            final(self)@ == old(self)@.update(local_message_type as int, Some(definition@)),
    {
        self.slots[local_message_type as usize] = Some(definition);
        assert(self@ =~= old(self)@.update(local_message_type as int, Some(definition@)));
    }

    /// The definition in force for `local_message_type`, if there is one.
    /// There is none for a number that is no local message type.
    pub fn lookup(&self, local_message_type: u8) -> (found: Option<&DefinitionMessage>)
        requires
            self.wf(),
        ensures
            found == None::<&DefinitionMessage> <==> registered(self@, local_message_type) is None,
            found matches Some(definition) ==> definition@.wf() && registered(
                self@,
                local_message_type,
            ) == Some(definition@),
    {
        if (local_message_type as usize) < LOCAL_MESSAGE_TYPES {
            self.slots[local_message_type as usize].as_ref()
        } else {
            None
        }
    }
}

/// A registry has sixteen slots, and every definition in it is well formed.
pub open spec fn registry_wf(registry: Seq<Option<DefinitionView>>) -> bool {
    &&& registry.len() == LOCAL_MESSAGE_TYPES
    &&& forall|i: int|
        0 <= i < registry.len() ==> (#[trigger] registry[i] matches Some(definition)
            ==> definition.wf())
}

/// The definition that `registry` holds for `local_message_type`.
pub open spec fn registered(registry: Seq<Option<DefinitionView>>, local_message_type: u8) -> Option<
    DefinitionView,
> {
    if local_message_type < registry.len() {
        registry[local_message_type as int]
    } else {
        None
    }
}

/// A definition is found again under the local message type it was
/// registered for, and under no other.
pub proof fn lemma_register_then_lookup(
    registry: Seq<Option<DefinitionView>>,
    local_message_type: u8,
    definition: DefinitionView,
    other: u8,
)
    requires
        local_message_type < registry.len(),
    ensures
        registered(
            registry.update(local_message_type as int, Some(definition)),
            local_message_type,
        ) == Some(definition),
        other != local_message_type ==> registered(
            registry.update(local_message_type as int, Some(definition)),
            other,
        ) == registered(registry, other),
{
}

/// Registering twice for one local message type leaves the registry as if
/// only the second definition had ever been registered.
pub proof fn lemma_register_replaces(
    registry: Seq<Option<DefinitionView>>,
    local_message_type: u8,
    first: DefinitionView,
    second: DefinitionView,
)
    requires
        local_message_type < registry.len(),
    ensures
        registry.update(local_message_type as int, Some(first)).update(
            local_message_type as int,
            Some(second),
        ) == registry.update(local_message_type as int, Some(second)),
{
    assert(registry.update(local_message_type as int, Some(first)).update(
        local_message_type as int,
        Some(second),
    ) =~= registry.update(local_message_type as int, Some(second)));
}

} // verus!
