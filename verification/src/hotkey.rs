//! Global hotkeys: which key combinations the overlay listens for, and which
//! domain event each of them stands for.
//!
//! The operating system reports a pressed hotkey by a number, the id of the
//! combination. The table keeps the id of every binding and translates a
//! reported id back into the bound event.

use global_hotkey::hotkey::{Code, HotKey, Modifiers};
use vstd::prelude::*;
use crate::channel::EventQueue;
use crate::event::DomainEvent;

verus! {

/// How long the listener waits between two looks for a pressed hotkey, in
/// milliseconds.
pub const POLL_INTERVAL_MILLIS: u64 = 50;

/// A key that a hotkey can end in.
#[derive(Clone, Copy, Debug, PartialEq, Eq, Hash, Structural)]
pub enum KeyCode {
    F1,
    F2,
    F3,
    F4,
    F5,
    F6,
    F7,
    F8,
    F9,
    F10,
    F11,
    F12,
}

/// The modifier keys held with a hotkey's key.
#[derive(Clone, Copy, Debug, PartialEq, Eq, Hash, Structural)]
pub struct ModifierSet {
    pub alt: bool,
    pub control: bool,
    pub meta: bool,
    pub shift: bool,
}

impl ModifierSet {
    pub open spec fn spec_none() -> ModifierSet {
        ModifierSet { alt: false, control: false, meta: false, shift: false }
    }

    pub open spec fn spec_control() -> ModifierSet {
        ModifierSet { alt: false, control: true, meta: false, shift: false }
    }

    /// No modifier.
    #[verifier::when_used_as_spec(spec_none)]
    pub fn none() -> (modifiers: ModifierSet)
        ensures
            modifiers == ModifierSet::spec_none(),
    {
        ModifierSet { alt: false, control: false, meta: false, shift: false }
    }

    /// The control key alone.
    #[verifier::when_used_as_spec(spec_control)]
    pub fn control() -> (modifiers: ModifierSet)
        ensures
            modifiers == ModifierSet::spec_control(),
    {
        ModifierSet { alt: false, control: true, meta: false, shift: false }
    }
}

/// One hotkey and the event it stands for.
#[derive(Clone, Copy, Debug, PartialEq, Eq, Hash, Structural)]
pub struct HotkeyBinding {
    pub modifiers: ModifierSet,
    pub key: KeyCode,
    pub bound_event: DomainEvent,
}

impl HotkeyBinding {
    /// Whether two bindings listen for the same key combination.
    pub open spec fn same_combination(self, other: HotkeyBinding) -> bool {
        self.modifiers == other.modifiers && self.key == other.key
    }

    /// The id under which the combination of this binding is reported.
    pub open spec fn spec_id(self) -> u32 {
        combination_id(self.modifiers, self.key)
    }

    /// The id under which the combination of this binding is reported.
    pub fn id(&self) -> (id: u32)
        ensures
            id == self.spec_id(),
    {
        hotkey_id(self.modifiers, self.key)
    }
}

/// Why a binding was not taken into the table.
#[derive(Clone, Copy, Debug, PartialEq, Eq, Hash, Structural)]
pub enum HotkeyError {
    /// The key combination is bound already.
    AlreadyBound,
}

/// The id that `global_hotkey` gives to the hotkey of the given modifiers and
/// key.
pub uninterp spec fn combination_id(modifiers: ModifierSet, key: KeyCode) -> u32;

/// Builds the hotkey of the given modifiers and key with
/// `global_hotkey::hotkey::HotKey::new` and returns its `id()`. The id is a
/// function of the modifiers and the key alone; nothing else is claimed of it,
/// in particular not that two combinations have different ids.
#[verifier::external_body]
fn hotkey_id(modifiers: ModifierSet, key: KeyCode) -> (id: u32)
    ensures
        id == combination_id(modifiers, key),
{
    let mut mods = Modifiers::empty();
    mods.set(Modifiers::ALT, modifiers.alt);
    mods.set(Modifiers::CONTROL, modifiers.control);
    mods.set(Modifiers::META, modifiers.meta);
    mods.set(Modifiers::SHIFT, modifiers.shift);
    let code = match key {
        KeyCode::F1 => Code::F1, KeyCode::F2 => Code::F2, KeyCode::F3 => Code::F3,
        KeyCode::F4 => Code::F4, KeyCode::F5 => Code::F5, KeyCode::F6 => Code::F6,
        KeyCode::F7 => Code::F7, KeyCode::F8 => Code::F8, KeyCode::F9 => Code::F9,
        KeyCode::F10 => Code::F10, KeyCode::F11 => Code::F11, KeyCode::F12 => Code::F12,
    };
    HotKey::new(Some(mods), code).id()
}

/// Whether no two of the bindings listen for the same key combination.
pub open spec fn distinct_combinations(bindings: Seq<HotkeyBinding>) -> bool {
    forall|i: int, j: int|
        0 <= i < j < bindings.len() ==> !(#[trigger] bindings[i]).same_combination(
            #[trigger] bindings[j],
        )
}

/// The event of the first binding whose combination is reported as `id`.
pub open spec fn bound_to(bindings: Seq<HotkeyBinding>, id: u32) -> Option<DomainEvent>
    decreases bindings.len(),
{
    if bindings.len() == 0 {
        None
    } else if bindings[0].spec_id() == id {
        Some(bindings[0].bound_event)
    } else {
        bound_to(bindings.skip(1), id)
    }
}

/// What the operating system reports of a registered hotkey: the id of its
/// combination, and whether the key went down or came up.
#[derive(Clone, Copy, Debug, PartialEq, Eq, Hash, Structural)]
pub struct HotkeyNotice {
    pub id: u32,
    pub pressed: bool,
}

/// The event that a notice stands for: that of the pressed hotkey. A release
/// stands for nothing.
pub open spec fn announced(bindings: Seq<HotkeyBinding>, notice: HotkeyNotice) -> Option<
    DomainEvent,
> {
    if notice.pressed {
        bound_to(bindings, notice.id)
    } else {
        None
    }
}

/// The bindings that the overlay registers at startup, with the id of each.
pub struct HotkeyTable {
    bindings: Vec<HotkeyBinding>,
    ids: Vec<u32>,
}

impl View for HotkeyTable {
    type V = Seq<HotkeyBinding>;

    /// The bindings in the order in which they were registered.
    closed spec fn view(&self) -> Seq<HotkeyBinding> {
        self.bindings@
    }
}

impl HotkeyTable {
    /// What holds of every table: no key combination is bound twice, and the
    /// table knows the id of every binding.
    #[verifier::type_invariant]
    spec fn inv(&self) -> bool {
        &&& distinct_combinations(self.bindings@)
        &&& self.ids@.len() == self.bindings@.len()
        &&& forall|i: int|
            0 <= i < self.bindings@.len() ==> self.ids@[i] == (#[trigger] self.bindings@[i]).spec_id()
    }

    /// A table without bindings.
    pub fn new() -> (table: HotkeyTable)
        ensures
            table@ == Seq::<HotkeyBinding>::empty(),
            distinct_combinations(table@),
    {
        HotkeyTable { bindings: Vec::new(), ids: Vec::new() }
    }

    /// The table of the overlay: F1 and Control+F1 flip the visibility, F3
    /// pages back, F4 pages forward.
    pub fn standard() -> (table: HotkeyTable)
        ensures
            table@ == seq![
                HotkeyBinding {
                    modifiers: ModifierSet::spec_none(),
                    key: KeyCode::F1,
                    bound_event: DomainEvent::ToggleVisibility,
                },
                HotkeyBinding {
                    modifiers: ModifierSet::spec_control(),
                    key: KeyCode::F1,
                    bound_event: DomainEvent::ToggleVisibility,
                },
                HotkeyBinding {
                    modifiers: ModifierSet::spec_none(),
                    key: KeyCode::F3,
                    bound_event: DomainEvent::PageUp,
                },
                HotkeyBinding {
                    modifiers: ModifierSet::spec_none(),
                    key: KeyCode::F4,
                    bound_event: DomainEvent::PageDown,
                },
            ],
            distinct_combinations(table@),
    {
        let mut table = HotkeyTable::new();
        let hide = HotkeyBinding {
            modifiers: ModifierSet::none(),
            key: KeyCode::F1,
            bound_event: DomainEvent::ToggleVisibility,
        };
        let show = HotkeyBinding {
            modifiers: ModifierSet::control(),
            key: KeyCode::F1,
            bound_event: DomainEvent::ToggleVisibility,
        };
        let page_up = HotkeyBinding {
            modifiers: ModifierSet::none(),
            key: KeyCode::F3,
            bound_event: DomainEvent::PageUp,
        };
        let page_down = HotkeyBinding {
            modifiers: ModifierSet::none(),
            key: KeyCode::F4,
            bound_event: DomainEvent::PageDown,
        };
        let first = table.register(hide);
        let second = table.register(show);
        let third = table.register(page_up);
        let fourth = table.register(page_down);
        assert(first.is_ok() && second.is_ok() && third.is_ok() && fourth.is_ok());
        assert(table@ =~= seq![hide, show, page_up, page_down]);
        table
    }

    /// The number of bindings.
    pub fn len(&self) -> (n: usize)
        ensures
            n == self@.len(),
    {
        self.bindings.len()
    }

    /// The binding at `index`, in registration order.
    pub fn binding(&self, index: usize) -> (binding: Option<HotkeyBinding>)
        ensures
            index < self@.len() ==> binding == Some(self@[index as int]),
            index >= self@.len() ==> binding.is_none(),
    {
        if index < self.bindings.len() {
            Some(self.bindings[index])
        } else {
            None
        }
    }

    /// Whether the key combination of `binding` is bound in this table.
    pub fn is_bound(&self, binding: &HotkeyBinding) -> (found: bool)
        ensures
            found <==> exists|i: int|
                0 <= i < self@.len() && (#[trigger] self@[i]).same_combination(*binding),
    {
        let mut i: usize = 0;
        while i < self.bindings.len()
            invariant
                i <= self.bindings.len(),
                forall|k: int| 0 <= k < i ==> !(#[trigger] self.bindings@[k]).same_combination(*binding),
            decreases self.bindings.len() - i,
        {
            let other = self.bindings[i];
            if other.modifiers == binding.modifiers && other.key == binding.key {
                assert(self@[i as int].same_combination(*binding));
                return true;
            }
            i += 1;
        }
        false
    }

    /// Takes `binding` into the table, behind the bindings already there. A
    /// key combination can be bound once: a second binding of it is refused
    /// and the table stays as it is.
    pub fn register(&mut self, binding: HotkeyBinding) -> (outcome: Result<(), HotkeyError>)
        ensures
            outcome.is_err() <==> exists|i: int|
                0 <= i < old(self)@.len() && (#[trigger] old(self)@[i]).same_combination(binding),
            outcome.is_err() ==> outcome == Err::<(), HotkeyError>(HotkeyError::AlreadyBound)
                && final(self)@ == old(self)@,
            outcome.is_ok() ==> final(self)@ == old(self)@.push(binding),
            distinct_combinations(old(self)@),
            distinct_combinations(final(self)@),
    {
        proof {
            use_type_invariant(&*self);
        }
        if self.is_bound(&binding) {
            return Err(HotkeyError::AlreadyBound);
        }
        let id = binding.id();
        let mut taken = HotkeyTable::new();
        std::mem::swap(self, &mut taken);
        let HotkeyTable { mut bindings, mut ids } = taken;
        bindings.push(binding);
        ids.push(id);
        *self = HotkeyTable { bindings, ids };
        Ok(())
    }

    /// The event that the hotkey reported as `id` stands for: that of the
    /// first binding whose combination has this id, or `None` where the id
    /// belongs to no binding of the table.
    pub fn translate(&self, id: u32) -> (event: Option<DomainEvent>)
        ensures
            event == bound_to(self@, id),
    {
        let mut i: usize = 0;
        proof {
            use_type_invariant(self);
            assert(self.bindings@.skip(0) =~= self.bindings@);
        }
        while i < self.ids.len()
            invariant
                self.inv(),
                i <= self.ids.len(),
                bound_to(self.bindings@, id) == bound_to(self.bindings@.skip(i as int), id),
            decreases self.ids.len() - i,
        {
            proof {
                let rest = self.bindings@.skip(i as int);
                assert(rest[0] == self.bindings@[i as int]);
                assert(rest.skip(1) =~= self.bindings@.skip(i + 1));
            }
            if self.ids[i] == id {
                return Some(self.bindings[i].bound_event);
            }
            i += 1;
        }
        None
    }

    /// One step of the hotkey listener: where the notice is a press of a
    /// hotkey of this table, puts the bound event on the queue, once. A
    /// release, and a press of an id that belongs to no binding, queue
    /// nothing. Returns whether an event was queued.
    pub fn dispatch(&self, notice: HotkeyNotice, queue: &mut EventQueue) -> (queued: bool)
        ensures
            queued == announced(self@, notice).is_some(),
            queued ==> final(queue)@ == old(queue)@.push(announced(self@, notice).unwrap()),
            !queued ==> final(queue)@ == old(queue)@,
    {
        if !notice.pressed {
            return false;
        }
        match self.translate(notice.id) {
            Some(event) => {
                queue.push(event);
                true
            },
            None => false,
        }
    }
}

} // verus!
