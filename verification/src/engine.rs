//! The slot-registration state the Execution Engine is assumed to keep.
//! The agent only emits registration calls; the engine owns the state. To
//! reason and test against its documented interface — in particular that
//! input-slot registration is soft, that is, repeatable — this module
//! models that state as two sets of slots and mirrors it executably.

use vstd::prelude::*;
use crate::ops::{EngineOp, OpModel};
use crate::text::str_eq;

verus! {

/// The registration state of the Execution Engine: which indexed output
/// and input slots have been pre-allocated.
pub ghost struct EngineState {
    pub output_slots: Set<(Seq<char>, Seq<char>, Seq<char>)>,
    pub input_slots: Set<(Seq<char>, Seq<char>, Seq<char>)>,
}

/// How one engine call changes the registration state: the two
/// registration calls add their slot, every other call leaves the
/// registration state alone.
pub open spec fn apply_op(st: EngineState, op: OpModel) -> EngineState {
    match op {
        OpModel::AddOutputSelection { name, port, selection } => EngineState {
            output_slots: st.output_slots.insert((name, port, selection)),
            input_slots: st.input_slots,
        },
        OpModel::SoftAddInputSelection { name, port, selection } => EngineState {
            output_slots: st.output_slots,
            input_slots: st.input_slots.insert((name, port, selection)),
        },
        _ => st,
    }
}

/// A script applied call by call.
pub open spec fn apply_ops(st: EngineState, ops: Seq<OpModel>) -> EngineState
    decreases ops.len(),
{
    if ops.len() == 0 {
        st
    } else {
        apply_op(apply_ops(st, ops.drop_last()), ops.last())
    }
}

/// Law: registering the same input slot twice leaves the engine exactly as
/// registering it once does — the slot is not duplicated and the second
/// call changes nothing.
pub proof fn lemma_input_registration_idempotent(
    st: EngineState,
    name: Seq<char>,
    port: Seq<char>,
    selection: Seq<char>,
)
    ensures
        apply_op(
            apply_op(st, OpModel::SoftAddInputSelection { name, port, selection }),
            OpModel::SoftAddInputSelection { name, port, selection },
        ) == apply_op(st, OpModel::SoftAddInputSelection { name, port, selection }),
{
    assert(st.input_slots.insert((name, port, selection)).insert((name, port, selection))
        =~= st.input_slots.insert((name, port, selection)));
}

/// The output slots a script registers.
pub open spec fn script_output_slots(s: Seq<OpModel>) -> Set<(Seq<char>, Seq<char>, Seq<char>)>
    decreases s.len(),
{
    if s.len() == 0 {
        Set::empty()
    } else {
        match s.last() {
            OpModel::AddOutputSelection { name, port, selection } => script_output_slots(
                s.drop_last(),
            ).insert((name, port, selection)),
            _ => script_output_slots(s.drop_last()),
        }
    }
}

/// The input slots a script registers.
pub open spec fn script_input_slots(s: Seq<OpModel>) -> Set<(Seq<char>, Seq<char>, Seq<char>)>
    decreases s.len(),
{
    if s.len() == 0 {
        Set::empty()
    } else {
        match s.last() {
            OpModel::SoftAddInputSelection { name, port, selection } => script_input_slots(
                s.drop_last(),
            ).insert((name, port, selection)),
            _ => script_input_slots(s.drop_last()),
        }
    }
}

proof fn lemma_apply_ops_adds_registrations(st: EngineState, s: Seq<OpModel>)
    ensures
        apply_ops(st, s).output_slots == st.output_slots.union(script_output_slots(s)),
        apply_ops(st, s).input_slots == st.input_slots.union(script_input_slots(s)),
    decreases s.len(),
{
    if s.len() == 0 {
        assert(st.output_slots.union(Set::empty()) =~= st.output_slots);
        assert(st.input_slots.union(Set::empty()) =~= st.input_slots);
    } else {
        lemma_apply_ops_adds_registrations(st, s.drop_last());
        assert(apply_ops(st, s.drop_last()).output_slots.union(
            Set::empty(),
        ) =~= apply_ops(st, s.drop_last()).output_slots);
        match s.last() {
            OpModel::AddOutputSelection { name, port, selection } => {
                assert(st.output_slots.union(script_output_slots(s.drop_last())).insert(
                    (name, port, selection),
                ) =~= st.output_slots.union(script_output_slots(s)));
            },
            OpModel::SoftAddInputSelection { name, port, selection } => {
                assert(st.input_slots.union(script_input_slots(s.drop_last())).insert(
                    (name, port, selection),
                ) =~= st.input_slots.union(script_input_slots(s)));
            },
            _ => {},
        }
    }
}

/// Law: a script only ever adds registrations, so performing the same
/// script twice leaves the engine's registration state exactly as
/// performing it once does — re-wiring an edge duplicates no slot. This
/// is why the same indexed input may safely receive connections from
/// several distinct commands.
pub proof fn lemma_script_registration_idempotent(st: EngineState, script: Seq<OpModel>)
    ensures
        apply_ops(apply_ops(st, script), script) == apply_ops(st, script),
{
    lemma_apply_ops_adds_registrations(st, script);
    lemma_apply_ops_adds_registrations(apply_ops(st, script), script);
    assert(st.output_slots.union(script_output_slots(script)).union(script_output_slots(script))
        =~= st.output_slots.union(script_output_slots(script)));
    assert(st.input_slots.union(script_input_slots(script)).union(script_input_slots(script))
        =~= st.input_slots.union(script_input_slots(script)));
}

spec fn slot_set(s: Seq<(String, String, String)>) -> Set<(Seq<char>, Seq<char>, Seq<char>)>
    decreases s.len(),
{
    if s.len() == 0 {
        Set::empty()
    } else {
        slot_set(s.drop_last()).insert(s.last()@)
    }
}

spec fn unique_slots(s: Seq<(String, String, String)>) -> bool {
    forall|i: int, j: int| 0 <= i < j < s.len() ==> s[i]@ != s[j]@
}

proof fn lemma_slot_set_contains(s: Seq<(String, String, String)>, i: int)
    requires
        0 <= i < s.len(),
    ensures
        slot_set(s).contains(s[i]@),
    decreases s.len(),
{
    if i < s.len() - 1 {
        lemma_slot_set_contains(s.drop_last(), i);
    }
}

proof fn lemma_slot_set_absent(s: Seq<(String, String, String)>, t: (Seq<char>, Seq<char>, Seq<char>))
    requires
        forall|i: int| 0 <= i < s.len() ==> s[i]@ != t,
    ensures
        !slot_set(s).contains(t),
    decreases s.len(),
{
    if s.len() > 0 {
        lemma_slot_set_absent(s.drop_last(), t);
    }
}

proof fn lemma_slot_set_card(s: Seq<(String, String, String)>)
    requires
        unique_slots(s),
    ensures
        slot_set(s).finite(),
        slot_set(s).len() == s.len(),
    decreases s.len(),
{
    if s.len() > 0 {
        lemma_slot_set_card(s.drop_last());
        lemma_slot_set_absent(s.drop_last(), s.last()@);
    }
}

struct SlotTable {
    slots: Vec<(String, String, String)>,
}

impl SlotTable {
    spec fn model(&self) -> Set<(Seq<char>, Seq<char>, Seq<char>)> {
        slot_set(self.slots@)
    }

    spec fn wf(&self) -> bool {
        unique_slots(self.slots@)
    }

    fn new() -> (r: SlotTable)
        ensures
            r.wf(),
            r.model() == Set::<(Seq<char>, Seq<char>, Seq<char>)>::empty(),
    {
        SlotTable { slots: Vec::new() }
    }

    fn register(&mut self, name: &str, port: &str, selection: &str)
        requires
            old(self).wf(),
        ensures
            final(self).wf(),
            final(self).model() == old(self).model().insert((name@, port@, selection@)),
    {
        let n = self.slots.len();
        let mut i: usize = 0;
        while i < n
            invariant
                i <= n,
                n == self.slots@.len(),
                self.wf(),
                self.slots@ == old(self).slots@,
                forall|j: int| 0 <= j < i ==> self.slots@[j]@ != (name@, port@, selection@),
            decreases n - i,
        {
            let e = &self.slots[i];
            if str_eq(e.0.as_str(), name) && str_eq(e.1.as_str(), port) && str_eq(
                e.2.as_str(),
                selection,
            ) {
                proof {
                    lemma_slot_set_contains(self.slots@, i as int);
                    assert(self.model() =~= self.model().insert((name@, port@, selection@)));
                }
                return ;
            }
            i += 1;
        }
        let ghost before = self.slots@;
        self.slots.push((name.to_owned(), port.to_owned(), selection.to_owned()));
        proof {
            assert(self.slots@.drop_last() =~= before);
        }
    }

    fn count(&self) -> (r: usize)
        requires
            self.wf(),
        ensures
            self.model().finite(),
            r == self.model().len(),
    {
        proof {
            lemma_slot_set_card(self.slots@);
        }
        self.slots.len()
    }
}

/// An executable mirror of the engine's registration state, advanced one
/// engine call at a time exactly as [`apply_op`] says.
pub struct EngineMirror {
    output_slots: SlotTable,
    input_slots: SlotTable,
}

impl View for EngineMirror {
    type V = EngineState;

    closed spec fn view(&self) -> EngineState {
        EngineState { output_slots: self.output_slots.model(), input_slots: self.input_slots.model() }
    }
}

impl EngineMirror {
    /// Slot tables hold no duplicates.
    pub closed spec fn wf(&self) -> bool {
        self.output_slots.wf() && self.input_slots.wf()
    }

    /// A mirror of a fresh engine: nothing registered.
    pub fn new() -> (r: EngineMirror)
        ensures
            r.wf(),
            r@.output_slots == Set::<(Seq<char>, Seq<char>, Seq<char>)>::empty(),
            r@.input_slots == Set::<(Seq<char>, Seq<char>, Seq<char>)>::empty(),
    {
        EngineMirror { output_slots: SlotTable::new(), input_slots: SlotTable::new() }
    }

    /// Advances the mirror by one engine call.
    pub fn apply(&mut self, op: &EngineOp)
        requires
            old(self).wf(),
        ensures
            final(self).wf(),
            final(self)@ == apply_op(old(self)@, op@),
    {
        match op {
            EngineOp::AddOutputSelection { name, port, selection } => {
                self.output_slots.register(name.as_str(), port.as_str(), selection.as_str());
            },
            EngineOp::SoftAddInputSelection { name, port, selection } => {
                self.input_slots.register(name.as_str(), port.as_str(), selection.as_str());
            },
            _ => {},
        }
    }

    /// How many distinct input slots are registered.
    pub fn input_slot_count(&self) -> (r: usize)
        requires
            self.wf(),
        ensures
            self@.input_slots.finite(),
            r == self@.input_slots.len(),
    {
        self.input_slots.count()
    }

    /// How many distinct output slots are registered.
    pub fn output_slot_count(&self) -> (r: usize)
        requires
            self.wf(),
        ensures
            self@.output_slots.finite(),
            r == self@.output_slots.len(),
    {
        self.output_slots.count()
    }
}

} // verus!
