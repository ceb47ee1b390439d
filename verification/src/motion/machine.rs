//! Machine-level control: fans the latched machine command out to the axes and
//! derives the machine-level published fields.
use vstd::prelude::*;

use crate::fieldbus::{AxisIn, AxisOut};
use crate::motion::axis::{
    demand_of, initial_axis, outputs_of, status_of, tick_of, Advance, AxisControl, AxisModel,
    AxisParams, AxisRequest, AxisStatus, Demand, TickInput,
};
use crate::motion::flags::machine_cmd;

verus! {

/// All axes of one machine.
pub struct MachineControl {
    axes: Vec<AxisControl>,
}

/// The emergency-stop bit is set in the machine word.
pub open spec fn ems_held(machine_word: u32) -> bool {
    machine_word & machine_cmd::EMS != 0
}

/// What ticks axis `i` in a machine cycle.
pub open spec fn axis_tick(
    machine_word: u32,
    reqs: Seq<AxisRequest>,
    ins: Seq<AxisIn>,
    advances: Seq<Advance>,
    i: int,
) -> TickInput {
    TickInput { req: reqs[i], ems: ems_held(machine_word), input: ins[i], advance: advances[i] }
}

impl View for MachineControl {
    type V = Seq<AxisModel>;

    closed spec fn view(&self) -> Seq<AxisModel> {
        Seq::new(self.axes@.len(), |i: int| self.axes@[i]@)
    }
}

impl MachineControl {
    pub fn new(axis_count: usize, params: AxisParams) -> (r: MachineControl)
        ensures
            r@ == Seq::new(axis_count as nat, |i: int| initial_axis(params)),
    {
        let mut axes: Vec<AxisControl> = Vec::new();
        while axes.len() < axis_count
            invariant
                axes@.len() <= axis_count,
                forall|i: int| 0 <= i < axes@.len() ==> (#[trigger] axes@[i])@ == initial_axis(
                    params,
                ),
            decreases axis_count - axes@.len(),
        {
            axes.push(AxisControl::new(params));
        }
        MachineControl { axes }
    }

    pub fn axis_count(&self) -> (r: usize)
        ensures
            r == self@.len(),
    {
        self.axes.len()
    }

    /// The profile step that axis `i` needs in the next `tick`.
    pub fn demand(&self, i: usize, machine_word: u32, req: &AxisRequest, input: &AxisIn) -> (r:
        Demand)
        requires
            i < self@.len(),
        ensures
            r == demand_of(self@[i as int], *req, ems_held(machine_word), *input),
    {
        self.axes[i].demand(req, machine_word & machine_cmd::EMS != 0, input)
    }

    /// One machine cycle: every axis ticks on its own request, input and
    /// profile outcome, with the emergency stop of the machine word.
    pub fn tick(
        &mut self,
        machine_word: u32,
        reqs: &[AxisRequest],
        ins: &[AxisIn],
        advances: &[Advance],
        outs: &mut [AxisOut],
    )
        requires
            reqs@.len() >= old(self)@.len(),
            ins@.len() >= old(self)@.len(),
            advances@.len() >= old(self)@.len(),
            old(outs)@.len() >= old(self)@.len(),
        ensures
            final(self)@ == Seq::new(
                old(self)@.len(),
                |i: int|
                    tick_of(old(self)@[i], axis_tick(machine_word, reqs@, ins@, advances@, i)),
            ),
            final(outs)@.len() == old(outs)@.len(),
            forall|i: int|
                0 <= i < old(self)@.len() ==> #[trigger] final(outs)@[i] == outputs_of(
                    final(self)@[i],
                    ins@[i],
                ),
            forall|i: int|
                old(self)@.len() <= i < old(outs)@.len() ==> #[trigger] final(outs)@[i] == old(
                    outs,
                )@[i],
    {
        let ems = machine_word & machine_cmd::EMS != 0;
        let n: usize = self.axes.len();
        let ghost before = self@;
        let ghost outs_before = outs@;
        let mut i: usize = 0;
        while i < n
            invariant
                n == self.axes@.len(),
                n == before.len(),
                i <= n,
                reqs@.len() >= n,
                ins@.len() >= n,
                advances@.len() >= n,
                outs@.len() == outs_before.len(),
                outs@.len() >= n,
                ems == ems_held(machine_word),
                forall|k: int|
                    0 <= k < i ==> (#[trigger] self.axes@[k])@ == tick_of(
                        before[k],
                        axis_tick(machine_word, reqs@, ins@, advances@, k),
                    ),
                forall|k: int| i <= k < n ==> (#[trigger] self.axes@[k])@ == before[k],
                forall|k: int|
                    0 <= k < i ==> #[trigger] outs@[k] == outputs_of(self.axes@[k]@, ins@[k]),
                forall|k: int| i <= k < outs@.len() ==> #[trigger] outs@[k] == outs_before[k],
            decreases n - i,
        {
            let out = self.axes[i].tick(&reqs[i], ems, &ins[i], &advances[i]);
            outs[i] = out;
            i += 1;
        }
    }

    pub fn status(&self, i: usize, input: &AxisIn) -> (r: AxisStatus)
        requires
            i < self@.len(),
        ensures
            r == status_of(self@[i as int], *input),
    {
        self.axes[i].status(input)
    }

    /// The published run state: 1 while the machine is commanded to run.
    pub fn run_state(machine_word: u32) -> (r: u32)
        ensures
            r == run_state_of(machine_word),
    {
        if machine_word & machine_cmd::SYSTEM_RUN != 0 {
            1
        } else {
            0
        }
    }
}

/// 1 while the machine is commanded to run, else 0.
pub open spec fn run_state_of(machine_word: u32) -> u32 {
    if machine_word & machine_cmd::SYSTEM_RUN != 0 {
        1
    } else {
        0
    }
}

/// Axes do not disturb each other: what an axis becomes depends on its own
/// state, request, input and profile outcome and on the machine word alone.
pub proof fn axes_are_independent(
    m: AxisModel,
    i: int,
    machine_word: u32,
    reqs: Seq<AxisRequest>,
    ins: Seq<AxisIn>,
    advances: Seq<Advance>,
    other_reqs: Seq<AxisRequest>,
    other_ins: Seq<AxisIn>,
    other_advances: Seq<Advance>,
)
    requires
        reqs[i] == other_reqs[i],
        ins[i] == other_ins[i],
        advances[i] == other_advances[i],
    ensures
        tick_of(m, axis_tick(machine_word, reqs, ins, advances, i)) == tick_of(
            m,
            axis_tick(machine_word, other_reqs, other_ins, other_advances, i),
        ),
{
}

} // verus!
