//! The whole machine: the processor, and everything on its bus.
//!
//! The picture processor runs three dots per processor cycle.

use vstd::prelude::*;
use crate::apu_laws;
use crate::bus;
use crate::bus::{Bus, BusModel};
use crate::cartridge::Cartridge;
use crate::cpu;
use crate::cpu::Cpu;
use crate::machine::Machine;
use crate::memory::Memory;
use crate::ppu_core::CoreModel;

verus! {

pub struct Nes {
    pub cpu: Cpu,
    pub bus: Bus,
}

pub ghost struct NesModel {
    pub cpu: Cpu,
    pub bus: BusModel,
}

impl NesModel {
    /// The processor with its bus.
    pub open spec fn machine(self) -> Machine<BusModel> {
        Machine { cpu: self.cpu, mem: self.bus }
    }

    /// A pending transfer is carried out; the processor waits for it.
    #[verifier::opaque]
    pub open spec fn transfer_done(self) -> NesModel {
        if self.bus.dma_pending {
            NesModel {
                cpu: Cpu { stall: (self.cpu.stall + 513) as u32, ..self.cpu },
                bus: self.bus.transferred(),
            }
        } else {
            self
        }
    }

    /// A step of the processor.
    #[verifier::opaque]
    pub open spec fn processor_stepped(self) -> NesModel {
        let m = self.machine().stepped();
        NesModel { cpu: m.cpu, bus: m.mem }
    }

    /// `n` dots of the picture.
    #[verifier::opaque]
    pub open spec fn dots_passed(self, n: nat) -> NesModel {
        NesModel {
            cpu: Cpu {
                nmi_pending: self.cpu.nmi_pending || self.bus.ppu.nmi_within(n, self.bus.cart),
                ..self.cpu
            },
            bus: BusModel { ppu: self.bus.ppu.ticked_times(n, self.bus.cart), ..self.bus },
        }
    }

    /// `n` cycles of sound.
    #[verifier::opaque]
    pub open spec fn sound_passed(self, n: nat) -> NesModel {
        NesModel { bus: BusModel { apu: self.bus.apu.clocked_times(n), ..self.bus }, ..self }
    }

    /// The sample channel gets the byte that it waits for.
    #[verifier::opaque]
    pub open spec fn sample_fetched(self) -> NesModel {
        match self.bus.apu.dmc_read_pending {
            Some(addr) => {
                let after = self.bus.after_load(addr);
                NesModel {
                    bus: BusModel {
                        apu: after.apu.byte_delivered(self.bus.load(addr)),
                        ..after
                    },
                    ..self
                }
            },
            None => self,
        }
    }

    /// The frame interrupt is passed on to the processor.
    #[verifier::opaque]
    pub open spec fn interrupt_raised(self) -> NesModel {
        NesModel {
            cpu: Cpu {
                irq_pending: self.cpu.irq_pending || self.bus.apu.frame_irq,
                ..self.cpu
            },
            ..self
        }
    }

    /// Picture and sound for `n` processor cycles: three dots and one cycle of sound
    /// for each.
    #[verifier::opaque]
    pub open spec fn devices_run(self, n: int) -> NesModel {
        self.dots_passed((3 * n) as nat).sound_passed(n as nat).sample_fetched().interrupt_raised()
    }

    /// One step: a pending transfer, the processor, then picture and sound for the
    /// cycles that it took.
    #[verifier::opaque]
    pub open spec fn stepped(self) -> NesModel {
        let d = self.transfer_done();
        d.processor_stepped().devices_run(d.machine().step_cycles())
    }

    /// The frame that the picture is in.
    pub open spec fn frame(self) -> int {
        self.bus.ppu.core.frame_count
    }

    /// After `n` steps, and not before, the current frame is complete.
    pub open spec fn completes_frame(self, n: nat) -> bool {
        &&& self.steps(n).frame() > self.frame()
        &&& forall|m: nat| m < n ==> (#[trigger] self.steps(m)).frame() <= self.frame()
    }

    /// The machine when the current frame is complete.
    pub open spec fn frame_run(self) -> NesModel {
        self.steps(choose|n: nat| #[trigger] self.completes_frame(n))
    }

    /// `n` steps.
    pub open spec fn steps(self, n: nat) -> NesModel
        decreases n,
    {
        if n == 0 {
            self
        } else {
            self.steps((n - 1) as nat).stepped()
        }
    }
}

/// The frame follows from the position.
proof fn lemma_frame_of_position(core: CoreModel)
    requires
        core.wf(),
    ensures
        core.frame_count * 89342 <= core.position() < core.frame_count * 89342 + 89342,
{
}

impl View for Nes {
    type V = NesModel;

    open spec fn view(&self) -> NesModel {
        NesModel { cpu: self.cpu, bus: self.bus@ }
    }
}

impl Nes {
    /// The processor waits only while no further transfer is due.
    pub open spec fn wf(&self) -> bool {
        &&& self.bus.wf()
        &&& self.cpu.stall <= 513
        &&& self.bus.dma_pending ==> self.cpu.stall == 0
    }

    /// The counters are far from their limits.
    pub open spec fn counters_fit(&self) -> bool {
        &&& self.cpu.cycles <= u64::MAX - 1000000
        &&& self.bus.apu.cycle_count <= u64::MAX - 1000000
        &&& self.bus.ppu.core.frame_count <= u64::MAX - 64
    }

    pub fn new(cart: Cartridge) -> (nes: Nes)
        requires
            cart.wf(),
        ensures
            nes.wf(),
            nes@.machine() == (Machine {
                cpu: cpu::cpu_at_power_on(),
                mem: bus::bus_at_power_on(cart@),
            }).reset(),
    {
        let mut cpu: Cpu = Cpu::new();
        let mut bus: Bus = Bus::new(cart);
        cpu.reset(&mut bus);
        Nes { cpu, bus }
    }

    /// Whether the counters leave room for another frame.
    pub fn can_run_frame(&self) -> (fits: bool)
        ensures
            fits == self.counters_fit(),
    {
        self.cpu.cycles <= u64::MAX - 1000000 && self.bus.apu.cycle_count <= u64::MAX - 1000000
            && self.bus.ppu.core.frame_count <= u64::MAX - 64
    }

    /// Runs until a frame is complete. Returns the number of frames so far.
    pub fn run_frame(&mut self) -> (frames: u64)
        requires
            old(self).wf(),
            old(self).counters_fit(),
        ensures
            final(self).wf(),
            frames == old(self).bus.ppu.core.frame_count + 1,
            final(self).bus.ppu.core.frame_count == frames,
            final(self).bus.apu.cycle_count - old(self).bus.apu.cycle_count == final(self).cpu.cycles
                - old(self).cpu.cycles,
            final(self)@ == old(self)@.frame_run(),
            exists|n: nat| #[trigger] old(self)@.completes_frame(n) && final(self)@ == old(self)@.steps(n),
    {
        let target: u64 = self.bus.ppu.core.frame_count + 1;
        let ghost start = self.bus.ppu@.core.position();
        let ghost mut n: nat = 0;
        while self.bus.ppu.core.frame_count < target
            invariant
                self.wf(),
                old(self).wf(),
                old(self).counters_fit(),
                target == old(self).bus.ppu.core.frame_count + 1,
                start == old(self).bus.ppu@.core.position(),
                self@ == old(self)@.steps(n),
                self.bus.ppu.core.frame_count <= target,
                start <= self.bus.ppu@.core.position(),
                self.bus.apu.cycle_count - old(self).bus.apu.cycle_count == self.cpu.cycles
                    - old(self).cpu.cycles,
                self.bus.ppu.core.frame_count < target ==> self.cpu.cycles - old(self).cpu.cycles
                    <= self.bus.ppu@.core.position() - start,
                forall|m: nat| m < n ==> (#[trigger] old(self)@.steps(m)).frame() < target,
            decreases target * 89342 + 102 - self.bus.ppu@.core.position(),
        {
            proof {
                lemma_frame_of_position(self.bus.ppu@.core);
                lemma_frame_of_position(old(self).bus.ppu@.core);
            }
            self.step();
            proof {
                n = n + 1;
                lemma_frame_of_position(self.bus.ppu@.core);
            }
        }
        proof {
            assert(old(self)@.completes_frame(n));
            let other = choose|m: nat| #[trigger] old(self)@.completes_frame(m);
            frames_are_determined(old(self)@, n, other);
        }
        self.bus.ppu.core.frame_count
    }

    /// A processor step, and the picture and sound that go with it.
    fn step(&mut self)
        requires
            old(self).wf(),
            old(self).cpu.cycles <= u64::MAX - 32,
            old(self).bus.apu.cycle_count <= u64::MAX - 32,
            old(self).bus.ppu.core.frame_count <= u64::MAX - 60,
        ensures
            final(self).wf(),
            final(self)@ == old(self)@.stepped(),
            final(self).bus.apu.cycle_count - old(self).bus.apu.cycle_count == final(self).cpu.cycles
                - old(self).cpu.cycles <= 17,
            3 <= final(self).bus.ppu@.core.position() - old(self).bus.ppu@.core.position() <= 102,
            3 * (final(self).bus.apu.cycle_count - old(self).bus.apu.cycle_count)
                <= final(self).bus.ppu@.core.position() - old(self).bus.ppu@.core.position(),
    {
        proof {
            reveal(NesModel::stepped);
        }
        self.transfer();
        let spent: u32 = self.run_processor();
        self.run_devices(spent);
    }

    /// Carries out a pending transfer.
    fn transfer(&mut self)
        requires
            old(self).wf(),
        ensures
            final(self).wf(),
            !final(self).bus.dma_pending,
            final(self)@ == old(self)@.transfer_done(),
            final(self).cpu.cycles == old(self).cpu.cycles,
            final(self).bus@.clocks() == old(self).bus@.clocks(),
    {
        proof {
            reveal(NesModel::transfer_done);
        }
        if self.bus.dma_pending {
            let cycles: u32 = self.bus.do_dma();
            self.cpu.stall = self.cpu.stall + cycles;
        }
    }

    /// Steps the processor and returns the cycles it took.
    fn run_processor(&mut self) -> (spent: u32)
        requires
            old(self).wf(),
            !old(self).bus.dma_pending,
            old(self).cpu.cycles <= u64::MAX - 32,
        ensures
            final(self).wf(),
            final(self)@ == old(self)@.processor_stepped(),
            spent == old(self)@.machine().step_cycles(),
            1 <= spent <= 17,
            spent == final(self).cpu.cycles - old(self).cpu.cycles,
            final(self).bus@.clocks() == old(self).bus@.clocks(),
    {
        proof {
            reveal(NesModel::processor_stepped);
            reveal(Machine::stepped);
        }
        self.cpu.step(&mut self.bus)
    }

    /// Picture and sound for `n` processor cycles.
    fn run_devices(&mut self, n: u32)
        requires
            old(self).wf(),
            1 <= n <= 17,
            old(self).bus.apu.cycle_count <= u64::MAX - 32,
            old(self).bus.ppu.core.frame_count <= u64::MAX - 60,
        ensures
            final(self).wf(),
            final(self)@ == old(self)@.devices_run(n as int),
            final(self).cpu.cycles == old(self).cpu.cycles,
            final(self).bus.apu.cycle_count == old(self).bus.apu.cycle_count + n,
            3 * n <= final(self).bus.ppu@.core.position() - old(self).bus.ppu@.core.position() <= 6
                * n,
    {
        proof {
            reveal(NesModel::devices_run);
        }
        self.pass_dots(n * 3);
        self.pass_sound(n);
        self.fetch_sample();
        self.raise_interrupt();
    }

    /// `n` dots of the picture.
    fn pass_dots(&mut self, n: u32)
        requires
            old(self).wf(),
            old(self).bus.ppu.core.frame_count + n <= u64::MAX,
        ensures
            final(self).wf(),
            final(self)@ == old(self)@.dots_passed(n as nat),
            final(self).cpu.cycles == old(self).cpu.cycles,
            final(self).bus.apu == old(self).bus.apu,
            n <= final(self).bus.ppu@.core.position() - old(self).bus.ppu@.core.position() <= 2 * n,
    {
        proof {
            reveal(NesModel::dots_passed);
        }
        let nmi: bool = self.bus.ppu.tick_times(n, &self.bus.cart);
        self.cpu.nmi_pending = self.cpu.nmi_pending || nmi;
    }

    /// `n` cycles of sound.
    fn pass_sound(&mut self, n: u32)
        requires
            old(self).wf(),
            old(self).bus.apu.cycle_count + n <= u64::MAX,
        ensures
            final(self).wf(),
            final(self)@ == old(self)@.sound_passed(n as nat),
            final(self).cpu.cycles == old(self).cpu.cycles,
            final(self).bus.ppu == old(self).bus.ppu,
            final(self).bus.apu.cycle_count == old(self).bus.apu.cycle_count + n,
    {
        proof {
            reveal(NesModel::sound_passed);
        }
        self.bus.apu.clock_batch(n);
    }

    /// Passes the frame interrupt on to the processor.
    fn raise_interrupt(&mut self)
        requires
            old(self).wf(),
        ensures
            final(self).wf(),
            final(self)@ == old(self)@.interrupt_raised(),
            final(self).cpu.cycles == old(self).cpu.cycles,
            final(self).bus == old(self).bus,
    {
        proof {
            reveal(NesModel::interrupt_raised);
        }
        self.cpu.irq_pending = self.cpu.irq_pending || self.bus.apu.frame_irq;
    }

    /// Reads the byte that the sample channel waits for, if it does.
    fn fetch_sample(&mut self)
        requires
            old(self).wf(),
        ensures
            final(self).wf(),
            final(self)@ == old(self)@.sample_fetched(),
            final(self).cpu == old(self).cpu,
            final(self).bus@.clocks() == old(self).bus@.clocks(),
    {
        proof {
            reveal(NesModel::sample_fetched);
        }
        let pending: Option<u16> = self.bus.apu.dmc_read_pending;
        match pending {
            Some(addr) => {
                let byte: u8 = self.bus.read(addr);
                self.bus.apu.dmc_fill_buffer(byte);
            },
            None => {},
        }
    }

    /// Presses or releases a button: 0 A, 1 B, 2 Select, 3 Start, 4 Up, 5 Down,
    /// 6 Left, 7 Right. There are two controllers; others are ignored.
    pub fn set_button(&mut self, player: usize, button: u8, pressed: bool)
        requires
            old(self).wf(),
            button < 8,
        ensures
            final(self).wf(),
            final(self)@ == old(self)@.button_set(player as int, button, pressed),
    {
        if player < 2 {
            let held: u8 = self.bus.controller[player];
            self.bus.controller[player] = bus::set_pad(held, button, pressed);
        }
    }

    /// The picture, RGB24.
    pub fn framebuffer(&self) -> (pixels: &[u8])
        ensures
            pixels@ == self@.bus.ppu.framebuffer,
    {
        self.bus.ppu.framebuffer.as_slice()
    }
}

/// Runs are reproducible: a frame is complete after one number of steps only, so that from
/// one state there is one state at its end.
pub proof fn frames_are_determined(nes: NesModel, n: nat, m: nat)
    requires
        nes.completes_frame(n),
        nes.completes_frame(m),
    ensures
        n == m,
        nes.steps(n) == nes.steps(m),
        nes.steps(n) == nes.frame_run(),
{
    let other = choose|k: nat| #[trigger] nes.completes_frame(k);
    assert(nes.steps(n).frame() > nes.frame() && nes.steps(m).frame() > nes.frame());
    assert(nes.steps(other).frame() > nes.frame());
}

/// What is done with a machine.
pub ghost enum Act {
    RunFrame,
    SetButton { player: int, button: u8, pressed: bool },
}

impl NesModel {
    /// A button pressed or released. Controllers other than 0 and 1 are ignored.
    pub open spec fn button_set(self, player: int, button: u8, pressed: bool) -> NesModel {
        if 0 <= player < 2 {
            NesModel {
                bus: BusModel {
                    controller: self.bus.controller.update(
                        player,
                        bus::pad_set(self.bus.controller[player], button, pressed),
                    ),
                    ..self.bus
                },
                ..self
            }
        } else {
            self
        }
    }

    /// The machine may end up in `next` when this is done.
    pub open spec fn leads_to(self, act: Act, next: NesModel) -> bool {
        match act {
            Act::RunFrame => exists|n: nat| #[trigger]
                self.completes_frame(n) && next == self.steps(n),
            Act::SetButton { player, button, pressed } => next == self.button_set(
                player,
                button,
                pressed,
            ),
        }
    }
}

/// The states are those of a run: each follows from the one before by what was done.
pub open spec fn is_run(states: Seq<NesModel>, acts: Seq<Act>) -> bool {
    &&& states.len() == acts.len() + 1
    &&& forall|i: int|
        0 <= i < acts.len() ==> states[i].leads_to(#[trigger] acts[i], states[i + 1])
}

/// Two runs from the same state with the same inputs show the same pictures: they go through
/// the same states.
pub proof fn runs_agree(a: Seq<NesModel>, b: Seq<NesModel>, acts: Seq<Act>, i: int)
    requires
        is_run(a, acts),
        is_run(b, acts),
        a[0] == b[0],
        0 <= i <= acts.len(),
    ensures
        a[i] == b[i],
        a[i].bus.ppu.framebuffer == b[i].bus.ppu.framebuffer,
    decreases i,
{
    if i > 0 {
        runs_agree(a, b, acts, i - 1);
        let s = a[i - 1];
        assert(s.leads_to(acts[i - 1], a[i - 1 + 1]) && b[i - 1].leads_to(
            acts[i - 1],
            b[i - 1 + 1],
        ));
        if acts[i - 1] is RunFrame {
            let n = choose|n: nat| #[trigger] s.completes_frame(n) && a[i] == s.steps(n);
            let m = choose|m: nat| #[trigger] s.completes_frame(m) && b[i] == s.steps(m);
            frames_are_determined(s, n, m);
        }
    }
}

/// In a step, picture and sound run for exactly the cycles by which the processor's counter
/// advances.
pub proof fn step_keeps_pace(nes: NesModel)
    ensures
        nes.stepped() == nes.transfer_done().processor_stepped().devices_run(
            nes.stepped().cpu.cycles - nes.cpu.cycles,
        ),
{
    reveal(NesModel::stepped);
    reveal(NesModel::transfer_done);
    reveal(NesModel::processor_stepped);
    reveal(Machine::step_cycles);
    reveal(NesModel::devices_run);
    reveal(NesModel::dots_passed);
    reveal(NesModel::sound_passed);
    reveal(NesModel::sample_fetched);
    reveal(NesModel::interrupt_raised);
}

/// Picture and sound keep pace with the processor: three dots and one cycle of sound for
/// each of its cycles.
pub proof fn three_dots_per_cycle(nes: NesModel, n: nat)
    requires
        nes.bus.apu.wf(),
    ensures
        nes.devices_run(n as int).bus.ppu == nes.bus.ppu.ticked_times(3 * n, nes.bus.cart),
        nes.devices_run(n as int).bus.apu.cycle_count == nes.bus.apu.cycle_count + n,
        nes.devices_run(n as int).bus.ram == nes.bus.ram,
        nes.devices_run(n as int).bus.cart == nes.bus.cart,
        nes.devices_run(n as int).cpu.cycles == nes.cpu.cycles,
        nes.devices_run(n as int).cpu.pc == nes.cpu.pc,
{
    reveal(NesModel::devices_run);
    reveal(NesModel::dots_passed);
    reveal(NesModel::sound_passed);
    reveal(NesModel::sample_fetched);
    reveal(NesModel::interrupt_raised);
    apu_laws::sequence_repeats(nes.bus.apu, n);
    assert((3 * n as int) as nat == 3 * n);
    let played = nes.dots_passed(3 * n).sound_passed(n);
    assert(played.bus.apu.wf());
    match played.bus.apu.dmc_read_pending {
        Some(addr) => {
            assert(played.bus.after_load(addr) == played.bus);
        },
        None => {},
    }
}

} // verus!
