//! What the pins, the config register and the data bus get to see of the panel calls.

use vstd::prelude::*;

use crate::display::DisplayModel;
use crate::ed047tc1;
use crate::ed047tc1::{ConfigRegister, PanelState, Stage};
use crate::error::Error;
use crate::hardware::{Action, BusSetup, CdEdges, Event, Level, Reply, Signal, Step};
use crate::laws;
use crate::pixels;
use crate::shown;
use crate::tasks::Call;

verus! {

/// What can be observed of a panel call.
pub enum Seen {
    /// The outputs of the config register change.
    Word(Seq<bool>),
    /// Any action that has nothing to do with the config register.
    Act(Action),
}

/// An observer of the hardware, with the LilyGo's config shift register as its three lines
/// see it: on a rising clock it takes a bit over; when the strobe rises, the last eight bits
/// become its outputs.
pub struct Receiver {
    /// Whether the clock line is high.
    pub clock: bool,
    /// Whether the data line is high.
    pub data: bool,
    /// The bits taken over so far.
    pub bits: Seq<bool>,
    /// What was observed so far.
    pub log: Seq<Seen>,
}

impl Receiver {
    /// What one action does to the register.
    pub open spec fn sees(self, action: Action) -> Self {
        match action {
            Action::SetPin(Signal::CfgData, level) => Receiver { data: level is High, ..self },
            Action::SetPin(Signal::CfgClk, level) => Receiver {
                clock: level is High,
                bits: if level is High && !self.clock {
                    self.bits.push(self.data)
                } else {
                    self.bits
                },
                ..self
            },
            Action::SetPin(Signal::CfgStr, Level::High) => Receiver {
                log: self.log.push(
                    Seen::Word(self.bits.subrange(self.bits.len() - 8, self.bits.len() as int)),
                ),
                ..self
            },
            Action::SetPin(Signal::CfgStr, Level::Low) => self,
            _ => Receiver { log: self.log.push(Seen::Act(action)), ..self },
        }
    }

    /// What several actions do to the register.
    pub open spec fn sees_all(self, actions: Seq<Action>) -> Self
        decreases actions.len(),
    {
        if actions.len() == 0 {
            self
        } else {
            self.sees(actions[0]).sees_all(actions.skip(1))
        }
    }
}

/// The outputs of the register that hold the control bits.
pub open spec fn word(c: ConfigRegister) -> Seq<bool> {
    seq![
        c.output_enable,
        c.mode,
        c.power_enable,
        c.stv,
        c.neg_power_enable,
        c.pos_power_enable,
        c.power_disable,
        c.latch_enable,
    ]
}

proof fn lemma_sees_joined(r: Receiver, a: Seq<Action>, b: Seq<Action>)
    ensures
        r.sees_all(a + b) == r.sees_all(a).sees_all(b),
    decreases a.len(),
{
    if a.len() == 0 {
        assert(a + b =~= b);
    } else {
        assert((a + b).skip(1) =~= a.skip(1) + b);
        lemma_sees_joined(r.sees(a[0]), a.skip(1), b);
    }
}

proof fn lemma_sees_one(r: Receiver, action: Action)
    ensures
        r.sees_all(seq![action]) == r.sees(action),
{
    assert(seq![action].skip(1) =~= seq![]);
    assert(r.sees(action).sees_all(seq![]) == r.sees(action));
}

proof fn lemma_sees_push(r: Receiver, a: Seq<Action>, action: Action)
    ensures
        r.sees_all(a.push(action)) == r.sees_all(a).sees(action),
{
    assert(a.push(action) =~= a + seq![action]);
    lemma_sees_joined(r, a, seq![action]);
    lemma_sees_one(r.sees_all(a), action);
}

proof fn lemma_sees_bit(r: Receiver, v: bool)
    ensures
        r.sees_all(ed047tc1::bit_out(v)) == (Receiver {
            clock: true,
            data: v,
            bits: r.bits.push(v),
            log: r.log,
        }),
{
    reveal(ed047tc1::bit_out);
    let low = Action::SetPin(Signal::CfgClk, Level::Low);
    let data = Action::SetPin(Signal::CfgData, ed047tc1::level(v));
    let high = Action::SetPin(Signal::CfgClk, Level::High);
    assert(ed047tc1::bit_out(v) =~= seq![low].push(data).push(high));
    lemma_sees_push(r, seq![low].push(data), high);
    lemma_sees_push(r, seq![low], data);
    lemma_sees_one(r, low);
}

/// Whatever was shifted in before, writing the register leaves the control bits at its
/// outputs, each at its own one, and in a single change of the outputs.
#[verifier::spinoff_prover]
pub proof fn law_register_receives_its_word(r: Receiver, c: ConfigRegister)
    ensures
        r.sees_all(c.shift_out()).log == r.log.push(Seen::Word(word(c))),
{
    reveal(ConfigRegister::shift_out);
    let strobe = Action::SetPin(Signal::CfgStr, Level::Low);
    let end = Action::SetPin(Signal::CfgStr, Level::High);
    let s0 = seq![strobe];
    let s4 = s0 + ed047tc1::bit_out(c.output_enable) + ed047tc1::bit_out(c.mode)
        + ed047tc1::bit_out(c.power_enable) + ed047tc1::bit_out(c.stv);
    let s8 = s4 + ed047tc1::bit_out(c.neg_power_enable) + ed047tc1::bit_out(c.pos_power_enable)
        + ed047tc1::bit_out(c.power_disable) + ed047tc1::bit_out(c.latch_enable);
    lemma_sees_one(r, strobe);
    lemma_sees_four_bits(r, s0, c.output_enable, c.mode, c.power_enable, c.stv);
    lemma_sees_four_bits(
        r,
        s4,
        c.neg_power_enable,
        c.pos_power_enable,
        c.power_disable,
        c.latch_enable,
    );
    lemma_sees_joined(r, s8, seq![end]);
    lemma_sees_one(r.sees_all(s8), end);
    let bits = r.sees_all(s8).bits;
    assert(bits.subrange(bits.len() - 8, bits.len() as int) =~= word(c));
}

/// Four bits in a row.
proof fn lemma_sees_four_bits(r: Receiver, s: Seq<Action>, a: bool, b: bool, c: bool, d: bool)
    ensures
        r.sees_all(
            s + ed047tc1::bit_out(a) + ed047tc1::bit_out(b) + ed047tc1::bit_out(c)
                + ed047tc1::bit_out(d),
        ) == (Receiver {
            clock: true,
            data: d,
            bits: r.sees_all(s).bits.push(a).push(b).push(c).push(d),
            log: r.sees_all(s).log,
        }),
{
    let s1 = s + ed047tc1::bit_out(a);
    let s2 = s1 + ed047tc1::bit_out(b);
    let s3 = s2 + ed047tc1::bit_out(c);
    lemma_sees_joined(r, s, ed047tc1::bit_out(a));
    lemma_sees_bit(r.sees_all(s), a);
    lemma_sees_joined(r, s1, ed047tc1::bit_out(b));
    lemma_sees_bit(r.sees_all(s1), b);
    lemma_sees_joined(r, s2, ed047tc1::bit_out(c));
    lemma_sees_bit(r.sees_all(s2), c);
    lemma_sees_joined(r, s3, ed047tc1::bit_out(d));
    lemma_sees_bit(r.sees_all(s3), d);
}

/// The action has nothing to do with the config register.
pub open spec fn plain(action: Action) -> bool {
    match action {
        Action::SetPin(signal, _) => !(signal is CfgData) && !(signal is CfgClk) && !(
        signal is CfgStr),
        _ => true,
    }
}

/// The observation of actions that have nothing to do with the config register.
pub open spec fn acts(actions: Seq<Action>) -> Seq<Seen> {
    Seq::new(actions.len(), |i: int| Seen::Act(actions[i]))
}

proof fn lemma_sees_plain(r: Receiver, actions: Seq<Action>)
    requires
        forall|i: int| 0 <= i < actions.len() ==> plain(#[trigger] actions[i]),
    ensures
        r.sees_all(actions) == (Receiver { log: r.log + acts(actions), ..r }),
    decreases actions.len(),
{
    if actions.len() == 0 {
        assert(r.log + acts(actions) =~= r.log);
    } else {
        let rest = actions.skip(1);
        assert(plain(actions[0]));
        let next = r.sees(actions[0]);
        assert(next == (Receiver { log: r.log.push(Seen::Act(actions[0])), ..r }));
        assert forall|i: int| 0 <= i < rest.len() implies plain(#[trigger] rest[i]) by {
            assert(rest[i] == actions[i + 1]);
        }
        lemma_sees_plain(next, rest);
        assert(r.log.push(Seen::Act(actions[0])) + acts(rest) =~= r.log + acts(actions));
    }
}

/// What is observed of a call that is carried out without a fault, from a reply of the panel
/// controller on. `cycles` are the readings of the cycle counter after each batch.
pub open spec fn observed(
    r: Receiver,
    state: PanelState,
    reply: Reply,
    cycles: Seq<u32>,
) -> Receiver
    decreases cycles.len(),
{
    match reply {
        Reply::Perform(actions) => if cycles.len() == 0 {
            r.sees_all(actions)
        } else {
            let (next, then) = state.after_done(cycles[0]);
            observed(r.sees_all(actions), next, then, cycles.skip(1))
        },
        _ => r,
    }
}

/// A batch is observed, and then what follows it.
proof fn lemma_observed(r: Receiver, state: PanelState, actions: Seq<Action>, cycles: Seq<u32>)
    requires
        cycles.len() > 0,
    ensures
        ({
            let (next, then) = state.after_done(cycles[0]);
            observed(r, state, Reply::Perform(actions), cycles) == observed(
                r.sees_all(actions),
                next,
                then,
                cycles.skip(1),
            )
        }),
{
}

/// What is observed of a call that is carried out without a fault, by an observer who has
/// seen nothing before.
pub open spec fn log_of(p: PanelState, call: Call, cycles: Seq<u32>) -> Seq<Seen> {
    let (begun, reply) = call.answered_by(p);
    observed(
        Receiver { clock: false, data: false, bits: seq![], log: seq![] },
        begun,
        reply,
        cycles,
    ).log
}

/// Turning the LilyGo's panel on, whatever its register holds: the supply, 100 µs later the
/// negative rail, 500 µs later the positive one, 100 µs later the start pulse line. (A
/// microsecond is 240 cycles.)
#[verifier::spinoff_prover]
pub proof fn law_power_on_sequence(p: PanelState, cycles: Seq<u32>)
    requires
        p.pins is LilyGoT5V23,
        cycles.len() > 0,
    ensures
        ({
            let c1 = ConfigRegister { power_enable: true, power_disable: false, ..p.config };
            let c2 = ConfigRegister { neg_power_enable: true, ..c1 };
            let c3 = ConfigRegister { pos_power_enable: true, ..c2 };
            let c4 = ConfigRegister { stv: true, ..c3 };
            log_of(p, Call::PowerOn, cycles) == seq![
                Seen::Word(word(c1)),
                Seen::Act(Action::Delay(24_000)),
                Seen::Word(word(c2)),
                Seen::Act(Action::Delay(120_000)),
                Seen::Word(word(c3)),
                Seen::Act(Action::Delay(24_000)),
                Seen::Word(word(c4)),
            ]
        }),
{
    let c1 = ConfigRegister { power_enable: true, power_disable: false, ..p.config };
    let c2 = ConfigRegister { neg_power_enable: true, ..c1 };
    let c3 = ConfigRegister { pos_power_enable: true, ..c2 };
    let c4 = ConfigRegister { stv: true, ..c3 };
    let r = Receiver { clock: false, data: false, bits: seq![], log: seq![] };
    let a1 = c1.shift_out().push(Action::Delay(24_000));
    let a2 = (a1 + c2.shift_out()).push(Action::Delay(120_000));
    let a3 = (a2 + c3.shift_out()).push(Action::Delay(24_000));
    lemma_sees_push(r, c1.shift_out(), Action::Delay(24_000));
    law_register_receives_its_word(r, c1);
    lemma_sees_push(r, a1 + c2.shift_out(), Action::Delay(120_000));
    lemma_sees_joined(r, a1, c2.shift_out());
    law_register_receives_its_word(r.sees_all(a1), c2);
    lemma_sees_push(r, a2 + c3.shift_out(), Action::Delay(24_000));
    lemma_sees_joined(r, a2, c3.shift_out());
    law_register_receives_its_word(r.sees_all(a2), c3);
    lemma_sees_joined(r, a3, c4.shift_out());
    law_register_receives_its_word(r.sees_all(a3), c4);
    reveal_with_fuel(observed, 2);
}

/// Turning the LilyGo's panel off, whatever its register holds: the positive rail, 10 µs
/// later the negative one, 100 µs later the supply, then the start pulse line.
#[verifier::spinoff_prover]
pub proof fn law_power_off_sequence(p: PanelState, cycles: Seq<u32>)
    requires
        p.pins is LilyGoT5V23,
        cycles.len() > 0,
    ensures
        ({
            let c1 = ConfigRegister { pos_power_enable: false, ..p.config };
            let c2 = ConfigRegister { neg_power_enable: false, ..c1 };
            let c3 = ConfigRegister { power_disable: true, ..c2 };
            let c4 = ConfigRegister { stv: false, ..c3 };
            log_of(p, Call::PowerOff, cycles) == seq![
                Seen::Word(word(c1)),
                Seen::Act(Action::Delay(2_400)),
                Seen::Word(word(c2)),
                Seen::Act(Action::Delay(24_000)),
                Seen::Word(word(c3)),
                Seen::Word(word(c4)),
            ]
        }),
{
    let c1 = ConfigRegister { pos_power_enable: false, ..p.config };
    let c2 = ConfigRegister { neg_power_enable: false, ..c1 };
    let c3 = ConfigRegister { power_disable: true, ..c2 };
    let c4 = ConfigRegister { stv: false, ..c3 };
    let r = Receiver { clock: false, data: false, bits: seq![], log: seq![] };
    let a1 = c1.shift_out().push(Action::Delay(2_400));
    let a2 = (a1 + c2.shift_out()).push(Action::Delay(24_000));
    let a3 = a2 + c3.shift_out();
    lemma_sees_push(r, c1.shift_out(), Action::Delay(2_400));
    law_register_receives_its_word(r, c1);
    lemma_sees_push(r, a1 + c2.shift_out(), Action::Delay(24_000));
    lemma_sees_joined(r, a1, c2.shift_out());
    law_register_receives_its_word(r.sees_all(a1), c2);
    lemma_sees_joined(r, a2, c3.shift_out());
    law_register_receives_its_word(r.sees_all(a2), c3);
    lemma_sees_joined(r, a3, c4.shift_out());
    law_register_receives_its_word(r.sees_all(a3), c4);
    reveal_with_fuel(observed, 2);
}

/// A batch that writes the register and then does one plain thing.
proof fn lemma_sees_write(r: Receiver, c: ConfigRegister, action: Action)
    requires
        plain(action),
    ensures
        r.sees_all(c.shift_out().push(action)).log == r.log.push(Seen::Word(word(c))).push(
            Seen::Act(action),
        ),
{
    lemma_sees_push(r, c.shift_out(), action);
    law_register_receives_its_word(r, c);
}

/// A batch that writes the register twice and then does one plain thing.
proof fn lemma_sees_writes(r: Receiver, a: ConfigRegister, b: ConfigRegister, action: Action)
    requires
        plain(action),
    ensures
        r.sees_all((a.shift_out() + b.shift_out()).push(action)).log == r.log.push(
            Seen::Word(word(a)),
        ).push(Seen::Word(word(b))).push(Seen::Act(action)),
{
    lemma_sees_push(r, a.shift_out() + b.shift_out(), action);
    lemma_sees_joined(r, a.shift_out(), b.shift_out());
    law_register_receives_its_word(r, a);
    law_register_receives_its_word(r.sees_all(a.shift_out()), b);
}

/// Starting a frame on the LilyGo, whatever its register holds.
#[verifier::spinoff_prover]
pub proof fn law_frame_start_sequence(p: PanelState, cycles: Seq<u32>)
    requires
        p.pins is LilyGoT5V23,
        cycles.len() >= 5,
    ensures
        ({
            let mode = ConfigRegister { mode: true, ..p.config };
            log_of(p, Call::FrameStart, cycles) == seq![
                Seen::Word(word(mode)),
                Seen::Act(Action::Pulse { high: 10, low: 10, wait: true }),
                Seen::Word(word(ConfigRegister { stv: false, ..mode })),
                Seen::Act(Action::Delay(240)),
                Seen::Act(Action::Pulse { high: 100, low: 100, wait: false }),
                Seen::Word(word(ConfigRegister { stv: true, ..mode })),
                Seen::Act(Action::ReclaimPulse),
                Seen::Act(Action::Pulse { high: 100, low: 0, wait: true }),
                Seen::Word(word(ConfigRegister { stv: true, output_enable: true, ..mode })),
                Seen::Act(Action::Pulse { high: 10, low: 10, wait: true }),
            ]
        }),
{
    let c1 = ConfigRegister { mode: true, ..p.config };
    let c2 = ConfigRegister { stv: false, ..c1 };
    let c3 = ConfigRegister { stv: true, ..c2 };
    let c4 = ConfigRegister { output_enable: true, ..c3 };
    lemma_frame_start_observed(p, cycles);
    lemma_frame_start_log(c1, c2, c3, c4);
}

/// What an observer has seen when a frame has started with these four register contents.
spec fn frame_started(
    c1: ConfigRegister,
    c2: ConfigRegister,
    c3: ConfigRegister,
    c4: ConfigRegister,
) -> Receiver {
    let brief = Action::Pulse { high: 10, low: 10, wait: true };
    let long = Action::Pulse { high: 100, low: 100, wait: false };
    let gap = Action::Pulse { high: 100, low: 0, wait: true };
    (Receiver { clock: false, data: false, bits: seq![], log: seq![] }).sees_all(
        c1.shift_out().push(brief),
    ).sees_all(c2.shift_out().push(Action::Delay(240)).push(long)).sees_all(
        c3.shift_out().push(Action::ReclaimPulse),
    ).sees_all(seq![gap]).sees_all(c4.shift_out().push(brief))
}

#[verifier::spinoff_prover]
proof fn lemma_frame_start_log(
    c1: ConfigRegister,
    c2: ConfigRegister,
    c3: ConfigRegister,
    c4: ConfigRegister,
)
    ensures
        frame_started(c1, c2, c3, c4).log == seq![
            Seen::Word(word(c1)),
            Seen::Act(Action::Pulse { high: 10, low: 10, wait: true }),
            Seen::Word(word(c2)),
            Seen::Act(Action::Delay(240)),
            Seen::Act(Action::Pulse { high: 100, low: 100, wait: false }),
            Seen::Word(word(c3)),
            Seen::Act(Action::ReclaimPulse),
            Seen::Act(Action::Pulse { high: 100, low: 0, wait: true }),
            Seen::Word(word(c4)),
            Seen::Act(Action::Pulse { high: 10, low: 10, wait: true }),
        ],
{
    let brief = Action::Pulse { high: 10, low: 10, wait: true };
    let long = Action::Pulse { high: 100, low: 100, wait: false };
    let gap = Action::Pulse { high: 100, low: 0, wait: true };
    let r0 = Receiver { clock: false, data: false, bits: seq![], log: seq![] };
    let r1 = r0.sees_all(c1.shift_out().push(brief));
    let r2 = r1.sees_all(c2.shift_out().push(Action::Delay(240)).push(long));
    let r3 = r2.sees_all(c3.shift_out().push(Action::ReclaimPulse));
    let r4 = r3.sees_all(seq![gap]);
    lemma_sees_write(r0, c1, brief);
    lemma_sees_push(r1, c2.shift_out().push(Action::Delay(240)), long);
    lemma_sees_write(r1, c2, Action::Delay(240));
    lemma_sees_write(r2, c3, Action::ReclaimPulse);
    lemma_sees_one(r3, gap);
    lemma_sees_write(r4, c4, brief);
}

#[verifier::spinoff_prover]
proof fn lemma_frame_start_observed(p: PanelState, cycles: Seq<u32>)
    requires
        p.pins is LilyGoT5V23,
        cycles.len() >= 5,
    ensures
        ({
            let c1 = ConfigRegister { mode: true, ..p.config };
            let c2 = ConfigRegister { stv: false, ..c1 };
            let c3 = ConfigRegister { stv: true, ..c2 };
            let c4 = ConfigRegister { output_enable: true, ..c3 };
            log_of(p, Call::FrameStart, cycles) == frame_started(c1, c2, c3, c4).log
        }),
{
    let c1 = ConfigRegister { mode: true, ..p.config };
    let c2 = ConfigRegister { stv: false, ..c1 };
    let c3 = ConfigRegister { stv: true, ..c2 };
    let c4 = ConfigRegister { output_enable: true, ..c3 };
    let a1 = c1.shift_out().push(Action::Pulse { high: 10, low: 10, wait: true });
    let a2 = c2.shift_out().push(Action::Delay(240)).push(
        Action::Pulse { high: 100, low: 100, wait: false },
    );
    let a3 = c3.shift_out().push(Action::ReclaimPulse);
    let a4 = seq![Action::Pulse { high: 100, low: 0, wait: true }];
    let a5 = c4.shift_out().push(Action::Pulse { high: 10, low: 10, wait: true });
    let r0 = Receiver { clock: false, data: false, bits: seq![], log: seq![] };
    let r1 = r0.sees_all(a1);
    let r2 = r1.sees_all(a2);
    let r3 = r2.sees_all(a3);
    let r4 = r3.sees_all(a4);
    let s1 = p.with_config(c1).at(Stage::FrameMode);
    let s2 = p.with_config(c2).at(Stage::FrameStv);
    let s3 = p.with_config(c3).at(Stage::FrameReclaim);
    let s4 = p.with_config(c3).at(Stage::FrameGap);
    let s5 = p.with_config(c4).at(Stage::LastPulse);
    let t1 = cycles.skip(1);
    let t2 = t1.skip(1);
    let t3 = t2.skip(1);
    let t4 = t3.skip(1);
    assert(Call::FrameStart.answered_by(p) == (s1, Reply::Perform(a1)));
    assert(s1.after_done(cycles[0]) == (s2, Reply::Perform(a2)));
    assert(s2.after_done(t1[0]) == (s3, Reply::Perform(a3)));
    assert(s3.after_done(t2[0]) == (s4, Reply::Perform(a4)));
    assert(s4.after_done(t3[0]) == (s5, Reply::Perform(a5)));
    assert(s5.after_done(t4[0]).1 is Completed);
    lemma_observed(r0, s1, a1, cycles);
    lemma_observed(r1, s2, a2, t1);
    lemma_observed(r2, s3, a3, t2);
    lemma_observed(r3, s4, a4, t3);
    lemma_observed(r4, s5, a5, t4);
}

/// Ending a frame on the LilyGo, whatever its register holds: the outputs are disabled
/// before the mode changes.
#[verifier::spinoff_prover]
pub proof fn law_frame_end_sequence(p: PanelState, cycles: Seq<u32>)
    requires
        p.pins is LilyGoT5V23,
        cycles.len() >= 2,
    ensures
        ({
            let c = ConfigRegister { output_enable: false, ..p.config };
            log_of(p, Call::FrameEnd, cycles) == seq![
                Seen::Word(word(c)),
                Seen::Word(word(ConfigRegister { mode: false, ..c })),
                Seen::Act(Action::Pulse { high: 10, low: 10, wait: true }),
                Seen::Act(Action::Pulse { high: 10, low: 10, wait: true }),
            ]
        }),
{
    let c1 = ConfigRegister { output_enable: false, ..p.config };
    let c2 = ConfigRegister { mode: false, ..c1 };
    let brief = Action::Pulse { high: 10, low: 10, wait: true };
    let r0 = Receiver { clock: false, data: false, bits: seq![], log: seq![] };
    let r1 = r0.sees_all((c1.shift_out() + c2.shift_out()).push(brief));
    let r2 = r1.sees_all(seq![brief]);
    lemma_sees_writes(r0, c1, c2, brief);
    lemma_sees_one(r1, brief);
    reveal_with_fuel(observed, 3);
    assert(log_of(p, Call::FrameEnd, cycles) == r2.log);
}

/// A row on the LilyGo, whatever its register holds: the latch is pulsed, then the clock
/// pulse of the whole dwell begins, and while it lasts the scanline is sent. (Without a
/// dwell, the pulse has the length of the gap that follows otherwise.)
#[verifier::spinoff_prover]
pub proof fn law_row_sequence(p: PanelState, dwell: u16, cycles: Seq<u32>)
    requires
        p.pins is LilyGoT5V23,
        p.bus,
        cycles.len() >= 4,
    ensures
        log_of(p, Call::OutputRow(dwell), cycles) == seq![
            Seen::Word(word(ConfigRegister { latch_enable: true, ..p.config })),
            Seen::Word(word(ConfigRegister { latch_enable: false, ..p.config })),
            Seen::Act(
                if dwell > 0 {
                    Action::Pulse { high: dwell, low: 50, wait: false }
                } else {
                    Action::Pulse { high: 50, low: 0, wait: false }
                },
            ),
            Seen::Act(Action::StartTransfer { command: Some(0) }),
            Seen::Act(Action::FinishTransfer),
            Seen::Act(Action::ReclaimPulse),
        ],
{
    let c1 = ConfigRegister { latch_enable: true, ..p.config };
    let c2 = ConfigRegister { latch_enable: false, ..p.config };
    let pulse = if dwell > 0 {
        Action::Pulse { high: dwell, low: 50, wait: false }
    } else {
        Action::Pulse { high: 50, low: 0, wait: false }
    };
    let start = Action::StartTransfer { command: Some(0) };
    let r0 = Receiver { clock: false, data: false, bits: seq![], log: seq![] };
    let r1 = r0.sees_all((c1.shift_out() + c2.shift_out()).push(pulse));
    let r2 = r1.sees_all(seq![start]);
    let r3 = r2.sees_all(seq![Action::FinishTransfer]);
    let r4 = r3.sees_all(seq![Action::ReclaimPulse]);
    lemma_sees_writes(r0, c1, c2, pulse);
    lemma_sees_one(r1, start);
    lemma_sees_one(r2, Action::FinishTransfer);
    lemma_sees_one(r3, Action::ReclaimPulse);
    reveal_with_fuel(observed, 5);
    assert(log_of(p, Call::OutputRow(dwell), cycles) == r4.log);
}

/// Bringing the LilyGo up: a DMA buffer, the bus on its pins (the data lines are swizzled on
/// the board), the register's lines on theirs, the register's first word, and the vertical
/// clock on its pin.
#[verifier::spinoff_prover]
pub proof fn law_lilygo_bring_up_sequence(p: PanelState, cycles: Seq<u32>)
    requires
        p.pins is LilyGoT5V23,
        cycles.len() >= 3,
    ensures
        ({
            let pins = p.pins->LilyGoT5V23_0;
            log_of(p, Call::BringUp, cycles) == seq![
                Seen::Act(Action::AllocateLine(248)),
                Seen::Act(
                    Action::OpenBus(
                        BusSetup {
                            frequency_mhz: 10,
                            cd_edges: Some(
                                CdEdges { idle: false, cmd: true, dummy: false, data: false },
                            ),
                            dc: Some(pins.lcd_dc),
                            cs: None,
                            wrx: pins.lcd_wrx,
                            data0: pins.data6,
                            data1: pins.data7,
                            data2: pins.data4,
                            data3: pins.data5,
                            data4: pins.data2,
                            data5: pins.data3,
                            data6: pins.data0,
                            data7: pins.data1,
                        },
                    ),
                ),
                Seen::Act(
                    Action::OpenPin {
                        signal: Signal::CfgData,
                        gpio: pins.cfg_data,
                        level: Level::High,
                    },
                ),
                Seen::Act(
                    Action::OpenPin {
                        signal: Signal::CfgClk,
                        gpio: pins.cfg_clk,
                        level: Level::High,
                    },
                ),
                Seen::Act(
                    Action::OpenPin {
                        signal: Signal::CfgStr,
                        gpio: pins.cfg_str,
                        level: Level::Low,
                    },
                ),
                Seen::Word(word(p.config)),
                Seen::Act(Action::OpenPulse { gpio: pins.rmt }),
            ]
        }),
{
    let pins = p.pins->LilyGoT5V23_0;
    let allocate = Action::AllocateLine(248);
    let open = Action::OpenBus(p.pins.bus_setup());
    let lines = seq![
        Action::OpenPin { signal: Signal::CfgData, gpio: pins.cfg_data, level: Level::High },
        Action::OpenPin { signal: Signal::CfgClk, gpio: pins.cfg_clk, level: Level::High },
        Action::OpenPin { signal: Signal::CfgStr, gpio: pins.cfg_str, level: Level::Low },
    ];
    let pulse = Action::OpenPulse { gpio: pins.rmt };
    let r0 = Receiver { clock: false, data: false, bits: seq![], log: seq![] };
    let r1 = r0.sees_all(seq![allocate]);
    let r2 = r1.sees_all(seq![open]);
    let r3 = r2.sees_all((lines + p.config.shift_out()).push(pulse));
    lemma_sees_one(r0, allocate);
    lemma_sees_one(r1, open);
    lemma_sees_push(r2, lines + p.config.shift_out(), pulse);
    lemma_sees_joined(r2, lines, p.config.shift_out());
    lemma_sees_plain(r2, lines);
    law_register_receives_its_word(r2.sees_all(lines), p.config);
    reveal_with_fuel(observed, 4);
    assert(log_of(p, Call::BringUp, cycles) == r3.log);
}

/// The M5PaperS3's power sequences. (A microsecond is 240 cycles.)
#[verifier::spinoff_prover]
pub proof fn law_papers3_power_sequences(p: PanelState, cycles: Seq<u32>)
    requires
        p.pins is M5PaperS3,
        cycles.len() > 0,
    ensures
        log_of(p, Call::PowerOn, cycles) == acts(
            seq![
                Action::SetPin(Signal::Oe, Level::High),
                Action::Delay(24_000),
                Action::SetPin(Signal::Pwr, Level::High),
                Action::Delay(24_000),
                Action::SetPin(Signal::Spv, Level::High),
                Action::Delay(240_000),
            ],
        ),
        log_of(p, Call::PowerOff, cycles) == acts(
            seq![
                Action::Delay(240_000),
                Action::SetPin(Signal::Pwr, Level::Low),
                Action::Delay(2_400),
                Action::SetPin(Signal::Oe, Level::Low),
                Action::Delay(24_000),
                Action::SetPin(Signal::Spv, Level::Low),
            ],
        ),
{
    let r = Receiver { clock: false, data: false, bits: seq![], log: seq![] };
    lemma_sees_plain(r, Call::PowerOn.answered_by(p).1->Perform_0);
    lemma_sees_plain(r, Call::PowerOff.answered_by(p).1->Perform_0);
    reveal_with_fuel(observed, 2);
    assert(r.log + acts(Call::PowerOn.answered_by(p).1->Perform_0) =~= acts(
        Call::PowerOn.answered_by(p).1->Perform_0,
    ));
    assert(r.log + acts(Call::PowerOff.answered_by(p).1->Perform_0) =~= acts(
        Call::PowerOff.answered_by(p).1->Perform_0,
    ));
}

/// Starting and ending a frame on the M5PaperS3: the start pulse lies around one vertical
/// clock pulse; three more clock pulses follow.
#[verifier::spinoff_prover]
pub proof fn law_papers3_frame_sequences(p: PanelState, cycles: Seq<u32>)
    requires
        p.pins is M5PaperS3,
        cycles.len() > 0,
    ensures
        log_of(p, Call::FrameStart, cycles) == acts(
            seq![
                Action::SetPin(Signal::Le, Level::Low),
                Action::SetPin(Signal::Spv, Level::Low),
                Action::Delay(240),
                Action::SetPin(Signal::Ckv, Level::Low),
                Action::Delay(720),
                Action::SetPin(Signal::Ckv, Level::High),
                Action::Delay(240),
                Action::SetPin(Signal::Spv, Level::High),
                Action::Delay(720),
                Action::SetPin(Signal::Ckv, Level::Low),
                Action::Delay(720),
                Action::SetPin(Signal::Ckv, Level::High),
                Action::Delay(720),
                Action::SetPin(Signal::Ckv, Level::Low),
                Action::Delay(720),
                Action::SetPin(Signal::Ckv, Level::High),
                Action::Delay(720),
                Action::SetPin(Signal::Ckv, Level::Low),
                Action::Delay(720),
                Action::SetPin(Signal::Ckv, Level::High),
            ],
        ),
        log_of(p, Call::FrameEnd, cycles) == acts(
            seq![Action::SetPin(Signal::Le, Level::Low), Action::SetPin(Signal::Ckv, Level::High)],
        ),
{
    let r = Receiver { clock: false, data: false, bits: seq![], log: seq![] };
    let start = Call::FrameStart.answered_by(p).1->Perform_0;
    let end = Call::FrameEnd.answered_by(p).1->Perform_0;
    lemma_sees_plain(r, start);
    lemma_sees_plain(r, end);
    reveal_with_fuel(observed, 2);
    assert(log_of(p, Call::FrameStart, cycles) =~= acts(start));
    assert(log_of(p, Call::FrameEnd, cycles) =~= acts(end));
    assert(start =~= seq![
        Action::SetPin(Signal::Le, Level::Low),
        Action::SetPin(Signal::Spv, Level::Low),
        Action::Delay(240),
        Action::SetPin(Signal::Ckv, Level::Low),
        Action::Delay(720),
        Action::SetPin(Signal::Ckv, Level::High),
        Action::Delay(240),
        Action::SetPin(Signal::Spv, Level::High),
        Action::Delay(720),
        Action::SetPin(Signal::Ckv, Level::Low),
        Action::Delay(720),
        Action::SetPin(Signal::Ckv, Level::High),
        Action::Delay(720),
        Action::SetPin(Signal::Ckv, Level::Low),
        Action::Delay(720),
        Action::SetPin(Signal::Ckv, Level::High),
        Action::Delay(720),
        Action::SetPin(Signal::Ckv, Level::Low),
        Action::Delay(720),
        Action::SetPin(Signal::Ckv, Level::High),
    ]);
}

/// A row on the M5PaperS3: the scanline is sent with the vertical clock high, and the clock
/// stays high until `dwell` ticks of 24 cycles have gone by since it rose, as the 32-bit
/// cycle counter tells.
#[verifier::spinoff_prover]
pub proof fn law_papers3_row_sequence(p: PanelState, dwell: u16, cycles: Seq<u32>)
    requires
        p.pins is M5PaperS3,
        p.bus,
        cycles.len() >= 4,
    ensures
        ({
            let elapsed = (cycles[2] - cycles[0]) % 0x1_0000_0000;
            log_of(p, Call::OutputRow(dwell), cycles) == acts(
                seq![
                    Action::SetPin(Signal::Le, Level::Low),
                    Action::SetPin(Signal::Ckv, Level::High),
                    Action::StartTransfer { command: None },
                    Action::FinishTransfer,
                ] + (if elapsed < 24 * dwell {
                    seq![Action::Delay((24 * dwell - elapsed) as u32)]
                } else {
                    seq![]
                }) + seq![
                    Action::SetPin(Signal::Ckv, Level::Low),
                    Action::SetPin(Signal::Le, Level::High),
                ],
            )
        }),
{
    let elapsed = (cycles[2] - cycles[0]) % 0x1_0000_0000;
    let begin = seq![
        Action::SetPin(Signal::Le, Level::Low),
        Action::SetPin(Signal::Ckv, Level::High),
    ];
    let start = Action::StartTransfer { command: None };
    let end = (if elapsed < 24 * dwell {
        seq![Action::Delay((24 * dwell - elapsed) as u32)]
    } else {
        seq![]
    }) + seq![Action::SetPin(Signal::Ckv, Level::Low), Action::SetPin(Signal::Le, Level::High)];
    let r0 = Receiver { clock: false, data: false, bits: seq![], log: seq![] };
    let r1 = r0.sees_all(begin);
    let r2 = r1.sees_all(seq![start]);
    let r3 = r2.sees_all(seq![Action::FinishTransfer]);
    let r4 = r3.sees_all(end);
    lemma_sees_plain(r0, begin);
    lemma_sees_one(r1, start);
    lemma_sees_one(r2, Action::FinishTransfer);
    lemma_sees_plain(r3, end);
    let s1 = Call::OutputRow(dwell).answered_by(p).0;
    let s2 = s1.after_done(cycles[0]).0;
    let s3 = s2.after_done(cycles[1]).0;
    assert(s3.after_done(cycles[2]).1->Perform_0 =~= end);
    reveal_with_fuel(observed, 5);
    assert(log_of(p, Call::OutputRow(dwell), cycles) == r4.log);
    assert(r4.log =~= acts(
        seq![
            Action::SetPin(Signal::Le, Level::Low),
            Action::SetPin(Signal::Ckv, Level::High),
            Action::StartTransfer { command: None },
            Action::FinishTransfer,
        ] + (if elapsed < 24 * dwell {
            seq![Action::Delay((24 * dwell - elapsed) as u32)]
        } else {
            seq![]
        }) + seq![
            Action::SetPin(Signal::Ckv, Level::Low),
            Action::SetPin(Signal::Le, Level::High),
        ],
    ));
}

/// Bringing the M5PaperS3 up: a DMA buffer, the bus on its pins (the start pulse of a line
/// takes the place of the chip select), and the control lines on theirs.
#[verifier::spinoff_prover]
pub proof fn law_papers3_bring_up_sequence(p: PanelState, cycles: Seq<u32>)
    requires
        p.pins is M5PaperS3,
        cycles.len() >= 3,
    ensures
        ({
            let pins = p.pins->M5PaperS3_0;
            log_of(p, Call::BringUp, cycles) == acts(
                seq![
                    Action::AllocateLine(248),
                    Action::OpenBus(
                        BusSetup {
                            frequency_mhz: 20,
                            cd_edges: None,
                            dc: None,
                            cs: Some(pins.sph),
                            wrx: pins.cl,
                            data0: pins.data0,
                            data1: pins.data1,
                            data2: pins.data2,
                            data3: pins.data3,
                            data4: pins.data4,
                            data5: pins.data5,
                            data6: pins.data6,
                            data7: pins.data7,
                        },
                    ),
                    Action::OpenPin { signal: Signal::Pwr, gpio: pins.pwr, level: Level::Low },
                    Action::OpenPin { signal: Signal::Spv, gpio: pins.spv, level: Level::Low },
                    Action::OpenPin { signal: Signal::Oe, gpio: pins.oe, level: Level::Low },
                    Action::OpenPin { signal: Signal::Le, gpio: pins.le, level: Level::High },
                    Action::OpenPin { signal: Signal::Ckv, gpio: pins.ckv, level: Level::High },
                ],
            )
        }),
{
    let pins = p.pins->M5PaperS3_0;
    let allocate = Action::AllocateLine(248);
    let open = Action::OpenBus(p.pins.bus_setup());
    let lines = p.pin_setup();
    let r0 = Receiver { clock: false, data: false, bits: seq![], log: seq![] };
    let r1 = r0.sees_all(seq![allocate]);
    let r2 = r1.sees_all(seq![open]);
    let r3 = r2.sees_all(lines);
    lemma_sees_one(r0, allocate);
    lemma_sees_one(r1, open);
    lemma_sees_plain(r2, lines);
    reveal_with_fuel(observed, 4);
    assert(log_of(p, Call::BringUp, cycles) == r3.log);
    assert(r3.log =~= acts(seq![allocate, open] + lines));
    assert(seq![allocate, open] + lines =~= seq![
        allocate,
        open,
        Action::OpenPin { signal: Signal::Pwr, gpio: pins.pwr, level: Level::Low },
        Action::OpenPin { signal: Signal::Spv, gpio: pins.spv, level: Level::Low },
        Action::OpenPin { signal: Signal::Oe, gpio: pins.oe, level: Level::Low },
        Action::OpenPin { signal: Signal::Le, gpio: pins.le, level: Level::High },
        Action::OpenPin { signal: Signal::Ckv, gpio: pins.ckv, level: Level::High },
    ]);
}

/// On both boards, pauses are single waits, and a scanline is loaded in one go.
#[verifier::spinoff_prover]
pub proof fn law_single_actions(p: PanelState, time: u32, line: Seq<u8>)
    ensures
        Call::DelayMicros(time).answered_by(p).1 == Reply::Perform(seq![Action::DelayMicros(time)]),
        Call::DelayMillis(time).answered_by(p).1 == Reply::Perform(seq![Action::DelayMillis(time)]),
        line.len() <= 240 && p.bus ==> Call::SetBuffer(line).answered_by(p).1 == Reply::Perform(
            seq![Action::LoadLine],
        ),
        line.len() > 240 ==> Call::SetBuffer(line).answered_by(p) == (
            p,
            Reply::Failed(Error::OutOfBounds),
        ),
{
}

/// A bare clock pulse, on both boards. It is the whole of the call, and leaves the panel
/// controller as it was.
#[verifier::spinoff_prover]
pub proof fn law_skip_sequence(p: PanelState, cycles: u32)
    ensures
        p.skipping().0.after_done(cycles) == (
            PanelState { stage: Stage::Ready, ..p },
            Reply::Completed,
        ),
        p.pins is LilyGoT5V23 ==> p.skipping().1 == Reply::Perform(
            seq![Action::Pulse { high: 45, low: 5, wait: false }],
        ),
        p.pins is M5PaperS3 ==> p.skipping().1 == Reply::Perform(
            seq![
                Action::SetPin(Signal::Le, Level::Low),
                Action::SetPin(Signal::Ckv, Level::High),
                Action::Delay(1_080),
                Action::SetPin(Signal::Ckv, Level::Low),
                Action::SetPin(Signal::Le, Level::High),
            ],
        ),
{
}

/// When the next call of an operation loads a scanline, the line buffer gets its pixels: in
/// their order on the LilyGo, in the opposite order within each byte on the M5PaperS3. What
/// is beyond the scanline's data is zero.
#[verifier::spinoff_prover]
pub proof fn law_line_buffer_gets_the_pixels(m: DisplayModel, event: Event, x: int)
    requires
        m.panel.resumed(event).1 is Completed,
        m.panel.resumed(event).0.bus,
        m.pending.len() > 0,
        m.pending[0] matches Call::SetBuffer(data) && data.len() <= 240,
        0 <= x < 960,
    ensures
        ({
            let data = m.pending[0]->SetBuffer_0;
            let (next, reply) = m.stepped(event);
            &&& reply == Reply::Perform(seq![Action::LoadLine])
            &&& m.panel.pins is LilyGoT5V23 ==> next.line.len() == 240
            &&& m.panel.pins is M5PaperS3 ==> next.line.len() == 248
            &&& x / 4 < data.len() && m.panel.pins is LilyGoT5V23 ==> shown::bits_at(next.line, x)
                == shown::bits_at(data, x)
            &&& x / 4 < data.len() && m.panel.pins is M5PaperS3 ==> shown::bits_at(
                next.line,
                4 * (x / 4) + 3 - x % 4,
            ) == shown::bits_at(data, x)
            &&& forall|b: int|
                data.len() <= b < next.line.len() ==> #[trigger] next.line[b] == 0
        }),
{
    let data = m.pending[0]->SetBuffer_0;
    let b = x / 4;
    if b < data.len() {
        pixels::lemma_pack_of_slots(data[b]);
        pixels::lemma_slot_of_pack(
            pixels::slot(data[b], 3),
            pixels::slot(data[b], 2),
            pixels::slot(data[b], 1),
            pixels::slot(data[b], 0),
        );
        let back = 4 * b + 3 - x % 4;
        assert(back / 4 == b && back % 4 == 3 - x % 4);
    }
    assert(m.panel.resumed(event).0.pins == m.panel.pins);
}

/// When a call is completed, the next one is made, as it stands, and nothing else changes.
/// When there is no next one, the operation is completed.
#[verifier::spinoff_prover]
pub proof fn law_step_makes_the_next_call(m: DisplayModel, event: Event)
    requires
        m.panel.resumed(event).1 is Completed,
    ensures
        ({
            let (next, reply) = m.stepped(event);
            let (panel, answer) = m.pending[0].answered_by(m.panel.resumed(event).0);
            &&& m.pending.len() == 0 ==> reply is Completed
            &&& m.pending.len() > 0 ==> {
                &&& reply == answer
                &&& next.panel == panel
                &&& next.framebuffer == m.framebuffer && next.fb2 == m.fb2 && next.prev2 == m.prev2
                &&& next.rotation == m.rotation
                &&& !(reply is Failed) ==> next.pending == m.pending.skip(1) && next.after
                    == m.after
                &&& reply is Failed ==> next.pending.len() == 0
                &&& !(m.pending[0] is SetBuffer) ==> next.line == m.line
            }
        }),
{
}

/// The error of an action that can fail.
pub open spec fn error_of(action: Action) -> Error {
    match action {
        Action::AllocateLine(_) => Error::DmaBuffer,
        Action::OpenBus(_) => Error::I8080Config,
        Action::Pulse { .. } | Action::ReclaimPulse => Error::Rmt,
        Action::StartTransfer { .. } | Action::FinishTransfer => Error::Dma,
        _ => Error::Unknown,
    }
}

/// The controller is where it says what a failure of the last action of its batch is: the
/// error is that action's own. Only a transfer that fails on the LilyGo first waits for the
/// clock pulse, and is then reported, unless that wait fails, too.
pub open spec fn failure_is_named(state: PanelState, actions: Seq<Action>) -> bool {
    if state.stage is RowWait && state.pins is LilyGoT5V23 {
        let (next, reply) = state.after_failure();
        &&& reply == Reply::Perform(seq![Action::ReclaimPulse])
        &&& forall|cycles: u32| (#[trigger] next.after_done(cycles)).1 == Reply::Failed(Error::Dma)
        &&& next.after_failure().1 == Reply::Failed(Error::Rmt)
    } else {
        state.after_failure().1 == Reply::Failed(error_of(actions.last()))
    }
}

/// Writing the register ends with the strobe.
proof fn lemma_write_ends(c: ConfigRegister)
    ensures
        c.shift_out().len() > 0,
        c.shift_out().last() == Action::SetPin(Signal::CfgStr, Level::High),
{
    reveal(ConfigRegister::shift_out);
}

/// A failure in the first batch of a call is reported as what failed.
#[verifier::spinoff_prover]
pub proof fn law_first_failures_are_named(p: PanelState, call: Call)
    ensures
        call.answered_by(p).1 matches Reply::Perform(actions) ==> failure_is_named(
            call.answered_by(p).0,
            actions,
        ),
{
    match call {
        Call::PowerOn | Call::PowerOff => lemma_power_failures(p, call),
        _ => {},
    }
}

/// The power sequences end with writing the register, or with a plain action.
proof fn lemma_power_failures(p: PanelState, call: Call)
    requires
        call is PowerOn || call is PowerOff,
    ensures
        failure_is_named(call.answered_by(p).0, call.answered_by(p).1->Perform_0),
{
    let actions = call.answered_by(p).1->Perform_0;
    let c = call.answered_by(p).0.config;
    lemma_write_ends(c);
    if p.pins is LilyGoT5V23 {
        assert(actions.last() == c.shift_out().last());
    }
}

/// A failure in a later batch is reported as what failed.
#[verifier::spinoff_prover]
pub proof fn law_later_failures_are_named(p: PanelState, cycles: u32)
    ensures
        p.after_done(cycles).1 matches Reply::Perform(actions) ==> failure_is_named(
            p.after_done(cycles).0,
            actions,
        ),
{
}

/// A failure changes neither the register nor where the bus is, and ends the call; only a
/// failed transfer on the LilyGo has the clock pulse waited for first.
#[verifier::spinoff_prover]
pub proof fn law_failures_keep_register_and_bus(p: PanelState)
    ensures
        ({
            let next = p.after_failure().0;
            &&& next.pins == p.pins
            &&& next.config == p.config
            &&& next.bus == p.bus
            &&& next.stage == Stage::Ready || (p.stage is RowWait && p.pins is LilyGoT5V23
                && next.stage == (Stage::RowReclaim { sent: false }))
        }),
{
}

/// The bus is at hand once it has been opened, is away while a transfer runs, and is back
/// when the transfer is over. No other batch has anything to do with it, and no call ever
/// changes the pins.
#[verifier::spinoff_prover]
pub proof fn law_bus_is_away_during_transfers(p: PanelState, call: Call, cycles: u32)
    ensures
        call.answered_by(p).0.bus == p.bus,
        call.answered_by(p).0.pins == p.pins,
        p.after_done(cycles).0.pins == p.pins,
        p.after_done(cycles).0.bus == (match p.stage {
            Stage::OpeningBus => true,
            Stage::RowSend { .. } => false,
            Stage::RowWait { .. } => p.pins is M5PaperS3 || p.bus,
            Stage::RowReclaim { sent } => sent || p.bus,
            _ => p.bus,
        }),
{
}

/// Bringing the hardware up, turning the panel on or off, pausing and loading take the panel
/// controller back to where it was ready before. Bringing up gives it the bus; on the LilyGo
/// the power sequences leave the register as they have written it last.
#[verifier::spinoff_prover]
pub proof fn law_calls_return_to_ready(p: PanelState, time: u32, line: Seq<u8>, cycles: Seq<u32>)
    requires
        cycles.len() >= 3,
    ensures
        ({
            let ready = PanelState { stage: Stage::Ready, ..p };
            let on = ConfigRegister {
                power_enable: true,
                power_disable: false,
                neg_power_enable: true,
                pos_power_enable: true,
                stv: true,
                ..p.config
            };
            let off = ConfigRegister {
                pos_power_enable: false,
                neg_power_enable: false,
                power_disable: true,
                stv: false,
                ..p.config
            };
            &&& laws::panel_run(Call::BringUp.answered_by(p).0, cycles) == (
                PanelState { bus: true, ..ready },
                Reply::Completed,
            )
            &&& laws::panel_run(Call::PowerOn.answered_by(p).0, cycles) == (
                if p.pins is LilyGoT5V23 {
                    PanelState { config: on, ..ready }
                } else {
                    ready
                },
                Reply::Completed,
            )
            &&& laws::panel_run(Call::PowerOff.answered_by(p).0, cycles) == (
                if p.pins is LilyGoT5V23 {
                    PanelState { config: off, ..ready }
                } else {
                    ready
                },
                Reply::Completed,
            )
            &&& laws::panel_run(Call::DelayMicros(time).answered_by(p).0, cycles) == (
                ready,
                Reply::Completed,
            )
            &&& laws::panel_run(Call::DelayMillis(time).answered_by(p).0, cycles) == (
                ready,
                Reply::Completed,
            )
            &&& line.len() <= 240 && p.bus ==> laws::panel_run(
                Call::SetBuffer(line).answered_by(p).0,
                cycles,
            ) == (ready, Reply::Completed)
        }),
{
    reveal_with_fuel(laws::panel_run, 4);
}

/// As long as a call has more batches, the display hands them out as they are and changes
/// nothing else; a call that fails ends the operation with its error, and with every frame
/// as it was.
#[verifier::spinoff_prover]
pub proof fn law_step_follows_the_panel(m: DisplayModel, event: Event)
    requires
        !(m.panel.resumed(event).1 is Completed),
    ensures
        ({
            let (next, reply) = m.stepped(event);
            let (panel, answer) = m.panel.resumed(event);
            &&& reply == answer
            &&& next.panel == panel
            &&& next.line == m.line
            &&& next.framebuffer == m.framebuffer && next.fb2 == m.fb2 && next.prev2 == m.prev2
            &&& next.rotation == m.rotation
            &&& reply is Perform ==> next.pending == m.pending && next.after == m.after
            &&& reply is Failed ==> next.idle()
        }),
{
}

/// An event is taken for what it is.
#[verifier::spinoff_prover]
pub proof fn law_events(p: PanelState, cycles: u32)
    ensures
        p.resumed(Event::Done { cycles }) == p.after_done(cycles),
        p.resumed(Event::Failed) == p.after_failure(),
{
}

/// Steps that look alike are alike: they ask for the same actions, or end alike.
#[verifier::spinoff_prover]
pub proof fn law_steps_are_what_they_look(a: Step, b: Step)
    requires
        a@ == b@,
    ensures
        a is Completed == b is Completed,
        a matches Step::Failed(e) ==> b == Step::Failed(e),
        a matches Step::Perform(actions) ==> (b matches Step::Perform(others) && actions@
            == others@),
        a@ matches Reply::Perform(actions) ==> (a matches Step::Perform(v) && v@ == actions),
{
}

} // verus!
