use vstd::prelude::*;

use crate::apps::{err_of, App, AppOp};
use crate::buttons::Buttons;
use crate::caps::{PixelSurface, TimeSource};
use crate::errors::AppError;

verus! {

/// Where the overlay's text line sits on the surface.
pub const OVERLAY_X: i32 = 5;

/// Where the overlay's text line sits on the surface.
pub const OVERLAY_Y: i32 = 15;

/// The frame rate that a gap of `delta` ticks between two recorded instants
/// means, rounded to the nearest whole number (half rounds up), for a clock
/// that counts `ticks_per_second` ticks per second.
pub open spec fn spec_frame_rate(delta: u64, ticks_per_second: u64) -> int
    recommends
        delta > 0,
{
    (ticks_per_second + delta as int / 2) / delta as int
}

/// Frames per second from the tick gap between two recorded instants:
/// `1 / (delta * seconds_per_tick)`, rounded to the nearest whole number.
/// Two draws within one clock tick give a gap of zero; the explicit policy
/// for that edge is to report no rate for the frame rather than divide by
/// zero.
pub fn frame_rate(delta: u64, ticks_per_second: u64) -> (r: Option<u64>)
    ensures
        delta == 0 ==> r is None,
        delta > 0 ==> (r matches Some(v) && v == spec_frame_rate(delta, ticks_per_second)),
{
    if delta == 0 {
        None
    } else {
        let q = ticks_per_second / delta;
        let rem = ticks_per_second % delta;
        if delta - rem <= rem {
            proof {
                let t = ticks_per_second as int;
                let d = delta as int;
                vstd::arithmetic::div_mod::lemma_fundamental_div_mod(t, d);
                assert(2 * (t / d) <= d * (t / d)) by (nonlinear_arith)
                    requires
                        d >= 2,
                        t / d >= 0,
                ;
                vstd::arithmetic::div_mod::lemma_fundamental_div_mod(d, 2);
                vstd::arithmetic::div_mod::lemma_mod_pos_bound(d, 2);
                vstd::arithmetic::mul::lemma_mul_is_distributive_add_other_way(d, t / d, 1);
                vstd::arithmetic::mul::lemma_mul_is_commutative(t / d, d);
                vstd::arithmetic::div_mod::lemma_fundamental_div_mod_converse(
                    t + d / 2,
                    d,
                    t / d + 1,
                    rem as int + d / 2 - d,
                );
            }
            Some(q + 1)
        } else {
            proof {
                let t = ticks_per_second as int;
                let d = delta as int;
                vstd::arithmetic::div_mod::lemma_fundamental_div_mod(t, d);
                vstd::arithmetic::div_mod::lemma_fundamental_div_mod(d, 2);
                vstd::arithmetic::div_mod::lemma_mod_pos_bound(d, 2);
                vstd::arithmetic::mul::lemma_mul_is_commutative(t / d, d);
                vstd::arithmetic::div_mod::lemma_fundamental_div_mod_converse(
                    t + d / 2,
                    d,
                    t / d,
                    rem as int + d / 2,
                );
            }
            Some(q)
        }
    }
}

/// The decimal digits of `n`, most significant first, as ASCII bytes.
pub open spec fn spec_decimal(n: nat) -> Seq<u8>
    decreases n,
{
    if n < 10 {
        seq![(48 + n) as u8]
    } else {
        spec_decimal(n / 10).push((48 + n % 10) as u8)
    }
}

/// Render a number as its decimal digits, most significant first.
pub fn decimal_digits(n: u64) -> (r: Vec<u8>)
    ensures
        r@ == spec_decimal(n as nat),
    decreases n,
{
    if n < 10 {
        let mut v: Vec<u8> = Vec::new();
        v.push(48 + n as u8);
        proof {
            assert(v@ =~= spec_decimal(n as nat));
        }
        v
    } else {
        let mut v = decimal_digits(n / 10);
        v.push(48 + (n % 10) as u8);
        v
    }
}

/// The overlay's whole text line for a rate: "FPS: " then the decimal
/// digits of the rounded rate.
pub open spec fn spec_rate_text(fps: nat) -> Seq<u8> {
    seq![70u8, 80u8, 83u8, 58u8, 32u8] + spec_decimal(fps)
}

/// Build the overlay's text line for a rate.
pub fn rate_text(fps: u64) -> (r: Vec<u8>)
    ensures
        r@ == spec_rate_text(fps as nat),
{
    let mut v: Vec<u8> = Vec::new();
    v.push(70);
    v.push(80);
    v.push(83);
    v.push(58);
    v.push(32);
    let mut digits = decimal_digits(fps);
    v.append(&mut digits);
    proof {
        assert(v@ =~= spec_rate_text(fps as nat));
    }
    v
}

/// The tick gap from one recorded instant to the next: their difference,
/// saturating at zero should the clock ever step backwards.
pub open spec fn spec_gap(prev: u64, now: u64) -> u64 {
    if now >= prev {
        (now - prev) as u64
    } else {
        0u64
    }
}

/// The diagnostic overlay: a self-contained application that shows the frame
/// rate. On each `update` it records the clock's current instant and the gap
/// to the one before; on each `draw` it renders the rate that gap means, at a
/// fixed position, over whatever the primary application has already drawn
/// (it is composed as the secondary member, so it draws second). It performs
/// no input handling and never touches the file store.
pub struct FpsApp<Clock> {
    clock: Clock,
    ticks_per_second: u64,
    prev: Option<u64>,
    delta: Option<u64>,
    history: Ghost<Seq<AppOp>>,
}

impl<Clock> FpsApp<Clock> {
    /// The operations invoked on the overlay so far.
    pub closed spec fn spec_history(self) -> Seq<AppOp> {
        self.history@
    }

    /// The tick gap between the last two recorded instants, once two frames
    /// have been seen.
    pub closed spec fn spec_delta(self) -> Option<u64> {
        self.delta
    }

    /// The instant the last successful `update` recorded.
    pub closed spec fn spec_prev(self) -> Option<u64> {
        self.prev
    }

    /// The clock's scaling factor the overlay was built with.
    pub closed spec fn spec_ticks_per_second(self) -> u64 {
        self.ticks_per_second
    }

    /// Build the overlay around the monotonic clock that bring-up acquired;
    /// the clock counts `ticks_per_second` ticks per second. The clock is
    /// handed over here, once, and owned by the overlay from then on.
    pub fn new(clock: Clock, ticks_per_second: u64) -> (r: FpsApp<Clock>)
        ensures
            r.spec_history() == Seq::<AppOp>::empty(),
            r.spec_prev() is None,
            r.spec_delta() is None,
            r.spec_ticks_per_second() == ticks_per_second,
    {
        FpsApp { clock, ticks_per_second, prev: None, delta: None, history: Ghost(Seq::empty()) }
    }

    /// Take one instant the clock reported as this frame's: it becomes the
    /// recorded instant, and the gap from the instant before it (once there
    /// is one) becomes the recorded gap.
    pub fn note_instant(&mut self, now: u64)
        ensures
            final(self).spec_prev() == Some(now),
            final(self).spec_delta() == match old(self).spec_prev() {
                Some(p) => Some(spec_gap(p, now)),
                None => old(self).spec_delta(),
            },
            final(self).spec_history() == old(self).spec_history(),
            final(self).spec_ticks_per_second() == old(self).spec_ticks_per_second(),
    {
        match self.prev {
            Some(p) => {
                self.delta = Some(
                    if now >= p {
                        now - p
                    } else {
                        0
                    },
                );
            },
            None => {},
        }
        self.prev = Some(now);
    }
}

impl<Clock: TimeSource> FpsApp<Clock> {
    /// Read the clock and record this frame's instant and the tick gap to
    /// the frame before, through `note_instant`. Fails only if the clock
    /// does, propagating its error and recording nothing.
    fn record_instant(&mut self) -> (r: Result<(), AppError>)
        ensures
            final(self).spec_history() == old(self).spec_history(),
            final(self).spec_ticks_per_second() == old(self).spec_ticks_per_second(),
            r is Ok ==> (final(self).spec_prev() matches Some(now) && final(self).spec_delta()
                == match old(self).spec_prev() {
                Some(p) => Some(spec_gap(p, now)),
                None => old(self).spec_delta(),
            }),
            r is Err ==> final(self).spec_prev() == old(self).spec_prev() && final(self)
                .spec_delta() == old(self).spec_delta(),
    {
        match self.clock.try_now() {
            Ok(now) => {
                self.note_instant(now);
                Ok(())
            },
            Err(e) => Err(e),
        }
    }
}

impl<Clock: TimeSource> App for FpsApp<Clock> {
    open spec fn calls(&self) -> Seq<AppOp> {
        self.spec_history()
    }

    /// The overlay needs no resources decoded: `init` always succeeds and
    /// records nothing but its own call.
    fn init(&mut self) -> (r: Result<(), AppError>)
        ensures
            r is Ok,
            final(self).spec_prev() == old(self).spec_prev(),
            final(self).spec_delta() == old(self).spec_delta(),
            final(self).spec_ticks_per_second() == old(self).spec_ticks_per_second(),
    {
        self.history = Ghost(self.history@.push(AppOp::Init { err: None }));
        Ok(())
    }

    /// Record the frame's instant and the gap to the frame before. Fails
    /// only if the clock does, propagating its error and recording nothing.
    fn update(&mut self, buttons: Buttons) -> (r: Result<(), AppError>)
        ensures
            final(self).spec_ticks_per_second() == old(self).spec_ticks_per_second(),
            r is Ok ==> (final(self).spec_prev() matches Some(now) && final(self).spec_delta()
                == match old(self).spec_prev() {
                Some(p) => Some(spec_gap(p, now)),
                None => old(self).spec_delta(),
            }),
            r is Err ==> final(self).spec_prev() == old(self).spec_prev() && final(self)
                .spec_delta() == old(self).spec_delta(),
    {
        let r = self.record_instant();
        self.history = Ghost(self.history@.push(AppOp::Update { err: err_of(r) }));
        r
    }

    /// Render the rate the last recorded gap means; nothing is drawn — and
    /// nothing can fail — before two instants have been recorded, or for a
    /// gap of zero ticks. The overlay's own state is left untouched.
    fn draw<Surface: PixelSurface>(&mut self, surface: &mut Surface) -> (r: Result<(), AppError>)
        ensures
            final(self).spec_prev() == old(self).spec_prev(),
            final(self).spec_delta() == old(self).spec_delta(),
            final(self).spec_ticks_per_second() == old(self).spec_ticks_per_second(),
            old(self).spec_delta() is None || old(self).spec_delta() == Some(0u64) ==> r is Ok,
    {
        let r = match self.delta {
            Some(d) => {
                match frame_rate(d, self.ticks_per_second) {
                    Some(fps) => {
                        let text = rate_text(fps);
                        surface.draw_text(OVERLAY_X, OVERLAY_Y, &text)
                    },
                    None => Ok(()),
                }
            },
            None => Ok(()),
        };
        self.history = Ghost(self.history@.push(AppOp::Draw { err: err_of(r) }));
        r
    }

    /// The overlay never touches the file store: a no-op success.
    fn read_write<Store: crate::caps::FileStore>(&mut self, store: &mut Store) -> (r: Result<
        (),
        AppError,
    >)
        ensures
            r is Ok,
            final(self).spec_prev() == old(self).spec_prev(),
            final(self).spec_delta() == old(self).spec_delta(),
            final(self).spec_ticks_per_second() == old(self).spec_ticks_per_second(),
    {
        self.history = Ghost(self.history@.push(AppOp::ReadWrite { err: None }));
        Ok(())
    }
}

} // verus!
