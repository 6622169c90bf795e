use vstd::prelude::*;

use crate::apps::{err_of, App, AppOp};
use crate::caps::{FileStore, InputLines, PixelSurface};
use crate::errors::AppError;
use crate::input::sample;

verus! {

/// The runtime loop's phase. `Halted` is terminal and unrecoverable: the
/// device never resumes with partial state.
#[derive(Clone, Copy, PartialEq, Eq, Structural, Debug)]
pub enum LoopState {
    Uninitialized,
    Running,
    Halted,
}

/// The records one complete, successful frame appends to an application's
/// call history: `update`, then `draw`, then — exactly when a file store is
/// present — `read_write`.
pub open spec fn frame_ops(store_present: bool) -> Seq<AppOp> {
    if store_present {
        seq![
            AppOp::Update { err: None },
            AppOp::Draw { err: None },
            AppOp::ReadWrite { err: None },
        ]
    } else {
        seq![AppOp::Update { err: None }, AppOp::Draw { err: None }]
    }
}

/// How many records one complete frame appends.
pub open spec fn frame_len(store_present: bool) -> int {
    frame_ops(store_present).len() as int
}

/// The records of `n` complete, successful frames in a row.
pub open spec fn repeat_frames(n: nat, store_present: bool) -> Seq<AppOp>
    decreases n,
{
    if n == 0 {
        Seq::empty()
    } else {
        repeat_frames((n - 1) as nat, store_present) + frame_ops(store_present)
    }
}

/// The operation order a running application has observed: `init` once,
/// successful, then some number of complete frames, with no reordering,
/// skipping or interleaving.
pub open spec fn running_history(h: Seq<AppOp>, store_present: bool) -> bool {
    exists|n: nat|
        h == seq![AppOp::Init { err: None }] + #[trigger] repeat_frames(n, store_present)
}

/// The records the frame that halts the loop appends: the fixed order is
/// kept up to the operation that failed with exactly the error the loop
/// reports, and nothing follows it.
pub open spec fn failed_frame(suffix: Seq<AppOp>, store_present: bool, e: AppError) -> bool {
    ||| suffix == seq![AppOp::Update { err: Some(e) }]
    ||| suffix == seq![AppOp::Update { err: None }, AppOp::Draw { err: Some(e) }]
    ||| (store_present && suffix == seq![
        AppOp::Update { err: None },
        AppOp::Draw { err: None },
        AppOp::ReadWrite { err: Some(e) },
    ])
}

/// What a halting run leaves behind: some number of whole frames, then one
/// frame cut short at the operation that failed with the reported error.
pub open spec fn frames_then_failure(
    h0: Seq<AppOp>,
    h1: Seq<AppOp>,
    store_present: bool,
    e: AppError,
) -> bool {
    exists|k: nat|
        {
            let mid = h0 + #[trigger] repeat_frames(k, store_present);
            &&& mid.len() <= h1.len()
            &&& h1.subrange(0, mid.len() as int) == mid
            &&& failed_frame(h1.skip(mid.len() as int), store_present, e)
        }
}

/// Whether a call history holds no `read_write` record at all.
pub open spec fn no_read_write(h: Seq<AppOp>) -> bool {
    forall|i: int| 0 <= i < h.len() ==> !(#[trigger] h[i] is ReadWrite)
}

proof fn lemma_push_keeps_no_read_write(h: Seq<AppOp>, op: AppOp)
    requires
        no_read_write(h),
        !(op is ReadWrite),
    ensures
        no_read_write(h.push(op)),
{
    assert forall|i: int| 0 <= i < h.push(op).len() implies !(#[trigger] h.push(op)[i]
        is ReadWrite) by {
        if i < h.len() {
            assert(h.push(op)[i] == h[i]);
        }
    }
}

/// The fixed-order scheduler. It owns the application and the peripheral
/// capabilities for its whole lifetime, initializes the application once,
/// and then repeats frames until an operation fails, whereupon the device
/// halts for good.
pub struct Runtime<A, Surface, Store, Lines> {
    app: A,
    surface: Surface,
    store: Option<Store>,
    lines: Lines,
    state: LoopState,
}

impl<A, Surface, Store, Lines> Runtime<A, Surface, Store, Lines> where
    A: App,
    Surface: PixelSurface,
    Store: FileStore,
    Lines: InputLines,
 {
    /// The phase the loop is in.
    pub closed spec fn loop_state(self) -> LoopState {
        self.state
    }

    /// The call history the owned application has observed.
    pub closed spec fn history(self) -> Seq<AppOp> {
        self.app.calls()
    }

    /// Whether a file store capability was handed over at bring-up.
    pub closed spec fn store_present(self) -> bool {
        self.store is Some
    }

    /// Whether the display is selected right now. It is, only for the
    /// duration of a frame's `draw`.
    pub closed spec fn surface_selected(self) -> bool {
        self.surface.selected()
    }

    /// The loop's invariant: an application that is running has observed
    /// exactly `init` once and then whole frames, in the fixed order; and
    /// between frames — on the failure path too — the display's exclusive
    /// access is released.
    pub open spec fn inv(self) -> bool {
        &&& !self.surface_selected()
        &&& match self.loop_state() {
            LoopState::Uninitialized => self.history() == Seq::<AppOp>::empty(),
            LoopState::Running => running_history(self.history(), self.store_present()),
            LoopState::Halted => true,
        }
    }

    /// Take ownership of a fresh application and the peripherals bring-up
    /// acquired, the display not selected. The store is optional: bring-up
    /// downgrades a storage acquisition failure to "no file store" instead
    /// of halting.
    pub fn new(app: A, surface: Surface, store: Option<Store>, lines: Lines) -> (r: Self)
        requires
            app.calls() == Seq::<AppOp>::empty(),
            !surface.selected(),
        ensures
            r.inv(),
            r.loop_state() is Uninitialized,
            r.store_present() == (store is Some),
            r.history() == Seq::<AppOp>::empty(),
    {
        Runtime { app, surface, store, lines, state: LoopState::Uninitialized }
    }

    /// Transition out of `Uninitialized`: invoke `init`, exactly once and
    /// before any frame. Success enters `Running`; failure is fatal and
    /// halts before any frame runs, the application's error reported.
    pub fn start(&mut self) -> (r: Result<(), AppError>)
        requires
            old(self).inv(),
            old(self).loop_state() is Uninitialized,
        ensures
            final(self).inv(),
            final(self).store_present() == old(self).store_present(),
            final(self).history() == seq![AppOp::Init { err: err_of(r) }],
            r is Ok ==> final(self).loop_state() is Running,
            r is Err ==> final(self).loop_state() is Halted,
    {
        let r = self.app.init();
        match r {
            Ok(()) => {
                self.state = LoopState::Running;
                proof {
                    assert(self.history() =~= seq![AppOp::Init { err: err_of(r) }]);
                    assert(self.history() == seq![AppOp::Init { err: None }]
                        + repeat_frames(0, self.store_present())) by {
                        assert(seq![AppOp::Init { err: None }]
                            + repeat_frames(0, self.store_present()) =~= self.history());
                    }
                }
                Ok(())
            },
            Err(e) => {
                self.state = LoopState::Halted;
                proof {
                    assert(self.history() =~= seq![AppOp::Init { err: err_of(r) }]);
                }
                Err(e)
            },
        }
    }

    /// One iteration of the `Running` self-loop, in the fixed order: rebuild
    /// the input snapshot from the lines, invoke `update`, invoke `draw`
    /// inside the select/deselect bracket — released on the failure path
    /// too — and, exactly when a store is present, invoke `read_write`. The
    /// first failure halts the loop, reporting exactly the failing
    /// operation's error, which stands last in the history.
    pub fn run_frame(&mut self) -> (r: Result<(), AppError>)
        requires
            old(self).inv(),
            old(self).loop_state() is Running,
        ensures
            final(self).inv(),
            final(self).store_present() == old(self).store_present(),
            old(self).history().is_prefix_of(final(self).history()),
            !old(self).store_present() && no_read_write(old(self).history()) ==> no_read_write(
                final(self).history(),
            ),
            r is Ok ==> final(self).loop_state() is Running && final(self).history() == old(
                self,
            ).history() + frame_ops(old(self).store_present()),
            r matches Err(e) ==> final(self).loop_state() is Halted && failed_frame(
                final(self).history().skip(old(self).history().len() as int),
                old(self).store_present(),
                e,
            ),
    {
        let ghost h0 = self.history();
        let ghost sp = self.store_present();
        let buttons = sample(&mut self.lines);
        let ru = self.app.update(buttons);
        match ru {
            Err(e) => {
                self.state = LoopState::Halted;
                proof {
                    Self::lemma_one_failed_push(
                        h0,
                        self.history(),
                        AppOp::Update { err: Some(e) },
                    );
                }
                return Err(e);
            },
            Ok(()) => {},
        }
        self.surface.select();
        let rd = self.app.draw(&mut self.surface);
        self.surface.deselect();
        match rd {
            Err(e) => {
                self.state = LoopState::Halted;
                proof {
                    assert(self.history() == h0.push(AppOp::Update { err: None }).push(
                        AppOp::Draw { err: Some(e) },
                    ));
                    assert(h0.is_prefix_of(self.history())) by {
                        assert(h0 =~= self.history().subrange(0, h0.len() as int));
                    }
                    assert(self.history().skip(h0.len() as int) =~= seq![
                        AppOp::Update { err: None },
                        AppOp::Draw { err: Some(e) },
                    ]);
                    if !sp && no_read_write(h0) {
                        lemma_push_keeps_no_read_write(h0, AppOp::Update { err: None });
                        lemma_push_keeps_no_read_write(
                            h0.push(AppOp::Update { err: None }),
                            AppOp::Draw { err: Some(e) },
                        );
                    }
                }
                return Err(e);
            },
            Ok(()) => {},
        }
        match &mut self.store {
            Some(st) => {
                let rw = self.app.read_write(st);
                match rw {
                    Err(e) => {
                        self.state = LoopState::Halted;
                        proof {
                            assert(self.history() == h0.push(AppOp::Update { err: None })
                                .push(AppOp::Draw { err: None }).push(
                                AppOp::ReadWrite { err: Some(e) },
                            ));
                            assert(h0.is_prefix_of(self.history())) by {
                                assert(h0 =~= self.history().subrange(0, h0.len() as int));
                            }
                            assert(self.history().skip(h0.len() as int) =~= seq![
                                AppOp::Update { err: None },
                                AppOp::Draw { err: None },
                                AppOp::ReadWrite { err: Some(e) },
                            ]);
                        }
                        return Err(e);
                    },
                    Ok(()) => {},
                }
            },
            None => {},
        }
        proof {
            assert(self.history() =~= h0 + frame_ops(sp));
            assert(h0.is_prefix_of(self.history())) by {
                assert(h0 =~= self.history().subrange(0, h0.len() as int));
            }
            let n = choose|n: nat|
                h0 == seq![AppOp::Init { err: None }] + #[trigger]
                repeat_frames(n, sp);
            assert(repeat_frames(n + 1, sp) == repeat_frames(n, sp) + frame_ops(sp));
            assert(self.history() == seq![AppOp::Init { err: None }]
                + repeat_frames(n + 1, sp)) by {
                assert(self.history() =~= (seq![AppOp::Init { err: None }]
                    + repeat_frames(n, sp)) + frame_ops(sp));
                assert((seq![AppOp::Init { err: None }] + repeat_frames(
                    n,
                    sp,
                )) + frame_ops(sp) =~= seq![AppOp::Init { err: None }] + (
                repeat_frames(n, sp) + frame_ops(sp)));
            }
            if !sp && no_read_write(h0) {
                lemma_push_keeps_no_read_write(h0, AppOp::Update { err: None });
                lemma_push_keeps_no_read_write(
                    h0.push(AppOp::Update { err: None }),
                    AppOp::Draw { err: None },
                );
            }
        }
        Ok(())
    }

    proof fn lemma_one_failed_push(h0: Seq<AppOp>, h1: Seq<AppOp>, op: AppOp)
        requires
            h1 == h0.push(op),
            !(op is ReadWrite),
        ensures
            h0.is_prefix_of(h1),
            h1.skip(h0.len() as int) =~= seq![op],
            no_read_write(h0) ==> no_read_write(h1),
    {
        assert(h0 =~= h1.subrange(0, h0.len() as int));
        if no_read_write(h0) {
            lemma_push_keeps_no_read_write(h0, op);
        }
    }

    /// Run up to `n` frames, stopping early at the first failure: whole
    /// frames up to it, then the frame it cut short, its error reported.
    pub fn run_frames(&mut self, n: u32) -> (r: Result<(), AppError>)
        requires
            old(self).inv(),
            old(self).loop_state() is Running,
        ensures
            final(self).inv(),
            final(self).store_present() == old(self).store_present(),
            old(self).history().is_prefix_of(final(self).history()),
            !old(self).store_present() && no_read_write(old(self).history()) ==> no_read_write(
                final(self).history(),
            ),
            r is Ok ==> final(self).loop_state() is Running && final(self).history() == old(
                self,
            ).history() + repeat_frames(n as nat, old(self).store_present()),
            r matches Err(e) ==> final(self).loop_state() is Halted && frames_then_failure(
                old(self).history(),
                final(self).history(),
                old(self).store_present(),
                e,
            ),
    {
        let ghost h0 = self.history();
        let ghost sp = self.store_present();
        proof {
            assert(h0 + repeat_frames(0, sp) =~= h0);
        }
        let mut i: u32 = 0;
        while i < n
            invariant
                self.inv(),
                self.loop_state() is Running,
                h0 == old(self).history(),
                sp == old(self).store_present(),
                self.store_present() == sp,
                i <= n,
                self.history() == h0 + repeat_frames(i as nat, sp),
                !sp && no_read_write(h0) ==> no_read_write(self.history()),
            decreases n - i,
        {
            let ghost hpre = self.history();
            let r = self.run_frame();
            match r {
                Err(e) => {
                    proof {
                        let mid = h0 + repeat_frames(i as nat, sp);
                        assert(mid == hpre);
                        assert(self.history().subrange(0, mid.len() as int) == mid) by {
                            assert(hpre =~= self.history().subrange(0, hpre.len() as int));
                        }
                        assert(frames_then_failure(h0, self.history(), sp, e));
                        assert(h0.is_prefix_of(self.history())) by {
                            assert forall|t: int| 0 <= t < h0.len() implies h0[t]
                                == self.history().subrange(0, h0.len() as int)[t] by {
                                assert(self.history().subrange(0, mid.len() as int)[t]
                                    == self.history()[t]);
                                assert(self.history().subrange(0, h0.len() as int)[t]
                                    == self.history()[t]);
                                assert(mid[t] == h0[t]);
                            }
                            assert(h0 =~= self.history().subrange(0, h0.len() as int));
                        }
                    }
                    return Err(e);
                },
                Ok(()) => {},
            }
            proof {
                assert(repeat_frames((i + 1) as nat, sp) == repeat_frames(i as nat, sp)
                    + frame_ops(sp));
                assert((h0 + repeat_frames(i as nat, sp)) + frame_ops(sp) =~= h0 + (repeat_frames(
                    i as nat,
                    sp,
                ) + frame_ops(sp)));
            }
            i = i + 1;
        }
        proof {
            assert(h0.is_prefix_of(self.history())) by {
                assert(h0 =~= self.history().subrange(0, h0.len() as int));
            }
        }
        Ok(())
    }

    /// Whether the loop has halted. Once true it stays true: there is no
    /// recovery, and a caller that drives frames forever should idle when
    /// this is reached.
    pub fn is_halted(&self) -> (r: bool)
        ensures
            r == (self.loop_state() is Halted),
    {
        match self.state {
            LoopState::Halted => true,
            _ => false,
        }
    }
}

proof fn lemma_repeat_frames_len(n: nat, store_present: bool)
    ensures
        repeat_frames(n, store_present).len() == n * frame_len(store_present),
    decreases n,
{
    let flen = frame_len(store_present);
    if n > 0 {
        lemma_repeat_frames_len((n - 1) as nat, store_present);
        assert(repeat_frames(n, store_present).len() == (n as int - 1) * flen + flen);
        assert((n as int - 1) * flen + flen == n as int * flen) by (nonlinear_arith);
    } else {
        assert(repeat_frames(n, store_present).len() == 0);
        assert(0int * flen == 0) by (nonlinear_arith);
    }
}

proof fn lemma_repeat_frames_index(n: nat, store_present: bool, j: int)
    requires
        0 <= j < repeat_frames(n, store_present).len(),
    ensures
        repeat_frames(n, store_present)[j] == frame_ops(store_present)[j % frame_len(
            store_present,
        )],
    decreases n,
{
    let flen = frame_len(store_present);
    if n > 0 {
        let prev = repeat_frames((n - 1) as nat, store_present);
        lemma_repeat_frames_len((n - 1) as nat, store_present);
        if j < prev.len() {
            lemma_repeat_frames_index((n - 1) as nat, store_present, j);
            assert(repeat_frames(n, store_present)[j] == prev[j]);
        } else {
            let off = j - prev.len();
            assert(repeat_frames(n, store_present)[j] == frame_ops(store_present)[off]);
            vstd::arithmetic::mul::lemma_mul_is_commutative((n - 1) as int, flen);
            vstd::arithmetic::div_mod::lemma_mod_multiples_vanish((n - 1) as int, off, flen);
            vstd::arithmetic::div_mod::lemma_small_mod(off as nat, flen as nat);
        }
    }
}

/// The order a running application has observed, spelled out position by
/// position: `init` stands exactly once, at the start and nowhere else, and
/// after it the operations repeat in the fixed frame order — `update`, then
/// `draw`, then, exactly when a store is present, `read_write` — with no
/// reordering, no skipping and no interleaving.
pub proof fn lemma_operation_order(h: Seq<AppOp>, store_present: bool, i: int)
    requires
        running_history(h, store_present),
        0 <= i < h.len(),
    ensures
        h[0] == (AppOp::Init { err: None }),
        i >= 1 ==> h[i] == frame_ops(store_present)[(i - 1) % frame_len(store_present)],
        i >= 1 ==> !(h[i] is Init),
{
    let n = choose|n: nat|
        h == seq![AppOp::Init { err: None }] + #[trigger] repeat_frames(
            n,
            store_present,
        );
    if i >= 1 {
        lemma_repeat_frames_index(n, store_present, i - 1);
        assert(h[i] == repeat_frames(n, store_present)[i - 1]);
        let k = (i - 1) % frame_len(store_present);
        vstd::arithmetic::div_mod::lemma_mod_bound(i - 1, frame_ops(store_present).len() as int);
        assert(!(frame_ops(store_present)[k] is Init));
    }
}

proof fn lemma_repeat_frames_no_read_write(n: nat)
    ensures
        no_read_write(repeat_frames(n, false)),
    decreases n,
{
    if n > 0 {
        lemma_repeat_frames_no_read_write((n - 1) as nat);
        let prev = repeat_frames((n - 1) as nat, false);
        let cur = repeat_frames(n, false);
        assert(cur == prev + frame_ops(false));
        assert forall|i: int| 0 <= i < cur.len() implies !(#[trigger] cur[i] is ReadWrite) by {
            if i < prev.len() {
                assert(cur[i] == prev[i]);
            } else {
                assert(cur[i] == frame_ops(false)[i - prev.len()]);
            }
        }
    }
}

/// A runtime brought up with no storage device never invokes `read_write`:
/// the history a storeless running application observes holds no
/// `read_write` record on any frame.
pub proof fn lemma_no_store_no_read_write(h: Seq<AppOp>)
    requires
        running_history(h, false),
    ensures
        no_read_write(h),
{
    let n = choose|n: nat|
        h == seq![AppOp::Init { err: None }] + #[trigger] repeat_frames(
            n,
            false,
        );
    lemma_repeat_frames_no_read_write(n);
    let reps = repeat_frames(n, false);
    assert forall|i: int| 0 <= i < h.len() implies !(#[trigger] h[i] is ReadWrite) by {
        if i > 0 {
            assert(h[i] == reps[i - 1]);
        }
    }
}

} // verus!
