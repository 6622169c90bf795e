use vstd::prelude::*;

use crate::apps::{err_of, op_err, App, AppOp};
use crate::buttons::Buttons;
use crate::caps::{FileStore, PixelSurface};
use crate::errors::AppError;

verus! {

/// Two applications combined to behave as one: for each of the four
/// operations, the composite runs the first application's operation, then —
/// only if that succeeded — the second's, and reports the first failure it
/// met. Neither member knows about the other; a cross-cutting application
/// such as a diagnostic overlay is layered onto a primary one by composing
/// them at startup.
pub struct Join<A, B> {
    pub first: A,
    pub second: B,
    pub history: Ghost<Seq<AppOp>>,
}

/// Compose two applications, the first as primary (its operation runs first
/// every frame), the second as secondary.
pub fn join<A, B>(first: A, second: B) -> (r: Join<A, B>)
    ensures
        r.first == first,
        r.second == second,
        r.history@ == Seq::<AppOp>::empty(),
{
    Join { first, second, history: Ghost(Seq::empty()) }
}

/// What one composite operation did to the members' call histories: the
/// first member's history grew by exactly its own record of this operation;
/// if the first member succeeded, the second's grew the same way and the
/// composite reported the second's result; otherwise — the short-circuit —
/// the second member was not touched at all and the composite reported
/// exactly the first member's error.
pub open spec fn delegates<A, B>(
    pre: Join<A, B>,
    post: Join<A, B>,
    op_of: spec_fn(Option<AppError>) -> AppOp,
    r: Result<(), AppError>,
) -> bool where A: App, B: App {
    let first_e = op_err(post.first.calls().last());
    &&& post.first.calls() == pre.first.calls().push(op_of(first_e))
    &&& (first_e is None ==> post.second.calls() == pre.second.calls().push(op_of(err_of(r))))
    &&& (first_e matches Some(e) ==> post.second == pre.second && r == Err::<(), AppError>(e))
}

impl<A, B> App for Join<A, B> where A: App, B: App {
    /// The composite's own observed history; its members keep theirs.
    open spec fn calls(&self) -> Seq<AppOp> {
        self.history@
    }

    fn init(&mut self) -> (r: Result<(), AppError>)
        ensures
            delegates(*old(self), *final(self), |e: Option<AppError>| AppOp::Init { err: e }, r),
    {
        let r1 = self.first.init();
        match r1 {
            Err(e) => {
                self.history = Ghost(self.history@.push(AppOp::Init { err: Some(e) }));
                Err(e)
            },
            Ok(()) => {
                let r2 = self.second.init();
                self.history = Ghost(self.history@.push(AppOp::Init { err: err_of(r2) }));
                r2
            },
        }
    }

    fn update(&mut self, buttons: Buttons) -> (r: Result<(), AppError>)
        ensures
            delegates(*old(self), *final(self), |e: Option<AppError>| AppOp::Update { err: e }, r),
    {
        let r1 = self.first.update(buttons);
        match r1 {
            Err(e) => {
                self.history = Ghost(self.history@.push(AppOp::Update { err: Some(e) }));
                Err(e)
            },
            Ok(()) => {
                let r2 = self.second.update(buttons);
                self.history = Ghost(self.history@.push(AppOp::Update { err: err_of(r2) }));
                r2
            },
        }
    }

    fn draw<Surface: PixelSurface>(&mut self, surface: &mut Surface) -> (r: Result<(), AppError>)
        ensures
            delegates(*old(self), *final(self), |e: Option<AppError>| AppOp::Draw { err: e }, r),
    {
        let r1 = self.first.draw(surface);
        match r1 {
            Err(e) => {
                self.history = Ghost(self.history@.push(AppOp::Draw { err: Some(e) }));
                Err(e)
            },
            Ok(()) => {
                let r2 = self.second.draw(surface);
                self.history = Ghost(self.history@.push(AppOp::Draw { err: err_of(r2) }));
                r2
            },
        }
    }

    fn read_write<Store: FileStore>(&mut self, store: &mut Store) -> (r: Result<(), AppError>)
        ensures
            delegates(*old(self), *final(self), |e: Option<AppError>| AppOp::ReadWrite { err: e }, r),
    {
        let r1 = self.first.read_write(store);
        match r1 {
            Err(e) => {
                self.history = Ghost(self.history@.push(AppOp::ReadWrite { err: Some(e) }));
                Err(e)
            },
            Ok(()) => {
                let r2 = self.second.read_write(store);
                self.history = Ghost(self.history@.push(AppOp::ReadWrite { err: err_of(r2) }));
                r2
            },
        }
    }
}

/// As long as every operation of a composite succeeds, each member observes
/// exactly the composite's own call history — the same operations, in the
/// same order, with the same results. So a member of a composite the runtime
/// drives sees `init` once and then whole frames, exactly as a lone
/// application would: one step of that induction, from `delegates` and the
/// composite's own record.
pub proof fn lemma_members_track_successful_composite<A, B>(
    pre: Join<A, B>,
    post: Join<A, B>,
    op_of: spec_fn(Option<AppError>) -> AppOp,
    r: Result<(), AppError>,
) where A: App, B: App
    requires
        delegates(pre, post, op_of, r),
        post.history@ == pre.history@.push(op_of(err_of(r))),
        forall|e: Option<AppError>| op_err(#[trigger] op_of(e)) == e,
        r is Ok,
        pre.first.calls() == pre.history@,
        pre.second.calls() == pre.history@,
    ensures
        post.first.calls() == post.history@,
        post.second.calls() == post.history@,
{
    let first_e = op_err(post.first.calls().last());
    assert(first_e is None);
    assert(err_of(r) is None);
}

/// Whether every member of a flat, ordered group of applications succeeded
/// at one operation. `oks[i]` is the outcome member `i` would report.
pub open spec fn all_succeed(oks: Seq<bool>) -> bool {
    forall|i: int| 0 <= i < oks.len() ==> oks[i]
}

/// How many members of a flat, ordered group run one operation under the
/// first-failure cut-off: everyone up to and including the first member that
/// fails, in group order.
pub open spec fn invoked_count(oks: Seq<bool>) -> int
    decreases oks.len(),
{
    if oks.len() == 0 {
        0
    } else if oks[0] {
        1 + invoked_count(oks.drop_first())
    } else {
        1
    }
}

/// How many members run when two groups are joined, which is `Join`'s
/// semantics member for member (`delegates`): all of the first group that its
/// own rule invokes; the second group — again per its own rule — only if the
/// first group wholly succeeded.
pub open spec fn joined_invoked_count(first: Seq<bool>, second: Seq<bool>) -> int {
    if all_succeed(first) {
        first.len() + invoked_count(second)
    } else {
        invoked_count(first)
    }
}

/// Joining two groups invokes the same members, in the same group order, as
/// the flat group of both: composition adds no observable seam.
pub proof fn lemma_join_flattens(first: Seq<bool>, second: Seq<bool>)
    ensures
        joined_invoked_count(first, second) == invoked_count(first + second),
    decreases first.len(),
{
    if first.len() == 0 {
        assert(first + second =~= second);
    } else {
        let rest = first.drop_first();
        assert((first + second).drop_first() =~= rest + second);
        lemma_join_flattens(rest, second);
        if first[0] {
            assert(all_succeed(first) ==> all_succeed(rest)) by {
                if all_succeed(first) {
                    assert forall|i: int| 0 <= i < rest.len() implies rest[i] by {
                        assert(rest[i] == first[i + 1]);
                    }
                }
            }
            assert(all_succeed(rest) ==> all_succeed(first)) by {
                if all_succeed(rest) {
                    assert forall|i: int| 0 <= i < first.len() implies first[i] by {
                        if i > 0 {
                            assert(first[i] == rest[i - 1]);
                        }
                    }
                }
            }
        }
    }
}

/// Composition is associative in observable order: for every operation,
/// joining (A, B) and then C invokes the same members, in the same order —
/// A's, then B's, then C's, cut at the first failure — as joining A and then
/// (B, C); both equal the flat group A, B, C.
pub proof fn lemma_join_associative(a: Seq<bool>, b: Seq<bool>, c: Seq<bool>)
    ensures
        joined_invoked_count(a + b, c) == invoked_count(a + b + c),
        (if all_succeed(a) {
            a.len() + joined_invoked_count(b, c)
        } else {
            invoked_count(a)
        }) == invoked_count(a + b + c),
{
    lemma_join_flattens(a + b, c);
    lemma_join_flattens(b, c);
    lemma_join_flattens(a, b + c);
    assert(a + b + c =~= a + (b + c));
}

} // verus!
