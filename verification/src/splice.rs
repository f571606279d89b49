//! Planning the splice of a hook into the statements of a function.
//!
//! A hook is a run of statements that is to run at one point of a function.
//! The statements behind that point are kept where they are: the function
//! jumps into the hook, the hook's statements are copied in, and where the
//! hook ends it jumps to the statement that follows the point. The plan says
//! which statement stands where; making the statements is left to the
//! caller.

use crate::wire::{low32, low32_of};
use vstd::prelude::*;

verus! {

/// One statement of the spliced function.
#[derive(Debug, Clone, Copy, PartialEq, Eq, Structural)]
pub enum Step {
    /// The statement that the function had at this position.
    Keep(usize),
    /// A jump to the start of the hook.
    Enter { code_offset: u32 },
    /// A copy of the hook's statement at this position.
    Copy(usize),
    /// In place of the hook's statement at this position, which ends the
    /// hook: a jump to the statement that follows the point of the splice.
    Leave { hook_statement: usize, code_offset: u32 },
}

/// What the plan is made from, as mathematical values: where each statement
/// of the function and of the hook came from, the point of the splice, and
/// where the hook starts and ends.
pub struct Splice {
    /// The offset that each statement of the function had, if it had one.
    pub offsets: Seq<Option<usize>>,
    /// The position of the statement behind which the hook is spliced.
    pub point: int,
    /// The offset at which the hook starts.
    pub hook_start: usize,
    /// The offset of the statement that ends the hook.
    pub hook_end: Option<usize>,
    /// The offset that each statement of the hook had, if it had one.
    pub hook_offsets: Seq<Option<usize>>,
}

impl Splice {
    /// The point of the splice is a statement of the function.
    pub open spec fn has_point(self) -> bool {
        0 <= self.point < self.offsets.len()
    }

    /// A statement follows the point of the splice.
    pub open spec fn has_next(self) -> bool {
        self.point + 1 < self.offsets.len()
    }

    /// The hook's statement at `i` ends the hook.
    pub open spec fn ends_hook(self, i: int) -> bool {
        self.hook_offsets[i] == self.hook_end
    }

    /// The splice can be planned: the hook has a statement, and where a
    /// statement of the hook ends it and a statement follows the point, that
    /// statement has an offset to jump to.
    pub open spec fn can_plan(self) -> bool {
        &&& self.hook_offsets.len() > 0
        &&& (self.has_next() && self.offsets[self.point + 1] is None ==> forall|i: int|
            0 <= i < self.hook_offsets.len() ==> !self.ends_hook(i))
    }

    /// The steps that stand for the first `n` statements of the hook.
    pub open spec fn hook_steps(self, n: int) -> Seq<Step>
        decreases n,
    {
        if n <= 0 {
            Seq::empty()
        } else {
            let before = self.hook_steps(n - 1);
            if self.ends_hook(n - 1) {
                if self.has_next() {
                    before.push(
                        Step::Leave {
                            hook_statement: (n - 1) as usize,
                            code_offset: low32(self.offsets[self.point + 1]->Some_0 as int),
                        },
                    )
                } else {
                    before
                }
            } else {
                before.push(Step::Copy((n - 1) as usize))
            }
        }
    }

    /// The statements of the function from `from` up to `to`, kept.
    pub open spec fn kept(from: int, to: int) -> Seq<Step> {
        Seq::new((to - from) as nat, |i: int| Step::Keep((from + i) as usize))
    }

    /// The spliced function: the statements up to the point, the jump into
    /// the hook, the hook, and the statements behind the point.
    pub open spec fn steps(self) -> Seq<Step> {
        Splice::kept(0, self.point + 1) + seq![
            Step::Enter { code_offset: low32(self.hook_start as int) },
        ] + self.hook_steps(self.hook_offsets.len() as int) + Splice::kept(
            self.point + 1,
            self.offsets.len() as int,
        )
    }
}

/// Appends the statements from `from` up to `to`, kept.
fn keep(plan: &mut Vec<Step>, from: usize, to: usize)
    requires
        from <= to,
    ensures
        final(plan)@ == old(plan)@ + Splice::kept(from as int, to as int),
{
    let mut i = from;
    assert(plan@ =~= old(plan)@ + Splice::kept(from as int, from as int));
    while i < to
        invariant
            from <= i <= to,
            plan@ == old(plan)@ + Splice::kept(from as int, i as int),
        decreases to - i,
    {
        plan.push(Step::Keep(i));
        assert(plan@ =~= old(plan)@ + Splice::kept(from as int, i + 1));
        i = i + 1;
    }
}

/// The plan of a splice of a hook behind the statement at `point`. There is
/// no plan where the function has no statement at `point`, where the hook is
/// empty, or where the hook would have to jump to a statement of which no
/// offset is known.
pub fn plan_splice(
    offsets: &Vec<Option<usize>>,
    point: usize,
    hook_start: usize,
    hook_end: Option<usize>,
    hook_offsets: &Vec<Option<usize>>,
) -> (res: Option<Vec<Step>>)
    ensures
        ({
            let splice = Splice {
                offsets: offsets@,
                point: point as int,
                hook_start,
                hook_end,
                hook_offsets: hook_offsets@,
            };
            &&& res is Some <==> splice.has_point() && splice.can_plan()
            &&& res matches Some(plan) ==> plan@ == splice.steps()
        }),
{
    let ghost splice = Splice {
        offsets: offsets@,
        point: point as int,
        hook_start,
        hook_end,
        hook_offsets: hook_offsets@,
    };
    if point >= offsets.len() || hook_offsets.len() == 0 {
        return None;
    }
    let mut plan: Vec<Step> = Vec::new();
    keep(&mut plan, 0, point + 1);
    plan.push(Step::Enter { code_offset: low32_of(hook_start) });
    let ghost head = plan@;
    assert(head =~= Splice::kept(0, point + 1) + seq![
        Step::Enter { code_offset: low32(hook_start as int) },
    ]);
    let has_next = point + 1 < offsets.len();
    let mut i: usize = 0;
    while i < hook_offsets.len()
        invariant
            i <= hook_offsets@.len(),
            point < offsets@.len() <= usize::MAX,
            has_next == splice.has_next(),
            splice == (Splice {
                offsets: offsets@,
                point: point as int,
                hook_start,
                hook_end,
                hook_offsets: hook_offsets@,
            }),
            splice.has_next() && splice.offsets[splice.point + 1] is None ==> forall|j: int|
                0 <= j < i ==> !splice.ends_hook(j),
            plan@ == head + splice.hook_steps(i as int),
        decreases hook_offsets@.len() - i,
    {
        let ghost before = splice.hook_steps(i as int);
        if same_offset(hook_offsets[i], hook_end) {
            if has_next {
                match offsets[point + 1] {
                    None => {
                        assert(splice.ends_hook(i as int));
                        return None;
                    },
                    Some(target) => {
                        plan.push(
                            Step::Leave { hook_statement: i, code_offset: low32_of(target) },
                        );
                    },
                }
            }
        } else {
            plan.push(Step::Copy(i));
        }
        assert(plan@ =~= head + splice.hook_steps(i + 1));
        i = i + 1;
    }
    keep(&mut plan, point + 1, offsets.len());
    assert(plan@ =~= splice.steps());
    Some(plan)
}

/// Whether two offsets are the same, or both unknown.
fn same_offset(a: Option<usize>, b: Option<usize>) -> (same: bool)
    ensures
        same == (a == b),
{
    match (a, b) {
        (None, None) => true,
        (Some(x), Some(y)) => x == y,
        _ => false,
    }
}

} // verus!
