//! Composable control-flow combinators over the program builder.
//!
//! Every iteration construct the compiler emits reduces to one loop shape:
//! an entry instruction that positions an iteration resource (or jumps
//! past the loop when it is empty), the body, and a step instruction that
//! jumps back to the body while rows remain.  [`generic_loop`] emits that
//! shape once; [`for_each`], [`for_each_rev`] and [`sorter_loop`] pick the
//! entry and step instructions.  A body is an ordinary closure that takes
//! the builder, appends instructions, and hands the builder back; errors
//! raised inside a body short-circuit before any further instruction is
//! appended.

use vstd::prelude::*;

use crate::builder::{extends, lemma_extends_trans, ProgramBuilder};
use crate::emitter;
use crate::insn::{
    is_loop_entry, is_loop_step, loop_entry_target, loop_step_target, Insn,
};
use crate::resources::{Cursor, Label, LoopLabels, Reg};
use crate::TranslateError;

verus! {

/// Context available within a loop body: the cursor being iterated and
/// the three labels of the enclosing loop.
#[derive(Debug, Clone, Copy, PartialEq, Eq, Structural)]
pub struct LoopContext {
    /// The cursor the loop iterates.
    pub cursor: Cursor,
    /// The labels of the enclosing loop.
    pub labels: LoopLabels,
}

impl LoopContext {
    /// Create a new loop context.
    pub fn new(cursor: Cursor, labels: LoopLabels) -> (r: LoopContext)
        ensures
            r == (LoopContext { cursor, labels }),
    {
        LoopContext { cursor, labels }
    }

    /// The label to jump to for leaving the loop early.
    pub fn break_label(&self) -> (r: Label)
        ensures
            r == self.labels.end,
    {
        self.labels.end
    }

    /// The label to jump to for continuing with the next iteration.
    pub fn continue_label(&self) -> (r: Label)
        ensures
            r == self.labels.next,
    {
        self.labels.next
    }
}

/// The flavor of a loop: which entry and step instructions drive it.
#[derive(Debug, Clone, Copy, PartialEq, Eq, Structural)]
pub enum LoopStyle {
    /// Forward table or index scan: Rewind then Next.
    Forward,
    /// Backward scan: Last then Prev.
    Reverse,
    /// Sorted-output scan: SorterSort then SorterNext.
    Sorter,
}

/// The entry instruction of a loop style.
pub open spec fn style_entry(s: LoopStyle, cursor: Cursor, if_empty: Label) -> Insn {
    match s {
        LoopStyle::Forward => Insn::Rewind { cursor, if_empty },
        LoopStyle::Reverse => Insn::Last { cursor, if_empty },
        LoopStyle::Sorter => Insn::SorterSort { cursor, if_empty },
    }
}

/// The step instruction of a loop style.
pub open spec fn style_step(s: LoopStyle, cursor: Cursor, back: Label) -> Insn {
    match s {
        LoopStyle::Forward => Insn::Next { cursor, if_next: back },
        LoopStyle::Reverse => Insn::Prev { cursor, if_prev: back },
        LoopStyle::Sorter => Insn::SorterNext { cursor, if_next: back },
    }
}

/// Every loop entry or loop step instruction at position `from` or later
/// targets a label allocated at index `lmin` or later.  Loop emissions
/// guarantee this about everything they append: a loop only steers
/// through labels of its own frame or of frames opened inside it, never
/// through those of an enclosing frame.
pub open spec fn loop_local(insns: Seq<Insn>, from: int, lmin: int) -> bool {
    forall|j: int|
        from <= j < insns.len() ==> ((is_loop_entry(#[trigger] insns[j]) ==> loop_entry_target(
            insns[j],
        ).0 >= lmin) && (is_loop_step(insns[j]) ==> loop_step_target(insns[j]).0 >= lmin))
}

/// Locality survives lowering the label base.
pub proof fn lemma_loop_local_weaken(insns: Seq<Insn>, from: int, l1: int, l2: int)
    requires
        loop_local(insns, from, l1),
        l2 <= l1,
    ensures
        loop_local(insns, from, l2),
{
}

/// Locality over a prefix carries over to any extension whose appended
/// part is itself local.
pub proof fn lemma_loop_local_extend(a: Seq<Insn>, b: Seq<Insn>, from: int, lmin: int)
    requires
        a.len() <= b.len(),
        b.subrange(0, a.len() as int) == a,
        loop_local(a, from, lmin),
        loop_local(b, a.len() as int, lmin),
        0 <= from,
    ensures
        loop_local(b, from, lmin),
{
    assert forall|j: int| from <= j < b.len() implies ((is_loop_entry(#[trigger] b[j])
        ==> loop_entry_target(b[j]).0 >= lmin) && (is_loop_step(b[j]) ==> loop_step_target(b[j]).0
        >= lmin)) by {
        if j < a.len() {
            assert(b[j] == b.subrange(0, a.len() as int)[j]);
            assert(b[j] == a[j]);
        }
    }
}

/// What every emission block promises about the builder it hands back:
/// a well-formed extension that leaves every label of the enclosing
/// frames exactly as it found it, binds every label it allocates, and
/// whose appended loop entries and steps only target labels of frames
/// opened inside the block.
pub open spec fn block_emitted(a: ProgramBuilder, b: ProgramBuilder) -> bool {
    &&& extends(a, b)
    &&& b.wf()
    &&& forall|i: int| 0 <= i < a.labels@.len() ==> b.labels@[i] == a.labels@[i]
    &&& forall|i: int|
        a.labels@.len() <= i < b.labels@.len() ==> (#[trigger] b.labels@[i]) is Some
    &&& loop_local(b.insns@, a.insns@.len() as int, a.labels@.len() as int)
}

/// A block that emits nothing is a block.
pub proof fn lemma_block_emitted_refl(a: ProgramBuilder)
    requires
        a.wf(),
    ensures
        block_emitted(a, a),
{
    crate::builder::lemma_extends_refl(a);
}

/// Two blocks in sequence form a block.
pub proof fn lemma_block_emitted_trans(a: ProgramBuilder, b: ProgramBuilder, c: ProgramBuilder)
    requires
        block_emitted(a, b),
        block_emitted(b, c),
    ensures
        block_emitted(a, c),
{
    lemma_extends_trans(a, b, c);
    assert forall|i: int|
        a.labels@.len() <= i < c.labels@.len() implies (#[trigger] c.labels@[i]) is Some by {
        if i < b.labels@.len() {
            assert(c.labels@[i] == b.labels@[i]);
        }
    }
    lemma_loop_local_weaken(c.insns@, b.insns@.len() as int, b.labels@.len() as int, a.labels@.len() as int);
    lemma_loop_local_extend(b.insns@, c.insns@, a.insns@.len() as int, a.labels@.len() as int);
}

/// Two blocks in sequence form a block; this form is instantiated
/// automatically wherever two adjoining blocks are in scope.
pub broadcast proof fn lemma_block_emitted_trans_auto(
    a: ProgramBuilder,
    b: ProgramBuilder,
    c: ProgramBuilder,
)
    requires
        #[trigger] block_emitted(a, b),
        #[trigger] block_emitted(b, c),
    ensures
        block_emitted(a, c),
{
    lemma_block_emitted_trans(a, b, c);
}

/// A step that appends one instruction that is neither a loop entry nor
/// a loop step, and touches no label, is a block.
pub proof fn lemma_plain_emit_block(a: ProgramBuilder, b: ProgramBuilder, i: Insn)
    requires
        crate::emitter::emitted(a, b, i),
        a.wf(),
        b.wf(),
        !is_loop_entry(i),
        !is_loop_step(i),
    ensures
        block_emitted(a, b),
{
    assert(b.insns@.subrange(0, a.insns@.len() as int) =~= a.insns@);
    assert forall|j: int| a.insns@.len() <= j < b.insns@.len() implies ((is_loop_entry(
        #[trigger] b.insns@[j],
    ) ==> loop_entry_target(b.insns@[j]).0 >= a.labels@.len()) && (is_loop_step(b.insns@[j])
        ==> loop_step_target(b.insns@[j]).0 >= a.labels@.len())) by {
        assert(b.insns@[j] == i);
    }
}

/// A step that appends nothing and touches no label is a block.
pub proof fn lemma_unchanged_block(a: ProgramBuilder, b: ProgramBuilder)
    requires
        extends(a, b),
        b.wf(),
        b.insns@ == a.insns@,
        b.labels@ == a.labels@,
    ensures
        block_emitted(a, b),
{
}

/// The loop labels a body sees: all three allocated, `next` and `end`
/// still unresolved, the cursor allocated.
pub open spec fn body_ctx_wf(b: ProgramBuilder, ctx: LoopContext) -> bool {
    &&& ctx.labels.start.0 < b.labels@.len()
    &&& ctx.labels.next.0 < b.labels@.len()
    &&& ctx.labels.end.0 < b.labels@.len()
    &&& b.labels@[ctx.labels.next.0 as int] is None
    &&& b.labels@[ctx.labels.end.0 as int] is None
    &&& ctx.cursor.0 < b.next_cursor
}

/// The loop context a loop combinator hands its body, determined by the
/// builder state at the call: the three loop labels are the next three
/// label numbers.
pub open spec fn canonical_ctx(b: ProgramBuilder, cursor: Cursor) -> LoopContext {
    LoopContext {
        cursor,
        labels: LoopLabels {
            start: Label(b.labels@.len() as u32),
            next: Label((b.labels@.len() + 1) as u32),
            end: Label((b.labels@.len() + 2) as u32),
        },
    }
}

/// Exactly the builder state a loop combinator hands its body: the given
/// entry instruction has been appended, the three loop labels have been
/// allocated, and `start` has been bound to the next position.
pub open spec fn loop_entry_state(
    b: ProgramBuilder,
    bi: ProgramBuilder,
    ctx: LoopContext,
    cursor: Cursor,
    entry: Insn,
) -> bool {
    &&& bi.insns@ == b.insns@.push(entry)
    &&& bi.labels@ == b.labels@.push(Some((b.insns@.len() + 1) as usize)).push(None).push(None)
    &&& bi.next_register == b.next_register
    &&& bi.next_cursor == b.next_cursor
    &&& bi.next_hash_table == b.next_hash_table
    &&& bi.cursors@ == b.cursors@
    &&& bi.nested == b.nested
    &&& bi.change_count_on == b.change_count_on
    &&& ctx.cursor == cursor
    &&& ctx.labels.start.0 == b.labels@.len()
    &&& ctx.labels.next.0 == b.labels@.len() + 1
    &&& ctx.labels.end.0 == b.labels@.len() + 2
}

/// What a loop body promises about the builder it hands back: a
/// well-formed extension that leaves `next` and `end` unbound and whose
/// appended entry and step instructions only target labels of frames
/// opened inside the body.
pub open spec fn loop_body_post(
    bi: ProgramBuilder,
    bo: ProgramBuilder,
    ctx: LoopContext,
) -> bool {
    block_emitted(bi, bo)
}

/// The shape every loop emission leaves behind, stated over the builder
/// before (`b`) and after (`b2`).  Writing `k` for the position of the
/// entry instruction and `l` for the index of the `start` label:
/// `start` is bound to `k + 1` (the first body instruction), `next` to
/// the position of the step instruction, `end` to the first instruction
/// after the loop; the instruction stream emitted by the loop contains
/// exactly one loop entry whose target resolves to `end` (at `k`) and
/// exactly one loop step whose target resolves to `start` (just before
/// `end`).
pub open spec fn loop_frame_post(b: ProgramBuilder, b2: ProgramBuilder) -> bool {
    let k = b.insns@.len() as int;
    let l = b.labels@.len() as int;
    let end_pos = b2.insns@.len() as int;
    &&& extends(b, b2)
    &&& b2.wf()
    &&& end_pos >= k + 2
    &&& b2.labels@.len() >= l + 3
    &&& b2.labels@[l] == Some((k + 1) as usize)
    &&& b2.labels@[l + 1] == Some((end_pos - 1) as usize)
    &&& b2.labels@[l + 2] == Some(end_pos as usize)
    &&& is_loop_entry(b2.insns@[k]) && loop_entry_target(b2.insns@[k]).0 == l + 2
    &&& forall|j: int|
        k < j < end_pos ==> !(is_loop_entry(#[trigger] b2.insns@[j]) && loop_entry_target(
            b2.insns@[j],
        ).0 == l + 2)
    &&& is_loop_step(b2.insns@[end_pos - 1]) && loop_step_target(b2.insns@[end_pos - 1]).0 == l
    &&& forall|j: int|
        k <= j < end_pos - 1 ==> !(is_loop_step(#[trigger] b2.insns@[j]) && loop_step_target(
            b2.insns@[j],
        ).0 == l)
    &&& loop_local(b2.insns@, k, l)
    &&& forall|i: int| 0 <= i < l ==> b2.labels@[i] == b.labels@[i]
    &&& forall|i: int| l <= i < b2.labels@.len() ==> (#[trigger] b2.labels@[i]) is Some
}

/// Emit one loop of the given style around `body`.
///
/// The emission order is fixed: entry instruction, bind `start`, body,
/// bind `next`, step instruction, bind `end`.  An error raised by the
/// body short-circuits: nothing further is appended and no builder is
/// returned.
pub fn generic_loop<F: FnOnce(ProgramBuilder, LoopContext) -> Result<
    ProgramBuilder,
    TranslateError,
>>(b: ProgramBuilder, cursor: Cursor, style: LoopStyle, body: F) -> (r: Result<
    ProgramBuilder,
    TranslateError,
>)
    requires
        b.wf(),
        cursor.0 < b.next_cursor,
        b.labels@.len() + 3 <= u32::MAX,
        forall|bi: ProgramBuilder, ctx: LoopContext|
            bi.wf() && body_ctx_wf(bi, ctx) && loop_entry_state(
                b,
                bi,
                ctx,
                cursor,
                style_entry(style, cursor, Label((b.labels@.len() + 2) as u32)),
            ) ==> #[trigger] call_requires(body, (bi, ctx)),
        forall|bi: ProgramBuilder, ctx: LoopContext, ro: Result<ProgramBuilder, TranslateError>|
            #[trigger] call_ensures(body, (bi, ctx), ro) ==> (ro matches Ok(bo)
                ==> loop_body_post(bi, bo, ctx)),
    ensures
        (forall|bi: ProgramBuilder, ctx2: LoopContext, ro2: Result<ProgramBuilder, TranslateError>|
            #[trigger] call_ensures(body, (bi, ctx2), ro2) ==> ro2 is Ok) ==> r is Ok,
        r matches Ok(b2) ==> {
            &&& loop_frame_post(b, b2)
            &&& b2.insns@[b.insns@.len() as int] == style_entry(
                style,
                cursor,
                Label((b.labels@.len() + 2) as u32),
            )
            &&& b2.insns@[b2.insns@.len() - 1] == style_step(
                style,
                cursor,
                Label(b.labels@.len() as u32),
            )
        },
        r matches Ok(b2) ==> (exists|bi: ProgramBuilder, bo: ProgramBuilder|
            {
                &&& loop_entry_state(
                    b,
                    bi,
                    canonical_ctx(b, cursor),
                    cursor,
                    style_entry(style, cursor, Label((b.labels@.len() + 2) as u32)),
                )
                &&& #[trigger] call_ensures(body, (bi, canonical_ctx(b, cursor)), Ok(bo))
                &&& b2.insns@ == bo.insns@.push(
                    style_step(style, cursor, Label(b.labels@.len() as u32)),
                )
                &&& b2.labels@ == bo.labels@.update(
                    b.labels@.len() as int + 1,
                    Some(bo.insns@.len() as usize),
                ).update(b.labels@.len() as int + 2, Some((bo.insns@.len() + 1) as usize))
            }),
{
    let ghost b0 = b;
    let mut b = b;
    let labels = crate::builder::alloc_loop_labels(&mut b);
    let ctx = LoopContext { cursor, labels };
    let entry = match style {
        LoopStyle::Forward => Insn::Rewind { cursor, if_empty: labels.end },
        LoopStyle::Reverse => Insn::Last { cursor, if_empty: labels.end },
        LoopStyle::Sorter => Insn::SorterSort { cursor, if_empty: labels.end },
    };
    b.emit_insn(entry);
    let resolved_start = b.resolve_label(labels.start);
    match resolved_start {
        Err(e) => {
            proof {
                assert(false);
            }
            Err(e)
        },
        Ok(()) => {
            let ghost b1 = b;
            proof {
                assert(b1.labels@ =~= b0.labels@.push(
                    Some((b0.insns@.len() + 1) as usize),
                ).push(None).push(None));
                assert(loop_entry_state(
                    b0,
                    b1,
                    ctx,
                    cursor,
                    style_entry(style, cursor, Label((b0.labels@.len() + 2) as u32)),
                ));
                assert(body_ctx_wf(b1, ctx));
            }
            let ro = body(b, ctx);
            match ro {
                Err(e) => Err(e),
                Ok(bo) => {
                    let ghost bov = bo;
                    proof {
                        assert(block_emitted(b1, bov));
                        assert(bov.labels@[ctx.labels.next.0 as int] == b1.labels@[ctx.labels.next.0 as int]);
                        assert(bov.labels@[ctx.labels.end.0 as int] == b1.labels@[ctx.labels.end.0 as int]);
                    }
                    let mut b = bo;
                    let resolved_next = b.resolve_label(labels.next);
                    match resolved_next {
                        Err(e) => {
                            proof {
                                assert(false);
                            }
                            Err(e)
                        },
                        Ok(()) => {
                            let step = match style {
                                LoopStyle::Forward => Insn::Next {
                                    cursor,
                                    if_next: labels.start,
                                },
                                LoopStyle::Reverse => Insn::Prev {
                                    cursor,
                                    if_prev: labels.start,
                                },
                                LoopStyle::Sorter => Insn::SorterNext {
                                    cursor,
                                    if_next: labels.start,
                                },
                            };
                            b.emit_insn(step);
                            let resolved_end = b.resolve_label(labels.end);
                            match resolved_end {
                                Err(e) => {
                                    proof {
                                        assert(false);
                                    }
                                    Err(e)
                                },
                                Ok(()) => {
                                    proof {
                                        lemma_loop_frame(b0, b1, bov, b, ctx, cursor, style);
                                        assert(ctx == canonical_ctx(b0, cursor));
                                    }
                                    Ok(b)
                                },
                            }
                        },
                    }
                },
            }
        },
    }
}

/// The assembled facts behind [`loop_frame_post`]: given the body's
/// promise, the finished emission has the loop shape.
proof fn lemma_loop_frame(
    b0: ProgramBuilder,
    b1: ProgramBuilder,
    bo: ProgramBuilder,
    b2: ProgramBuilder,
    ctx: LoopContext,
    cursor: Cursor,
    style: LoopStyle,
)
    requires
        b0.wf(),
        cursor.0 < b0.next_cursor,
        b0.labels@.len() + 3 <= u32::MAX,
        loop_entry_state(
            b0,
            b1,
            ctx,
            cursor,
            style_entry(style, cursor, Label((b0.labels@.len() + 2) as u32)),
        ),
        loop_body_post(b1, bo, ctx),
        b2.insns@ == bo.insns@.push(style_step(style, cursor, Label(b0.labels@.len() as u32))),
        b2.labels@ == bo.labels@.update(
            ctx.labels.next.0 as int,
            Some(bo.insns@.len() as usize),
        ).update(ctx.labels.end.0 as int, Some((bo.insns@.len() + 1) as usize)),
        b2.next_register == bo.next_register,
        b2.next_cursor == bo.next_cursor,
        b2.next_hash_table == bo.next_hash_table,
        b2.cursors@ == bo.cursors@,
        b2.nested == bo.nested,
        b2.change_count_on == bo.change_count_on,
        b2.wf(),
    ensures
        loop_frame_post(b0, b2),
        b2.insns@[b0.insns@.len() as int] == style_entry(
            style,
            cursor,
            Label((b0.labels@.len() + 2) as u32),
        ),
        b2.insns@[b2.insns@.len() - 1] == style_step(
            style,
            cursor,
            Label(b0.labels@.len() as u32),
        ),
{
    let k = b0.insns@.len() as int;
    let l = b0.labels@.len() as int;
    let end_pos = b2.insns@.len() as int;
    assert(end_pos == bo.insns@.len() + 1);
    // The prefix relations between the four snapshots.
    assert(extends(b0, b1)) by {
        assert(b1.insns@.subrange(0, k) =~= b0.insns@);
    }
    assert(b2.insns@.subrange(0, bo.insns@.len() as int) =~= bo.insns@);
    assert(extends(b0, bo)) by {
        lemma_extends_trans(b0, b1, bo);
    }
    assert(extends(bo, b2));
    assert(extends(b0, b2)) by {
        lemma_extends_trans(b0, bo, b2);
    }
    // The entry instruction sits at k.
    assert(b1.insns@[k] == style_entry(style, cursor, Label((l + 2) as u32)));
    assert(bo.insns@[k] == bo.insns@.subrange(0, b1.insns@.len() as int)[k]);
    assert(b2.insns@[k] == style_entry(style, cursor, Label((l + 2) as u32)));
    // The step instruction sits last.
    assert(b2.insns@[end_pos - 1] == style_step(style, cursor, Label(l as u32)));
    // Label bindings.
    assert(b2.labels@[l] == Some((k + 1) as usize)) by {
        assert(b1.labels@[l] == Some((k + 1) as usize));
        assert(bo.labels@[l] == Some((k + 1) as usize));
    }
    assert(b2.labels@[l + 1] == Some((end_pos - 1) as usize));
    assert(b2.labels@[l + 2] == Some(end_pos as usize));
    // Locality of everything appended since b0.
    assert(loop_local(b2.insns@, k, l)) by {
        assert forall|j: int| k <= j < end_pos implies ((is_loop_entry(#[trigger] b2.insns@[j])
            ==> loop_entry_target(b2.insns@[j]).0 >= l) && (is_loop_step(b2.insns@[j])
            ==> loop_step_target(b2.insns@[j]).0 >= l)) by {
            if j == k {
            } else if j == end_pos - 1 {
            } else {
                assert(b2.insns@[j] == bo.insns@[j]);
                assert(loop_local(bo.insns@, b1.insns@.len() as int, b1.labels@.len() as int));
                assert(k + 1 <= j < bo.insns@.len());
            }
        }
    }
    // Uniqueness of the entry targeting `end`.
    assert forall|j: int| k < j < end_pos implies !(is_loop_entry(#[trigger] b2.insns@[j])
        && loop_entry_target(b2.insns@[j]).0 == l + 2) by {
        if j < end_pos - 1 {
            assert(b2.insns@[j] == bo.insns@[j]);
            if is_loop_entry(bo.insns@[j]) {
                assert(loop_entry_target(bo.insns@[j]).0 >= l + 3);
            }
        }
    }
    // Uniqueness of the step targeting `start`.
    assert forall|j: int| k <= j < end_pos - 1 implies !(is_loop_step(#[trigger] b2.insns@[j])
        && loop_step_target(b2.insns@[j]).0 == l) by {
        if j > k {
            assert(b2.insns@[j] == bo.insns@[j]);
            if is_loop_step(bo.insns@[j]) {
                assert(loop_step_target(bo.insns@[j]).0 >= l + 3);
            }
        }
    }
}

/// Canonical forward scan: Rewind, bind `start`, body, bind `next`,
/// Next, bind `end`.
pub fn for_each<F: FnOnce(ProgramBuilder, LoopContext) -> Result<
    ProgramBuilder,
    TranslateError,
>>(b: ProgramBuilder, cursor: Cursor, body: F) -> (r: Result<ProgramBuilder, TranslateError>)
    requires
        b.wf(),
        cursor.0 < b.next_cursor,
        b.labels@.len() + 3 <= u32::MAX,
        forall|bi: ProgramBuilder, ctx: LoopContext|
            bi.wf() && body_ctx_wf(bi, ctx) && loop_entry_state(
                b,
                bi,
                ctx,
                cursor,
                Insn::Rewind { cursor, if_empty: Label((b.labels@.len() + 2) as u32) },
            ) ==> #[trigger] call_requires(body, (bi, ctx)),
        forall|bi: ProgramBuilder, ctx: LoopContext, ro: Result<ProgramBuilder, TranslateError>|
            #[trigger] call_ensures(body, (bi, ctx), ro) ==> (ro matches Ok(bo)
                ==> loop_body_post(bi, bo, ctx)),
    ensures
        (forall|bi: ProgramBuilder, ctx2: LoopContext, ro2: Result<ProgramBuilder, TranslateError>|
            #[trigger] call_ensures(body, (bi, ctx2), ro2) ==> ro2 is Ok) ==> r is Ok,
        r matches Ok(b2) ==> {
            &&& loop_frame_post(b, b2)
            &&& b2.insns@[b.insns@.len() as int] == (Insn::Rewind {
                cursor,
                if_empty: Label((b.labels@.len() + 2) as u32),
            })
            &&& b2.insns@[b2.insns@.len() - 1] == (Insn::Next {
                cursor,
                if_next: Label(b.labels@.len() as u32),
            })
        },
        r matches Ok(b2) ==> (exists|bi: ProgramBuilder, bo: ProgramBuilder|
            {
                &&& loop_entry_state(
                    b,
                    bi,
                    canonical_ctx(b, cursor),
                    cursor,
                    Insn::Rewind { cursor, if_empty: Label((b.labels@.len() + 2) as u32) },
                )
                &&& #[trigger] call_ensures(body, (bi, canonical_ctx(b, cursor)), Ok(bo))
                &&& b2.insns@ == bo.insns@.push(
                    Insn::Next { cursor, if_next: Label(b.labels@.len() as u32) },
                )
                &&& b2.labels@ == bo.labels@.update(
                    b.labels@.len() as int + 1,
                    Some(bo.insns@.len() as usize),
                ).update(b.labels@.len() as int + 2, Some((bo.insns@.len() + 1) as usize))
            }),
{
    generic_loop(b, cursor, LoopStyle::Forward, body)
}

/// Mirror scan from the last row backwards: Last, bind `start`, body,
/// bind `next`, Prev, bind `end`.
pub fn for_each_rev<F: FnOnce(ProgramBuilder, LoopContext) -> Result<
    ProgramBuilder,
    TranslateError,
>>(b: ProgramBuilder, cursor: Cursor, body: F) -> (r: Result<ProgramBuilder, TranslateError>)
    requires
        b.wf(),
        cursor.0 < b.next_cursor,
        b.labels@.len() + 3 <= u32::MAX,
        forall|bi: ProgramBuilder, ctx: LoopContext|
            bi.wf() && body_ctx_wf(bi, ctx) && loop_entry_state(
                b,
                bi,
                ctx,
                cursor,
                Insn::Last { cursor, if_empty: Label((b.labels@.len() + 2) as u32) },
            ) ==> #[trigger] call_requires(body, (bi, ctx)),
        forall|bi: ProgramBuilder, ctx: LoopContext, ro: Result<ProgramBuilder, TranslateError>|
            #[trigger] call_ensures(body, (bi, ctx), ro) ==> (ro matches Ok(bo)
                ==> loop_body_post(bi, bo, ctx)),
    ensures
        (forall|bi: ProgramBuilder, ctx2: LoopContext, ro2: Result<ProgramBuilder, TranslateError>|
            #[trigger] call_ensures(body, (bi, ctx2), ro2) ==> ro2 is Ok) ==> r is Ok,
        r matches Ok(b2) ==> {
            &&& loop_frame_post(b, b2)
            &&& b2.insns@[b.insns@.len() as int] == (Insn::Last {
                cursor,
                if_empty: Label((b.labels@.len() + 2) as u32),
            })
            &&& b2.insns@[b2.insns@.len() - 1] == (Insn::Prev {
                cursor,
                if_prev: Label(b.labels@.len() as u32),
            })
        },
{
    generic_loop(b, cursor, LoopStyle::Reverse, body)
}

/// Sorted-output loop: SorterSort, bind `start`, body, bind `next`,
/// SorterNext, bind `end`.
pub fn sorter_loop<F: FnOnce(ProgramBuilder, LoopContext) -> Result<
    ProgramBuilder,
    TranslateError,
>>(b: ProgramBuilder, cursor: Cursor, body: F) -> (r: Result<ProgramBuilder, TranslateError>)
    requires
        b.wf(),
        cursor.0 < b.next_cursor,
        b.labels@.len() + 3 <= u32::MAX,
        forall|bi: ProgramBuilder, ctx: LoopContext|
            bi.wf() && body_ctx_wf(bi, ctx) && loop_entry_state(
                b,
                bi,
                ctx,
                cursor,
                Insn::SorterSort { cursor, if_empty: Label((b.labels@.len() + 2) as u32) },
            ) ==> #[trigger] call_requires(body, (bi, ctx)),
        forall|bi: ProgramBuilder, ctx: LoopContext, ro: Result<ProgramBuilder, TranslateError>|
            #[trigger] call_ensures(body, (bi, ctx), ro) ==> (ro matches Ok(bo)
                ==> loop_body_post(bi, bo, ctx)),
    ensures
        (forall|bi: ProgramBuilder, ctx2: LoopContext, ro2: Result<ProgramBuilder, TranslateError>|
            #[trigger] call_ensures(body, (bi, ctx2), ro2) ==> ro2 is Ok) ==> r is Ok,
        r matches Ok(b2) ==> {
            &&& loop_frame_post(b, b2)
            &&& b2.insns@[b.insns@.len() as int] == (Insn::SorterSort {
                cursor,
                if_empty: Label((b.labels@.len() + 2) as u32),
            })
            &&& b2.insns@[b2.insns@.len() - 1] == (Insn::SorterNext {
                cursor,
                if_next: Label(b.labels@.len() as u32),
            })
        },
{
    generic_loop(b, cursor, LoopStyle::Sorter, body)
}

/// Emit the canonical join scan: a forward scan of the outer cursor
/// whose body is a forward scan of the inner cursor around `body`.
/// There is no special-cased join emission: this is one loop inside
/// another, and the resulting frame is exactly the outer loop's.
pub fn nested_loop<F: FnOnce(ProgramBuilder, LoopContext, LoopContext) -> Result<
    ProgramBuilder,
    TranslateError,
>>(b: ProgramBuilder, outer: Cursor, inner: Cursor, body: F) -> (r: Result<
    ProgramBuilder,
    TranslateError,
>)
    requires
        b.wf(),
        outer.0 < b.next_cursor,
        inner.0 < b.next_cursor,
        b.labels@.len() + 6 <= u32::MAX,
        forall|bi: ProgramBuilder, oc: LoopContext, ic: LoopContext|
            bi.wf() && body_ctx_wf(bi, oc) && body_ctx_wf(bi, ic) ==> #[trigger] call_requires(
                body,
                (bi, oc, ic),
            ),
        forall|bi: ProgramBuilder, oc: LoopContext, ic: LoopContext, ro: Result<
            ProgramBuilder,
            TranslateError,
        >|
            #[trigger] call_ensures(body, (bi, oc, ic), ro) ==> (ro matches Ok(bo)
                ==> block_emitted(bi, bo)),
    ensures
        (forall|bi: ProgramBuilder, oc: LoopContext, ic: LoopContext, ro2: Result<
            ProgramBuilder,
            TranslateError,
        >|
            #[trigger] call_ensures(body, (bi, oc, ic), ro2) ==> ro2 is Ok) ==> r is Ok,
        r matches Ok(b2) ==> loop_frame_post(b, b2),
        r matches Ok(b2) ==> b2.insns@[b.insns@.len() as int] == (Insn::Rewind {
            cursor: outer,
            if_empty: Label((b.labels@.len() + 2) as u32),
        }),
        r matches Ok(b2) ==> {
            let k = b.insns@.len() as int;
            let l = b.labels@.len() as int;
            let end_pos = b2.insns@.len() as int;
            &&& end_pos >= k + 4
            &&& b2.insns@[k + 1] == (Insn::Rewind {
                cursor: inner,
                if_empty: Label((l + 5) as u32),
            })
            &&& b2.insns@[end_pos - 2] == (Insn::Next {
                cursor: inner,
                if_next: Label((l + 3) as u32),
            })
            &&& b2.labels@[l + 3] == Some((k + 2) as usize)
            &&& b2.labels@[l + 4] == Some((end_pos - 2) as usize)
            &&& b2.labels@[l + 5] == Some((end_pos - 1) as usize)
        },
{
    let outer_body = |bb: ProgramBuilder, octx: LoopContext| -> (ro: Result<
        ProgramBuilder,
        TranslateError,
    >)
        requires
            bb.wf(),
            body_ctx_wf(bb, octx),
            inner.0 < bb.next_cursor,
            bb.labels@.len() + 3 <= u32::MAX,
            forall|bi: ProgramBuilder, oc: LoopContext, ic: LoopContext|
                bi.wf() && body_ctx_wf(bi, oc) && body_ctx_wf(bi, ic) ==> #[trigger] call_requires(
                    body,
                    (bi, oc, ic),
                ),
            forall|bi: ProgramBuilder, oc: LoopContext, ic: LoopContext, ro2: Result<
                ProgramBuilder,
                TranslateError,
            >|
                #[trigger] call_ensures(body, (bi, oc, ic), ro2) ==> (ro2 matches Ok(bo)
                    ==> block_emitted(bi, bo)),
        ensures
            ro matches Ok(bo) ==> block_emitted(bb, bo),
            ro matches Ok(bo) ==> {
                &&& bo.insns@.len() >= bb.insns@.len() + 2
                &&& bo.labels@.len() >= bb.labels@.len() + 3
                &&& bo.insns@[bb.insns@.len() as int] == (Insn::Rewind {
                    cursor: inner,
                    if_empty: Label((bb.labels@.len() + 2) as u32),
                })
                &&& bo.insns@[bo.insns@.len() - 1] == (Insn::Next {
                    cursor: inner,
                    if_next: Label(bb.labels@.len() as u32),
                })
                &&& bo.labels@[bb.labels@.len() as int] == Some(
                    (bb.insns@.len() + 1) as usize,
                )
                &&& bo.labels@[bb.labels@.len() as int + 1] == Some(
                    (bo.insns@.len() - 1) as usize,
                )
                &&& bo.labels@[bb.labels@.len() as int + 2] == Some(bo.insns@.len() as usize)
            },
            (forall|bi: ProgramBuilder, oc: LoopContext, ic: LoopContext, ro3: Result<
                ProgramBuilder,
                TranslateError,
            >|
                #[trigger] call_ensures(body, (bi, oc, ic), ro3) ==> ro3 is Ok) ==> ro is Ok,
        {
            let inner_body = |bb2: ProgramBuilder, ictx: LoopContext| -> (ro2: Result<
                ProgramBuilder,
                TranslateError,
            >)
                requires
                    bb2.wf(),
                    body_ctx_wf(bb2, octx),
                    body_ctx_wf(bb2, ictx),
                    forall|bi: ProgramBuilder, oc: LoopContext, ic: LoopContext|
                        bi.wf() && body_ctx_wf(bi, oc) && body_ctx_wf(bi, ic)
                            ==> #[trigger] call_requires(body, (bi, oc, ic)),
                    forall|bi: ProgramBuilder, oc: LoopContext, ic: LoopContext, ro3: Result<
                        ProgramBuilder,
                        TranslateError,
                    >|
                        #[trigger] call_ensures(body, (bi, oc, ic), ro3) ==> (ro3 matches Ok(
                        bo) ==> block_emitted(bi, bo)),
                ensures
                    ro2 matches Ok(bo2) ==> block_emitted(bb2, bo2),
                    (forall|bi: ProgramBuilder, oc: LoopContext, ic: LoopContext, ro4: Result<
                        ProgramBuilder,
                        TranslateError,
                    >|
                        #[trigger] call_ensures(body, (bi, oc, ic), ro4) ==> ro4 is Ok)
                        ==> ro2 is Ok,
                {
                    body(bb2, octx, ictx)
                };
            let r = for_each(bb, inner, inner_body);
            proof {
                if forall|bi: ProgramBuilder, oc: LoopContext, ic: LoopContext, ro3: Result<
                    ProgramBuilder,
                    TranslateError,
                >|
                    #[trigger] call_ensures(body, (bi, oc, ic), ro3) ==> ro3 is Ok {
                    assert forall|bi2: ProgramBuilder, c2: LoopContext, rr: Result<
                        ProgramBuilder,
                        TranslateError,
                    >|
                        #[trigger] call_ensures(inner_body, (bi2, c2), rr) implies rr
                        is Ok by {}
                }
            }
            match r {
                Ok(bo) => {
                    proof {
                        assert(loop_frame_post(bb, bo));
                    }
                    Ok(bo)
                },
                Err(e) => Err(e),
            }
        };
    let ghost b0 = b;
    let r = for_each(b, outer, outer_body);
    proof {
        if forall|bi: ProgramBuilder, oc: LoopContext, ic: LoopContext, ro2: Result<
            ProgramBuilder,
            TranslateError,
        >|
            #[trigger] call_ensures(body, (bi, oc, ic), ro2) ==> ro2 is Ok {
            assert forall|bi2: ProgramBuilder, c2: LoopContext, rr: Result<
                ProgramBuilder,
                TranslateError,
            >|
                #[trigger] call_ensures(outer_body, (bi2, c2), rr) implies rr is Ok by {}
        }
        if r is Ok {
            let b2 = r->Ok_0;
            let (bi, bo): (ProgramBuilder, ProgramBuilder) = choose|
                bi: ProgramBuilder,
                bo: ProgramBuilder,
            |
                {
                    &&& loop_entry_state(
                        b0,
                        bi,
                        canonical_ctx(b0, outer),
                        outer,
                        Insn::Rewind {
                            cursor: outer,
                            if_empty: Label((b0.labels@.len() + 2) as u32),
                        },
                    )
                    &&& #[trigger] call_ensures(outer_body, (bi, canonical_ctx(b0, outer)), Ok(bo))
                    &&& b2.insns@ == bo.insns@.push(
                        Insn::Next { cursor: outer, if_next: Label(b0.labels@.len() as u32) },
                    )
                    &&& b2.labels@ == bo.labels@.update(
                        b0.labels@.len() as int + 1,
                        Some(bo.insns@.len() as usize),
                    ).update(b0.labels@.len() as int + 2, Some((bo.insns@.len() + 1) as usize))
                };
            let k = b0.insns@.len() as int;
            let l = b0.labels@.len() as int;
            let end_pos = b2.insns@.len() as int;
            assert(bi.insns@.len() == k + 1);
            assert(bi.labels@.len() == l + 3);
            assert(bo.labels@.len() >= l + 6);
            assert(bo.insns@[k + 1] == (Insn::Rewind {
                cursor: inner,
                if_empty: Label((l + 5) as u32),
            }));
            assert(b2.insns@[k + 1] == bo.insns@[k + 1]);
            assert(b2.insns@[end_pos - 2] == bo.insns@[bo.insns@.len() - 1]);
            assert(b2.labels@[l + 3] == bo.labels@[l + 3]);
            assert(b2.labels@[l + 4] == bo.labels@[l + 4]);
            assert(b2.labels@[l + 5] == bo.labels@[l + 5]);
        }
    }
    r
}

/// The branch instruction guarding a block that may be skipped.
#[derive(Debug, Clone, Copy, PartialEq, Eq, Structural)]
pub enum GuardKind {
    /// Run the block only the first time control arrives.
    OnceOnly,
    /// Run the block when the register is true.
    WhenTrue(Reg),
    /// Run the block when the register is false.
    WhenFalse(Reg),
    /// Skip the block when the register is NULL.
    UnlessNull(Reg),
    /// Skip the block when the register is not NULL.
    UnlessNotNull(Reg),
}

/// The instruction that jumps past a guarded block.
pub open spec fn guard_insn(k: GuardKind, target: Label) -> Insn {
    match k {
        GuardKind::OnceOnly => Insn::Once { target },
        GuardKind::WhenTrue(reg) => Insn::IfNot { reg, target, jump_if_null: true },
        GuardKind::WhenFalse(reg) => Insn::If { reg, target, jump_if_null: false },
        GuardKind::UnlessNull(reg) => Insn::IsNull { reg, target },
        GuardKind::UnlessNotNull(reg) => Insn::NotNull { reg, target },
    }
}

/// The register a guard tests, if any.
pub open spec fn guard_reg(k: GuardKind) -> Option<Reg> {
    match k {
        GuardKind::OnceOnly => None,
        GuardKind::WhenTrue(reg) => Some(reg),
        GuardKind::WhenFalse(reg) => Some(reg),
        GuardKind::UnlessNull(reg) => Some(reg),
        GuardKind::UnlessNotNull(reg) => Some(reg),
    }
}

/// Exactly the builder state a guard hands its body: the branch
/// instruction has been appended and the skip label allocated,
/// unresolved.
pub open spec fn guard_entry_state(
    b: ProgramBuilder,
    bi: ProgramBuilder,
    skip: Label,
    kind: GuardKind,
) -> bool {
    &&& bi.insns@ == b.insns@.push(guard_insn(kind, skip))
    &&& bi.labels@ == b.labels@.push(None)
    &&& bi.next_register == b.next_register
    &&& bi.next_cursor == b.next_cursor
    &&& bi.next_hash_table == b.next_hash_table
    &&& bi.cursors@ == b.cursors@
    &&& bi.nested == b.nested
    &&& bi.change_count_on == b.change_count_on
    &&& skip.0 == b.labels@.len()
}

/// What a block body promises: a well-formed extension that leaves the
/// given labels unbound and whose appended loop entries and steps only
/// target labels of frames opened inside it.
pub open spec fn block_body_post(
    bi: ProgramBuilder,
    bo: ProgramBuilder,
    pending1: Label,
    pending2: Label,
) -> bool {
    block_emitted(bi, bo)
}

/// What a guard emission leaves behind: the branch instruction at the
/// old position `k`, targeting the fresh skip label, which is bound to
/// the first instruction after the block.
pub open spec fn guard_frame_post(
    b: ProgramBuilder,
    b2: ProgramBuilder,
    kind: GuardKind,
) -> bool {
    let k = b.insns@.len() as int;
    let l = b.labels@.len() as int;
    &&& extends(b, b2)
    &&& b2.wf()
    &&& b2.insns@.len() >= k + 1
    &&& b2.labels@.len() >= l + 1
    &&& b2.insns@[k] == guard_insn(kind, Label(l as u32))
    &&& b2.labels@[l] == Some(b2.insns@.len() as usize)
    &&& loop_local(b2.insns@, k, l)
    &&& forall|i: int| 0 <= i < l ==> b2.labels@[i] == b.labels@[i]
    &&& forall|i: int| l <= i < b2.labels@.len() ==> (#[trigger] b2.labels@[i]) is Some
}

/// Emit a guarded block: the branch instruction of `kind`, the body,
/// then the skip label bound to the next position.
pub fn guarded_block<F: FnOnce(ProgramBuilder) -> Result<ProgramBuilder, TranslateError>>(
    b: ProgramBuilder,
    kind: GuardKind,
    body: F,
) -> (r: Result<ProgramBuilder, TranslateError>)
    requires
        b.wf(),
        b.labels@.len() + 1 <= u32::MAX,
        guard_reg(kind) matches Some(reg) ==> 0 < reg.0 < b.next_register,
        forall|bi: ProgramBuilder|
            bi.wf() && guard_entry_state(b, bi, Label(b.labels@.len() as u32), kind)
                ==> #[trigger] call_requires(body, (bi,)),
        forall|bi: ProgramBuilder, ro: Result<ProgramBuilder, TranslateError>|
            #[trigger] call_ensures(body, (bi,), ro) ==> (ro matches Ok(bo) ==> block_body_post(
                bi,
                bo,
                Label(b.labels@.len() as u32),
                Label(b.labels@.len() as u32),
            )),
    ensures
        (forall|bi: ProgramBuilder, ro2: Result<ProgramBuilder, TranslateError>|
            #[trigger] call_ensures(body, (bi,), ro2) ==> ro2 is Ok) ==> r is Ok,
        r matches Ok(b2) ==> guard_frame_post(b, b2, kind),
{
    let ghost b0 = b;
    let mut b = b;
    let skip = b.allocate_label();
    let branch = match kind {
        GuardKind::OnceOnly => Insn::Once { target: skip },
        GuardKind::WhenTrue(reg) => Insn::IfNot { reg, target: skip, jump_if_null: true },
        GuardKind::WhenFalse(reg) => Insn::If { reg, target: skip, jump_if_null: false },
        GuardKind::UnlessNull(reg) => Insn::IsNull { reg, target: skip },
        GuardKind::UnlessNotNull(reg) => Insn::NotNull { reg, target: skip },
    };
    b.emit_insn(branch);
    let ghost b1 = b;
    proof {
        assert(guard_entry_state(b0, b1, skip, kind));
    }
    let ro = body(b);
    match ro {
        Err(e) => Err(e),
        Ok(bo) => {
            let ghost bov = bo;
            proof {
                assert(block_emitted(b1, bov));
                assert(bov.labels@[skip.0 as int] == b1.labels@[skip.0 as int]);
            }
            let mut b = bo;
            let resolved = b.resolve_label(skip);
            match resolved {
                Err(e) => {
                    proof {
                        assert(false);
                    }
                    Err(e)
                },
                Ok(()) => {
                    proof {
                        assert(block_emitted(b1, bov));
                        assert(extends(b0, b1));
                        lemma_extends_trans(b0, b1, bov);
                        lemma_extends_trans(b0, bov, *&b);
                        assert forall|i: int| 0 <= i < b0.labels@.len() implies b.labels@[i]
                            == b0.labels@[i] by {
                            assert(bov.labels@[i] == b1.labels@[i]);
                        }
                        assert forall|i: int|
                            b0.labels@.len() <= i < b.labels@.len() implies (
                        #[trigger] b.labels@[i]) is Some by {
                            if i > b0.labels@.len() {
                                assert(bov.labels@[i] is Some);
                            }
                        }
                        let k = b0.insns@.len() as int;
                        let l = b0.labels@.len() as int;
                        assert(b.insns@[k] == b1.insns@[k]);
                        assert(loop_local(b.insns@, k, l)) by {
                            assert forall|j: int| k <= j < b.insns@.len() implies ((
                            is_loop_entry(#[trigger] b.insns@[j]) ==> loop_entry_target(
                                b.insns@[j],
                            ).0 >= l) && (is_loop_step(b.insns@[j]) ==> loop_step_target(
                                b.insns@[j],
                            ).0 >= l)) by {
                                if j > k {
                                    assert(b.insns@[j] == bov.insns@[j]);
                                    assert(loop_local(
                                        bov.insns@,
                                        b1.insns@.len() as int,
                                        b1.labels@.len() as int,
                                    ));
                                }
                            }
                        }
                    }
                    Ok(b)
                },
            }
        },
    }
}

/// Guard a block with the one-shot Once instruction: the block runs only
/// the first time control reaches it, afterwards it is jumped over.
pub fn once<F: FnOnce(ProgramBuilder) -> Result<ProgramBuilder, TranslateError>>(
    b: ProgramBuilder,
    body: F,
) -> (r: Result<ProgramBuilder, TranslateError>)
    requires
        b.wf(),
        b.labels@.len() + 1 <= u32::MAX,
        forall|bi: ProgramBuilder|
            bi.wf() && guard_entry_state(
                b,
                bi,
                Label(b.labels@.len() as u32),
                GuardKind::OnceOnly,
            ) ==> #[trigger] call_requires(body, (bi,)),
        forall|bi: ProgramBuilder, ro: Result<ProgramBuilder, TranslateError>|
            #[trigger] call_ensures(body, (bi,), ro) ==> (ro matches Ok(bo) ==> block_body_post(
                bi,
                bo,
                Label(b.labels@.len() as u32),
                Label(b.labels@.len() as u32),
            )),
    ensures
        (forall|bi: ProgramBuilder, ro2: Result<ProgramBuilder, TranslateError>|
            #[trigger] call_ensures(body, (bi,), ro2) ==> ro2 is Ok) ==> r is Ok,
        r matches Ok(b2) ==> guard_frame_post(b, b2, GuardKind::OnceOnly),
{
    guarded_block(b, GuardKind::OnceOnly, body)
}

/// Run the block only when the condition register holds a true value.
pub fn when_true<F: FnOnce(ProgramBuilder) -> Result<ProgramBuilder, TranslateError>>(
    b: ProgramBuilder,
    condition_reg: Reg,
    body: F,
) -> (r: Result<ProgramBuilder, TranslateError>)
    requires
        b.wf(),
        b.labels@.len() + 1 <= u32::MAX,
        0 < condition_reg.0 < b.next_register,
        forall|bi: ProgramBuilder|
            bi.wf() && guard_entry_state(
                b,
                bi,
                Label(b.labels@.len() as u32),
                GuardKind::WhenTrue(condition_reg),
            ) ==> #[trigger] call_requires(body, (bi,)),
        forall|bi: ProgramBuilder, ro: Result<ProgramBuilder, TranslateError>|
            #[trigger] call_ensures(body, (bi,), ro) ==> (ro matches Ok(bo) ==> block_body_post(
                bi,
                bo,
                Label(b.labels@.len() as u32),
                Label(b.labels@.len() as u32),
            )),
    ensures
        (forall|bi: ProgramBuilder, ro2: Result<ProgramBuilder, TranslateError>|
            #[trigger] call_ensures(body, (bi,), ro2) ==> ro2 is Ok) ==> r is Ok,
        r matches Ok(b2) ==> guard_frame_post(b, b2, GuardKind::WhenTrue(condition_reg)),
{
    guarded_block(b, GuardKind::WhenTrue(condition_reg), body)
}

/// Run the block only when the condition register holds a false value.
pub fn when_false<F: FnOnce(ProgramBuilder) -> Result<ProgramBuilder, TranslateError>>(
    b: ProgramBuilder,
    condition_reg: Reg,
    body: F,
) -> (r: Result<ProgramBuilder, TranslateError>)
    requires
        b.wf(),
        b.labels@.len() + 1 <= u32::MAX,
        0 < condition_reg.0 < b.next_register,
        forall|bi: ProgramBuilder|
            bi.wf() && guard_entry_state(
                b,
                bi,
                Label(b.labels@.len() as u32),
                GuardKind::WhenFalse(condition_reg),
            ) ==> #[trigger] call_requires(body, (bi,)),
        forall|bi: ProgramBuilder, ro: Result<ProgramBuilder, TranslateError>|
            #[trigger] call_ensures(body, (bi,), ro) ==> (ro matches Ok(bo) ==> block_body_post(
                bi,
                bo,
                Label(b.labels@.len() as u32),
                Label(b.labels@.len() as u32),
            )),
    ensures
        (forall|bi: ProgramBuilder, ro2: Result<ProgramBuilder, TranslateError>|
            #[trigger] call_ensures(body, (bi,), ro2) ==> ro2 is Ok) ==> r is Ok,
        r matches Ok(b2) ==> guard_frame_post(b, b2, GuardKind::WhenFalse(condition_reg)),
{
    guarded_block(b, GuardKind::WhenFalse(condition_reg), body)
}

/// Skip the block when the register is NULL.
pub fn skip_if_null<F: FnOnce(ProgramBuilder) -> Result<ProgramBuilder, TranslateError>>(
    b: ProgramBuilder,
    reg: Reg,
    body: F,
) -> (r: Result<ProgramBuilder, TranslateError>)
    requires
        b.wf(),
        b.labels@.len() + 1 <= u32::MAX,
        0 < reg.0 < b.next_register,
        forall|bi: ProgramBuilder|
            bi.wf() && guard_entry_state(
                b,
                bi,
                Label(b.labels@.len() as u32),
                GuardKind::UnlessNull(reg),
            ) ==> #[trigger] call_requires(body, (bi,)),
        forall|bi: ProgramBuilder, ro: Result<ProgramBuilder, TranslateError>|
            #[trigger] call_ensures(body, (bi,), ro) ==> (ro matches Ok(bo) ==> block_body_post(
                bi,
                bo,
                Label(b.labels@.len() as u32),
                Label(b.labels@.len() as u32),
            )),
    ensures
        (forall|bi: ProgramBuilder, ro2: Result<ProgramBuilder, TranslateError>|
            #[trigger] call_ensures(body, (bi,), ro2) ==> ro2 is Ok) ==> r is Ok,
        r matches Ok(b2) ==> guard_frame_post(b, b2, GuardKind::UnlessNull(reg)),
{
    guarded_block(b, GuardKind::UnlessNull(reg), body)
}

/// Skip the block when the register is not NULL.
pub fn skip_if_not_null<F: FnOnce(ProgramBuilder) -> Result<ProgramBuilder, TranslateError>>(
    b: ProgramBuilder,
    reg: Reg,
    body: F,
) -> (r: Result<ProgramBuilder, TranslateError>)
    requires
        b.wf(),
        b.labels@.len() + 1 <= u32::MAX,
        0 < reg.0 < b.next_register,
        forall|bi: ProgramBuilder|
            bi.wf() && guard_entry_state(
                b,
                bi,
                Label(b.labels@.len() as u32),
                GuardKind::UnlessNotNull(reg),
            ) ==> #[trigger] call_requires(body, (bi,)),
        forall|bi: ProgramBuilder, ro: Result<ProgramBuilder, TranslateError>|
            #[trigger] call_ensures(body, (bi,), ro) ==> (ro matches Ok(bo) ==> block_body_post(
                bi,
                bo,
                Label(b.labels@.len() as u32),
                Label(b.labels@.len() as u32),
            )),
    ensures
        (forall|bi: ProgramBuilder, ro2: Result<ProgramBuilder, TranslateError>|
            #[trigger] call_ensures(body, (bi,), ro2) ==> ro2 is Ok) ==> r is Ok,
        r matches Ok(b2) ==> guard_frame_post(b, b2, GuardKind::UnlessNotNull(reg)),
{
    guarded_block(b, GuardKind::UnlessNotNull(reg), body)
}

/// The builder state the then-branch of [`if_else`] starts from.
pub open spec fn then_entry_state(
    b: ProgramBuilder,
    bi: ProgramBuilder,
    condition_reg: Reg,
) -> bool {
    &&& bi.insns@ == b.insns@.push(
        Insn::IfNot {
            reg: condition_reg,
            target: Label(b.labels@.len() as u32),
            jump_if_null: true,
        },
    )
    &&& bi.labels@ == b.labels@.push(None).push(None)
    &&& bi.next_register == b.next_register
    &&& bi.next_cursor == b.next_cursor
    &&& bi.next_hash_table == b.next_hash_table
    &&& bi.cursors@ == b.cursors@
    &&& bi.nested == b.nested
    &&& bi.change_count_on == b.change_count_on
}

/// The builder states the else-branch of [`if_else`] can start from: some
/// extension of the state after the branch instruction in which the else
/// label has just been bound and the end label is still open.
pub open spec fn else_entry_state(b: ProgramBuilder, bi: ProgramBuilder) -> bool {
    &&& extends(b, bi)
    &&& bi.wf()
    &&& b.labels@.len() + 2 <= bi.labels@.len()
    &&& bi.labels@[b.labels@.len() as int] is Some
    &&& bi.labels@[b.labels@.len() as int + 1] is None
    &&& bi.nested == b.nested
}

/// What an [`if_else`] emission leaves behind.  Writing `k` for the old
/// instruction position and `l` for the old label count: the branch
/// instruction at `k` jumps to the else label `l` when the condition is
/// false, the then-branch ends with a jump to the end label `l + 1`,
/// which is bound to the first instruction after the construct.
pub open spec fn if_else_frame_post(
    b: ProgramBuilder,
    b2: ProgramBuilder,
    condition_reg: Reg,
) -> bool {
    let k = b.insns@.len() as int;
    let l = b.labels@.len() as int;
    &&& extends(b, b2)
    &&& b2.wf()
    &&& b2.insns@.len() >= k + 2
    &&& b2.labels@.len() >= l + 2
    &&& b2.insns@[k] == (Insn::IfNot {
        reg: condition_reg,
        target: Label(l as u32),
        jump_if_null: true,
    })
    &&& b2.labels@[l] is Some
    &&& b2.labels@[l] matches Some(p) && k < p <= b2.insns@.len()
    &&& b2.labels@[l] matches Some(p) && b2.insns@[p - 1] == (Insn::Goto {
        target: Label((l + 1) as u32),
    })
    &&& b2.labels@[l + 1] == Some(b2.insns@.len() as usize)
    &&& loop_local(b2.insns@, k, l)
    &&& forall|i: int| 0 <= i < l ==> b2.labels@[i] == b.labels@[i]
    &&& forall|i: int| l <= i < b2.labels@.len() ==> (#[trigger] b2.labels@[i]) is Some
}

/// Emit a runtime conditional: when the condition register is false (or
/// NULL), control jumps over the then-branch to the else-branch; the
/// then-branch ends by jumping over the else-branch.
pub fn if_else<
    F1: FnOnce(ProgramBuilder) -> Result<ProgramBuilder, TranslateError>,
    F2: FnOnce(ProgramBuilder) -> Result<ProgramBuilder, TranslateError>,
>(
    b: ProgramBuilder,
    condition_reg: Reg,
    then_branch: F1,
    else_branch: F2,
) -> (r: Result<ProgramBuilder, TranslateError>)
    requires
        b.wf(),
        b.labels@.len() + 2 <= u32::MAX,
        0 < condition_reg.0 < b.next_register,
        forall|bi: ProgramBuilder|
            bi.wf() && then_entry_state(b, bi, condition_reg) ==> #[trigger] call_requires(
                then_branch,
                (bi,),
            ),
        forall|bi: ProgramBuilder, ro: Result<ProgramBuilder, TranslateError>|
            #[trigger] call_ensures(then_branch, (bi,), ro) ==> (ro matches Ok(bo)
                ==> block_body_post(
                bi,
                bo,
                Label(b.labels@.len() as u32),
                Label((b.labels@.len() + 1) as u32),
            )),
        forall|bi: ProgramBuilder|
            else_entry_state(b, bi) ==> #[trigger] call_requires(else_branch, (bi,)),
        forall|bi: ProgramBuilder, ro: Result<ProgramBuilder, TranslateError>|
            #[trigger] call_ensures(else_branch, (bi,), ro) ==> (ro matches Ok(bo)
                ==> block_body_post(
                bi,
                bo,
                Label((b.labels@.len() + 1) as u32),
                Label((b.labels@.len() + 1) as u32),
            )),
    ensures
        ((forall|bi: ProgramBuilder, ro2: Result<ProgramBuilder, TranslateError>|
            #[trigger] call_ensures(then_branch, (bi,), ro2) ==> ro2 is Ok) && (forall|
            bi: ProgramBuilder,
            ro2: Result<ProgramBuilder, TranslateError>,
        |
            #[trigger] call_ensures(else_branch, (bi,), ro2) ==> ro2 is Ok)) ==> r is Ok,
        r matches Ok(b2) ==> if_else_frame_post(b, b2, condition_reg),
{
    let ghost b0 = b;
    let mut b = b;
    let else_label = b.allocate_label();
    let end_label = b.allocate_label();
    b.emit_insn(Insn::IfNot { reg: condition_reg, target: else_label, jump_if_null: true });
    let ghost b1 = b;
    proof {
        assert(b1.labels@ =~= b0.labels@.push(None).push(None));
        assert(then_entry_state(b0, b1, condition_reg));
    }
    let ro = then_branch(b);
    match ro {
        Err(e) => Err(e),
        Ok(bt) => {
            let ghost btv = bt;
            let mut b = bt;
            proof {
                assert(block_emitted(b1, btv));
                assert(btv.labels@[else_label.0 as int] == b1.labels@[else_label.0 as int]);
                assert(btv.labels@[end_label.0 as int] == b1.labels@[end_label.0 as int]);
            }
            b.emit_insn(Insn::Goto { target: end_label });
            let resolved_else = b.resolve_label(else_label);
            match resolved_else {
                Err(e) => {
                    proof {
                        assert(false);
                    }
                    Err(e)
                },
                Ok(()) => {
                    let then_end = b.instruction_count();
                    let ghost b2v = b;
                    proof {
                        assert(b2v.insns@.len() == then_end);
                    }
                    proof {
                        assert(extends(b0, b1));
                        lemma_extends_trans(b0, b1, btv);
                        assert(b2v.insns@.subrange(0, btv.insns@.len() as int)
                            =~= btv.insns@);
                        assert(extends(btv, b2v));
                        lemma_extends_trans(b0, btv, b2v);
                        assert(else_entry_state(b0, b2v));
                    }
                    let ro2 = else_branch(b);
                    match ro2 {
                        Err(e) => Err(e),
                        Ok(be) => {
                            let ghost bev = be;
                            let mut b = be;
                            proof {
                                assert(block_emitted(b2v, bev));
                                assert(bev.labels@[end_label.0 as int] == b2v.labels@[
                                    end_label.0 as int]);
                            }
                            let resolved_end = b.resolve_label(end_label);
                            match resolved_end {
                                Err(e) => {
                                    proof {
                                        assert(false);
                                    }
                                    Err(e)
                                },
                                Ok(()) => {
                                    proof {
                                        lemma_if_else_frame(
                                            b0,
                                            b1,
                                            btv,
                                            b2v,
                                            bev,
                                            *&b,
                                            condition_reg,
                                        );
                                    }
                                    Ok(b)
                                },
                            }
                        },
                    }
                },
            }
        },
    }
}

/// Assembles [`if_else_frame_post`] from the pieces of the emission.
proof fn lemma_if_else_frame(
    b0: ProgramBuilder,
    b1: ProgramBuilder,
    bt: ProgramBuilder,
    b2: ProgramBuilder,
    be: ProgramBuilder,
    bf: ProgramBuilder,
    condition_reg: Reg,
)
    requires
        b0.wf(),
        b0.labels@.len() + 2 <= u32::MAX,
        then_entry_state(b0, b1, condition_reg),
        block_body_post(
            b1,
            bt,
            Label(b0.labels@.len() as u32),
            Label((b0.labels@.len() + 1) as u32),
        ),
        b2.insns@ == bt.insns@.push(Insn::Goto { target: Label((b0.labels@.len() + 1) as u32) }),
        b2.labels@ == bt.labels@.update(
            b0.labels@.len() as int,
            Some((bt.insns@.len() + 1) as usize),
        ),
        b2.next_register == bt.next_register,
        b2.next_cursor == bt.next_cursor,
        b2.next_hash_table == bt.next_hash_table,
        b2.cursors@ == bt.cursors@,
        b2.nested == bt.nested,
        b2.change_count_on == bt.change_count_on,
        block_body_post(
            b2,
            be,
            Label((b0.labels@.len() + 1) as u32),
            Label((b0.labels@.len() + 1) as u32),
        ),
        bf.insns@ == be.insns@,
        bf.labels@ == be.labels@.update(
            (b0.labels@.len() + 1) as int,
            Some(be.insns@.len() as usize),
        ),
        bf.next_register == be.next_register,
        bf.next_cursor == be.next_cursor,
        bf.next_hash_table == be.next_hash_table,
        bf.cursors@ == be.cursors@,
        bf.nested == be.nested,
        bf.change_count_on == be.change_count_on,
        bf.wf(),
        bt.insns@.len() + 1 <= usize::MAX,
    ensures
        if_else_frame_post(b0, bf, condition_reg),
{
    let k = b0.insns@.len() as int;
    let l = b0.labels@.len() as int;
    assert(extends(b0, b1)) by {
        assert(b1.insns@.subrange(0, k) =~= b0.insns@);
    }
    lemma_extends_trans(b0, b1, bt);
    assert(extends(bt, b2)) by {
        assert(b2.insns@.subrange(0, bt.insns@.len() as int) =~= bt.insns@);
    }
    lemma_extends_trans(b0, bt, b2);
    lemma_extends_trans(b0, b2, be);
    assert(extends(be, bf)) by {
        assert(bf.insns@.subrange(0, be.insns@.len() as int) =~= be.insns@);
    }
    lemma_extends_trans(b0, be, bf);
    assert(bf.insns@[k] == b1.insns@[k]) by {
        assert(bt.insns@[k] == bt.insns@.subrange(0, b1.insns@.len() as int)[k]);
        assert(b2.insns@[k] == bt.insns@[k]);
        assert(be.insns@[k] == be.insns@.subrange(0, b2.insns@.len() as int)[k]);
    }
    let p = (bt.insns@.len() + 1) as int;
    assert(bf.labels@[l] == Some(p as usize)) by {
        assert(b2.labels@[l] == Some(p as usize));
        assert(be.labels@[l] == Some(p as usize));
    }
    assert(k < p);
    assert(p <= bf.insns@.len());
    assert(bf.insns@[p - 1] == (Insn::Goto { target: Label((l + 1) as u32) })) by {
        assert(b2.insns@[p - 1] == (Insn::Goto { target: Label((l + 1) as u32) }));
        assert(be.insns@[p - 1] == be.insns@.subrange(0, b2.insns@.len() as int)[p - 1]);
    }
    assert(bf.labels@[l + 1] == Some(bf.insns@.len() as usize));
    assert(loop_local(bf.insns@, k, l)) by {
        assert forall|j: int| k <= j < bf.insns@.len() implies ((is_loop_entry(
            #[trigger] bf.insns@[j],
        ) ==> loop_entry_target(bf.insns@[j]).0 >= l) && (is_loop_step(bf.insns@[j])
            ==> loop_step_target(bf.insns@[j]).0 >= l)) by {
            if j == k {
            } else if j < bt.insns@.len() {
                assert(bf.insns@[j] == be.insns@[j]);
                assert(be.insns@[j] == be.insns@.subrange(0, b2.insns@.len() as int)[j]);
                assert(b2.insns@[j] == bt.insns@[j]);
                assert(loop_local(bt.insns@, b1.insns@.len() as int, b1.labels@.len() as int));
            } else if j == p - 1 {
                assert(bf.insns@[j] == (Insn::Goto { target: Label((l + 1) as u32) }));
            } else {
                assert(bf.insns@[j] == be.insns@[j]);
                assert(loop_local(be.insns@, b2.insns@.len() as int, b2.labels@.len() as int));
                assert(b2.labels@.len() >= l);
            }
        }
    }
}

/// Emit an unconditional jump to a label, for leaving a construct early.
pub fn jump_to(b: &mut ProgramBuilder, label: Label)
    requires
        old(b).wf(),
        label.0 < old(b).labels@.len(),
    ensures
        final(b).wf(),
        extends(*old(b), *final(b)),
        crate::emitter::emitted(*old(b), *final(b), Insn::Goto { target: label }),
{
    b.emit_insn(Insn::Goto { target: label });
}

/// Emit a jump taken when the condition register is true.
pub fn jump_if(b: &mut ProgramBuilder, condition_reg: Reg, target: Label)
    requires
        old(b).wf(),
        0 < condition_reg.0 < old(b).next_register,
        target.0 < old(b).labels@.len(),
    ensures
        final(b).wf(),
        extends(*old(b), *final(b)),
        crate::emitter::emitted(
            *old(b),
            *final(b),
            Insn::If { reg: condition_reg, target, jump_if_null: false },
        ),
{
    b.emit_insn(Insn::If { reg: condition_reg, target, jump_if_null: false });
}

/// Emit a jump taken when the condition register is false.
pub fn jump_if_not(b: &mut ProgramBuilder, condition_reg: Reg, target: Label)
    requires
        old(b).wf(),
        0 < condition_reg.0 < old(b).next_register,
        target.0 < old(b).labels@.len(),
    ensures
        final(b).wf(),
        extends(*old(b), *final(b)),
        crate::emitter::emitted(
            *old(b),
            *final(b),
            Insn::IfNot { reg: condition_reg, target, jump_if_null: false },
        ),
{
    b.emit_insn(Insn::IfNot { reg: condition_reg, target, jump_if_null: false });
}

/// Call a subroutine: store the return address in its register and jump
/// to its entry label.
pub fn call_subroutine(b: &mut ProgramBuilder, sub_label: Label, return_reg: Reg)
    requires
        old(b).wf(),
        0 < return_reg.0 < old(b).next_register,
        sub_label.0 < old(b).labels@.len(),
    ensures
        final(b).wf(),
        extends(*old(b), *final(b)),
        crate::emitter::emitted(
            *old(b),
            *final(b),
            Insn::Gosub { target: sub_label, return_reg },
        ),
{
    b.emit_insn(Insn::Gosub { target: sub_label, return_reg });
}

/// Yield from a coroutine.
pub fn yield_value(b: &mut ProgramBuilder, yield_reg: Reg, resume_label: Label)
    requires
        old(b).wf(),
        0 < yield_reg.0 < old(b).next_register,
        resume_label.0 < old(b).labels@.len(),
    ensures
        final(b).wf(),
        extends(*old(b), *final(b)),
        crate::emitter::emitted(
            *old(b),
            *final(b),
            Insn::Yield { yield_reg, resume_label },
        ),
{
    b.emit_insn(Insn::Yield { yield_reg, resume_label });
}

/// The builder state a subroutine body starts from: the return register
/// allocated, the jump over the definition emitted, and the entry label
/// bound to the first body instruction.
pub open spec fn subroutine_entry_state(b: ProgramBuilder, bi: ProgramBuilder) -> bool {
    &&& bi.insns@ == b.insns@.push(Insn::Goto { target: Label((b.labels@.len() + 1) as u32) })
    &&& bi.labels@ == b.labels@.push(Some((b.insns@.len() + 1) as usize)).push(None)
    &&& bi.next_register == b.next_register + 1
    &&& bi.next_cursor == b.next_cursor
    &&& bi.next_hash_table == b.next_hash_table
    &&& bi.cursors@ == b.cursors@
    &&& bi.nested == b.nested
    &&& bi.change_count_on == b.change_count_on
}

/// What a subroutine emission leaves behind: a jump over the definition,
/// the body, a Return through the dedicated register, and the after
/// label bound past it; the returned pair names the entry label and the
/// return-address register.
pub open spec fn subroutine_frame_post(
    b: ProgramBuilder,
    b2: ProgramBuilder,
    sub_label: Label,
    return_reg: Reg,
) -> bool {
    let k = b.insns@.len() as int;
    let l = b.labels@.len() as int;
    &&& extends(b, b2)
    &&& b2.wf()
    &&& b2.insns@.len() >= k + 2
    &&& b2.labels@.len() >= l + 2
    &&& sub_label.0 == l
    &&& return_reg.0 == b.next_register
    &&& b2.insns@[k] == (Insn::Goto { target: Label((l + 1) as u32) })
    &&& b2.labels@[l] == Some((k + 1) as usize)
    &&& b2.insns@[b2.insns@.len() - 1] == (Insn::Return {
        return_reg,
        can_fallthrough: false,
    })
    &&& b2.labels@[l + 1] == Some(b2.insns@.len() as usize)
    &&& loop_local(b2.insns@, k, l)
    &&& forall|i: int| 0 <= i < l ==> b2.labels@[i] == b.labels@[i]
    &&& forall|i: int| l <= i < b2.labels@.len() ==> (#[trigger] b2.labels@[i]) is Some
}

/// Emit a subroutine definition: jump over it, bind its entry label,
/// emit the body with its dedicated return-address register, end with
/// Return, and bind the after label.  Returns the entry label and the
/// return register for [`call_subroutine`].
pub fn subroutine<F: FnOnce(ProgramBuilder, Reg) -> Result<ProgramBuilder, TranslateError>>(
    b: ProgramBuilder,
    body: F,
) -> (r: Result<(ProgramBuilder, Label, Reg), TranslateError>)
    requires
        b.wf(),
        b.labels@.len() + 2 <= u32::MAX,
        b.next_register < usize::MAX,
        forall|bi: ProgramBuilder, reg: Reg|
            bi.wf() && subroutine_entry_state(b, bi) && reg.0 == b.next_register
                ==> #[trigger] call_requires(body, (bi, reg)),
        forall|bi: ProgramBuilder, reg: Reg, ro: Result<ProgramBuilder, TranslateError>|
            #[trigger] call_ensures(body, (bi, reg), ro) ==> (ro matches Ok(bo)
                ==> block_body_post(
                bi,
                bo,
                Label((b.labels@.len() + 1) as u32),
                Label((b.labels@.len() + 1) as u32),
            )),
    ensures
        (forall|bi: ProgramBuilder, reg: Reg, ro2: Result<ProgramBuilder, TranslateError>|
            #[trigger] call_ensures(body, (bi, reg), ro2) ==> ro2 is Ok) ==> r is Ok,
        r matches Ok((b2, sub_label, return_reg)) ==> subroutine_frame_post(
            b,
            b2,
            sub_label,
            return_reg,
        ),
{
    let ghost b0 = b;
    let mut b = b;
    let return_reg = b.alloc_register();
    let sub_label = b.allocate_label();
    let after_sub = b.allocate_label();
    b.emit_insn(Insn::Goto { target: after_sub });
    let resolved_sub = b.resolve_label(sub_label);
    match resolved_sub {
        Err(e) => {
            proof {
                assert(false);
            }
            Err(e)
        },
        Ok(()) => {
            let ghost b1 = b;
            proof {
                assert(b1.labels@ =~= b0.labels@.push(
                    Some((b0.insns@.len() + 1) as usize),
                ).push(None));
                assert(subroutine_entry_state(b0, b1));
            }
            let ro = body(b, return_reg);
            match ro {
                Err(e) => Err(e),
                Ok(bo) => {
                    let ghost bov = bo;
                    let mut b = bo;
                    proof {
                        assert(block_emitted(b1, bov));
                        assert(bov.labels@[after_sub.0 as int] == b1.labels@[after_sub.0 as int]);
                    }
                    b.emit_insn(Insn::Return { return_reg, can_fallthrough: false });
                    let resolved_after = b.resolve_label(after_sub);
                    match resolved_after {
                        Err(e) => {
                            proof {
                                assert(false);
                            }
                            Err(e)
                        },
                        Ok(()) => {
                            proof {
                                lemma_subroutine_frame(b0, b1, bov, *&b, sub_label, return_reg);
                            }
                            Ok((b, sub_label, return_reg))
                        },
                    }
                },
            }
        },
    }
}

/// Assembles [`subroutine_frame_post`] from the pieces of the emission.
proof fn lemma_subroutine_frame(
    b0: ProgramBuilder,
    b1: ProgramBuilder,
    bo: ProgramBuilder,
    b2: ProgramBuilder,
    sub_label: Label,
    return_reg: Reg,
)
    requires
        b0.wf(),
        b0.labels@.len() + 2 <= u32::MAX,
        subroutine_entry_state(b0, b1),
        sub_label.0 == b0.labels@.len(),
        return_reg.0 == b0.next_register,
        block_body_post(
            b1,
            bo,
            Label((b0.labels@.len() + 1) as u32),
            Label((b0.labels@.len() + 1) as u32),
        ),
        b2.insns@ == bo.insns@.push(Insn::Return { return_reg, can_fallthrough: false }),
        b2.labels@ == bo.labels@.update(
            (b0.labels@.len() + 1) as int,
            Some((bo.insns@.len() + 1) as usize),
        ),
        b2.next_register == bo.next_register,
        b2.next_cursor == bo.next_cursor,
        b2.next_hash_table == bo.next_hash_table,
        b2.cursors@ == bo.cursors@,
        b2.nested == bo.nested,
        b2.change_count_on == bo.change_count_on,
        b2.wf(),
    ensures
        subroutine_frame_post(b0, b2, sub_label, return_reg),
{
    let k = b0.insns@.len() as int;
    let l = b0.labels@.len() as int;
    assert(extends(b0, b1)) by {
        assert(b1.insns@.subrange(0, k) =~= b0.insns@);
    }
    lemma_extends_trans(b0, b1, bo);
    assert(extends(bo, b2)) by {
        assert(b2.insns@.subrange(0, bo.insns@.len() as int) =~= bo.insns@);
    }
    lemma_extends_trans(b0, bo, b2);
    assert(b2.insns@[k] == (Insn::Goto { target: Label((l + 1) as u32) })) by {
        assert(bo.insns@[k] == bo.insns@.subrange(0, b1.insns@.len() as int)[k]);
        assert(b2.insns@[k] == bo.insns@[k]);
    }
    assert(b2.labels@[l] == Some((k + 1) as usize)) by {
        assert(b1.labels@[l] == Some((k + 1) as usize));
        assert(bo.labels@[l] == Some((k + 1) as usize));
    }
    assert(b2.labels@[l + 1] == Some(b2.insns@.len() as usize));
    assert(loop_local(b2.insns@, k, l)) by {
        assert forall|j: int| k <= j < b2.insns@.len() implies ((is_loop_entry(
            #[trigger] b2.insns@[j],
        ) ==> loop_entry_target(b2.insns@[j]).0 >= l) && (is_loop_step(b2.insns@[j])
            ==> loop_step_target(b2.insns@[j]).0 >= l)) by {
            if k < j < b2.insns@.len() - 1 {
                assert(b2.insns@[j] == bo.insns@[j]);
                assert(loop_local(bo.insns@, b1.insns@.len() as int, b1.labels@.len() as int));
            }
        }
    }
}

/// The builder state a coroutine body starts from: the coroutine state
/// register allocated, InitCoroutine emitted, and the start label bound
/// to the first body instruction.
pub open spec fn coroutine_entry_state(b: ProgramBuilder, bi: ProgramBuilder) -> bool {
    &&& bi.insns@ == b.insns@.push(
        Insn::InitCoroutine {
            yield_reg: Reg(b.next_register),
            jump_on_init: Label((b.labels@.len() + 1) as u32),
            start_label: Label(b.labels@.len() as u32),
        },
    )
    &&& bi.labels@ == b.labels@.push(Some((b.insns@.len() + 1) as usize)).push(None)
    &&& bi.next_register == b.next_register + 1
    &&& bi.next_cursor == b.next_cursor
    &&& bi.next_hash_table == b.next_hash_table
    &&& bi.cursors@ == b.cursors@
    &&& bi.nested == b.nested
    &&& bi.change_count_on == b.change_count_on
}

/// What a coroutine emission leaves behind: InitCoroutine at the old
/// position, the body, EndCoroutine, and the end label bound past it;
/// the returned register holds the coroutine state.
pub open spec fn coroutine_frame_post(
    b: ProgramBuilder,
    b2: ProgramBuilder,
    yield_reg: Reg,
) -> bool {
    let k = b.insns@.len() as int;
    let l = b.labels@.len() as int;
    &&& extends(b, b2)
    &&& b2.wf()
    &&& b2.insns@.len() >= k + 2
    &&& b2.labels@.len() >= l + 2
    &&& yield_reg.0 == b.next_register
    &&& b2.insns@[k] == (Insn::InitCoroutine {
        yield_reg,
        jump_on_init: Label((l + 1) as u32),
        start_label: Label(l as u32),
    })
    &&& b2.labels@[l] == Some((k + 1) as usize)
    &&& b2.insns@[b2.insns@.len() - 1] == (Insn::EndCoroutine { yield_reg })
    &&& b2.labels@[l + 1] == Some(b2.insns@.len() as usize)
    &&& loop_local(b2.insns@, k, l)
    &&& forall|i: int| 0 <= i < l ==> b2.labels@[i] == b.labels@[i]
    &&& forall|i: int| l <= i < b2.labels@.len() ==> (#[trigger] b2.labels@[i]) is Some
}

/// Emit a coroutine: InitCoroutine, bind the start label, the body
/// (which yields through the dedicated register), EndCoroutine, and the
/// end label bound past it.  Returns the coroutine state register.
pub fn coroutine<F: FnOnce(ProgramBuilder, Reg, Label) -> Result<ProgramBuilder, TranslateError>>(
    b: ProgramBuilder,
    body: F,
) -> (r: Result<(ProgramBuilder, Reg), TranslateError>)
    requires
        b.wf(),
        b.labels@.len() + 2 <= u32::MAX,
        b.next_register < usize::MAX,
        forall|bi: ProgramBuilder, reg: Reg, end_label: Label|
            bi.wf() && coroutine_entry_state(b, bi) && reg.0 == b.next_register && end_label.0
                == b.labels@.len() + 1 ==> #[trigger] call_requires(body, (bi, reg, end_label)),
        forall|bi: ProgramBuilder, reg: Reg, end_label: Label, ro: Result<
            ProgramBuilder,
            TranslateError,
        >|
            #[trigger] call_ensures(body, (bi, reg, end_label), ro) ==> (ro matches Ok(bo)
                ==> block_body_post(
                bi,
                bo,
                Label((b.labels@.len() + 1) as u32),
                Label((b.labels@.len() + 1) as u32),
            )),
    ensures
        (forall|bi: ProgramBuilder, reg: Reg, end_label: Label, ro2: Result<
            ProgramBuilder,
            TranslateError,
        >|
            #[trigger] call_ensures(body, (bi, reg, end_label), ro2) ==> ro2 is Ok) ==> r is Ok,
        r matches Ok((b2, yield_reg)) ==> coroutine_frame_post(b, b2, yield_reg),
{
    let ghost b0 = b;
    let mut b = b;
    let yield_reg = b.alloc_register();
    let start_label = b.allocate_label();
    let end_label = b.allocate_label();
    b.emit_insn(Insn::InitCoroutine { yield_reg, jump_on_init: end_label, start_label });
    let resolved_start = b.resolve_label(start_label);
    match resolved_start {
        Err(e) => {
            proof {
                assert(false);
            }
            Err(e)
        },
        Ok(()) => {
            let ghost b1 = b;
            proof {
                assert(b1.labels@ =~= b0.labels@.push(
                    Some((b0.insns@.len() + 1) as usize),
                ).push(None));
                assert(coroutine_entry_state(b0, b1));
            }
            let ro = body(b, yield_reg, end_label);
            match ro {
                Err(e) => Err(e),
                Ok(bo) => {
                    let ghost bov = bo;
                    let mut b = bo;
                    proof {
                        assert(block_emitted(b1, bov));
                        assert(bov.labels@[end_label.0 as int] == b1.labels@[end_label.0 as int]);
                    }
                    b.emit_insn(Insn::EndCoroutine { yield_reg });
                    let resolved_end = b.resolve_label(end_label);
                    match resolved_end {
                        Err(e) => {
                            proof {
                                assert(false);
                            }
                            Err(e)
                        },
                        Ok(()) => {
                            proof {
                                lemma_coroutine_frame(b0, b1, bov, *&b, yield_reg);
                            }
                            Ok((b, yield_reg))
                        },
                    }
                },
            }
        },
    }
}

/// Assembles [`coroutine_frame_post`] from the pieces of the emission.
proof fn lemma_coroutine_frame(
    b0: ProgramBuilder,
    b1: ProgramBuilder,
    bo: ProgramBuilder,
    b2: ProgramBuilder,
    yield_reg: Reg,
)
    requires
        b0.wf(),
        b0.labels@.len() + 2 <= u32::MAX,
        coroutine_entry_state(b0, b1),
        yield_reg.0 == b0.next_register,
        block_body_post(
            b1,
            bo,
            Label((b0.labels@.len() + 1) as u32),
            Label((b0.labels@.len() + 1) as u32),
        ),
        b2.insns@ == bo.insns@.push(Insn::EndCoroutine { yield_reg }),
        b2.labels@ == bo.labels@.update(
            (b0.labels@.len() + 1) as int,
            Some((bo.insns@.len() + 1) as usize),
        ),
        b2.next_register == bo.next_register,
        b2.next_cursor == bo.next_cursor,
        b2.next_hash_table == bo.next_hash_table,
        b2.cursors@ == bo.cursors@,
        b2.nested == bo.nested,
        b2.change_count_on == bo.change_count_on,
        b2.wf(),
    ensures
        coroutine_frame_post(b0, b2, yield_reg),
{
    let k = b0.insns@.len() as int;
    let l = b0.labels@.len() as int;
    assert(extends(b0, b1)) by {
        assert(b1.insns@.subrange(0, k) =~= b0.insns@);
    }
    lemma_extends_trans(b0, b1, bo);
    assert(extends(bo, b2)) by {
        assert(b2.insns@.subrange(0, bo.insns@.len() as int) =~= bo.insns@);
    }
    lemma_extends_trans(b0, bo, b2);
    assert(b2.insns@[k] == b1.insns@[k]) by {
        assert(bo.insns@[k] == bo.insns@.subrange(0, b1.insns@.len() as int)[k]);
        assert(b2.insns@[k] == bo.insns@[k]);
    }
    assert(b2.labels@[l] == Some((k + 1) as usize)) by {
        assert(b1.labels@[l] == Some((k + 1) as usize));
        assert(bo.labels@[l] == Some((k + 1) as usize));
    }
    assert(b2.labels@[l + 1] == Some(b2.insns@.len() as usize));
    assert(loop_local(b2.insns@, k, l)) by {
        assert forall|j: int| k <= j < b2.insns@.len() implies ((is_loop_entry(
            #[trigger] b2.insns@[j],
        ) ==> loop_entry_target(b2.insns@[j]).0 >= l) && (is_loop_step(b2.insns@[j])
            ==> loop_step_target(b2.insns@[j]).0 >= l)) by {
            if k < j < b2.insns@.len() - 1 {
                assert(b2.insns@[j] == bo.insns@[j]);
                assert(loop_local(bo.insns@, b1.insns@.len() as int, b1.labels@.len() as int));
            }
        }
    }
}

} // verus!

