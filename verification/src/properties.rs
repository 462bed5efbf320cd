//! Properties of the interpreter as a whole: what every step keeps, and how
//! calls, errors, fused operations and the surcharges behave.
use vstd::prelude::*;

use crate::common::{AccessSize, Arg, BASIC_COST_CONTROL_FNCALL, BASIC_COST_MISC_FOUR_PHOBIA};
use crate::effect::{phobia_extra, read_args};
use crate::inst::{
    aload_outcome, and_outcome, ashr_outcome, assert_outcome, branch_outcome, comp_outcome,
    eadd_outcome, esub_outcome, fncall_outcome, free_outcome, load_outcome, lshr_outcome,
    malloc_outcome, mul_outcome, oadd_outcome, or_outcome, osub_outcome, read_outcome,
    ret_outcome, sdiv_outcome, select_outcome, shl_outcome, srem_outcome, store_outcome,
    switch_outcome, ubranch_outcome, udiv_outcome, urem_outcome, write_outcome, xor_outcome,
    SwppInst, SwppInstKind,
};
use crate::error::{error_text, ErrorKindView};
use crate::effect::finished;
use crate::heat::{HEAT_CAP_PER_SECTOR, SECTOR_SIZE};
use crate::inst::lemma_call_outcome;
use crate::memory::{block_end, block_of, blocks_wf, heap_has, holds};
use crate::program::{
    StepAction, after_inst, fetch, frames_wf, in_context, returned, step_faults, step_view, wrapped, BlockResultView, FrameView,
    Machine,
    ProgramView,
};
use crate::register::SwppRegisterName;
use crate::register::SwppRegisterSet;

verus! {

proof fn lemma_read_args_cost(m: Machine, args: Seq<Arg>)
    ensures
        read_args(m, args).cost >= m.cost,
    decreases args.len(),
{
    if args.len() > 0 {
        lemma_read_args_cost(m, args.drop_last());
    }
}

proof fn lemma_ret_cost(inst: SwppInst, m: Machine, regs: SwppRegisterSet)
    requires
        inst.spec_kind() is Ret,
    ensures
        inst.outcome(m, regs).machine.cost >= m.cost,
{
    reveal(ret_outcome);
}

proof fn lemma_ubranch_cost(inst: SwppInst, m: Machine, regs: SwppRegisterSet)
    requires
        inst.spec_kind() is UBranch,
    ensures
        inst.outcome(m, regs).machine.cost >= m.cost,
{
    reveal(ubranch_outcome);
}

proof fn lemma_branch_cost(inst: SwppInst, m: Machine, regs: SwppRegisterSet)
    requires
        inst.spec_kind() is Branch,
    ensures
        inst.outcome(m, regs).machine.cost >= m.cost,
{
    reveal(branch_outcome);
}

proof fn lemma_switch_cost(inst: SwppInst, m: Machine, regs: SwppRegisterSet)
    requires
        inst.spec_kind() is Switch,
    ensures
        inst.outcome(m, regs).machine.cost >= m.cost,
{
    reveal(switch_outcome);
}

proof fn lemma_fncall_cost(inst: SwppInst, m: Machine, regs: SwppRegisterSet)
    requires
        inst.spec_kind() is FnCall,
    ensures
        inst.outcome(m, regs).machine.cost >= m.cost,
        inst.outcome(m, regs).result is Ok ==> inst.outcome(m, regs).machine.cost >= m.cost
            + BASIC_COST_CONTROL_FNCALL,
{
    reveal(fncall_outcome);
    let x = inst.spec_kind()->FnCall_0;
    let m0 = m.flush();
    lemma_read_args_cost(m0, x.spec_args());
}

proof fn lemma_assert_cost(inst: SwppInst, m: Machine, regs: SwppRegisterSet)
    requires
        inst.spec_kind() is Assert,
    ensures
        inst.outcome(m, regs).machine.cost >= m.cost,
{
    reveal(assert_outcome);
}

proof fn lemma_malloc_cost(inst: SwppInst, m: Machine, regs: SwppRegisterSet)
    requires
        inst.spec_kind() is Malloc,
    ensures
        inst.outcome(m, regs).machine.cost >= m.cost,
{
    reveal(malloc_outcome);
}

proof fn lemma_free_cost(inst: SwppInst, m: Machine, regs: SwppRegisterSet)
    requires
        inst.spec_kind() is Free,
    ensures
        inst.outcome(m, regs).machine.cost >= m.cost,
{
    reveal(free_outcome);
}

proof fn lemma_load_cost(inst: SwppInst, m: Machine, regs: SwppRegisterSet)
    requires
        inst.spec_kind() is Load,
    ensures
        inst.outcome(m, regs).machine.cost >= m.cost,
{
    reveal(load_outcome);
}

proof fn lemma_store_cost(inst: SwppInst, m: Machine, regs: SwppRegisterSet)
    requires
        inst.spec_kind() is Store,
    ensures
        inst.outcome(m, regs).machine.cost >= m.cost,
{
    reveal(store_outcome);
}

proof fn lemma_aload_cost(inst: SwppInst, m: Machine, regs: SwppRegisterSet)
    requires
        inst.spec_kind() is ALoad,
    ensures
        inst.outcome(m, regs).machine.cost >= m.cost,
{
    reveal(aload_outcome);
}

proof fn lemma_udiv_cost(inst: SwppInst, m: Machine, regs: SwppRegisterSet)
    requires
        inst.spec_kind() is UDiv,
    ensures
        inst.outcome(m, regs).machine.cost >= m.cost,
{
    reveal(udiv_outcome);
}

proof fn lemma_sdiv_cost(inst: SwppInst, m: Machine, regs: SwppRegisterSet)
    requires
        inst.spec_kind() is SDiv,
    ensures
        inst.outcome(m, regs).machine.cost >= m.cost,
{
    reveal(sdiv_outcome);
}

proof fn lemma_urem_cost(inst: SwppInst, m: Machine, regs: SwppRegisterSet)
    requires
        inst.spec_kind() is URem,
    ensures
        inst.outcome(m, regs).machine.cost >= m.cost,
{
    reveal(urem_outcome);
}

proof fn lemma_srem_cost(inst: SwppInst, m: Machine, regs: SwppRegisterSet)
    requires
        inst.spec_kind() is SRem,
    ensures
        inst.outcome(m, regs).machine.cost >= m.cost,
{
    reveal(srem_outcome);
}

proof fn lemma_mul_cost(inst: SwppInst, m: Machine, regs: SwppRegisterSet)
    requires
        inst.spec_kind() is Mul,
    ensures
        inst.outcome(m, regs).machine.cost >= m.cost,
{
    reveal(mul_outcome);
}

proof fn lemma_shl_cost(inst: SwppInst, m: Machine, regs: SwppRegisterSet)
    requires
        inst.spec_kind() is Shl,
    ensures
        inst.outcome(m, regs).machine.cost >= m.cost,
{
    reveal(shl_outcome);
}

proof fn lemma_lshr_cost(inst: SwppInst, m: Machine, regs: SwppRegisterSet)
    requires
        inst.spec_kind() is Lshr,
    ensures
        inst.outcome(m, regs).machine.cost >= m.cost,
{
    reveal(lshr_outcome);
}

proof fn lemma_ashr_cost(inst: SwppInst, m: Machine, regs: SwppRegisterSet)
    requires
        inst.spec_kind() is Ashr,
    ensures
        inst.outcome(m, regs).machine.cost >= m.cost,
{
    reveal(ashr_outcome);
}

proof fn lemma_and_cost(inst: SwppInst, m: Machine, regs: SwppRegisterSet)
    requires
        inst.spec_kind() is And,
    ensures
        inst.outcome(m, regs).machine.cost >= m.cost,
{
    reveal(and_outcome);
}

proof fn lemma_or_cost(inst: SwppInst, m: Machine, regs: SwppRegisterSet)
    requires
        inst.spec_kind() is Or,
    ensures
        inst.outcome(m, regs).machine.cost >= m.cost,
{
    reveal(or_outcome);
}

proof fn lemma_xor_cost(inst: SwppInst, m: Machine, regs: SwppRegisterSet)
    requires
        inst.spec_kind() is Xor,
    ensures
        inst.outcome(m, regs).machine.cost >= m.cost,
{
    reveal(xor_outcome);
}

proof fn lemma_eadd_cost(inst: SwppInst, m: Machine, regs: SwppRegisterSet)
    requires
        inst.spec_kind() is EAdd,
    ensures
        inst.outcome(m, regs).machine.cost >= m.cost,
{
    reveal(eadd_outcome);
}

proof fn lemma_oadd_cost(inst: SwppInst, m: Machine, regs: SwppRegisterSet)
    requires
        inst.spec_kind() is OAdd,
    ensures
        inst.outcome(m, regs).machine.cost >= m.cost,
{
    reveal(oadd_outcome);
}

proof fn lemma_esub_cost(inst: SwppInst, m: Machine, regs: SwppRegisterSet)
    requires
        inst.spec_kind() is ESub,
    ensures
        inst.outcome(m, regs).machine.cost >= m.cost,
{
    reveal(esub_outcome);
}

proof fn lemma_osub_cost(inst: SwppInst, m: Machine, regs: SwppRegisterSet)
    requires
        inst.spec_kind() is OSub,
    ensures
        inst.outcome(m, regs).machine.cost >= m.cost,
{
    reveal(osub_outcome);
}

proof fn lemma_comp_cost(inst: SwppInst, m: Machine, regs: SwppRegisterSet)
    requires
        inst.spec_kind() is Comp,
    ensures
        inst.outcome(m, regs).machine.cost >= m.cost,
{
    reveal(comp_outcome);
}

proof fn lemma_select_cost(inst: SwppInst, m: Machine, regs: SwppRegisterSet)
    requires
        inst.spec_kind() is Select,
    ensures
        inst.outcome(m, regs).machine.cost >= m.cost,
{
    reveal(select_outcome);
}

proof fn lemma_read_cost(inst: SwppInst, m: Machine, regs: SwppRegisterSet)
    requires
        inst.spec_kind() is Read,
    ensures
        inst.outcome(m, regs).machine.cost >= m.cost,
{
    reveal(read_outcome);
}

proof fn lemma_write_cost(inst: SwppInst, m: Machine, regs: SwppRegisterSet)
    requires
        inst.spec_kind() is Write,
    ensures
        inst.outcome(m, regs).machine.cost >= m.cost,
{
    reveal(write_outcome);
}

/// Running an instruction never lowers the cost paid so far.
pub proof fn lemma_outcome_cost_grows(inst: SwppInst, m: Machine, regs: SwppRegisterSet)
    ensures
        inst.outcome(m, regs).machine.cost >= m.cost,
{
    match inst.spec_kind() {
        SwppInstKind::Ret(_) => lemma_ret_cost(inst, m, regs),
        SwppInstKind::UBranch(_) => lemma_ubranch_cost(inst, m, regs),
        SwppInstKind::Branch(_) => lemma_branch_cost(inst, m, regs),
        SwppInstKind::Switch(_) => lemma_switch_cost(inst, m, regs),
        SwppInstKind::FnCall(_) => lemma_fncall_cost(inst, m, regs),
        SwppInstKind::Assert(_) => lemma_assert_cost(inst, m, regs),
        SwppInstKind::Malloc(_) => lemma_malloc_cost(inst, m, regs),
        SwppInstKind::Free(_) => lemma_free_cost(inst, m, regs),
        SwppInstKind::Load(_) => lemma_load_cost(inst, m, regs),
        SwppInstKind::Store(_) => lemma_store_cost(inst, m, regs),
        SwppInstKind::ALoad(_) => lemma_aload_cost(inst, m, regs),
        SwppInstKind::UDiv(_) => lemma_udiv_cost(inst, m, regs),
        SwppInstKind::SDiv(_) => lemma_sdiv_cost(inst, m, regs),
        SwppInstKind::URem(_) => lemma_urem_cost(inst, m, regs),
        SwppInstKind::SRem(_) => lemma_srem_cost(inst, m, regs),
        SwppInstKind::Mul(_) => lemma_mul_cost(inst, m, regs),
        SwppInstKind::Shl(_) => lemma_shl_cost(inst, m, regs),
        SwppInstKind::Lshr(_) => lemma_lshr_cost(inst, m, regs),
        SwppInstKind::Ashr(_) => lemma_ashr_cost(inst, m, regs),
        SwppInstKind::And(_) => lemma_and_cost(inst, m, regs),
        SwppInstKind::Or(_) => lemma_or_cost(inst, m, regs),
        SwppInstKind::Xor(_) => lemma_xor_cost(inst, m, regs),
        SwppInstKind::EAdd(_) => lemma_eadd_cost(inst, m, regs),
        SwppInstKind::OAdd(_) => lemma_oadd_cost(inst, m, regs),
        SwppInstKind::ESub(_) => lemma_esub_cost(inst, m, regs),
        SwppInstKind::OSub(_) => lemma_osub_cost(inst, m, regs),
        SwppInstKind::Comp(_) => lemma_comp_cost(inst, m, regs),
        SwppInstKind::Select(_) => lemma_select_cost(inst, m, regs),
        SwppInstKind::Read(_) => lemma_read_cost(inst, m, regs),
        SwppInstKind::Write(_) => lemma_write_cost(inst, m, regs),
    }
}

/// The 4-phobia surcharge is paid at most once per instruction, however many
/// of its operands are 4.
pub proof fn lemma_phobia_once(args: Seq<Arg>, size: Option<AccessSize>)
    ensures
        phobia_extra(args, size) == 0 || phobia_extra(args, size) == BASIC_COST_MISC_FOUR_PHOBIA,
{
}


/// A step never lowers the cost paid so far.
pub proof fn lemma_step_cost_grows(p: ProgramView)
    ensures
        step_view(p).0.machine.cost >= p.machine.cost,
{
    if p.frames.len() > 0 {
        let top = p.frames.last();
        let m1 = in_context(p.machine, top);
        if let Ok(inst) = fetch(m1, top) {
            lemma_outcome_cost_grows(inst, m1, top.regs);
        }
    }
}

/// Reading a register that still waits for an asynchronous load pays its whole
/// debt: the cost grows by that debt, and the register owes nothing after.
pub proof fn lemma_read_pays_debt(m: Machine, r: SwppRegisterName)
    ensures
        m.read_arg(Arg::Reg(r)).cost == m.cost + (m.debt)(r),
        (m.read_arg(Arg::Reg(r)).debt)(r) == 0,
{
}

/// A step changes no frame below the top one, except that when the top frame
/// returns, its caller continues with the same registers but for the target of
/// the call.
pub proof fn lemma_step_keeps_callers(p: ProgramView)
    requires
        frames_wf(p.frames),
        p.frames.len() > 0,
    ensures
        ({
            let q = step_view(p).0;
            let n = p.frames.len();
            &&& n - 1 <= q.frames.len() <= n + 1
            &&& forall|i: int| 0 <= i < n - 2 ==> q.frames[i] == p.frames[i]
            &&& (n >= 2 && q.frames.len() >= n ==> q.frames[n - 2] == p.frames[n - 2])
            &&& (n >= 2 && q.frames.len() == n - 1 ==> {
                &&& q.frames[n - 2].fname == p.frames[n - 2].fname
                &&& q.frames[n - 2].block == p.frames[n - 2].block
                &&& q.frames[n - 2].next == p.frames[n - 2].next
                &&& q.frames[n - 2].site == p.frames[n - 2].site
                &&& forall|reg: SwppRegisterName|
                    reg.wf() && !(p.frames[n - 1].site matches Some(s) && s.target == Some(reg))
                        ==> #[trigger] q.frames[n - 2].regs.value_of(reg)
                        == p.frames[n - 2].regs.value_of(reg)
            })
        }),
{
    let n = p.frames.len();
    let top = p.frames[n - 1];
    let m1 = in_context(p.machine, top);
    if let Ok(inst) = fetch(m1, top) {
        if inst.is_internal() {
            let o = inst.outcome(m1, top.regs);
            if let Ok(Some(BlockResultView::Return(v))) = o.result {
                if n >= 2 {
                    let caller = p.frames[n - 2];
                    assert(frames_wf(p.frames));
                    assert(p.frames[n - 1].site is Some);
                    if let Some(site) = top.site {
                        if let Some(t) = site.target {
                            if let Some(val) = v {
                                if !t.spec_is_arg() {
                                    caller.regs.lemma_updated(t, val, caller.regs);
                                }
                            }
                        }
                    }
                }
            }
        }
    }
}

/// A step that does not return from the top frame keeps where that frame was
/// called from.
proof fn lemma_step_keeps_top_site(p: ProgramView)
    requires
        frames_wf(p.frames),
        p.frames.len() > 0,
    ensures
        step_view(p).0.frames.len() >= p.frames.len() ==> step_view(p).0.frames[p.frames.len()
            - 1].site == p.frames[p.frames.len() - 1].site,
{
    let n = p.frames.len() as int;
    let top = p.frames[n - 1];
    let m1 = in_context(p.machine, top);
    if let Ok(inst) = fetch(m1, top) {
        if inst.is_internal() {
            let frames1 = p.frames.update(n - 1, FrameView { next: top.next + 1, ..top });
            let o = inst.outcome(m1, top.regs);
            if let Ok(Some(BlockResultView::Return(v))) = o.result {
                let q0 = ProgramView {
                    machine: o.machine,
                    frames: frames1.update(
                        n - 1,
                        FrameView { regs: top.regs.apply(o.write), ..frames1[n - 1] },
                    ),
                };
                if n == 1 {
                    assert(p.frames[0].site is None);
                }
                assert(returned(q0, v).0.frames.len() == n - 1);
            }
        }
    }
}

/// Returning from the top frame removes it and changes, of its caller, at
/// most the register that takes the value.
proof fn lemma_returned_frames(s: ProgramView, v: Option<u64>)
    requires
        frames_wf(s.frames),
        s.frames.len() >= 2,
    ensures
        ({
            let q = returned(s, v).0;
            let n = s.frames.len();
            &&& q.frames.len() == n - 1
            &&& forall|i: int| 0 <= i < n - 2 ==> q.frames[i] == s.frames[i]
            &&& q.frames[n - 2].fname == s.frames[n - 2].fname
            &&& q.frames[n - 2].block == s.frames[n - 2].block
            &&& q.frames[n - 2].next == s.frames[n - 2].next
            &&& q.frames[n - 2].site == s.frames[n - 2].site
            &&& forall|reg: SwppRegisterName|
                reg.wf() && !(s.frames[n - 1].site matches Some(st) && st.target == Some(reg))
                    ==> #[trigger] q.frames[n - 2].regs.value_of(reg)
                    == s.frames[n - 2].regs.value_of(reg)
        }),
{
    let fin = s.frames.last();
    let rest = s.frames.drop_last();
    if let Some(site) = fin.site {
        if let Some(t) = site.target {
            if let Some(val) = v {
                if !t.spec_is_arg() {
                    let caller = rest.last();
                    assert(s.frames[s.frames.len() - 1].site == fin.site);
                    caller.regs.lemma_updated(t, val, caller.regs);
                }
            }
        }
    }
}

/// One move of the program loop from `p` to `q`: a step that goes on, or a
/// step that asks for input or output followed by the return of `read` or
/// `write` with some value.
pub open spec fn advances(p: ProgramView, q: ProgramView) -> bool {
    let s = step_view(p).0;
    let r = step_view(p).1;
    ||| (r == Ok::<StepAction, (ErrorKindView, u64)>(StepAction::Continue) && q == s)
    ||| ((r == Ok::<StepAction, (ErrorKindView, u64)>(StepAction::Read) || r matches Ok(
        StepAction::Write(_),
    )) && exists|v: Option<u64>| #[trigger] returned(s, v).0 == q)
}

/// While a call runs, the frame of its caller does not change, and when the
/// callee returns, the caller goes on where it was, with the registers it
/// had but for the one that takes the value. `trace` is a run of the program
/// loop that starts with the callee's frame just above the caller's (at
/// `k + 1` and `k`), and in which the callee is still running before every
/// move.
pub proof fn lemma_callee_run_keeps_caller(trace: Seq<ProgramView>, k: int)
    requires
        trace.len() >= 1,
        0 <= k,
        forall|i: int| 0 <= i < trace.len() ==> frames_wf(#[trigger] trace[i].frames),
        forall|i: int| 0 <= i < trace.len() - 1 ==> #[trigger] advances(trace[i], trace[i + 1]),
        forall|i: int| 0 <= i < trace.len() - 1 ==> (#[trigger] trace[i]).frames.len() > k + 1,
        trace[0].frames.len() > k + 1,
    ensures
        ({
            let q = trace.last();
            let f0 = trace[0].frames[k];
            let site0 = trace[0].frames[k + 1].site;
            &&& q.frames.len() >= k + 1
            &&& q.frames.len() > k + 1 ==> q.frames[k] == f0 && q.frames[k + 1].site == site0
            &&& q.frames.len() == k + 1 ==> {
                &&& q.frames[k].fname == f0.fname
                &&& q.frames[k].block == f0.block
                &&& q.frames[k].next == f0.next
                &&& q.frames[k].site == f0.site
                &&& forall|reg: SwppRegisterName|
                    reg.wf() && !(site0 matches Some(st) && st.target == Some(reg))
                        ==> #[trigger] q.frames[k].regs.value_of(reg) == f0.regs.value_of(reg)
            }
        }),
    decreases trace.len(),
{
    if trace.len() > 1 {
        let pre = trace.drop_last();
        assert forall|i: int| 0 <= i < pre.len() - 1 implies #[trigger] advances(pre[i], pre[i + 1]) by {
            assert(advances(trace[i], trace[i + 1]));
        }
        assert forall|i: int| 0 <= i < pre.len() - 1 implies (#[trigger] pre[i]).frames.len() > k + 1 by {
            assert(trace[i].frames.len() > k + 1);
        }
        assert forall|i: int| 0 <= i < pre.len() implies frames_wf(#[trigger] pre[i].frames) by {
            assert(frames_wf(trace[i].frames));
        }
        lemma_callee_run_keeps_caller(pre, k);
        let j = trace.len() - 2;
        let r = trace[j];
        let q = trace[j + 1];
        assert(pre.last() == r);
        assert(r.frames.len() > k + 1);
        assert(advances(r, q));
        assert(frames_wf(r.frames));
        let m = r.frames.len() as int;
        lemma_step_keeps_callers(r);
        lemma_step_keeps_top_site(r);
        let s = step_view(r).0;
        if step_view(r).1 == Ok::<StepAction, (ErrorKindView, u64)>(StepAction::Continue) {
            assert(q == s);
        } else {
            let v = choose|v: Option<u64>| #[trigger] returned(s, v).0 == q;
            let top = r.frames[m - 1];
            let m1 = in_context(r.machine, top);
            let inst = fetch(m1, top)->Ok_0;
            assert(fetch(m1, top) is Ok);
            assert(!inst.is_internal());
            assert(s.frames == r.frames.update(m - 1, FrameView { next: top.next + 1, ..top }));
            assert(frames_wf(s.frames));
            lemma_returned_frames(s, v);
        }
    }
}

/// A call enters the callee with the caller's registers and the call's arguments
/// loaded into arg1, arg2, ...; the caller keeps its own registers. The cost of
/// the call is charged in that same step, before the callee runs any
/// instruction.
pub proof fn lemma_step_call(p: ProgramView)
    requires
        frames_wf(p.frames),
        p.frames.len() > 0,
        !step_faults(p),
        step_view(p).0.frames.len() == p.frames.len() + 1,
    ensures
        ({
            let q = step_view(p).0;
            let n = p.frames.len() as int;
            &&& q.frames[n - 1].regs == p.frames[n - 1].regs
            &&& q.frames[n].next == 0
            &&& q.machine.cost >= p.machine.cost + BASIC_COST_CONTROL_FNCALL
            &&& q.frames[n].site is Some
            &&& exists|args: Seq<u64>|
                args.len() <= 16 && q.frames[n].regs == p.frames[n - 1].regs.with_args(args)
        }),
{
    let n = p.frames.len() as int;
    let top = p.frames[n - 1];
    let m1 = in_context(p.machine, top);
    let inst = fetch(m1, top)->Ok_0;
    let q = step_view(p).0;
    let frames1 = p.frames.update(n - 1, FrameView { next: top.next + 1, ..top });
    assert(fetch(m1, top) is Ok);
    assert(inst.is_internal());
    assert(q == after_inst(ProgramView { machine: m1, frames: frames1 }, inst, top.regs).0);
    lemma_call_outcome(inst, m1, top.regs);
    let o = inst.outcome(m1, top.regs);
    let frames2 = frames1.update(n - 1, FrameView { regs: top.regs.apply(o.write), ..frames1[n - 1] });
    match o.result {
        Ok(Some(BlockResultView::Call(_))) => {},
        Ok(Some(BlockResultView::Return(v))) => {
            let pv = ProgramView { machine: o.machine, frames: frames2 };
            let r = returned(pv, v);
            let rest = frames2.drop_last();
            assert(frames2.len() == n);
            assert(rest.len() == n - 1);
            assert(r.0.frames.len() == n - 1) by {
                assert(frames2.last().site == p.frames[n - 1].site);
                match frames2.last().site {
                    None => {},
                    Some(site) => match site.target {
                        None => {},
                        Some(t) => match v {
                            None => {},
                            Some(val) => {
                                assert(n >= 2);
                                if !t.spec_is_arg() {
                                    assert(r.0.frames == rest.update(
                                        rest.len() - 1,
                                        FrameView {
                                            regs: rest.last().regs.updated(t, val),
                                            ..rest.last()
                                        },
                                    ));
                                }
                            },
                        },
                    },
                }
            }
            assert(q.frames.len() == n - 1);
            assert(false);
        },
        _ => {
            assert(q.frames.len() == n);
            assert(false);
        },
    }
    let c = o.result->Ok_0->Some_0->Call_0;
    lemma_fncall_cost(inst, m1, top.regs);
    assert(o.write is None);
    assert(c.args.len() <= 16);
    assert(q.frames[n].regs == p.frames[n - 1].regs.with_args(c.args));
}

/// An error raised inside a call is reported, out of the whole call stack, as a
/// crash of the outermost call that `main` made, at the line of that call.
pub proof fn lemma_error_reported_at_outermost_call(
    e: (ErrorKindView, u64),
    frames: Seq<FrameView>,
)
    requires
        frames_wf(frames),
        frames.len() >= 2,
    ensures
        wrapped(e, frames).1 == frames[1].site->Some_0.loc,
        wrapped(e, frames).0 matches ErrorKindView::FunctionCallCrash(f, _) && f == frames[1].fname,
    decreases frames.len(),
{
    let last = frames.last();
    assert(last.site is Some);
    let e2 = (
        ErrorKindView::FunctionCallCrash(last.fname, error_text(e.0, e.1)),
        last.site->Some_0.loc,
    );
    let rest = frames.drop_last();
    assert(wrapped(e, frames) == wrapped(e2, rest));
    if frames.len() == 2 {
        assert(rest.last().site is None);
        assert(wrapped(e2, rest) == e2);
    } else {
        assert(frames_wf(rest));
        lemma_error_reported_at_outermost_call(e2, rest);
    }
}

/// An error raised in `main` itself is reported as it is.
pub proof fn lemma_error_in_main(e: (ErrorKindView, u64), frames: Seq<FrameView>)
    requires
        frames_wf(frames),
        frames.len() == 1,
    ensures
        wrapped(e, frames) == e,
{
}

/// A heap access heats only sectors of the allocation it falls in: heat never
/// spreads into a neighboring allocation.
pub proof fn lemma_heat_stays_in_allocation(m: Machine, addr: u64, size: AccessSize, s: u64)
    requires
        heap_has(m.blocks, addr as int),
        m.heap_access_sectors(addr, size).contains(s),
    ensures
        ({
            let b = m.blocks[block_of(m.blocks, addr as int)];
            b.0 / SECTOR_SIZE <= s <= (b.0 + b.1.len() - 1) / SECTOR_SIZE as int
        }),
{
    let sectors = m.heap_access_sectors(addr, size);
    let k = choose|k: int| 0 <= k < sectors.len() && sectors[k] == s;
}


/// A heap access heats the sector it reads or writes: once the instruction is
/// over (its cost elapsed, the sectors it heated kept from cooling), that
/// sector is at least as hot as before, and hotter unless it was at the cap.
/// So the same access again right after costs no less.
pub proof fn lemma_heap_access_heats_its_sector(
    m: Machine,
    addr: u64,
    size: AccessSize,
    cost: u64,
    extra: u64,
    excl: Option<SwppRegisterName>,
)
    requires
        blocks_wf(m.blocks, m.top),
        forall|t: u64| #[trigger] (m.heat)(t) <= HEAT_CAP_PER_SECTOR,
        heap_has(m.blocks, addr as int),
    ensures
        ({
            let sectors = m.heap_access_sectors(addr, size);
            let after = finished(m.heat_access(sectors), cost, extra, Some(sectors), excl);
            let s = addr / SECTOR_SIZE;
            &&& sectors.contains(s)
            &&& after.heap_access_extra(addr) >= m.heap_access_extra(addr)
            &&& (m.heat)(s) < HEAT_CAP_PER_SECTOR ==> (after.heat)(s) > (m.heat)(s)
        }),
{
    let bl = m.blocks;
    let k = block_of(bl, addr as int);
    assert(holds(bl, k, addr as int));
    let b = bl[k];
    let s = addr / SECTOR_SIZE;
    let range = size.spec_bytes() / 2;
    let lo = crate::memory::max_int(
        s - crate::memory::min_int(s as int, range as int),
        (b.0 / SECTOR_SIZE) as int,
    );
    let hi = crate::memory::min_int(s + range, (b.0 + b.1.len() as u64 - 1) / SECTOR_SIZE as int);
    assert(b.0 <= addr < b.0 + b.1.len());
    assert(block_end(b) <= m.top);
    assert(b.1.len() as u64 == b.1.len());
    let st: int = b.0 as int;
    let last: int = b.0 + b.1.len() - 1;
    assert(st / 8 <= addr / 8 <= last / 8) by {
        vstd::arithmetic::div_mod::lemma_div_is_ordered(st, addr as int, 8);
        vstd::arithmetic::div_mod::lemma_div_is_ordered(addr as int, last, 8);
    }
    assert((b.0 + b.1.len() as u64 - 1) / SECTOR_SIZE as int == last / 8);
    assert((b.0 / SECTOR_SIZE) as int == st / 8);
    assert(lo <= s <= hi);
    let sectors = m.heap_access_sectors(addr, size);
    assert(sectors == crate::memory::sector_range(lo, hi));
    assert(sectors[s - lo] == s);
    assert(sectors.contains(s));
    let h = m.heat_access(sectors);
    let hs = (m.heat)(s);
    assert((h.heat)(s) == crate::heat::bumped_heat(hs));
    let c = (cost + extra) as u64;
    let cooled = h.add_cost(c as int).cool(c, Some(sectors));
    assert((cooled.heat)(s) == (h.heat)(s));
    let after = finished(h, cost, extra, Some(sectors), excl);
    assert(after == cooled.resolve(c, excl));
    assert(after.heat == cooled.heat);
    assert(crate::heat::bumped_heat(hs) >= hs);
    vstd::arithmetic::div_mod::lemma_div_is_ordered(
        hs as int,
        crate::heat::bumped_heat(hs) as int,
        crate::heat::HEAT_COST_DIVISOR as int,
    );
}

/// An instruction that writes a register, other than an asynchronous load,
/// leaves that register owing nothing: an asynchronous load still pending into
/// it is cancelled.
pub proof fn lemma_write_cancels_debt(inst: SwppInst, m: Machine, regs: SwppRegisterSet)
    requires
        !(inst.spec_kind() is ALoad),
    ensures
        ({
            let o = inst.outcome(m, regs);
            o.result is Ok ==> (o.write matches Some((t, _)) ==> (o.machine.debt)(t) == 0)
        }),
{
    let o = inst.outcome(m, regs);
    if o.result is Ok && o.write is Some {
        let t = o.write->Some_0.0;
        match inst.spec_kind() {
            SwppInstKind::Ret(_) => reveal(ret_outcome),
            SwppInstKind::UBranch(_) => reveal(ubranch_outcome),
            SwppInstKind::Branch(_) => reveal(branch_outcome),
            SwppInstKind::Switch(_) => reveal(switch_outcome),
            SwppInstKind::FnCall(_) => reveal(fncall_outcome),
            SwppInstKind::Assert(_) => reveal(assert_outcome),
            SwppInstKind::Malloc(_) => reveal(malloc_outcome),
            SwppInstKind::Free(_) => reveal(free_outcome),
            SwppInstKind::Load(_) => reveal(load_outcome),
            SwppInstKind::Store(_) => reveal(store_outcome),
            SwppInstKind::ALoad(_) => {},
            SwppInstKind::UDiv(_) => reveal(udiv_outcome),
            SwppInstKind::SDiv(_) => reveal(sdiv_outcome),
            SwppInstKind::URem(_) => reveal(urem_outcome),
            SwppInstKind::SRem(_) => reveal(srem_outcome),
            SwppInstKind::Mul(_) => reveal(mul_outcome),
            SwppInstKind::Shl(_) => reveal(shl_outcome),
            SwppInstKind::Lshr(_) => reveal(lshr_outcome),
            SwppInstKind::Ashr(_) => reveal(ashr_outcome),
            SwppInstKind::And(_) => reveal(and_outcome),
            SwppInstKind::Or(_) => reveal(or_outcome),
            SwppInstKind::Xor(_) => reveal(xor_outcome),
            SwppInstKind::EAdd(_) => reveal(eadd_outcome),
            SwppInstKind::OAdd(_) => reveal(oadd_outcome),
            SwppInstKind::ESub(_) => reveal(esub_outcome),
            SwppInstKind::OSub(_) => reveal(osub_outcome),
            SwppInstKind::Comp(_) => reveal(comp_outcome),
            SwppInstKind::Select(_) => reveal(select_outcome),
            SwppInstKind::Read(_) => reveal(read_outcome),
            SwppInstKind::Write(_) => reveal(write_outcome),
        }
    }
}

/// No instruction that succeeds writes an argument register: an instruction
/// that would is refused with an error.
pub proof fn lemma_no_write_to_argument_registers(inst: SwppInst, m: Machine, regs: SwppRegisterSet)
    ensures
        ({
            let o = inst.outcome(m, regs);
            o.result is Ok ==> (o.write matches Some((t, _)) ==> !t.spec_is_arg())
        }),
{
    let o = inst.outcome(m, regs);
    if o.result is Ok && o.write is Some {
        let t = o.write->Some_0.0;
        match inst.spec_kind() {
            SwppInstKind::Ret(_) => reveal(ret_outcome),
            SwppInstKind::UBranch(_) => reveal(ubranch_outcome),
            SwppInstKind::Branch(_) => reveal(branch_outcome),
            SwppInstKind::Switch(_) => reveal(switch_outcome),
            SwppInstKind::FnCall(_) => reveal(fncall_outcome),
            SwppInstKind::Assert(_) => reveal(assert_outcome),
            SwppInstKind::Malloc(_) => reveal(malloc_outcome),
            SwppInstKind::Free(_) => reveal(free_outcome),
            SwppInstKind::Load(_) => reveal(load_outcome),
            SwppInstKind::Store(_) => reveal(store_outcome),
            SwppInstKind::ALoad(_) => reveal(aload_outcome),
            SwppInstKind::UDiv(_) => reveal(udiv_outcome),
            SwppInstKind::SDiv(_) => reveal(sdiv_outcome),
            SwppInstKind::URem(_) => reveal(urem_outcome),
            SwppInstKind::SRem(_) => reveal(srem_outcome),
            SwppInstKind::Mul(_) => reveal(mul_outcome),
            SwppInstKind::Shl(_) => reveal(shl_outcome),
            SwppInstKind::Lshr(_) => reveal(lshr_outcome),
            SwppInstKind::Ashr(_) => reveal(ashr_outcome),
            SwppInstKind::And(_) => reveal(and_outcome),
            SwppInstKind::Or(_) => reveal(or_outcome),
            SwppInstKind::Xor(_) => reveal(xor_outcome),
            SwppInstKind::EAdd(_) => reveal(eadd_outcome),
            SwppInstKind::OAdd(_) => reveal(oadd_outcome),
            SwppInstKind::ESub(_) => reveal(esub_outcome),
            SwppInstKind::OSub(_) => reveal(osub_outcome),
            SwppInstKind::Comp(_) => reveal(comp_outcome),
            SwppInstKind::Select(_) => reveal(select_outcome),
            SwppInstKind::Read(_) => reveal(read_outcome),
            SwppInstKind::Write(_) => reveal(write_outcome),
        }
    }
}

/// An add or sub right after a deferred multiplication, division or remainder
/// runs as if that operation's cost had never been deferred: the deferred cost
/// is dropped, and nothing else changes.
pub proof fn lemma_fused_addsub(inst: SwppInst, m: Machine, regs: SwppRegisterSet)
    requires
        inst.spec_kind().is_addsub(),
        m.pending is Some,
    ensures
        ({
            let fused = inst.outcome(m, regs);
            let plain = inst.outcome(Machine { pending: None, ..m }, regs);
            &&& fused.write == plain.write
            &&& fused.result == plain.result
            &&& fused.result is Ok ==> fused.machine == plain.machine
        }),
{
    reveal(eadd_outcome);
    reveal(oadd_outcome);
    reveal(esub_outcome);
    reveal(osub_outcome);
    let plain_m = Machine { pending: None, ..m };
    assert(plain_m.flush() == plain_m);
    let fused = inst.outcome(m, regs);
    let plain = inst.outcome(plain_m, regs);
    if fused.result is Ok {
        assert(fused.machine =~= plain.machine);
    }
}

} // verus!
