use std::rc::Rc;

use vstd::prelude::*;

use crate::common::{AccessSize, BASIC_COST_ARITH_INT_MULDIV, MAIN_NAME, MEM_STACK_SIZE, STEP_COST_BOUND};
use crate::debt::{reduced_debt, DebtList};
use crate::error::{error_text, ErrorKindView, SwppError, SwppErrorKind, SwppRawResult, SwppResult};
use crate::function::{has_block_named, last_block_index, SwppFunction};
use crate::heat::{cooled_heat, excluded};
use crate::inst::{InstStdRead, InstStdWrite, SwppInst, SwppInstKind};
use crate::logger::{LogEvent, SwppLogger};
use crate::memory::{BlockView, SwppMemory};
use crate::register::{SwppRegisterName, SwppRegisterSet};

verus! {

/// A block of instructions, which is a part of a function's implementation.
/// It has a name, its instructions, and the line where it starts (for error reports).
#[derive(Debug)]
pub struct SwppBlock {
    pub block_name: String,
    pub inst_vec: Vec<SwppInst>,
    pub start_loc: u64,
}

/// Which function and block is currently being executed.
#[derive(Debug)]
pub struct SwppContext {
    /// The name of the function currently being executed
    fname: String,
    /// The name of the block currently being executed
    bname: String,
}

impl Clone for SwppContext {
    fn clone(&self) -> (res: Self)
        ensures
            res == *self,
    {
        SwppContext { fname: self.fname.clone(), bname: self.bname.clone() }
    }
}

impl SwppContext {
    pub closed spec fn spec_fname(self) -> Seq<char> {
        self.fname@
    }

    pub closed spec fn spec_bname(self) -> Seq<char> {
        self.bname@
    }

    pub fn get_fname(&self) -> (res: String)
        ensures
            res@ == self.spec_fname(),
    {
        self.fname.clone()
    }

    pub fn get_bname(&self) -> (res: String)
        ensures
            res@ == self.spec_bname(),
    {
        self.bname.clone()
    }
}

/// What running an instruction asks of the program loop.
pub enum BlockResult {
    /// Jump to the named block; the line of the jumping instruction
    NextBlock(String, u64),
    /// Leave the function, with its value if it has one
    Return(Option<u64>),
    /// Call a function
    Call(CallRequest),
}

/// A call: the callee, the values of its arguments, the register that takes
/// its value, and the line of the call.
#[derive(Debug)]
pub struct CallRequest {
    pub fname: String,
    pub args: Vec<u64>,
    pub target: Option<SwppRegisterName>,
    pub loc: u64,
}

/// A call request as seen by the specification.
pub struct CallView {
    pub fname: Seq<char>,
    pub args: Seq<u64>,
    pub target: Option<SwppRegisterName>,
    pub loc: u64,
}

/// What an instruction asks of the program loop, as seen by the specification.
pub enum BlockResultView {
    NextBlock(Seq<char>, u64),
    Return(Option<u64>),
    Call(CallView),
}

impl View for CallRequest {
    type V = CallView;

    open spec fn view(&self) -> CallView {
        CallView { fname: self.fname@, args: self.args@, target: self.target, loc: self.loc }
    }
}

impl View for BlockResult {
    type V = BlockResultView;

    open spec fn view(&self) -> BlockResultView {
        match self {
            BlockResult::NextBlock(b, l) => BlockResultView::NextBlock(b@, *l),
            BlockResult::Return(v) => BlockResultView::Return(*v),
            BlockResult::Call(c) => BlockResultView::Call(c@),
        }
    }
}

/// A multiplication, division or remainder whose cost is not charged yet.
#[derive(Debug)]
struct PendingFmaCost {
    loc: u64,
    inst_name: String,
    context: SwppContext,
}

/// A deferred cost as seen by the specification: line, instruction name,
/// function and block.
pub struct PendingView {
    pub loc: u64,
    pub name: Seq<char>,
    pub fname: Seq<char>,
    pub bname: Seq<char>,
}

/// The state of the machine as seen by the specification.
#[verifier::ext_equal]
pub struct Machine {
    /// Bytes of the stack
    pub stack: Seq<u8>,
    /// Live heap allocations
    pub blocks: Seq<BlockView>,
    /// Where the next heap allocation starts
    pub top: u64,
    /// Current total size of the heap allocations
    pub cur: u64,
    /// Largest total size of the heap allocations so far
    pub max: u64,
    /// Heat of each heap sector
    pub heat: spec_fn(u64) -> u64,
    /// Cost paid so far
    pub cost: int,
    /// Outstanding asynchronous-load debt of each register
    pub debt: spec_fn(SwppRegisterName) -> u64,
    /// A multiplication, division or remainder whose cost may still be cancelled
    pub pending: Option<PendingView>,
    /// Current function
    pub fname: Seq<char>,
    /// Current block
    pub bname: Seq<char>,
    /// The functions of the program
    pub functions: Seq<SwppFunction>,
}

/// Function `i` of `fs` is named `name`.
pub open spec fn fn_named(fs: Seq<SwppFunction>, i: int, name: Seq<char>) -> bool {
    0 <= i < fs.len() && fs[i].spec_fname() == name
}

pub open spec fn has_fn_named(fs: Seq<SwppFunction>, name: Seq<char>) -> bool {
    exists|i: int| fn_named(fs, i, name)
}

/// The index of the last function named `name`: a later function of the same
/// name replaces an earlier one.
pub open spec fn last_fn_index(fs: Seq<SwppFunction>, name: Seq<char>) -> int {
    choose|i: int|
        fn_named(fs, i, name) && forall|j: int| i < j < fs.len() ==> fs[j].spec_fname() != name
}

pub proof fn lemma_last_fn_index(fs: Seq<SwppFunction>, name: Seq<char>, i: int)
    requires
        fn_named(fs, i, name),
        forall|j: int| i < j < fs.len() ==> fs[j].spec_fname() != name,
    ensures
        last_fn_index(fs, name) == i,
{
    let k = last_fn_index(fs, name);
    if k != i {
        if k < i {
            assert(fs[i].spec_fname() == name);
        } else {
            assert(fs[k].spec_fname() == name);
        }
    }
}

/// The function named `name`.
pub open spec fn fn_of(fs: Seq<SwppFunction>, name: Seq<char>) -> SwppFunction {
    fs[last_fn_index(fs, name)]
}

impl Machine {
    pub open spec fn add_cost(self, c: int) -> Machine {
        Machine { cost: self.cost + c, ..self }
    }

    /// Heat cools by `c`, except in the excluded sectors.
    pub open spec fn cool(self, c: u64, exclude: Option<Seq<u64>>) -> Machine {
        Machine {
            heat: |t: u64|
                if exclude matches Some(list) && list.contains(t) {
                    (self.heat)(t)
                } else {
                    cooled_heat((self.heat)(t), c)
                },
            ..self
        }
    }

    /// Every debt but that of `exclude` shrinks by `c`.
    pub open spec fn resolve(self, c: u64, exclude: Option<SwppRegisterName>) -> Machine {
        if c == 0 {
            self
        } else {
            Machine {
                debt: |r: SwppRegisterName|
                    if exclude == Some(r) {
                        (self.debt)(r)
                    } else {
                        reduced_debt((self.debt)(r), c)
                    },
                ..self
            }
        }
    }

    /// `c` units of elapsed cost: heat cools and debts shrink.
    pub open spec fn elapse(
        self,
        c: u64,
        exclude_sectors: Option<Seq<u64>>,
        exclude_reg: Option<SwppRegisterName>,
    ) -> Machine {
        self.cool(c, exclude_sectors).resolve(c, exclude_reg)
    }

    pub open spec fn set_debt(self, r: SwppRegisterName, d: u64) -> Machine {
        Machine {
            debt: |t: SwppRegisterName|
                if t == r {
                    d
                } else {
                    (self.debt)(t)
                },
            ..self
        }
    }

    /// Register `r` is read before its asynchronous load finished: its whole debt
    /// is paid now, and that time elapses for everything else.
    pub open spec fn pay(self, r: SwppRegisterName) -> Machine {
        let d = (self.debt)(r);
        self.set_debt(r, 0).add_cost(d as int).elapse(d, None, None)
    }

    /// The state after reading operand `a`.
    pub open spec fn read_arg(self, a: crate::common::Arg) -> Machine {
        match a {
            crate::common::Arg::Reg(r) => self.pay(r),
            crate::common::Arg::Const(_) => self,
        }
    }

    /// The deferred cost, if any, is charged now.
    pub open spec fn flush(self) -> Machine {
        if self.pending is Some {
            Machine {
                pending: None,
                ..self.add_cost(BASIC_COST_ARITH_INT_MULDIV as int).elapse(
                    BASIC_COST_ARITH_INT_MULDIV,
                    None,
                    None,
                )
            }
        } else {
            self
        }
    }

    /// The deferred cost, if any, is dropped.
    pub open spec fn cancel_pending(self) -> Machine {
        Machine { pending: None, ..self }
    }

    pub open spec fn defer(self, loc: u64, name: Seq<char>) -> Machine {
        Machine {
            pending: Some(
                PendingView { loc: loc, name: name, fname: self.fname, bname: self.bname },
            ),
            ..self
        }
    }

    /// The function named `name`, if any.
    pub open spec fn function(self, name: Seq<char>) -> Option<SwppFunction> {
        if has_fn_named(self.functions, name) {
            Some(fn_of(self.functions, name))
        } else {
            None
        }
    }
}

/// The global state: memory, cost paid so far, the functions of the program,
/// which function and block is executing, outstanding load debts and a deferred cost.
pub struct SwppState {
    mem: SwppMemory,
    cur_cost: u64,
    /// The functions of the program, looked up by name; where two share a
    /// name, the later one is found, as in a map filled in order
    functions: Rc<Vec<SwppFunction>>,
    /// The function and block currently being executed
    cur_context: SwppContext,
    /// Outstanding asynchronous-load debts, by register
    aload_debts: DebtList,
    /// Deferred mul/div/rem cost that the immediately following add/sub may cancel
    pending_fma_cost: Option<PendingFmaCost>,
}

impl View for SwppState {
    type V = Machine;

    closed spec fn view(&self) -> Machine {
        Machine {
            stack: self.mem.stack(),
            blocks: self.mem.heap_blocks(),
            top: self.mem.heap_top(),
            cur: self.mem.heap_cur_size(),
            max: self.mem.max_heap_size(),
            heat: |s: u64| self.mem.heat(s),
            cost: self.cur_cost as int,
            debt: |r: SwppRegisterName| self.aload_debts.debt(r),
            pending: match self.pending_fma_cost {
                Some(p) => Some(
                    PendingView {
                        loc: p.loc,
                        name: p.inst_name@,
                        fname: p.context.fname@,
                        bname: p.context.bname@,
                    },
                ),
                None => None,
            },
            fname: self.cur_context.fname@,
            bname: self.cur_context.bname@,
            functions: (*self.functions)@,
        }
    }
}

impl SwppState {
    pub closed spec fn wf(self) -> bool {
        &&& self.mem.wf()
        &&& self.aload_debts.wf()
        &&& forall|i: int|
            0 <= i < (*self.functions)@.len() ==> (#[trigger] (*self.functions)@[i]).wf()
    }

    /// Every function is well formed.
    pub proof fn lemma_functions(self)
        requires
            self.wf(),
        ensures
            forall|i: int| 0 <= i < self@.functions.len() ==> (#[trigger] self@.functions[i]).wf(),
    {
    }

    /// The memory of the machine.
    pub closed spec fn memory(self) -> SwppMemory {
        self.mem
    }

    /// The cost paid so far plus all outstanding debts: what the cost can still
    /// grow to without new charges.
    pub closed spec fn budget(self) -> int {
        self.cur_cost + self.aload_debts.total()
    }

    pub proof fn lemma_budget(self)
        ensures
            self.budget() >= self@.cost,
            self@.cost <= u64::MAX,
            self@.cost >= 0,
    {
        self.aload_debts.lemma_total_nonneg();
    }

    pub proof fn lemma_heat_bound(self)
        requires
            self.wf(),
        ensures
            forall|s: u64| #[trigger] (self@.heat)(s) <= crate::heat::HEAT_CAP_PER_SECTOR,
    {
        self.mem.lemma_wf();
    }

    pub proof fn lemma_memory(self)
        requires
            self.wf(),
        ensures
            self.memory().wf(),
            self@.stack == self.memory().stack(),
            self@.blocks == self.memory().heap_blocks(),
            self@.top == self.memory().heap_top(),
            self@.cur == self.memory().heap_cur_size(),
            self@.max == self.memory().max_heap_size(),
            forall|s: u64| #[trigger] (self@.heat)(s) == self.memory().heat(s),
    {
    }

    pub fn new(f_vec: Vec<SwppFunction>) -> (res: Self)
        requires
            forall|i: int| 0 <= i < f_vec@.len() ==> (#[trigger] f_vec@[i]).wf(),
        ensures
            res.wf(),
            res.budget() == 0,
            res@.functions.len() == f_vec@.len() + 2,
            res@.functions.subrange(0, f_vec@.len() as int) == f_vec@,
            res@.functions[f_vec@.len() as int].spec_fname() == "read"@,
            res@.functions[f_vec@.len() as int].spec_nargs() == 0,
            res@.functions[f_vec@.len() as int + 1].spec_fname() == "write"@,
            res@.functions[f_vec@.len() as int + 1].spec_nargs() == 1,
            forall|i: int| 0 <= i < res@.functions.len() ==> (#[trigger] res@.functions[i]).wf(),
            res@.stack == crate::memory::zeros(crate::common::MEM_STACK_SIZE as nat),
            res@.blocks == Seq::<BlockView>::empty(),
            res@.top == crate::common::HEAP_OFFSET,
            res@.cur == 0,
            res@.max == 0,
            forall|s: u64| #[trigger] (res@.heat)(s) == 0,
            res@.cost == 0,
            forall|r: SwppRegisterName| #[trigger] (res@.debt)(r) == 0,
            res@.pending is None,
            res@.fname == "main"@,
            res@.bname == "entry"@,
    {
        let mut f_vec = f_vec;
        let ghost user = f_vec@;
        let read_block = SwppBlock {
            block_name: String::from_str("read"),
            inst_vec: vec![SwppInst::new(SwppInstKind::Read(InstStdRead::new()), 0)],
            start_loc: 0,
        };
        let mut read_blocks = Vec::new();
        read_blocks.push(read_block);
        let read_fun = SwppFunction::new(String::from_str("read"), 0, read_blocks);
        let write_block = SwppBlock {
            block_name: String::from_str("write"),
            inst_vec: vec![SwppInst::new(SwppInstKind::Write(InstStdWrite::new()), 0)],
            start_loc: 0,
        };
        let mut write_blocks = Vec::new();
        write_blocks.push(write_block);
        let write_fun = SwppFunction::new(String::from_str("write"), 1, write_blocks);
        f_vec.push(read_fun);
        f_vec.push(write_fun);
        proof {
            assert(f_vec@.subrange(0, user.len() as int) =~= user);
        }
        let res = Self {
            mem: SwppMemory::new(),
            cur_cost: 0,
            functions: Rc::new(f_vec),
            cur_context: SwppContext {
                fname: String::from_str("main"),
                bname: String::from_str("entry"),
            },
            aload_debts: DebtList::new(),
            pending_fma_cost: None,
        };
        proof {
            reveal_strlit("main");
            reveal_strlit("entry");
            reveal_strlit("read");
            reveal_strlit("write");
        }
        res
    }

    fn find_fn(&self, fname: &String) -> (res: Option<usize>)
        ensures
            match res {
                Some(i) => has_fn_named(self@.functions, fname@) && i == last_fn_index(
                    self@.functions,
                    fname@,
                ) && i < self@.functions.len(),
                None => !has_fn_named(self@.functions, fname@),
            },
    {
        let fs: &Vec<SwppFunction> = &*self.functions;
        let mut i: usize = fs.len();
        while i > 0
            invariant
                fs@ == self@.functions,
                i <= fs@.len(),
                forall|j: int| i <= j < fs@.len() ==> #[trigger] fs@[j].spec_fname() != fname@,
            decreases i,
        {
            let name = fs[i - 1].fname();
            if name == *fname {
                proof {
                    assert(fn_named(fs@, i - 1, fname@));
                    lemma_last_fn_index(fs@, fname@, i - 1);
                }
                return Some(i - 1);
            }
            i = i - 1;
        }
        None
    }

    /// The function named `fname`.
    pub fn get_fn_ref(&self, fname: &str) -> (res: SwppRawResult<&SwppFunction>)
        ensures
            res matches Ok(f) ==> self@.function(fname@) == Some(*f),
            res matches Err(e) ==> self@.function(fname@) is None && e@
                == ErrorKindView::UnknownFnName(fname@),
            res is Ok <==> self@.function(fname@) is Some,
    {
        let name = fname.to_owned();
        self.get_fn_of(&name)
    }

    pub fn get_fn_of(&self, fname: &String) -> (res: SwppRawResult<&SwppFunction>)
        ensures
            res matches Ok(f) ==> self@.function(fname@) == Some(*f),
            res matches Err(e) ==> self@.function(fname@) is None && e@
                == ErrorKindView::UnknownFnName(fname@),
            res is Ok <==> self@.function(fname@) is Some,
    {
        match self.find_fn(fname) {
            Some(i) => Ok(&self.functions[i]),
            None => Err(SwppErrorKind::UnknownFnName(fname.clone())),
        }
    }

    /// The functions of the program, shared.
    pub fn functions(&self) -> (res: Rc<Vec<SwppFunction>>)
        ensures
            (*res)@ == self@.functions,
    {
        Rc::clone(&self.functions)
    }

    /// The position of block `block_name` in function `fname`.
    pub fn get_block_index(&self, fname: &str, block_name: &str) -> (res: SwppRawResult<u64>)
        ensures
            raw_block_index(self@, fname@, block_name@) == crate::error::raw_view(res),
    {
        let f = self.get_fn_ref(fname)?;
        f.get_block_index(block_name)
    }

    pub fn add_cost(&mut self, cost: u64)
        requires
            old(self).wf(),
            old(self)@.cost + cost <= u64::MAX,
        ensures
            final(self).wf(),
            final(self)@ == old(self)@.add_cost(cost as int),
            final(self).budget() == old(self).budget() + cost,
    {
        self.cur_cost = self.cur_cost + cost;
        proof {
            assert(self@ =~= old(self)@.add_cost(cost as int));
        }
    }

    /// Where the next heap allocation starts.
    pub fn get_heap_top(&self) -> (res: u64)
        ensures
            res == self@.top,
    {
        self.mem.get_heap_top()
    }

    /// Whether the cost paid so far, all outstanding debts and `extra` fit in `u64`.
    pub fn budget_fits(&self, extra: u64) -> (res: bool)
        ensures
            res == (self.budget() + extra <= u64::MAX),
    {
        proof {
            self.aload_debts.lemma_total_nonneg();
        }
        if self.cur_cost > u64::MAX - extra {
            false
        } else {
            self.aload_debts.fits_with(self.cur_cost + extra)
        }
    }

    pub fn get_cost(&self) -> (res: u64)
        ensures
            res == self@.cost,
    {
        self.cur_cost
    }

    pub fn change_f_context(&mut self, fname: &str)
        requires
            old(self).wf(),
        ensures
            final(self).wf(),
            final(self)@ == (Machine { fname: fname@, ..old(self)@ }),
            final(self).budget() == old(self).budget(),
    {
        self.cur_context.fname = fname.to_owned();
        proof {
            assert(self@ =~= (Machine { fname: fname@, ..old(self)@ }));
        }
    }

    pub fn change_b_context(&mut self, bname: &str)
        requires
            old(self).wf(),
        ensures
            final(self).wf(),
            final(self)@ == (Machine { bname: bname@, ..old(self)@ }),
            final(self).budget() == old(self).budget(),
    {
        self.cur_context.bname = bname.to_owned();
        proof {
            assert(self@ =~= (Machine { bname: bname@, ..old(self)@ }));
        }
    }

    pub fn get_context(&self) -> (res: &SwppContext)
        ensures
            res.spec_fname() == self@.fname,
            res.spec_bname() == self@.bname,
    {
        &self.cur_context
    }

    pub fn has_pending_fma_cost(&self) -> (res: bool)
        ensures
            res == self@.pending is Some,
    {
        self.pending_fma_cost.is_some()
    }

    pub fn defer_fma_cost(&mut self, loc: u64, inst_name: &str)
        requires
            old(self).wf(),
        ensures
            final(self).wf(),
            final(self)@ == old(self)@.defer(loc, inst_name@),
            final(self).budget() == old(self).budget(),
    {
        self.pending_fma_cost = Some(
            PendingFmaCost {
                loc,
                inst_name: inst_name.to_owned(),
                context: self.cur_context.clone(),
            },
        );
        proof {
            assert(self@ =~= old(self)@.defer(loc, inst_name@));
        }
    }

    /// Lets `c` elapse for heat and debts.
    fn elapse(&mut self, c: u64, exclude_sectors: Option<&[u64]>, exclude_reg: Option<&SwppRegisterName>)
        requires
            old(self).wf(),
        ensures
            final(self).wf(),
            final(self)@ == old(self)@.elapse(
                c,
                match exclude_sectors {
                    Some(l) => Some(l@),
                    None => None,
                },
                match exclude_reg {
                    Some(r) => Some(*r),
                    None => None,
                },
            ),
            final(self).budget() <= old(self).budget(),
    {
        self.cool_down(c, exclude_sectors);
        self.resolve_aload_debts(c, exclude_reg);
    }

    /// Charges the deferred multiplication, division or remainder cost, if any.
    pub fn flush_pending_fma_cost<L: SwppLogger>(&mut self, logger: &mut L)
        requires
            old(self).wf(),
            old(self).budget() + BASIC_COST_ARITH_INT_MULDIV <= u64::MAX,
        ensures
            final(self).wf(),
            final(self)@ == old(self)@.flush(),
            final(self).budget() <= old(self).budget() + BASIC_COST_ARITH_INT_MULDIV,
            L::obeys_history() ==> final(logger).history() == match old(self)@.pending {
                Some(p) => old(logger).history().push(
                    LogEvent::Record {
                        line: p.loc,
                        inst: p.name,
                        cost: BASIC_COST_ARITH_INT_MULDIV,
                        total: (old(self)@.cost + BASIC_COST_ARITH_INT_MULDIV) as u64,
                        fname: p.fname,
                    },
                ),
                None => old(logger).history(),
            },
    {
        let pending_inst = self.pending_fma_cost.take();
        match pending_inst {
            None => {
                proof {
                    assert(self@ =~= old(self)@);
                }
            },
            Some(pending_inst) => {
                proof {
                    self.lemma_budget();
                }
                self.add_cost(BASIC_COST_ARITH_INT_MULDIV);
                self.elapse(BASIC_COST_ARITH_INT_MULDIV, None, None);
                logger.log(
                    pending_inst.loc,
                    pending_inst.inst_name.as_str(),
                    BASIC_COST_ARITH_INT_MULDIV,
                    self.get_cost(),
                    &pending_inst.context,
                );
                proof {
                    assert(self@ =~= old(self)@.flush());
                }
            },
        }
    }

    /// Drops the deferred cost, if any: the add or sub that follows fuses with it.
    pub fn cancel_pending_fma_cost<L: SwppLogger>(&mut self, logger: &mut L)
        requires
            old(self).wf(),
        ensures
            final(self).wf(),
            final(self)@ == old(self)@.cancel_pending(),
            final(self).budget() == old(self).budget(),
            L::obeys_history() ==> final(logger).history() == match old(self)@.pending {
                Some(p) => old(logger).history().push(
                    LogEvent::Record {
                        line: p.loc,
                        inst: p.name + "-FMA"@,
                        cost: 0,
                        total: old(self)@.cost as u64,
                        fname: p.fname,
                    },
                ),
                None => old(logger).history(),
            },
    {
        let pending_inst = self.pending_fma_cost.take();
        match pending_inst {
            None => {
                proof {
                    assert(self@ =~= old(self)@.cancel_pending());
                }
            },
            Some(pending_inst) => {
                let mut log_name = pending_inst.inst_name.clone();
                log_name.append("-FMA");
                logger.log(
                    pending_inst.loc,
                    log_name.as_str(),
                    0,
                    self.get_cost(),
                    &pending_inst.context,
                );
                proof {
                    assert(self@ =~= old(self)@.cancel_pending());
                }
            },
        }
    }

    pub fn malloc(&mut self, size: u64) -> (res: SwppRawResult<u64>)
        requires
            old(self).wf(),
            size + old(self)@.top <= u64::MAX,
        ensures
            final(self).wf(),
            final(self).budget() == old(self).budget(),
            if size + old(self)@.top > crate::common::MAX_HEAP_SIZE || size > usize::MAX {
                &&& res == Err::<u64, SwppErrorKind>(SwppErrorKind::NOMEMHEAP)
                &&& final(self)@ == old(self)@
            } else {
                &&& res == Ok::<u64, SwppErrorKind>(old(self)@.top)
                &&& final(self)@ == old(self)@.malloced(size)
            },
    {
        let r = self.mem.malloc(size);
        proof {
            if r is Ok {
                assert(self@ =~= old(self)@.malloced(size));
            } else {
                assert(self@ =~= old(self)@);
            }
        }
        r
    }

    pub fn free(&mut self, addr: u64) -> (res: SwppRawResult<()>)
        requires
            old(self).wf(),
        ensures
            final(self).wf(),
            final(self).budget() == old(self).budget(),
            (final(self)@, crate::error::raw_view(res)) == old(self)@.freed(addr),
    {
        let r = self.mem.free(addr);
        proof {
            if addr == crate::common::NULL_ADDR || addr < crate::common::HEAP_OFFSET
                || !crate::memory::has_start(old(self)@.blocks, addr) {
                assert(self@ =~= old(self)@);
            } else {
                assert(self@ =~= old(self)@.freed(addr).0);
            }
        }
        r
    }

    pub fn read_from_stack(&self, addr: u64, size: AccessSize) -> (res: SwppRawResult<u64>)
        requires
            self.wf(),
        ensures
            res == crate::memory::stack_read_result(self@.stack, addr, size.spec_bytes()),
    {
        self.mem.read_from_stack(addr, size)
    }

    pub fn read_from_heap(&self, addr: u64, size: AccessSize) -> (res: SwppRawResult<u64>)
        requires
            self.wf(),
        ensures
            res == crate::memory::heap_read_result(self@.blocks, addr, size.spec_bytes()),
    {
        self.mem.read_from_heap(addr, size)
    }

    pub fn write_to_stack(&mut self, addr: u64, val: u64, size: AccessSize) -> (res:
        SwppRawResult<()>)
        requires
            old(self).wf(),
        ensures
            final(self).wf(),
            final(self).budget() == old(self).budget(),
            res == crate::memory::stack_write_result(old(self)@.stack, addr, size.spec_bytes()),
            final(self)@ == (Machine {
                stack: crate::memory::write_bytes(
                    old(self)@.stack,
                    addr as int,
                    val,
                    size.spec_bytes() as nat,
                ),
                ..old(self)@
            }),
    {
        let r = self.mem.write_to_stack(addr, val, size);
        proof {
            assert(self@ =~= (Machine {
                stack: crate::memory::write_bytes(
                    old(self)@.stack,
                    addr as int,
                    val,
                    size.spec_bytes() as nat,
                ),
                ..old(self)@
            }));
        }
        r
    }

    pub fn write_to_heap(&mut self, addr: u64, val: u64, size: AccessSize) -> (res:
        SwppRawResult<()>)
        requires
            old(self).wf(),
        ensures
            final(self).wf(),
            final(self).budget() == old(self).budget(),
            res == crate::memory::heap_write_result(old(self)@.blocks, addr, size.spec_bytes()),
            final(self)@ == (Machine {
                blocks: crate::memory::heap_after_write(
                    old(self)@.blocks,
                    addr,
                    val,
                    size.spec_bytes(),
                ),
                ..old(self)@
            }),
    {
        let r = self.mem.write_to_heap(addr, val, size);
        proof {
            assert(self@ =~= (Machine {
                blocks: crate::memory::heap_after_write(
                    old(self)@.blocks,
                    addr,
                    val,
                    size.spec_bytes(),
                ),
                ..old(self)@
            }));
        }
        r
    }

    pub fn cost_stack(&mut self, addr: u64, size: AccessSize) -> (res: (u64, Vec<u64>))
        requires
            old(self).wf(),
        ensures
            final(self).wf(),
            final(self)@ == old(self)@,
            final(self).budget() == old(self).budget(),
            res.0 == 0,
            res.1@ == Seq::<u64>::empty(),
    {
        let r = self.mem.cost_stack(addr, size);
        proof {
            assert(self@ =~= old(self)@);
        }
        r
    }

    pub fn cost_heap(&mut self, addr: u64, size: AccessSize) -> (res: (u64, Vec<u64>))
        requires
            old(self).wf(),
            crate::memory::heap_has(old(self)@.blocks, addr as int),
        ensures
            final(self).wf(),
            final(self).budget() == old(self).budget(),
            res.1@ == old(self)@.heap_access_sectors(addr, size),
            res.0 == old(self)@.heap_access_extra(addr),
            final(self)@ == old(self)@.heat_access(res.1@),
    {
        let r = self.mem.cost_heap(addr, size);
        proof {
            assert(self@ =~= old(self)@.heat_access(r.1@));
        }
        r
    }

    pub fn cool_down(&mut self, instruction_cost: u64, exclude_sectors: Option<&[u64]>)
        requires
            old(self).wf(),
        ensures
            final(self).wf(),
            final(self).budget() == old(self).budget(),
            final(self)@ == old(self)@.cool(
                instruction_cost,
                match exclude_sectors {
                    Some(l) => Some(l@),
                    None => None,
                },
            ),
    {
        self.mem.cool_down(instruction_cost, exclude_sectors);
        proof {
            assert(self@ =~= old(self)@.cool(
                instruction_cost,
                match exclude_sectors {
                    Some(l) => Some(l@),
                    None => None,
                },
            ));
        }
    }

    /// Register `reg` owes `debt` for its pending asynchronous load.
    pub fn create_aload_debt(&mut self, reg: SwppRegisterName, debt: u64)
        requires
            old(self).wf(),
        ensures
            final(self).wf(),
            final(self)@ == old(self)@.set_debt(reg, debt),
            final(self).budget() == old(self).budget() - (old(self)@.debt)(reg) + debt,
    {
        self.aload_debts.set(reg, debt);
        proof {
            assert(self@ =~= old(self)@.set_debt(reg, debt));
        }
    }

    /// The debt of `reg` (zero if it has none).
    pub fn get_aload_debt(&self, reg: &SwppRegisterName) -> (res: u64)
        requires
            self.wf(),
        ensures
            res == (self@.debt)(*reg),
    {
        self.aload_debts.get(reg)
    }

    /// Pays up to `available_cost` of the debt of `reg`; returns the amount paid.
    pub fn resolve_aload_debt(&mut self, reg: &SwppRegisterName, available_cost: u64) -> (res: u64)
        requires
            old(self).wf(),
        ensures
            final(self).wf(),
            res == if available_cost < (old(self)@.debt)(*reg) {
                available_cost
            } else {
                (old(self)@.debt)(*reg)
            },
            final(self)@ == old(self)@.set_debt(*reg, ((old(self)@.debt)(*reg) - res) as u64),
            final(self).budget() == old(self).budget() - res,
    {
        let debt = self.aload_debts.get(reg);
        let resolved = if available_cost < debt {
            available_cost
        } else {
            debt
        };
        self.aload_debts.set(*reg, debt - resolved);
        proof {
            assert(self@ =~= old(self)@.set_debt(*reg, (debt - resolved) as u64));
        }
        resolved
    }

    /// Removes the debt of `reg` and returns it, for `reg` is used before its load resolved.
    pub fn pay_aload_debt(&mut self, reg: &SwppRegisterName) -> (res: u64)
        requires
            old(self).wf(),
        ensures
            final(self).wf(),
            res == (old(self)@.debt)(*reg),
            final(self)@ == old(self)@.set_debt(*reg, 0),
            final(self).budget() == old(self).budget() - res,
    {
        let debt = self.aload_debts.get(reg);
        self.aload_debts.set(*reg, 0);
        proof {
            assert(self@ =~= old(self)@.set_debt(*reg, 0));
        }
        debt
    }

    /// Drops the debt of `reg`, for `reg` is overwritten.
    pub fn cancel_aload_debt(&mut self, reg: &SwppRegisterName)
        requires
            old(self).wf(),
        ensures
            final(self).wf(),
            final(self)@ == old(self)@.set_debt(*reg, 0),
            final(self).budget() == old(self).budget() - (old(self)@.debt)(*reg),
    {
        self.aload_debts.set(*reg, 0);
        proof {
            assert(self@ =~= old(self)@.set_debt(*reg, 0));
        }
    }

    /// Lets `instruction_cost` elapse for every debt but that of `exclude_reg`.
    pub fn resolve_aload_debts(&mut self, instruction_cost: u64, exclude_reg: Option<&SwppRegisterName>)
        requires
            old(self).wf(),
        ensures
            final(self).wf(),
            final(self)@ == old(self)@.resolve(
                instruction_cost,
                match exclude_reg {
                    Some(r) => Some(*r),
                    None => None,
                },
            ),
            final(self).budget() <= old(self).budget(),
    {
        if instruction_cost == 0 {
            return;
        }
        self.aload_debts.reduce_all(instruction_cost, exclude_reg);
        proof {
            assert(self@ =~= old(self)@.resolve(
                instruction_cost,
                match exclude_reg {
                    Some(r) => Some(*r),
                    None => None,
                },
            ));
        }
    }

    /// Reads `reg`, first paying any debt it still owes.
    pub fn read_register_with_debt(&mut self, reg_set: &SwppRegisterSet, reg: &SwppRegisterName) -> (res:
        SwppRawResult<u64>)
        requires
            old(self).wf(),
            reg.wf(),
            old(self).budget() <= u64::MAX,
        ensures
            final(self).wf(),
            res == Ok::<u64, SwppErrorKind>(reg_set.value_of(*reg)),
            final(self)@ == old(self)@.pay(*reg),
            final(self).budget() <= old(self).budget(),
    {
        proof {
            self.lemma_budget();
        }
        let debt = self.pay_aload_debt(reg);
        proof {
            self.lemma_budget();
        }
        if debt > 0 {
            self.add_cost(debt);
            self.cool_down(debt, None);
            self.resolve_aload_debts(debt, None);
        } else {
            proof {
                assert(self@ =~= old(self)@.pay(*reg));
            }
        }
        proof {
            assert(self@ =~= old(self)@.pay(*reg));
        }
        reg_set.read_register_word(reg)
    }

    /// Writes `val` to `reg`, dropping any debt it owes; argument registers cannot be written.
    pub fn write_register_with_debt(
        &mut self,
        reg_set: &mut SwppRegisterSet,
        reg: &SwppRegisterName,
        val: u64,
    ) -> (res: SwppRawResult<()>)
        requires
            old(self).wf(),
            reg.wf(),
        ensures
            final(self).wf(),
            final(self).budget() <= old(self).budget(),
            if reg.spec_is_arg() {
                &&& res == Err::<(), SwppErrorKind>(SwppErrorKind::ArgRegAssign(*reg))
                &&& final(self)@ == old(self)@
                &&& *final(reg_set) == *old(reg_set)
            } else {
                &&& res == Ok::<(), SwppErrorKind>(())
                &&& final(self)@ == old(self)@.set_debt(*reg, 0)
                &&& old(reg_set).is_update(*final(reg_set), *reg, val)
            },
    {
        if reg.is_arg() {
            return Err(SwppErrorKind::ArgRegAssign(*reg));
        }
        self.cancel_aload_debt(reg);
        proof {
            self.aload_debts.lemma_total_nonneg();
        }
        reg_set.write_register_word(reg, val)
    }
}

/// The position of block `block_name` in function `fname`, or why there is none.
pub open spec fn raw_block_index(m: Machine, fname: Seq<char>, block_name: Seq<char>) -> Result<
    u64,
    ErrorKindView,
> {
    match m.function(fname) {
        None => Err(ErrorKindView::UnknownFnName(fname)),
        Some(f) => if has_block_named(f.spec_blocks(), block_name) {
            Ok(last_block_index(f.spec_blocks(), block_name) as u64)
        } else {
            Err(ErrorKindView::UnknownBlockName(block_name))
        },
    }
}

impl Machine {
    /// The machine after allocating `size` heap bytes at the top of the heap.
    pub open spec fn malloced(self, size: u64) -> Machine {
        Machine {
            blocks: crate::memory::insert_block(self.blocks, self.top, crate::memory::zeros(size as nat)),
            top: (self.top + size) as u64,
            cur: (self.cur + size) as u64,
            max: if self.cur + size > self.max {
                (self.cur + size) as u64
            } else {
                self.max
            },
            ..self
        }
    }

    /// The machine after `free(addr)`, with what it returns.
    pub open spec fn freed(self, addr: u64) -> (Machine, Result<(), ErrorKindView>) {
        if addr == crate::common::NULL_ADDR {
            (self, Ok(()))
        } else if addr < crate::common::HEAP_OFFSET || !crate::memory::has_start(self.blocks, addr) {
            (self, Err(ErrorKindView::InvalidAddr(addr)))
        } else {
            let k = crate::memory::start_index(self.blocks, addr);
            let len = self.blocks[k].1.len();
            (
                Machine {
                    blocks: self.blocks.remove(k),
                    cur: (self.cur - len) as u64,
                    heat: |t: u64|
                        if addr / crate::heat::SECTOR_SIZE <= t < (addr + len
                            + crate::heat::SECTOR_SIZE - 1) / crate::heat::SECTOR_SIZE as int {
                            0
                        } else {
                            (self.heat)(t)
                        },
                    ..self
                },
                Ok(()),
            )
        }
    }

    /// The sectors heated by a heap access of `size` at `addr`.
    pub open spec fn heap_access_sectors(self, addr: u64, size: AccessSize) -> Seq<u64> {
        let b = self.blocks[crate::memory::block_of(self.blocks, addr as int)];
        crate::memory::affected_heap_sectors(addr, size.spec_bytes(), b.0, b.1.len() as u64)
    }

    /// The extra cost of a heap access at `addr`, from the heat of its sector.
    pub open spec fn heap_access_extra(self, addr: u64) -> u64 {
        ((self.heat)(addr / crate::heat::SECTOR_SIZE) / crate::heat::HEAT_COST_DIVISOR) as u64
    }

    /// The machine after heating `sectors`.
    pub open spec fn heat_access(self, sectors: Seq<u64>) -> Machine {
        Machine {
            heat: |t: u64|
                if sectors.contains(t) {
                    crate::heat::bumped_heat((self.heat)(t))
                } else {
                    (self.heat)(t)
                },
            ..self
        }
    }
}


/// What the program loop does next.
#[derive(Debug, Clone, Copy, PartialEq, Eq, Structural)]
pub enum StepAction {
    /// Nothing outside the machine: step again
    Continue,
    /// The program has finished
    Finished,
    /// Read a number from the input and return it from `read`, with `complete_return`
    Read,
    /// Write this number to the output and return from `write`, with `complete_return`
    Write(u64),
}

/// Where a call was made: its line, and the register that takes the callee's value.
#[derive(Debug, Clone, Copy)]
struct CallSite {
    loc: u64,
    target: Option<SwppRegisterName>,
}

/// A function being run: its name, its registers, the block it is in, the position
/// of its next instruction there, and where it was called (none for `main`).
#[derive(Debug)]
struct CallFrame {
    fname: String,
    reg_set: SwppRegisterSet,
    current_block: String,
    next_inst_idx: usize,
    call_site: Option<CallSite>,
}

/// A call site as seen by the specification.
pub struct SiteView {
    pub loc: u64,
    pub target: Option<SwppRegisterName>,
}

/// A frame as seen by the specification.
pub struct FrameView {
    pub fname: Seq<char>,
    pub regs: SwppRegisterSet,
    pub block: Seq<char>,
    pub next: int,
    pub site: Option<SiteView>,
}

/// A program as seen by the specification: the machine and the call stack, `main` first.
#[verifier::ext_equal]
pub struct ProgramView {
    pub machine: Machine,
    pub frames: Seq<FrameView>,
}

impl View for CallFrame {
    type V = FrameView;

    closed spec fn view(&self) -> FrameView {
        FrameView {
            fname: self.fname@,
            regs: self.reg_set,
            block: self.current_block@,
            next: self.next_inst_idx as int,
            site: match self.call_site {
                Some(s) => Some(SiteView { loc: s.loc, target: s.target }),
                None => None,
            },
        }
    }
}

spec fn frames_view(stack: Seq<CallFrame>) -> Seq<FrameView> {
    stack.map_values(|f: CallFrame| f@)
}

/// Only the bottom frame, `main`, has no call site, and the register a call
/// site names exists.
pub open spec fn frames_wf(frames: Seq<FrameView>) -> bool {
    forall|i: int|
        0 <= i < frames.len() ==> {
            &&& ((#[trigger] frames[i]).site is None <==> i == 0)
            &&& (frames[i].site matches Some(s) ==> (s.target matches Some(t) ==> t.wf()))
        }
}

/// The machine with the function and block of frame `fr` as its context.
pub open spec fn in_context(m: Machine, fr: FrameView) -> Machine {
    Machine { fname: fr.fname, bname: fr.block, ..m }
}

/// The next instruction of frame `fr`, or the error that its absence raises.
pub open spec fn fetch(m: Machine, fr: FrameView) -> Result<SwppInst, (ErrorKindView, u64)> {
    match m.function(fr.fname) {
        None => Err((ErrorKindView::UnknownFnName(fr.fname), 0)),
        Some(f) => if !has_block_named(f.spec_blocks(), fr.block) {
            Err((ErrorKindView::UnknownBlockName(fr.block), 0))
        } else {
            let b = f.spec_blocks()[last_block_index(f.spec_blocks(), fr.block)];
            if 0 <= fr.next < b.inst_vec@.len() {
                Ok(b.inst_vec@[fr.next])
            } else {
                Err((ErrorKindView::IllFormedBlock(fr.block), b.start_loc))
            }
        },
    }
}

/// The error `e` as reported out of the call stack `frames`: every frame that was
/// called, from the top down, turns it into a crash of that call at the line of
/// the call.
pub open spec fn wrapped(e: (ErrorKindView, u64), frames: Seq<FrameView>) -> (ErrorKindView, u64)
    decreases frames.len(),
{
    if frames.len() == 0 {
        e
    } else {
        match frames.last().site {
            None => e,
            Some(site) => wrapped(
                (ErrorKindView::FunctionCallCrash(frames.last().fname, error_text(e.0, e.1)), site.loc),
                frames.drop_last(),
            ),
        }
    }
}

/// The top frame returns `v`: it leaves the stack, and its caller's target
/// register, if the call has one, takes the value.
pub open spec fn returned(p: ProgramView, v: Option<u64>) -> (ProgramView, Result<
    (),
    (ErrorKindView, u64),
>) {
    let fin = p.frames.last();
    let rest = p.frames.drop_last();
    let popped = ProgramView { machine: p.machine, frames: rest };
    match fin.site {
        None => (popped, Ok(())),
        Some(site) => match site.target {
            None => (popped, Ok(())),
            Some(t) => match v {
                None => (popped, Err(wrapped((ErrorKindView::AssignNoValue(fin.fname), site.loc), rest))),
                Some(val) => if t.spec_is_arg() {
                    (popped, Err(wrapped((ErrorKindView::ArgRegAssign(t), site.loc), rest)))
                } else {
                    let caller = rest.last();
                    (
                        ProgramView {
                            machine: p.machine.set_debt(t, 0),
                            frames: rest.update(
                                rest.len() - 1,
                                FrameView { regs: caller.regs.updated(t, val), ..caller },
                            ),
                        },
                        Ok(()),
                    )
                },
            },
        },
    }
}

/// The program after running `inst`, an instruction that reads and writes no
/// stream, in its top frame (already moved past it), whose registers were `regs`.
pub open spec fn after_inst(p: ProgramView, inst: SwppInst, regs: SwppRegisterSet) -> (
    ProgramView,
    Result<StepAction, (ErrorKindView, u64)>,
) {
    let n = p.frames.len() - 1;
    let top = p.frames[n];
    let o = inst.outcome(p.machine, regs);
    let top2 = FrameView { regs: regs.apply(o.write), ..top };
    let frames2 = p.frames.update(n, top2);
    let m2 = o.machine;
    let q = ProgramView { machine: m2, frames: frames2 };
    match o.result {
        Err(k) => (q, Err(wrapped((k, inst.spec_loc()), frames2))),
        Ok(None) => (q, Ok(StepAction::Continue)),
        Ok(Some(BlockResultView::NextBlock(b, line))) => match m2.function(top.fname) {
            None => (q, Err(wrapped((ErrorKindView::UnknownFnName(top.fname), line), frames2))),
            Some(f) => if has_block_named(f.spec_blocks(), b) {
                (
                    ProgramView {
                        machine: m2,
                        frames: frames2.update(n, FrameView { block: b, next: 0, ..top2 }),
                    },
                    Ok(StepAction::Continue),
                )
            } else {
                (q, Err(wrapped((ErrorKindView::UnknownBlockName(b), line), frames2)))
            },
        },
        Ok(Some(BlockResultView::Return(v))) => {
            let r = returned(q, v);
            (
                r.0,
                match r.1 {
                    Ok(_) => Ok(StepAction::Continue),
                    Err(e) => Err(e),
                },
            )
        },
        Ok(Some(BlockResultView::Call(c))) => if c.fname == "main"@ {
            (q, Err((ErrorKindView::RecursiveMainCall, c.loc)))
        } else {
            match m2.function(c.fname) {
                None => (q, Err((ErrorKindView::UnknownFnName(c.fname), c.loc))),
                Some(f) => (
                    ProgramView {
                        machine: m2,
                        frames: frames2.push(
                            FrameView {
                                fname: c.fname,
                                regs: top2.regs.with_args(c.args),
                                block: f.spec_entry(),
                                next: 0,
                                site: Some(SiteView { loc: c.loc, target: c.target }),
                            },
                        ),
                    },
                    Ok(StepAction::Continue),
                ),
            }
        },
    }
}

/// One step of the program: the next instruction of the top frame runs.
/// `read` and `write` only charge any deferred cost here and ask the loop to
/// do the input or output.
pub open spec fn step_view(p: ProgramView) -> (ProgramView, Result<
    StepAction,
    (ErrorKindView, u64),
>) {
    if p.frames.len() == 0 {
        (p, Ok(StepAction::Finished))
    } else {
        let n = p.frames.len() - 1;
        let top = p.frames[n];
        let m1 = in_context(p.machine, top);
        match fetch(m1, top) {
            Err(e) => (ProgramView { machine: m1, frames: p.frames }, Err(wrapped(e, p.frames))),
            Ok(inst) => {
                let frames1 = p.frames.update(n, FrameView { next: top.next + 1, ..top });
                match inst.spec_kind() {
                    SwppInstKind::Read(_) => (
                        ProgramView { machine: m1.flush(), frames: frames1 },
                        Ok(StepAction::Read),
                    ),
                    SwppInstKind::Write(_) => (
                        ProgramView { machine: m1.flush(), frames: frames1 },
                        Ok(StepAction::Write(top.regs.value_of(SwppRegisterName::Argument(1)))),
                    ),
                    _ => after_inst(ProgramView { machine: m1, frames: frames1 }, inst, top.regs),
                }
            },
        }
    }
}

/// The step would fault: its instruction names a register that does not exist,
/// or would divide by zero, shift by 64 or more, overflow an allocation's end,
/// or call with more than 16 arguments.
pub open spec fn step_faults(p: ProgramView) -> bool {
    &&& p.frames.len() > 0
    &&& {
        let top = p.frames.last();
        let m1 = in_context(p.machine, top);
        &&& fetch(m1, top) matches Ok(inst)
        &&& inst.is_internal()
        &&& (!inst.wf() || inst.faults(m1, top.regs) || inst.passes_too_many_args(m1))
    }
}

/// What one step hands the logger (see `step_view`): the records of the
/// instruction that runs, then the exit of the function it returns from, or
/// the entry of the function it calls.
pub open spec fn step_log(p: ProgramView) -> Seq<LogEvent> {
    if p.frames.len() == 0 {
        Seq::empty()
    } else {
        let top = p.frames.last();
        let m1 = in_context(p.machine, top);
        match fetch(m1, top) {
            Err(_) => Seq::empty(),
            Ok(inst) => {
                let o = inst.outcome(m1, top.regs);
                inst.log_of(m1, top.regs) + if !inst.is_internal() {
                    Seq::empty()
                } else {
                    match o.result {
                        Ok(Some(BlockResultView::Return(_))) => seq![LogEvent::Exit],
                        Ok(Some(BlockResultView::Call(c))) => if c.fname != "main"@
                            && o.machine.function(c.fname) is Some {
                            seq![LogEvent::Enter]
                        } else {
                            Seq::empty()
                        },
                        _ => Seq::empty(),
                    }
                }
            },
        }
    }
}

/// The view of a program-level result: its value, or its error kind and line.
pub open spec fn result_view<T>(r: SwppResult<T>) -> Result<T, (ErrorKindView, u64)> {
    match r {
        Ok(v) => Ok(v),
        Err(e) => Err((e.spec_kind()@, e.spec_loc())),
    }
}

/// The whole program: the global state, the logger and the call stack.
pub struct SwppProgram<L> {
    state: SwppState,
    logger: L,
    call_stack: Vec<CallFrame>,
}

impl<L> View for SwppProgram<L> {
    type V = ProgramView;

    closed spec fn view(&self) -> ProgramView {
        ProgramView { machine: self.state@, frames: frames_view(self.call_stack@) }
    }
}

impl<L: SwppLogger> SwppProgram<L> {
    pub closed spec fn wf(self) -> bool {
        &&& self.state.wf()
        &&& frames_wf(self@.frames)
    }

    /// The cost paid so far plus all outstanding debts.
    pub closed spec fn budget(self) -> int {
        self.state.budget()
    }

    /// Everything the program has handed its logger so far.
    pub closed spec fn log(self) -> Seq<LogEvent> {
        self.logger.history()
    }

    pub fn new(state: SwppState, logger: L) -> (res: Self)
        requires
            state.wf(),
        ensures
            res.wf(),
            res.log() == logger.history(),
            res@.machine == state@,
            res@.frames.len() == 0,
            res.budget() == state.budget(),
    {
        let res = Self { state, logger, call_stack: Vec::new() };
        proof {
            assert(frames_view(res.call_stack@) =~= Seq::<FrameView>::empty());
        }
        res
    }

    /// The cost of the run: the cost paid plus 1024 for each byte of the largest
    /// heap the program had.
    pub fn total_cost(&self) -> (res: u64)
        requires
            self@.machine.cost + self@.machine.max * 1024 <= u64::MAX,
        ensures
            res == self@.machine.cost + self@.machine.max * 1024,
    {
        self.state.cur_cost + self.state.mem.get_max_heap_size() * 1024
    }

    /// Whether the cost of the run fits in `u64`.
    pub fn total_cost_fits(&self) -> (res: bool)
        ensures
            res == (self@.machine.cost + self@.machine.max * 1024 <= u64::MAX),
    {
        let cost = self.state.cur_cost;
        let max = self.state.mem.get_max_heap_size();
        let room = (u64::MAX - cost) / 1024;
        proof {
            assert(max <= room <==> cost + max * 1024 <= u64::MAX) by (nonlinear_arith)
                requires
                    room == (u64::MAX - cost) / 1024,
                    cost <= u64::MAX,
            ;
        }
        max <= room
    }

    /// Whether a function is running: the call stack is not empty.
    pub fn is_running(&self) -> (res: bool)
        requires
            self.wf(),
        ensures
            res == (self@.frames.len() > 0),
    {
        self.call_stack.len() > 0
    }

    /// Whether one more step keeps the cost and the debts within `u64`: they
    /// are at least `STEP_COST_BOUND` below `u64::MAX`, the room that `step`
    /// asks for.
    pub fn has_cost_headroom(&self) -> (res: bool)
        ensures
            res == (self.budget() + STEP_COST_BOUND <= u64::MAX),
    {
        self.state.budget_fits(STEP_COST_BOUND)
    }

    fn create_call_frame(
        &self,
        fname: &str,
        prev_reg: &SwppRegisterSet,
        args: Vec<u64>,
        call_site: Option<CallSite>,
    ) -> (res: SwppRawResult<CallFrame>)
        requires
            args@.len() <= 16,
        ensures
            match res {
                Ok(fr) => self@.machine.function(fname@) matches Some(f) && fr@ == FrameView {
                    fname: fname@,
                    regs: prev_reg.with_args(args@),
                    block: f.spec_entry(),
                    next: 0,
                    site: match call_site {
                        Some(s) => Some(SiteView { loc: s.loc, target: s.target }),
                        None => None,
                    },
                },
                Err(e) => self@.machine.function(fname@) is None && e@
                    == ErrorKindView::UnknownFnName(fname@),
            },
    {
        let function = self.state.get_fn_ref(fname)?;
        let mut reg_set = prev_reg.clone();
        reg_set.set_arg_register(&args);
        Ok(
            CallFrame {
                fname: fname.to_owned(),
                reg_set,
                current_block: function.get_entry_block_name(),
                next_inst_idx: 0,
                call_site,
            },
        )
    }

    /// Reports `err` out of the call stack: each called frame, from the top down,
    /// turns it into a crash of its call.
    fn wrap_call_stack_error(&self, err: SwppError, call_stack: &[CallFrame]) -> (res: SwppError)
        ensures
            (res.spec_kind()@, res.spec_loc()) == wrapped(
                (err.spec_kind()@, err.spec_loc()),
                frames_view(call_stack@),
            ),
    {
        let ghost fv = frames_view(call_stack@);
        let ghost e0 = (err.spec_kind()@, err.spec_loc());
        let mut err = err;
        let mut i: usize = call_stack.len();
        let mut done = false;
        proof {
            assert(fv.subrange(0, i as int) =~= fv);
        }
        while i > 0 && !done
            invariant
                i <= call_stack@.len(),
                fv == frames_view(call_stack@),
                wrapped((err.spec_kind()@, err.spec_loc()), fv.subrange(0, i as int)) == wrapped(
                    e0,
                    fv,
                ),
                done ==> wrapped((err.spec_kind()@, err.spec_loc()), fv.subrange(0, i as int)) == (
                err.spec_kind()@, err.spec_loc()),
            decreases i + if done { 0int } else { 1int },
        {
            proof {
                assert(fv.subrange(0, i as int).last() == call_stack@[i - 1]@);
                assert(fv.subrange(0, i as int).drop_last() =~= fv.subrange(0, i - 1));
            }
            match call_stack[i - 1].call_site {
                Some(site) => {
                    let text = err.to_string();
                    err = SwppError::new(
                        SwppErrorKind::FunctionCallCrash(call_stack[i - 1].fname.clone(), text),
                        site.loc,
                    );
                    i = i - 1;
                },
                None => {
                    done = true;
                },
            }
        }
        err
    }

    /// Starts the program: `main` is entered with fresh registers.
    pub fn start(&mut self) -> (res: SwppResult<()>)
        requires
            old(self).wf(),
            old(self)@.frames.len() == 0,
        ensures
            final(self).wf(),
            final(self).budget() == old(self).budget(),
            final(self)@.machine == old(self)@.machine,
            L::obeys_history() ==> final(self).log() == if old(self)@.machine.function("main"@) is Some {
                old(self).log().push(LogEvent::Enter)
            } else {
                old(self).log()
            },
            match old(self)@.machine.function("main"@) {
                Some(f) => {
                    &&& res is Ok
                    &&& final(self)@.frames.len() == 1
                    &&& final(self)@.frames[0].fname == "main"@
                    &&& final(self)@.frames[0].block == f.spec_entry()
                    &&& final(self)@.frames[0].next == 0
                    &&& final(self)@.frames[0].site is None
                    &&& forall|q: SwppRegisterName|
                        q.wf() ==> #[trigger] final(self)@.frames[0].regs.value_of(q) == if q
                            is StackPointer {
                            MEM_STACK_SIZE
                        } else {
                            0
                        }
                },
                None => {
                    &&& result_view(res) == Err::<(), (ErrorKindView, u64)>(
                        (ErrorKindView::NoMainFn, 0),
                    )
                    &&& final(self)@.frames.len() == 0
                },
            },
    {
        proof {
            reveal_strlit("main");
        }
        let regs = SwppRegisterSet::default();
        let main_frame = match self.create_call_frame(MAIN_NAME, &regs, Vec::new(), None) {
            Ok(f) => f,
            Err(_) => return Err(SwppError::new(SwppErrorKind::NoMainFn, 0)),
        };
        proof {
            assert forall|q: SwppRegisterName| q.wf() implies #[trigger] main_frame.reg_set.value_of(
                q,
            ) == regs.value_of(q) by {
                regs.lemma_with_args(Seq::<u64>::empty(), q);
            }
        }
        self.call_stack.push(main_frame);
        self.logger.enter_fn();
        proof {
            assert(frames_view(self.call_stack@) =~= seq![main_frame@]);
        }
        Ok(())
    }

    /// The top frame returns `ret_val`: it leaves the call stack, and the target
    /// of its call, if any, takes the value. After `read` or `write`, the loop
    /// calls this with what `read` returns, or with nothing for `write`.
    pub fn complete_return(&mut self, ret_val: Option<u64>) -> (res: SwppResult<()>)
        requires
            old(self).wf(),
            old(self)@.frames.len() > 0,
        ensures
            L::obeys_history() ==> final(self).log() == old(self).log().push(LogEvent::Exit),
            final(self).wf(),
            final(self).budget() <= old(self).budget(),
            final(self)@ == returned(old(self)@, ret_val).0,
            result_view(res) == returned(old(self)@, ret_val).1,
    {
        let ghost fv = old(self)@.frames;
        self.logger.exit_fn();
        let finished_frame = self.call_stack.pop().unwrap();
        proof {
            assert(frames_view(self.call_stack@) =~= fv.drop_last());
            assert(fv.last() == finished_frame@);
        }
        match finished_frame.call_site {
            None => Ok(()),
            Some(call_site) => {
                proof {
                    assert(fv[fv.len() - 1].site is Some);
                }
                match call_site.target {
                    None => Ok(()),
                    Some(target) => match ret_val {
                        None => {
                            let err = SwppError::new(
                                SwppErrorKind::AssignNoValue(finished_frame.fname),
                                call_site.loc,
                            );
                            Err(self.wrap_call_stack_error(err, self.call_stack.as_slice()))
                        },
                        Some(val) => {
                            let mut caller = self.call_stack.pop().unwrap();
                            let ghost regs0 = caller.reg_set;
                            let r = self.state.write_register_with_debt(
                                &mut caller.reg_set,
                                &target,
                                val,
                            );
                            self.call_stack.push(caller);
                            match r {
                                Ok(_) => {
                                    proof {
                                        regs0.lemma_updated(target, val, caller.reg_set);
                                        assert(frames_view(self.call_stack@) =~= fv.drop_last().update(
                                            fv.len() - 2,
                                            FrameView {
                                                regs: regs0.updated(target, val),
                                                ..fv.drop_last().last()
                                            },
                                        ));
                                    }
                                    Ok(())
                                },
                                Err(err) => {
                                    proof {
                                        assert(frames_view(self.call_stack@) =~= fv.drop_last());
                                    }
                                    let err = SwppError::new(err, call_site.loc);
                                    Err(self.wrap_call_stack_error(err, self.call_stack.as_slice()))
                                },
                            }
                        },
                    },
                }
            },
        }
    }
}


impl<L: SwppLogger> SwppProgram<L> {
    /// Whether the next step would fault (see `step_faults`); such a step is not run.
    pub fn step_would_fault(&self) -> (res: bool)
        requires
            self.wf(),
        ensures
            res == step_faults(self@),
    {
        let n = self.call_stack.len();
        if n == 0 {
            return false;
        }
        let ghost top = self@.frames[n - 1];
        proof {
            assert(self.call_stack@[n - 1]@ == top);
        }
        let fns = self.state.functions();
        let fvec: &Vec<SwppFunction> = &*fns;
        let fi = match self.state.find_fn(&self.call_stack[n - 1].fname) {
            Some(i) => i,
            None => return false,
        };
        let function: &SwppFunction = &fvec[fi];
        let block = match function.get_block_of(&self.call_stack[n - 1].current_block) {
            Ok(b) => b,
            Err(_) => return false,
        };
        let idx = self.call_stack[n - 1].next_inst_idx;
        if idx >= block.inst_vec.len() {
            return false;
        }
        let inst = &block.inst_vec[idx];
        proof {
            self.state.lemma_functions();
            assert(fetch(in_context(self@.machine, top), top) == Ok::<
                SwppInst,
                (ErrorKindView, u64),
            >(*inst));
        }
        match inst.get_kind() {
            SwppInstKind::Read(_) => false,
            SwppInstKind::Write(_) => false,
            kind => if !kind.names_existing_registers() {
                true
            } else {
                inst.would_fault(&self.state, &self.call_stack[n - 1].reg_set)
            },
        }
    }

    /// Runs one step of the program (see `step_view`). The cost and the debts
    /// must leave `STEP_COST_BOUND` of room below `u64::MAX` (see
    /// `has_cost_headroom`): a limit of the machine, as no step adds more.
    pub fn step(&mut self) -> (res: SwppResult<StepAction>)
        requires
            old(self).wf(),
            !step_faults(old(self)@),
            old(self).budget() + STEP_COST_BOUND <= u64::MAX,
        ensures
            final(self).wf(),
            final(self).budget() <= old(self).budget() + STEP_COST_BOUND,
            final(self)@ == step_view(old(self)@).0,
            result_view(res) == step_view(old(self)@).1,
            L::obeys_history() ==> final(self).log() == old(self).log() + step_log(old(self)@),
    {
        proof {
            reveal(SwppInst::log_of);
        }
        let n = self.call_stack.len();
        if n == 0 {
            return Ok(StepAction::Finished);
        }
        let ghost p = old(self)@;
        let ghost top = p.frames[n - 1];
        proof {
            assert(self.call_stack@[n - 1]@ == top);
        }
        self.state.change_f_context(self.call_stack[n - 1].fname.as_str());
        self.state.change_b_context(self.call_stack[n - 1].current_block.as_str());
        let ghost m1 = self.state@;
        proof {
            assert(m1 == in_context(p.machine, top));
            assert(self@ == ProgramView { machine: m1, frames: p.frames });
        }
        let fns = self.state.functions();
        let fvec: &Vec<SwppFunction> = &*fns;
        let fi = match self.state.find_fn(&self.call_stack[n - 1].fname) {
            Some(i) => i,
            None => {
                let err = SwppError::new(
                    SwppErrorKind::UnknownFnName(self.call_stack[n - 1].fname.clone()),
                    0,
                );
                return Err(self.wrap_call_stack_error(err, self.call_stack.as_slice()));
            },
        };
        let function: &SwppFunction = &fvec[fi];
        let block = match function.get_block_of(&self.call_stack[n - 1].current_block) {
            Ok(b) => b,
            Err(err) => {
                let err = SwppError::new(err, 0);
                return Err(self.wrap_call_stack_error(err, self.call_stack.as_slice()));
            },
        };
        let idx = self.call_stack[n - 1].next_inst_idx;
        if idx >= block.inst_vec.len() {
            let err = SwppError::new(
                SwppErrorKind::IllFormedBlock(self.call_stack[n - 1].current_block.clone()),
                block.start_loc,
            );
            return Err(self.wrap_call_stack_error(err, self.call_stack.as_slice()));
        }
        let inst = &block.inst_vec[idx];
        proof {
            self.state.lemma_functions();
            assert((*fns)@[fi as int].wf());
            let k = last_block_index(function.spec_blocks(), self.call_stack@[n - 1].current_block@);
            assert(function.spec_blocks()[k].inst_vec@[idx as int].wf());
            assert(fetch(m1, top) == Ok::<SwppInst, (ErrorKindView, u64)>(*inst));
            assert(inst.wf());
        }
        let mut frame = self.call_stack.pop().unwrap();
        frame.next_inst_idx = idx + 1;
        let ghost frames1 = p.frames.update(n - 1, FrameView { next: top.next + 1, ..top });
        match inst.get_kind() {
            SwppInstKind::Read(_) => {
                self.state.flush_pending_fma_cost(&mut self.logger);
                self.call_stack.push(frame);
                proof {
                    assert(frames_view(self.call_stack@) =~= frames1);
                }
                return Ok(StepAction::Read);
            },
            SwppInstKind::Write(w) => {
                let written = w.run(&frame.reg_set);
                self.state.flush_pending_fma_cost(&mut self.logger);
                self.call_stack.push(frame);
                proof {
                    assert(frames_view(self.call_stack@) =~= frames1);
                }
                return match written {
                    Ok(v) => Ok(StepAction::Write(v)),
                    Err(err) => Err(SwppError::new(err, inst.get_loc())),
                };
            },
            _ => {},
        }
        let ghost regs0 = frame.reg_set;
        let result = inst.run(&mut self.state, &mut frame.reg_set, &mut self.logger);
        proof {
            match inst.outcome(m1, regs0).write {
                Some((r, v)) => {
                    regs0.lemma_updated(r, v, frame.reg_set);
                },
                None => {},
            }
        }
        self.call_stack.push(frame);
        let ghost o = inst.outcome(m1, regs0);
        let ghost frames2 = frames1.update(
            n - 1,
            FrameView { regs: regs0.apply(o.write), ..frames1[n - 1] },
        );
        proof {
            assert(frames_view(self.call_stack@) =~= frames2);
        }
        let result = match result {
            Ok(r) => r,
            Err(err) => return Err(self.wrap_call_stack_error(err, self.call_stack.as_slice())),
        };
        match result {
            None => Ok(StepAction::Continue),
            Some(BlockResult::NextBlock(block_name, line_num)) => {
                let check = match self.state.get_fn_of(&self.call_stack[n - 1].fname) {
                    Ok(f) => match f.get_block_of(&block_name) {
                        Ok(_) => Ok(()),
                        Err(e) => Err(e),
                    },
                    Err(e) => Err(e),
                };
                match check {
                    Err(err) => {
                        let err = SwppError::new(err, line_num);
                        return Err(self.wrap_call_stack_error(err, self.call_stack.as_slice()));
                    },
                    Ok(_) => {},
                }
                let mut frame = self.call_stack.pop().unwrap();
                frame.current_block = block_name;
                frame.next_inst_idx = 0;
                self.call_stack.push(frame);
                proof {
                    assert(frames_view(self.call_stack@) =~= frames2.update(
                        n - 1,
                        FrameView { block: block_name@, next: 0, ..frames2[n - 1] },
                    ));
                }
                Ok(StepAction::Continue)
            },
            Some(BlockResult::Return(ret_val)) => {
                match self.complete_return(ret_val) {
                    Ok(_) => Ok(StepAction::Continue),
                    Err(e) => Err(e),
                }
            },
            Some(BlockResult::Call(call_request)) => {
                proof {
                    crate::inst::lemma_call_outcome(*inst, m1, regs0);
                }
                proof {
                    reveal_strlit("main");
                }
                if call_request.fname == String::from_str(MAIN_NAME) {
                    return Err(SwppError::new(SwppErrorKind::RecursiveMainCall, call_request.loc));
                }
                let caller_reg = self.call_stack[n - 1].reg_set.clone();
                let call_site = CallSite { loc: call_request.loc, target: call_request.target };
                let callee_frame = match self.create_call_frame(
                    call_request.fname.as_str(),
                    &caller_reg,
                    call_request.args,
                    Some(call_site),
                ) {
                    Ok(f) => f,
                    Err(err) => return Err(SwppError::new(err, call_request.loc)),
                };
                self.logger.enter_fn();
                self.call_stack.push(callee_frame);
                proof {
                    assert(frames_view(self.call_stack@) =~= frames2.push(callee_frame@));
                }
                Ok(StepAction::Continue)
            },
        }
    }
}

} // verus!
