use vstd::prelude::*;

use crate::common::MEM_STACK_SIZE;
use crate::error::{SwppErrorKind, SwppRawResult};
use crate::text::{decimal, push_decimal, push_list, list_text};

verus! {

/// Index for accessing registers.
#[derive(Debug, Clone, Copy, PartialEq, Eq, Hash, Structural)]
pub enum SwppRegisterName {
    /// General registers r1 .. r32, by number: `r<n>` is kept in slot `n - 1`
    /// of the 32 general slots (0~31); there is no `r0`.
    Gen(usize),
    /// sp
    StackPointer,
    /// Argument registers arg1 .. arg16, by number: `arg<n>` is kept in slot
    /// `n - 1` of the 16 argument slots (0~15); there is no `arg0`.
    Argument(usize),
}

impl SwppRegisterName {
    /// The register exists: r1 to r32, sp, arg1 to arg16.
    pub open spec fn wf(self) -> bool {
        match self {
            SwppRegisterName::Gen(idx) => 1 <= idx <= 32,
            SwppRegisterName::StackPointer => true,
            SwppRegisterName::Argument(idx) => 1 <= idx <= 16,
        }
    }

    /// Whether the register exists: r1 to r32, sp, arg1 to arg16.
    pub fn is_valid(&self) -> (res: bool)
        ensures
            res == self.wf(),
    {
        match self {
            SwppRegisterName::Gen(idx) => 1 <= *idx && *idx <= 32,
            SwppRegisterName::StackPointer => true,
            SwppRegisterName::Argument(idx) => 1 <= *idx && *idx <= 16,
        }
    }

    pub open spec fn spec_is_arg(self) -> bool {
        self is Argument
    }

    pub fn is_arg(&self) -> (res: bool)
        ensures
            res == self.spec_is_arg(),
    {
        match self {
            SwppRegisterName::Argument(_) => true,
            _ => false,
        }
    }

    /// The assembly name of the register: `r<idx>`, `sp` or `arg<idx>`.
    pub open spec fn spec_text(self) -> Seq<char> {
        match self {
            SwppRegisterName::Gen(idx) => "r"@ + decimal(idx as nat),
            SwppRegisterName::StackPointer => "sp"@,
            SwppRegisterName::Argument(idx) => "arg"@ + decimal(idx as nat),
        }
    }

    pub fn to_string(&self) -> (res: String)
        ensures
            res@ == self.spec_text(),
    {
        proof {
            reveal_strlit("r");
            reveal_strlit("sp");
            reveal_strlit("arg");
        }
        let mut out = String::new();
        match self {
            SwppRegisterName::Gen(idx) => {
                out.append("r");
                push_decimal(&mut out, *idx as u64);
            },
            SwppRegisterName::StackPointer => {
                out.append("sp");
            },
            SwppRegisterName::Argument(idx) => {
                out.append("arg");
                push_decimal(&mut out, *idx as u64);
            },
        }
        out
    }
}

/// The registers of one call frame.
#[derive(Debug)]
pub struct SwppRegisterSet {
    /// 32 64-bit general registers
    general: [u64; 32],
    /// stack pointer (set to MEM_STACK_SIZE at the beginning of the program)
    sp: u64,
    /// 16 argument registers
    arg: [u64; 16],
}

impl SwppRegisterSet {
    /// The value held by register `r`.
    pub closed spec fn value_of(self, r: SwppRegisterName) -> u64 {
        match r {
            SwppRegisterName::Gen(idx) => self.general@[idx - 1],
            SwppRegisterName::StackPointer => self.sp,
            SwppRegisterName::Argument(idx) => self.arg@[idx - 1],
        }
    }

    /// The general registers r1 .. r32 in order.
    pub closed spec fn general_values(self) -> Seq<u64> {
        self.general@
    }

    pub proof fn lemma_general_values(self)
        ensures
            self.general_values().len() == 32,
            forall|i: int|
                0 <= i < 32 ==> #[trigger] self.general_values()[i] == self.value_of(
                    SwppRegisterName::Gen((i + 1) as usize),
                ),
    {
    }

    /// `other` holds the same value as `self` in every register but `r`,
    /// and `val` in `r`.
    pub open spec fn is_update(self, other: SwppRegisterSet, r: SwppRegisterName, val: u64) -> bool {
        &&& other.value_of(r) == val
        &&& forall|q: SwppRegisterName|
            q.wf() && q != r ==> #[trigger] other.value_of(q) == self.value_of(q)
    }

    /// All registers hold zero but `sp`, which holds the stack size.
    pub fn new() -> (res: SwppRegisterSet)
        ensures
            forall|q: SwppRegisterName|
                q.wf() ==> #[trigger] res.value_of(q) == if q is StackPointer {
                    MEM_STACK_SIZE
                } else {
                    0
                },
    {
        SwppRegisterSet { general: [0u64; 32], sp: MEM_STACK_SIZE, arg: [0u64; 16] }
    }

    pub fn read_register_word(&self, rname: &SwppRegisterName) -> (res: SwppRawResult<u64>)
        requires
            rname.wf(),
        ensures
            res == Ok::<u64, SwppErrorKind>(self.value_of(*rname)),
    {
        match rname {
            SwppRegisterName::Gen(idx) => Ok(self.general[*idx - 1]),
            SwppRegisterName::StackPointer => Ok(self.sp),
            SwppRegisterName::Argument(idx) => Ok(self.arg[*idx - 1]),
        }
    }

    pub fn write_register_word(&mut self, rname: &SwppRegisterName, val: u64) -> (res:
        SwppRawResult<()>)
        requires
            rname.wf(),
        ensures
            res == Ok::<(), SwppErrorKind>(()),
            old(self).is_update(*final(self), *rname, val),
    {
        match rname {
            SwppRegisterName::Gen(idx) => self.general[*idx - 1] = val,
            SwppRegisterName::StackPointer => self.sp = val,
            SwppRegisterName::Argument(idx) => self.arg[*idx - 1] = val,
        };
        Ok(())
    }

    /// A mutable reference to the word of register `rname`: writing through it
    /// writes that register and no other.
    pub fn get_register_word_mut(&mut self, rname: &SwppRegisterName) -> (res: SwppRawResult<
        &mut u64,
    >)
        requires
            rname.wf(),
        ensures
            res matches Ok(r) && *r == old(self).value_of(*rname) && *final(self) == old(
                self,
            ).updated(*rname, *final(r)),
    {
        match rname {
            SwppRegisterName::Gen(idx) => Ok(&mut self.general[*idx - 1]),
            SwppRegisterName::StackPointer => Ok(&mut self.sp),
            SwppRegisterName::Argument(idx) => Ok(&mut self.arg[*idx - 1]),
        }
    }

    /// Loads `args` into arg1, arg2, ... in order; the other registers keep their values.
    pub fn set_arg_register(&mut self, args: &Vec<u64>)
        requires
            args.len() <= 16,
        ensures
            forall|q: SwppRegisterName|
                q.wf() ==> #[trigger] final(self).value_of(q) == match q {
                    SwppRegisterName::Argument(idx) => if idx <= args.len() {
                        args@[idx - 1]
                    } else {
                        old(self).value_of(q)
                    },
                    _ => old(self).value_of(q),
                },
            *final(self) == old(self).with_args(args@),
    {
        let mut i: usize = 0;
        while i < args.len()
            invariant
                i <= args.len() <= 16,
                self.general == old(self).general,
                self.sp == old(self).sp,
                forall|j: int|
                    0 <= j < 16 ==> #[trigger] self.arg@[j] == if j < i {
                        args@[j]
                    } else {
                        old(self).arg@[j]
                    },
            decreases args.len() - i,
        {
            self.arg[i] = args[i];
            i = i + 1;
        }
        proof {
            let w = old(self).with_args(args@);
            assert forall|q: SwppRegisterName| q.wf() implies #[trigger] self.value_of(q)
                == w.value_of(q) by {
                old(self).lemma_with_args(args@, q);
            }
            self.lemma_ext(w);
        }
    }

    /// The text `r : [v1, ..., v32]` of the general registers.
    pub fn print_gen_register(&self) -> (res: String)
        ensures
            res@ == "r : "@ + list_text(self.general_values()),
    {
        proof {
            reveal_strlit("r : ");
        }
        let mut out = String::new();
        out.append("r : ");
        push_list(&mut out, self.general.as_slice());
        out
    }
}

impl SwppRegisterSet {
    /// The registers with `v` written to `r`.
    pub closed spec fn updated(self, r: SwppRegisterName, v: u64) -> SwppRegisterSet {
        match r {
            SwppRegisterName::Gen(idx) => SwppRegisterSet {
                general: vstd::array::spec_array_update(self.general, idx - 1, v),
                ..self
            },
            SwppRegisterName::StackPointer => SwppRegisterSet { sp: v, ..self },
            SwppRegisterName::Argument(idx) => SwppRegisterSet {
                arg: vstd::array::spec_array_update(self.arg, idx - 1, v),
                ..self
            },
        }
    }

    /// The registers after the write `w`, if any.
    pub open spec fn apply(self, w: Option<(SwppRegisterName, u64)>) -> SwppRegisterSet {
        match w {
            Some((r, v)) => self.updated(r, v),
            None => self,
        }
    }

    /// The registers with `args` loaded into arg1, arg2, ... in order.
    pub open spec fn with_args(self, args: Seq<u64>) -> SwppRegisterSet
        decreases args.len(),
    {
        if args.len() == 0 {
            self
        } else {
            self.with_args(args.drop_last()).updated(
                SwppRegisterName::Argument(args.len() as usize),
                args.last(),
            )
        }
    }

    /// Two register sets that hold the same value in every register are the same.
    pub proof fn lemma_ext(self, other: SwppRegisterSet)
        requires
            forall|q: SwppRegisterName| q.wf() ==> #[trigger] self.value_of(q) == other.value_of(q),
        ensures
            self == other,
    {
        assert forall|i: int| 0 <= i < 32 implies self.general[i] == other.general[i] by {
            assert(self.value_of(SwppRegisterName::Gen((i + 1) as usize)) == other.value_of(
                SwppRegisterName::Gen((i + 1) as usize),
            ));
        }
        assert forall|i: int| 0 <= i < 16 implies self.arg[i] == other.arg[i] by {
            assert(self.value_of(SwppRegisterName::Argument((i + 1) as usize)) == other.value_of(
                SwppRegisterName::Argument((i + 1) as usize),
            ));
        }
        assert(self.value_of(SwppRegisterName::StackPointer) == other.value_of(
            SwppRegisterName::StackPointer,
        ));
        assert(self.general =~= other.general);
        assert(self.arg =~= other.arg);
    }

    /// Writing `v` to `r` changes `r` alone, and nothing else does that.
    pub proof fn lemma_updated(self, r: SwppRegisterName, v: u64, other: SwppRegisterSet)
        requires
            r.wf(),
        ensures
            self.is_update(self.updated(r, v), r, v),
            self.is_update(other, r, v) ==> other == self.updated(r, v),
    {
        let u = self.updated(r, v);
        assert forall|q: SwppRegisterName| q.wf() && q != r implies #[trigger] u.value_of(q)
            == self.value_of(q) by {
            match (q, r) {
                (SwppRegisterName::Gen(a), SwppRegisterName::Gen(b)) => {
                    assert(a != b);
                },
                (SwppRegisterName::Argument(a), SwppRegisterName::Argument(b)) => {
                    assert(a != b);
                },
                _ => {},
            }
        }
        if self.is_update(other, r, v) {
            assert forall|q: SwppRegisterName| q.wf() implies #[trigger] other.value_of(q)
                == u.value_of(q) by {
                if q != r {
                    assert(u.value_of(q) == self.value_of(q));
                }
            }
            other.lemma_ext(u);
        }
    }

    /// What `with_args` holds in each register.
    pub proof fn lemma_with_args(self, args: Seq<u64>, q: SwppRegisterName)
        requires
            args.len() <= 16,
            q.wf(),
        ensures
            self.with_args(args).value_of(q) == match q {
                SwppRegisterName::Argument(idx) => if idx <= args.len() {
                    args[idx - 1]
                } else {
                    self.value_of(q)
                },
                _ => self.value_of(q),
            },
        decreases args.len(),
    {
        if args.len() > 0 {
            let n = args.len();
            let prev = self.with_args(args.drop_last());
            self.lemma_with_args(args.drop_last(), q);
            prev.lemma_updated(SwppRegisterName::Argument(n as usize), args.last(), prev);
        }
    }
}

impl Clone for SwppRegisterSet {
    fn clone(&self) -> (res: Self)
        ensures
            res == *self,
    {
        SwppRegisterSet { general: self.general, sp: self.sp, arg: self.arg }
    }
}

impl Default for SwppRegisterSet {
    fn default() -> (res: Self)
        ensures
            forall|q: SwppRegisterName|
                q.wf() ==> #[trigger] res.value_of(q) == if q is StackPointer {
                    MEM_STACK_SIZE
                } else {
                    0
                },
    {
        Self::new()
    }
}

/// Reading a register right after writing it gives the value written,
/// and writing one register leaves every other register as it was.
pub proof fn lemma_read_after_write(
    before: SwppRegisterSet,
    after: SwppRegisterSet,
    written: SwppRegisterName,
    val: u64,
    read: SwppRegisterName,
)
    requires
        written.wf(),
        read.wf(),
        before.is_update(after, written, val),
    ensures
        after.value_of(read) == if read == written {
            val
        } else {
            before.value_of(read)
        },
{
}

} // verus!
