use vstd::prelude::*;

use crate::register::SwppRegisterName;
use crate::text::{decimal, push_decimal};

verus! {

pub type SwppResult<T> = Result<T, SwppError>;

pub type SwppRawResult<T> = Result<T, SwppErrorKind>;

/// Kinds of errors that can occur during the execution of the program.
/// `desc` gives the description of each kind.
#[derive(Debug)]
pub enum SwppErrorKind {
    /// There is no main function in the program
    NoMainFn,
    /// Call of a function that isn't declared
    UnknownFnName(String),
    /// Access to an undeclared block
    UnknownBlockName(String),
    /// Block is not well formed
    IllFormedBlock(String),
    /// Wrong register name is used
    WrongRegisterName(SwppRegisterName),
    /// Vector register is used where a non-vector register is expected
    ExpectVecReg(SwppRegisterName),
    /// Non-vector register is used where a vector register is expected
    ExpectNonVecReg(SwppRegisterName),
    /// Attempt to assign a value directly to an argument register
    ArgRegAssign(SwppRegisterName),
    /// Invalid value used for condition register
    InvalidCondVal(u64),
    /// Function call results in a crash, with the error statement provided
    FunctionCallCrash(String, String),
    /// Wrong number of arguments provided to a function call
    WrongArgNum(String, u64, u64),
    /// Attempt to assign a value to a function that returns nothing
    AssignNoValue(String),
    /// Main function is recursively called
    RecursiveMainCall,
    /// Unallowed recursive call
    InvalidRecursiveCall(String, String),
    /// Assert failed
    AssertionFailed(u64, u64),
    /// Invalid heap allocation size
    InvalidHeapAllocSize(u64),
    /// Heap memory is exhausted
    NOMEMHEAP,
    /// Wrong address is accessed
    InvalidAddr(u64),
    /// Wrong alignment for memory access
    InvalidAlignment(u64, u64),
    /// read/write fails
    IOFails,
    /// Invalid value is read from stdstream
    InvalidIOValue(String),
    SubtractOverFlow,
}

impl Clone for SwppErrorKind {
    fn clone(&self) -> (res: Self)
        ensures
            res == *self,
    {
        match self {
            SwppErrorKind::NoMainFn => SwppErrorKind::NoMainFn,
            SwppErrorKind::UnknownFnName(s) => SwppErrorKind::UnknownFnName(s.clone()),
            SwppErrorKind::UnknownBlockName(s) => SwppErrorKind::UnknownBlockName(s.clone()),
            SwppErrorKind::IllFormedBlock(s) => SwppErrorKind::IllFormedBlock(s.clone()),
            SwppErrorKind::WrongRegisterName(r) => SwppErrorKind::WrongRegisterName(*r),
            SwppErrorKind::ExpectVecReg(r) => SwppErrorKind::ExpectVecReg(*r),
            SwppErrorKind::ExpectNonVecReg(r) => SwppErrorKind::ExpectNonVecReg(*r),
            SwppErrorKind::ArgRegAssign(r) => SwppErrorKind::ArgRegAssign(*r),
            SwppErrorKind::InvalidCondVal(v) => SwppErrorKind::InvalidCondVal(*v),
            SwppErrorKind::FunctionCallCrash(a, b) => SwppErrorKind::FunctionCallCrash(
                a.clone(),
                b.clone(),
            ),
            SwppErrorKind::WrongArgNum(a, b, c) => SwppErrorKind::WrongArgNum(a.clone(), *b, *c),
            SwppErrorKind::AssignNoValue(s) => SwppErrorKind::AssignNoValue(s.clone()),
            SwppErrorKind::RecursiveMainCall => SwppErrorKind::RecursiveMainCall,
            SwppErrorKind::InvalidRecursiveCall(a, b) => SwppErrorKind::InvalidRecursiveCall(
                a.clone(),
                b.clone(),
            ),
            SwppErrorKind::AssertionFailed(a, b) => SwppErrorKind::AssertionFailed(*a, *b),
            SwppErrorKind::InvalidHeapAllocSize(v) => SwppErrorKind::InvalidHeapAllocSize(*v),
            SwppErrorKind::NOMEMHEAP => SwppErrorKind::NOMEMHEAP,
            SwppErrorKind::InvalidAddr(v) => SwppErrorKind::InvalidAddr(*v),
            SwppErrorKind::InvalidAlignment(a, b) => SwppErrorKind::InvalidAlignment(*a, *b),
            SwppErrorKind::IOFails => SwppErrorKind::IOFails,
            SwppErrorKind::InvalidIOValue(s) => SwppErrorKind::InvalidIOValue(s.clone()),
            SwppErrorKind::SubtractOverFlow => SwppErrorKind::SubtractOverFlow,
        }
    }
}

/// An error kind together with the line where it occurred.
#[derive(Debug)]
pub struct SwppError {
    kind: SwppErrorKind,
    loc: u64,
}

impl SwppError {
    pub closed spec fn spec_kind(self) -> SwppErrorKind {
        self.kind
    }

    pub closed spec fn spec_loc(self) -> u64 {
        self.loc
    }

    pub fn new(kind: SwppErrorKind, loc: u64) -> (res: Self)
        ensures
            res.spec_kind() == kind,
            res.spec_loc() == loc,
    {
        Self { kind, loc }
    }

    pub fn get_kind(&self) -> (res: SwppErrorKind)
        ensures
            res == self.spec_kind(),
    {
        self.kind.clone()
    }

    pub fn get_loc(&self) -> (res: u64)
        ensures
            res == self.spec_loc(),
    {
        self.loc
    }
}

/// An error kind with its texts as character sequences.
pub enum ErrorKindView {
    NoMainFn,
    UnknownFnName(Seq<char>),
    UnknownBlockName(Seq<char>),
    IllFormedBlock(Seq<char>),
    WrongRegisterName(SwppRegisterName),
    ExpectVecReg(SwppRegisterName),
    ExpectNonVecReg(SwppRegisterName),
    ArgRegAssign(SwppRegisterName),
    InvalidCondVal(u64),
    FunctionCallCrash(Seq<char>, Seq<char>),
    WrongArgNum(Seq<char>, u64, u64),
    AssignNoValue(Seq<char>),
    RecursiveMainCall,
    InvalidRecursiveCall(Seq<char>, Seq<char>),
    AssertionFailed(u64, u64),
    InvalidHeapAllocSize(u64),
    NOMEMHEAP,
    InvalidAddr(u64),
    InvalidAlignment(u64, u64),
    IOFails,
    InvalidIOValue(Seq<char>),
    SubtractOverFlow,
}

impl View for SwppErrorKind {
    type V = ErrorKindView;

    open spec fn view(&self) -> ErrorKindView {
        match self {
            SwppErrorKind::NoMainFn => ErrorKindView::NoMainFn,
            SwppErrorKind::UnknownFnName(s) => ErrorKindView::UnknownFnName(s@),
            SwppErrorKind::UnknownBlockName(s) => ErrorKindView::UnknownBlockName(s@),
            SwppErrorKind::IllFormedBlock(s) => ErrorKindView::IllFormedBlock(s@),
            SwppErrorKind::WrongRegisterName(r) => ErrorKindView::WrongRegisterName(*r),
            SwppErrorKind::ExpectVecReg(r) => ErrorKindView::ExpectVecReg(*r),
            SwppErrorKind::ExpectNonVecReg(r) => ErrorKindView::ExpectNonVecReg(*r),
            SwppErrorKind::ArgRegAssign(r) => ErrorKindView::ArgRegAssign(*r),
            SwppErrorKind::InvalidCondVal(v) => ErrorKindView::InvalidCondVal(*v),
            SwppErrorKind::FunctionCallCrash(a, b) => ErrorKindView::FunctionCallCrash(a@, b@),
            SwppErrorKind::WrongArgNum(a, b, c) => ErrorKindView::WrongArgNum(a@, *b, *c),
            SwppErrorKind::AssignNoValue(s) => ErrorKindView::AssignNoValue(s@),
            SwppErrorKind::RecursiveMainCall => ErrorKindView::RecursiveMainCall,
            SwppErrorKind::InvalidRecursiveCall(a, b) => ErrorKindView::InvalidRecursiveCall(
                a@,
                b@,
            ),
            SwppErrorKind::AssertionFailed(a, b) => ErrorKindView::AssertionFailed(*a, *b),
            SwppErrorKind::InvalidHeapAllocSize(v) => ErrorKindView::InvalidHeapAllocSize(*v),
            SwppErrorKind::NOMEMHEAP => ErrorKindView::NOMEMHEAP,
            SwppErrorKind::InvalidAddr(v) => ErrorKindView::InvalidAddr(*v),
            SwppErrorKind::InvalidAlignment(a, b) => ErrorKindView::InvalidAlignment(*a, *b),
            SwppErrorKind::IOFails => ErrorKindView::IOFails,
            SwppErrorKind::InvalidIOValue(s) => ErrorKindView::InvalidIOValue(s@),
            SwppErrorKind::SubtractOverFlow => ErrorKindView::SubtractOverFlow,
        }
    }
}

/// The view of a raw result: its value, or the view of its error kind.
pub open spec fn raw_view<T>(r: SwppRawResult<T>) -> Result<T, ErrorKindView> {
    match r {
        Ok(v) => Ok(v),
        Err(e) => Err(e@),
    }
}


/// The description of an error kind.
pub open spec fn desc_text(k: ErrorKindView) -> Seq<char> {
    match k {
        ErrorKindView::NoMainFn => "Main Function does not exists"@,
        ErrorKindView::UnknownFnName(f) => "Function "@ + f + " isn't declared"@,
        ErrorKindView::UnknownBlockName(b) => "Block "@ + b + " isn't declared"@,
        ErrorKindView::IllFormedBlock(b) => "Block "@ + b + " is not well formed"@,
        ErrorKindView::WrongRegisterName(r) => "Register "@ + r.spec_text() + " doesn't exist in system"@,
        ErrorKindView::ExpectVecReg(r) => "Expected Vector Register but find "@ + r.spec_text(),
        ErrorKindView::ArgRegAssign(r) => "You cannot assign the value directly to the argument register "@ + r.spec_text(),
        ErrorKindView::ExpectNonVecReg(r) => "Expected non-Vector Register but find "@ + r.spec_text(),
        ErrorKindView::InvalidCondVal(v) => "Condition register must have 0 or 1 but you use "@ + decimal(v as nat),
        ErrorKindView::FunctionCallCrash(f, e) => "While running "@ + f + ", following error occurs \n-------------------------------------------------\n "@ + e + " \n-------------------------------------------------\n"@,
        ErrorKindView::WrongArgNum(f, right, wrong) => "Function "@ + f + " takes "@ + decimal(right as nat) + " arguments but you give "@ + decimal(wrong as nat),
        ErrorKindView::AssignNoValue(f) => f + " returns nothing."@,
        ErrorKindView::RecursiveMainCall => "Main function cannot be recursively called"@,
        ErrorKindView::InvalidRecursiveCall(f, c) => "You cannot recursively call "@ + f + " in the function "@ + c,
        ErrorKindView::AssertionFailed(rhs, lhs) => "Assertion Failed. Right side has value "@ + decimal(rhs as nat) + " while left side has value "@ + decimal(lhs as nat),
        ErrorKindView::InvalidHeapAllocSize(size) => "Size for heap allocation "@ + decimal(size as nat) + " should be non-zero and multiple of 8"@,
        ErrorKindView::NOMEMHEAP => "Heap Memory is actually limited with size of 2^64 bytes."@,
        ErrorKindView::InvalidAddr(addr) => "Error occurs while trying to access adress "@ + decimal(addr as nat),
        ErrorKindView::InvalidAlignment(addr, size) => decimal(addr as nat) + " should be multiple of "@ + decimal(size as nat),
        ErrorKindView::IOFails => "fail to read or write to stdstream"@,
        ErrorKindView::InvalidIOValue(input) => "Read Invalid value "@ + input,
        ErrorKindView::SubtractOverFlow => "Overflow occurs while subtract"@,
    }
}

/// The text of an error: its description and its line.
pub open spec fn error_text(k: ErrorKindView, loc: u64) -> Seq<char> {
    desc_text(k) + " : line "@ + decimal(loc as nat)
}

impl SwppErrorKind {
    /// The description of the error.
    pub fn desc(&self) -> (res: String)
        ensures
            res@ == desc_text(self@),
    {
        let mut out = String::new();
        match self {
            SwppErrorKind::NoMainFn => {
                out.append("Main Function does not exists");
            },
            SwppErrorKind::UnknownFnName(f) => {
                out.append("Function ");
                out.append(f.as_str());
                out.append(" isn't declared");
            },
            SwppErrorKind::UnknownBlockName(b) => {
                out.append("Block ");
                out.append(b.as_str());
                out.append(" isn't declared");
            },
            SwppErrorKind::IllFormedBlock(b) => {
                out.append("Block ");
                out.append(b.as_str());
                out.append(" is not well formed");
            },
            SwppErrorKind::WrongRegisterName(r) => {
                out.append("Register ");
                out.append(r.to_string().as_str());
                out.append(" doesn't exist in system");
            },
            SwppErrorKind::ExpectVecReg(r) => {
                out.append("Expected Vector Register but find ");
                out.append(r.to_string().as_str());
            },
            SwppErrorKind::ArgRegAssign(r) => {
                out.append("You cannot assign the value directly to the argument register ");
                out.append(r.to_string().as_str());
            },
            SwppErrorKind::ExpectNonVecReg(r) => {
                out.append("Expected non-Vector Register but find ");
                out.append(r.to_string().as_str());
            },
            SwppErrorKind::InvalidCondVal(v) => {
                out.append("Condition register must have 0 or 1 but you use ");
                push_decimal(&mut out, *v);
            },
            SwppErrorKind::FunctionCallCrash(f, e) => {
                out.append("While running ");
                out.append(f.as_str());
                out.append(", following error occurs \n-------------------------------------------------\n ");
                out.append(e.as_str());
                out.append(" \n-------------------------------------------------\n");
            },
            SwppErrorKind::WrongArgNum(f, right, wrong) => {
                out.append("Function ");
                out.append(f.as_str());
                out.append(" takes ");
                push_decimal(&mut out, *right);
                out.append(" arguments but you give ");
                push_decimal(&mut out, *wrong);
            },
            SwppErrorKind::AssignNoValue(f) => {
                out.append(f.as_str());
                out.append(" returns nothing.");
            },
            SwppErrorKind::RecursiveMainCall => {
                out.append("Main function cannot be recursively called");
            },
            SwppErrorKind::InvalidRecursiveCall(f, c) => {
                out.append("You cannot recursively call ");
                out.append(f.as_str());
                out.append(" in the function ");
                out.append(c.as_str());
            },
            SwppErrorKind::AssertionFailed(rhs, lhs) => {
                out.append("Assertion Failed. Right side has value ");
                push_decimal(&mut out, *rhs);
                out.append(" while left side has value ");
                push_decimal(&mut out, *lhs);
            },
            SwppErrorKind::InvalidHeapAllocSize(size) => {
                out.append("Size for heap allocation ");
                push_decimal(&mut out, *size);
                out.append(" should be non-zero and multiple of 8");
            },
            SwppErrorKind::NOMEMHEAP => {
                out.append("Heap Memory is actually limited with size of 2^64 bytes.");
            },
            SwppErrorKind::InvalidAddr(addr) => {
                out.append("Error occurs while trying to access adress ");
                push_decimal(&mut out, *addr);
            },
            SwppErrorKind::InvalidAlignment(addr, size) => {
                push_decimal(&mut out, *addr);
                out.append(" should be multiple of ");
                push_decimal(&mut out, *size);
            },
            SwppErrorKind::IOFails => {
                out.append("fail to read or write to stdstream");
            },
            SwppErrorKind::InvalidIOValue(input) => {
                out.append("Read Invalid value ");
                out.append(input.as_str());
            },
            SwppErrorKind::SubtractOverFlow => {
                out.append("Overflow occurs while subtract");
            },
        }
        out
    }
}

impl SwppError {
    /// The description of the error and the line where it occurred.
    pub fn to_string(&self) -> (res: String)
        ensures
            res@ == error_text(self.spec_kind()@, self.spec_loc()),
    {
        let mut out = self.kind.desc();
        out.append(" : line ");
        push_decimal(&mut out, self.loc);
        out
    }
}

} // verus!
