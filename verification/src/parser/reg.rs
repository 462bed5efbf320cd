//! Register names: `sp`, `arg1` to `arg16`, `r1` to `r32`.
use vstd::prelude::*;

use crate::parser::common::{has_tag, number, read_number, tag, text};
use crate::register::SwppRegisterName;

verus! {

/// The register named at `i`, and the position after its name.
pub open spec fn spec_reg(s: Seq<u8>, i: int, e: int) -> Option<(SwppRegisterName, int)> {
    if has_tag(s, i, e, text("sp"@)) {
        Some((SwppRegisterName::StackPointer, i + "sp"@.len()))
    } else if has_tag(s, i, e, text("arg"@)) {
        match number(s, i + "arg"@.len(), e) {
            Some((v, j)) => if 1 <= v <= 16 {
                Some((SwppRegisterName::Argument(v as usize), j))
            } else {
                None
            },
            None => None,
        }
    } else if has_tag(s, i, e, text("r"@)) {
        match number(s, i + "r"@.len(), e) {
            Some((v, j)) => if 1 <= v <= 32 {
                Some((SwppRegisterName::Gen(v as usize), j))
            } else {
                None
            },
            None => None,
        }
    } else {
        None
    }
}

/// Parses a register name at `i`, before `e`.
pub fn reg_parser(s: &[u8], i: usize, e: usize) -> (res: Option<(SwppRegisterName, usize)>)
    requires
        i <= e <= s@.len(),
    ensures
        match spec_reg(s@, i as int, e as int) {
            Some((r, j)) => res matches Some((q, k)) && q == r && k == j,
            None => res is None,
        },
        res matches Some((r, j)) ==> i < j <= e && r.wf(),
{
    proof {
        reveal_strlit("sp");
        reveal_strlit("arg");
        reveal_strlit("r");
    }
    if let Some(j) = tag(s, i, e, "sp") {
        return Some((SwppRegisterName::StackPointer, j));
    }
    if let Some(j) = tag(s, i, e, "arg") {
        return match read_number(s, j, e) {
            Some((Some(v), k)) => if 1 <= v && v <= 16 {
                Some((SwppRegisterName::Argument(v as usize), k))
            } else {
                None
            },
            _ => None,
        };
    }
    if let Some(j) = tag(s, i, e, "r") {
        return match read_number(s, j, e) {
            Some((Some(v), k)) => if 1 <= v && v <= 32 {
                Some((SwppRegisterName::Gen(v as usize), k))
            } else {
                None
            },
            _ => None,
        };
    }
    None
}

} // verus!
