//! Blocks: a numbered line `N: .name:`, then instruction, empty and comment lines.
use vstd::prelude::*;

use crate::inst::SwppInst;
use crate::parser::common::{
    has_tag, scan_multispace, scan_name, skip_multispace, skip_name, slice_text, source,
    tag, text, ParsePanic, Parsed,
};
use crate::parser::inst::{inst_parser, spec_inst, written_as, InstSyntax};
use crate::parser::{comment_empty_parser, line_num_parser, spec_comment_empty, spec_line_num};
use crate::program::SwppBlock;

verus! {

/// A block name, written with a leading `.`, in the characters `tx` whose
/// codes are `s`: the name and the position after it.
pub open spec fn spec_bname(tx: Seq<char>, s: Seq<u8>, i: int, e: int) -> Option<(Seq<char>, int)> {
    if has_tag(s, i, e, text("."@)) {
        let j = scan_name(s, i + "."@.len(), e);
        if j == i + "."@.len() {
            None
        } else {
            Some((tx.subrange(i + "."@.len(), j), j))
        }
    } else {
        None
    }
}

/// Parses a block name at `i`, before `e`.
pub fn bname_parser(src: &[char], s: &[u8], i: usize, e: usize) -> (res: Option<(String, usize)>)
    requires
        source(src, s@),
        i <= e <= s@.len(),
    ensures
        match spec_bname(src@, s@, i as int, e as int) {
            Some((n, j)) => res matches Some((b, k)) && b@ == n && k == j,
            None => res is None,
        },
        res matches Some((_, j)) ==> i < j <= e,
{
    proof {
        reveal_strlit(".");
    }
    match tag(s, i, e, ".") {
        None => None,
        Some(j) => {
            let k = skip_name(s, j, e);
            if k == j {
                None
            } else {
                Some((slice_text(src, j, k), k))
            }
        },
    }
}


/// A block as written: its name, the number of its first line, and its
/// instructions with their line numbers.
pub struct BlockSyntax {
    pub name: Seq<char>,
    pub start: u64,
    pub insts: Seq<(InstSyntax, u64)>,
}

/// The lines of a block from `i` on, each an empty or comment line or an
/// instruction, and each ended by a newline: the instructions in order and the
/// position after the last line read. A line that is neither, or one not ended
/// by a newline, ends the block before it.
pub open spec fn spec_block_lines(tx: Seq<char>, s: Seq<u8>, i: int, e: int) -> Parsed<Seq<(InstSyntax, u64)>>
    decreases e - i,
{
    let item: Parsed<Option<(InstSyntax, u64)>> = match spec_comment_empty(s, i, e) {
        Some(j) => Parsed::Done(None, j),
        None => match spec_inst(tx, s, i, e) {
            Parsed::Done(x, j) => Parsed::Done(Some(x), j),
            Parsed::NoMatch => Parsed::NoMatch,
            Parsed::Crash => Parsed::Crash,
        },
    };
    match item {
        Parsed::Crash => Parsed::Crash,
        Parsed::NoMatch => Parsed::Done(Seq::empty(), i),
        Parsed::Done(x, j) => if i <= j < e && j < s.len() && s[j] == 10 {
            match spec_block_lines(tx, s, j + 1, e) {
                Parsed::Done(rest, k) => Parsed::Done(
                    match x {
                        Some(inst) => seq![inst] + rest,
                        None => rest,
                    },
                    k,
                ),
                Parsed::NoMatch => Parsed::NoMatch,
                Parsed::Crash => Parsed::Crash,
            }
        } else {
            Parsed::Done(Seq::empty(), i)
        },
    }
}

/// A block at `i`: white space, the numbered line `N: .name:`, white space,
/// then its lines.
pub open spec fn spec_block(tx: Seq<char>, s: Seq<u8>, i: int, e: int) -> Parsed<BlockSyntax> {
    let a = scan_multispace(s, i, e);
    match spec_line_num(s, a, e) {
        None => Parsed::NoMatch,
        Some((l, b)) => match spec_bname(tx, s, b, e) {
            None => Parsed::NoMatch,
            Some((n, c)) => if !has_tag(s, c, e, text(":"@)) {
                Parsed::NoMatch
            } else {
                match spec_block_lines(tx, s, scan_multispace(s, c + ":"@.len(), e), e) {
                    Parsed::Done(insts, k) => Parsed::Done(
                        BlockSyntax { name: n, start: l, insts },
                        k,
                    ),
                    Parsed::NoMatch => Parsed::NoMatch,
                    Parsed::Crash => Parsed::Crash,
                }
            },
        },
    }
}

/// The instructions `v` are the instructions written in `insts`, in order.
pub open spec fn insts_written_as(v: Seq<SwppInst>, insts: Seq<(InstSyntax, u64)>) -> bool {
    &&& v.len() == insts.len()
    &&& forall|k: int| 0 <= k < v.len() ==> written_as(#[trigger] v[k], insts[k].0, insts[k].1)
}

/// The block `b` is the block written as `syn`.
pub open spec fn block_written_as(b: SwppBlock, syn: BlockSyntax) -> bool {
    &&& b.block_name@ == syn.name
    &&& b.start_loc == syn.start
    &&& insts_written_as(b.inst_vec@, syn.insts)
}

/// Every instruction of `v` is well formed.
pub open spec fn all_insts_wf(v: Seq<SwppInst>) -> bool {
    forall|k: int| 0 <= k < v.len() ==> (#[trigger] v[k]).wf()
}

/// Parses the lines of a block at `i`, before `e`.
fn block_lines_parser(src: &[char], s: &[u8], i: usize, e: usize) -> (res: Result<
    (Vec<SwppInst>, usize),
    ParsePanic,
>)
    requires
        source(src, s@),
        i <= e <= s@.len(),
    ensures
        match spec_block_lines(src@, s@, i as int, e as int) {
            Parsed::Done(insts, k) => res matches Ok((v, j)) && j == k && insts_written_as(
                v@,
                insts,
            ),
            Parsed::NoMatch => false,
            Parsed::Crash => res is Err,
        },
        res matches Ok((v, j)) ==> all_insts_wf(v@) && i <= j <= e,
{
    let mut v: Vec<SwppInst> = Vec::new();
    let mut p = i;
    let ghost mut done: Seq<(InstSyntax, u64)> = Seq::empty();
    loop
        invariant
            source(src, s@),
            i <= p <= e <= s@.len(),
            insts_written_as(v@, done),
            all_insts_wf(v@),
            spec_block_lines(src@, s@, i as int, e as int) == match spec_block_lines(
                src@,
                s@,
                p as int,
                e as int,
            ) {
                Parsed::Done(rest, k) => Parsed::Done(done + rest, k),
                Parsed::NoMatch => Parsed::NoMatch,
                Parsed::Crash => Parsed::Crash,
            },
        decreases e - p,
    {
        match comment_empty_parser(s, p, e) {
            Some(j) => {
                if j < e && s[j] == 10 {
                    p = j + 1;
                } else {
                    proof {
                        assert(done + Seq::<(InstSyntax, u64)>::empty() =~= done);
                    }
                    return Ok((v, p));
                }
            },
            None => match inst_parser(src, s, p, e)? {
                Some((inst, j)) => {
                    if j < e && s[j] == 10 {
                        proof {
                            let x = spec_inst(src@, s@, p as int, e as int)->Done_0;
                            if let Parsed::Done(rest, k) = spec_block_lines(src@, s@, j + 1, e as int) {
                                assert(done + (seq![x] + rest) =~= done.push(x) + rest);
                            }
                            done = done.push(x);
                        }
                        v.push(inst);
                        p = j + 1;
                    } else {
                        proof {
                            assert(done + Seq::<(InstSyntax, u64)>::empty() =~= done);
                        }
                        return Ok((v, p));
                    }
                },
                None => {
                    proof {
                        assert(done + Seq::<(InstSyntax, u64)>::empty() =~= done);
                    }
                    return Ok((v, p));
                },
            },
        }
    }
}

/// The block `b` at position `j` is what `spec` describes.
pub open spec fn block_found(spec: Parsed<BlockSyntax>, exec: Result<Option<(SwppBlock, usize)>, ParsePanic>) -> bool {
    match spec {
        Parsed::Done(b, k) => exec matches Ok(Some((block, j))) && j == k && block_written_as(
            block,
            b,
        ),
        Parsed::NoMatch => exec matches Ok(None),
        Parsed::Crash => exec is Err,
    }
}

/// Parses a block at `i`, before `e`: its header line, then as many of its
/// lines as there are.
pub fn block_parser(src: &[char], s: &[u8], i: usize, e: usize) -> (res: Result<
    Option<(SwppBlock, usize)>,
    ParsePanic,
>)
    requires
        source(src, s@),
        i <= e <= s@.len(),
    ensures
        block_found(spec_block(src@, s@, i as int, e as int), res),
        res matches Ok(Some((block, j))) ==> i < j <= e && all_insts_wf(block.inst_vec@),
{
    proof {
        reveal_strlit(":");
    }
    let a = skip_multispace(s, i, e);
    let (l, b) = match line_num_parser(s, a, e) {
        Some(r) => r,
        None => return Ok(None),
    };
    let (n, c) = match bname_parser(src, s, b, e) {
        Some(r) => r,
        None => return Ok(None),
    };
    let d = match tag(s, c, e, ":") {
        Some(d) => skip_multispace(s, d, e),
        None => return Ok(None),
    };
    let (inst_vec, k) = block_lines_parser(src, s, d, e)?;
    Ok(Some((SwppBlock { block_name: n, inst_vec, start_loc: l }, k)))
}

} // verus!
