//! Function names, and functions: `N: start name nargs:`, blocks, `N: end name`.
use vstd::prelude::*;

use crate::function::{blocks_wf, SwppFunction};
use crate::parser::block::{
    all_insts_wf, block_parser, block_written_as, spec_block, BlockSyntax,
};
use crate::parser::common::{
    has_tag, number, read_number, scan_line, scan_multispace, scan_name, scan_spaces,
    skip_line, skip_multispace, skip_name, skip_spaces, slice_text, source, tag, text, ParsePanic,
    Parsed,
};
use crate::parser::{comment_empty_parser, line_num_parser, spec_comment_empty, spec_line_num};
use crate::program::SwppBlock;

verus! {

/// A function name, in the characters `tx` whose codes are `s`: the name and
/// the position after it.
pub open spec fn spec_fname(tx: Seq<char>, s: Seq<u8>, i: int, e: int) -> Option<(Seq<char>, int)> {
    let j = scan_name(s, i, e);
    if j == i {
        None
    } else {
        Some((tx.subrange(i, j), j))
    }
}

/// Parses a function name at `i`, before `e`.
pub fn fname_parser(src: &[char], s: &[u8], i: usize, e: usize) -> (res: Option<(String, usize)>)
    requires
        source(src, s@),
        i <= e <= s@.len(),
    ensures
        match spec_fname(src@, s@, i as int, e as int) {
            Some((n, j)) => res matches Some((f, k)) && f@ == n && k == j,
            None => res is None,
        },
        res matches Some((_, j)) ==> i < j <= e,
{
    let j = skip_name(s, i, e);
    if j == i {
        None
    } else {
        Some((slice_text(src, i, j), j))
    }
}


/// A function as written: its name, its number of arguments and its blocks.
pub struct FunctionSyntax {
    pub name: Seq<char>,
    pub nargs: u64,
    pub blocks: Seq<BlockSyntax>,
}

/// White space, then empty and comment lines, each ended by a newline or by
/// the end of the text: the position after them.
pub open spec fn spec_gap(s: Seq<u8>, i: int, e: int) -> int
    decreases e - i,
{
    let a = scan_multispace(s, i, e);
    match spec_comment_empty(s, a, e) {
        Some(j) => if i <= a <= j < e && j < s.len() && s[j] == 10 {
            spec_gap(s, j + 1, e)
        } else if j == e {
            e
        } else {
            a
        },
        None => a,
    }
}

/// The first line of a function, `N: start <name> <nargs>:`: the name, the
/// number of arguments and the position after the colon.
pub open spec fn spec_fn_header(tx: Seq<char>, s: Seq<u8>, i: int, e: int) -> Option<(Seq<char>, u64, int)> {
    match spec_line_num(s, i, e) {
        None => None,
        Some((_, j)) => if !has_tag(s, j, e, text("start"@)) {
            None
        } else {
            match spec_fname(tx, s, scan_spaces(s, j + "start"@.len(), e), e) {
                None => None,
                Some((n, k)) => match number(s, scan_spaces(s, k, e), e) {
                    None => None,
                    Some((v, m)) => if v <= u64::MAX && has_tag(s, m, e, text(":"@)) {
                        Some((n, v as u64, m + ":"@.len()))
                    } else {
                        None
                    },
                },
            }
        },
    }
}

/// The last line of a function, `N: end ...`: the position of its end.
pub open spec fn spec_fn_end(s: Seq<u8>, i: int, e: int) -> Option<int> {
    match spec_line_num(s, i, e) {
        None => None,
        Some((_, j)) => if has_tag(s, j, e, text("end"@)) {
            Some(scan_line(s, j + "end"@.len(), e))
        } else {
            None
        },
    }
}

/// The blocks of a function from `i` on, as many as there are, each after a
/// gap: the blocks and the position after the last.
pub open spec fn spec_blocks(tx: Seq<char>, s: Seq<u8>, i: int, e: int) -> Parsed<Seq<BlockSyntax>>
    decreases e - i,
{
    match spec_block(tx, s, spec_gap(s, i, e), e) {
        Parsed::Crash => Parsed::Crash,
        Parsed::NoMatch => Parsed::Done(Seq::empty(), i),
        Parsed::Done(b, j) => if i < j <= e {
            match spec_blocks(tx, s, j, e) {
                Parsed::Done(rest, k) => Parsed::Done(seq![b] + rest, k),
                Parsed::NoMatch => Parsed::NoMatch,
                Parsed::Crash => Parsed::Crash,
            }
        } else {
            Parsed::Done(Seq::empty(), i)
        },
    }
}

/// A function at `i`: a gap, its first line, its blocks, a gap and its last
/// line. A function without blocks crashes.
pub open spec fn spec_function(tx: Seq<char>, s: Seq<u8>, i: int, e: int) -> Parsed<FunctionSyntax> {
    match spec_fn_header(tx, s, spec_gap(s, i, e), e) {
        None => Parsed::NoMatch,
        Some((n, nargs, j)) => match spec_blocks(tx, s, j, e) {
            Parsed::Done(bs, k) => match spec_fn_end(s, spec_gap(s, k, e), e) {
                None => Parsed::NoMatch,
                Some(m) => if bs.len() == 0 {
                    Parsed::Crash
                } else {
                    Parsed::Done(FunctionSyntax { name: n, nargs, blocks: bs }, m)
                },
            },
            Parsed::NoMatch => Parsed::NoMatch,
            Parsed::Crash => Parsed::Crash,
        },
    }
}

/// The blocks `v` are the blocks written in `bs`, in order.
pub open spec fn blocks_written_as(v: Seq<SwppBlock>, bs: Seq<BlockSyntax>) -> bool {
    &&& v.len() == bs.len()
    &&& forall|k: int| 0 <= k < v.len() ==> block_written_as(#[trigger] v[k], bs[k])
}

/// The function `f` is the function written as `syn`.
pub open spec fn function_written_as(f: SwppFunction, syn: FunctionSyntax) -> bool {
    &&& f.spec_fname() == syn.name
    &&& f.spec_nargs() == syn.nargs
    &&& blocks_written_as(f.spec_blocks(), syn.blocks)
}

/// Skips a gap at `i`, before `e`.
pub fn gap_parser(s: &[u8], i: usize, e: usize) -> (j: usize)
    requires
        i <= e <= s@.len(),
    ensures
        j == spec_gap(s@, i as int, e as int),
        i <= j <= e,
{
    let mut p = i;
    loop
        invariant
            i <= p <= e <= s@.len(),
            spec_gap(s@, i as int, e as int) == spec_gap(s@, p as int, e as int),
        decreases e - p,
    {
        let a = skip_multispace(s, p, e);
        match comment_empty_parser(s, a, e) {
            Some(j) => {
                if j < e && s[j] == 10 {
                    p = j + 1;
                } else if j == e {
                    return e;
                } else {
                    return a;
                }
            },
            None => return a,
        }
    }
}

/// Parses the first line of a function at `i`, before `e`.
fn fn_header_parser(src: &[char], s: &[u8], i: usize, e: usize) -> (res: Option<(String, u64, usize)>)
    requires
        source(src, s@),
        i <= e <= s@.len(),
    ensures
        match spec_fn_header(src@, s@, i as int, e as int) {
            Some((n, v, j)) => res matches Some((f, w, k)) && f@ == n && w == v && k == j,
            None => res is None,
        },
        res matches Some((_, _, j)) ==> i < j <= e,
{
    proof {
        reveal_strlit("start");
        reveal_strlit(":");
    }
    let (_, j) = match line_num_parser(s, i, e) {
        Some(r) => r,
        None => return None,
    };
    let k = match tag(s, j, e, "start") {
        Some(k) => skip_spaces(s, k, e),
        None => return None,
    };
    let (n, m) = match fname_parser(src, s, k, e) {
        Some(r) => r,
        None => return None,
    };
    let p = skip_spaces(s, m, e);
    match read_number(s, p, e) {
        Some((Some(v), q)) => match tag(s, q, e, ":") {
            Some(r) => Some((n, v, r)),
            None => None,
        },
        _ => None,
    }
}

/// Parses the last line of a function at `i`, before `e`.
fn fn_end_parser(s: &[u8], i: usize, e: usize) -> (res: Option<usize>)
    requires
        i <= e <= s@.len(),
    ensures
        match spec_fn_end(s@, i as int, e as int) {
            Some(j) => res matches Some(k) && k == j,
            None => res is None,
        },
        res matches Some(j) ==> i < j <= e,
{
    proof {
        reveal_strlit("end");
    }
    let (_, j) = match line_num_parser(s, i, e) {
        Some(r) => r,
        None => return None,
    };
    match tag(s, j, e, "end") {
        Some(k) => Some(skip_line(s, k, e)),
        None => None,
    }
}

/// Every instruction of every block of `v` is well formed.
pub open spec fn all_blocks_wf(v: Seq<SwppBlock>) -> bool {
    forall|k: int| 0 <= k < v.len() ==> all_insts_wf(#[trigger] v[k].inst_vec@)
}

/// Parses the blocks of a function at `i`, before `e`.
fn blocks_parser(src: &[char], s: &[u8], i: usize, e: usize) -> (res: Result<
    (Vec<SwppBlock>, usize),
    ParsePanic,
>)
    requires
        source(src, s@),
        i <= e <= s@.len(),
    ensures
        match spec_blocks(src@, s@, i as int, e as int) {
            Parsed::Done(bs, k) => res matches Ok((v, j)) && j == k && blocks_written_as(v@, bs),
            Parsed::NoMatch => false,
            Parsed::Crash => res is Err,
        },
        res matches Ok((v, j)) ==> all_blocks_wf(v@) && i <= j <= e,
{
    let mut v: Vec<SwppBlock> = Vec::new();
    let mut p = i;
    let ghost mut done: Seq<BlockSyntax> = Seq::empty();
    loop
        invariant
            source(src, s@),
            i <= p <= e <= s@.len(),
            blocks_written_as(v@, done),
            all_blocks_wf(v@),
            spec_blocks(src@, s@, i as int, e as int) == match spec_blocks(src@, s@, p as int, e as int) {
                Parsed::Done(rest, k) => Parsed::Done(done + rest, k),
                Parsed::NoMatch => Parsed::NoMatch,
                Parsed::Crash => Parsed::Crash,
            },
        decreases e - p,
    {
        let g = gap_parser(s, p, e);
        match block_parser(src, s, g, e)? {
            Some((b, j)) => {
                if p < j {
                    proof {
                        let x = spec_block(src@, s@, g as int, e as int)->Done_0;
                        if let Parsed::Done(rest, k) = spec_blocks(src@, s@, j as int, e as int) {
                            assert(done + (seq![x] + rest) =~= done.push(x) + rest);
                        }
                        done = done.push(x);
                    }
                    let ghost old_v = v@;
                    v.push(b);
                    proof {
                        assert forall|q: int| 0 <= q < v@.len() implies all_insts_wf(
                            #[trigger] v@[q].inst_vec@,
                        ) by {
                            if q < old_v.len() {
                                assert(v@[q] == old_v[q]);
                            }
                        }
                    }
                    p = j;
                } else {
                    proof {
                        assert(done + Seq::<BlockSyntax>::empty() =~= done);
                    }
                    return Ok((v, p));
                }
            },
            None => {
                proof {
                    assert(done + Seq::<BlockSyntax>::empty() =~= done);
                }
                return Ok((v, p));
            },
        }
    }
}

/// The function `func` at position `j` is what `spec` describes.
pub open spec fn function_found(
    spec: Parsed<FunctionSyntax>,
    exec: Result<Option<(SwppFunction, usize)>, ParsePanic>,
) -> bool {
    match spec {
        Parsed::Done(f, k) => exec matches Ok(Some((func, j))) && j == k && function_written_as(
            func,
            f,
        ),
        Parsed::NoMatch => exec matches Ok(None),
        Parsed::Crash => exec is Err,
    }
}

/// Parses a function at `i`, before `e`: its first line, its blocks and its
/// last line.
pub fn function_parser(src: &[char], s: &[u8], i: usize, e: usize) -> (res: Result<
    Option<(SwppFunction, usize)>,
    ParsePanic,
>)
    requires
        source(src, s@),
        i <= e <= s@.len(),
    ensures
        function_found(spec_function(src@, s@, i as int, e as int), res),
        res matches Ok(Some((func, j))) ==> i < j <= e && func.wf() && blocks_wf(func.spec_blocks()),
{
    let a = gap_parser(s, i, e);
    let (n, nargs, j) = match fn_header_parser(src, s, a, e) {
        Some(r) => r,
        None => return Ok(None),
    };
    let (blocks, k) = blocks_parser(src, s, j, e)?;
    let g = gap_parser(s, k, e);
    match fn_end_parser(s, g, e) {
        Some(m) => {
            if blocks.len() == 0 {
                return Err(ParsePanic);
            }
            proof {
                assert(blocks_wf(blocks@)) by {
                    assert forall|b: int, q: int|
                        0 <= b < blocks@.len() && 0 <= q < blocks@[b].inst_vec@.len() implies (
                    #[trigger] blocks@[b].inst_vec@[q]).wf() by {
                        assert(all_insts_wf(blocks@[b].inst_vec@));
                    }
                }
            }
            Ok(Some((SwppFunction::new(n, nargs, blocks), m)))
        },
        None => Ok(None),
    }
}

} // verus!
