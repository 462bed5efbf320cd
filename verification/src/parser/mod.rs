//! The assembly text: numbered lines, registers, names, instructions, blocks
//! and functions. The grammar reads the codes of the characters (see
//! `common::code_of`) and takes names from the characters themselves.
pub mod block;
pub mod common;
pub mod function;
pub mod inst;
pub mod reg;

use vstd::prelude::*;

use crate::text::{decimal, digit_char};
use crate::function::{blocks_wf, SwppFunction};
use crate::parser::common::{
    char_code, has_tag, number, read_number, scan_line, scan_spaces, skip_line, skip_spaces,
    source, tag, text, ParsePanic, Parsed,
};
use crate::parser::function::{
    function_parser, function_written_as, gap_parser, spec_function, spec_gap, FunctionSyntax,
};

verus! {

/// The number of a line, written `N:` and followed by spaces: its value and
/// the position after the spaces.
pub open spec fn spec_line_num(s: Seq<u8>, i: int, e: int) -> Option<(u64, int)> {
    match number(s, i, e) {
        Some((v, j)) => if v <= u64::MAX && has_tag(s, j, e, text(":"@)) {
            Some((v as u64, scan_spaces(s, j + ":"@.len(), e)))
        } else {
            None
        },
        None => None,
    }
}

/// Parses the number of a line at `i`, before `e`.
pub fn line_num_parser(s: &[u8], i: usize, e: usize) -> (res: Option<(u64, usize)>)
    requires
        i <= e <= s@.len(),
    ensures
        match spec_line_num(s@, i as int, e as int) {
            Some((v, j)) => res matches Some((w, k)) && w == v && k == j,
            None => res is None,
        },
        res matches Some((_, j)) ==> i < j <= e,
{
    proof {
        reveal_strlit(":");
    }
    match read_number(s, i, e) {
        Some((Some(v), j)) => match tag(s, j, e, ":") {
            Some(k) => Some((v, skip_spaces(s, k, e))),
            None => None,
        },
        _ => None,
    }
}

/// A line with nothing but its number, or a comment (from `;` to the end of
/// the line): the position of the end of the line.
pub open spec fn spec_comment_empty(s: Seq<u8>, i: int, e: int) -> Option<int> {
    match spec_line_num(s, i, e) {
        None => None,
        Some((_, j)) => if has_tag(s, j, e, text(";"@)) {
            Some(scan_line(s, j, e))
        } else if j == e || (j < s.len() && s[j] == 10) {
            Some(j)
        } else {
            None
        },
    }
}

/// Parses an empty or comment line at `i`, before `e`, up to its end.
pub fn comment_empty_parser(s: &[u8], i: usize, e: usize) -> (res: Option<usize>)
    requires
        i <= e <= s@.len(),
    ensures
        match spec_comment_empty(s@, i as int, e as int) {
            Some(j) => res matches Some(k) && k == j,
            None => res is None,
        },
        res matches Some(j) ==> i < j <= e,
{
    proof {
        reveal_strlit(";");
    }
    match line_num_parser(s, i, e) {
        None => None,
        Some((v, j)) => match tag(s, j, e, ";") {
            Some(_) => {
                Some(skip_line(s, j, e))
            },
            None => {
                if j == e || s[j] == 10 {
                    Some(j)
                } else {
                    None
                }
            },
        },
    }
}


/// The number `k` and ": ".
pub open spec fn line_label(k: nat) -> Seq<char> {
    decimal(k) + seq![':', ' ']
}

/// The characters `t`, the line in progress having number `k`: each newline
/// is followed by the number of the line it opens and ": ".
pub open spec fn numbered_rest(t: Seq<char>, k: nat) -> Seq<char>
    decreases t.len(),
{
    if t.len() == 0 {
        Seq::empty()
    } else if t[0] == '\n' {
        seq!['\n'] + line_label(k + 1) + numbered_rest(t.drop_first(), k + 1)
    } else {
        seq![t[0]] + numbered_rest(t.drop_first(), k)
    }
}

/// The text `t` with its lines numbered from 1: `1: <first line>`, `2: ...`.
pub open spec fn numbered(t: Seq<char>) -> Seq<char> {
    line_label(1) + numbered_rest(t, 1)
}

/// Appends `c` to `out` and its code to `codes`.
fn push_coded(out: &mut Vec<char>, codes: &mut Vec<u8>, c: char)
    requires
        old(codes)@ == crate::parser::common::codes(old(out)@),
    ensures
        final(out)@ == old(out)@.push(c),
        final(codes)@ == crate::parser::common::codes(final(out)@),
{
    out.push(c);
    codes.push(char_code(c));
    proof {
        assert(codes@ =~= crate::parser::common::codes(out@));
    }
}

/// The character of the decimal digit `d`.
fn digit(d: u64) -> (c: char)
    requires
        d < 10,
    ensures
        c == digit_char(d as nat),
{
    if d == 0 {
        '0'
    } else if d == 1 {
        '1'
    } else if d == 2 {
        '2'
    } else if d == 3 {
        '3'
    } else if d == 4 {
        '4'
    } else if d == 5 {
        '5'
    } else if d == 6 {
        '6'
    } else if d == 7 {
        '7'
    } else if d == 8 {
        '8'
    } else {
        '9'
    }
}

/// Appends the decimal form of `n` to `out`, and the codes to `codes`.
fn push_decimal_coded(out: &mut Vec<char>, codes: &mut Vec<u8>, n: u64)
    requires
        old(codes)@ == crate::parser::common::codes(old(out)@),
    ensures
        final(out)@ == old(out)@ + decimal(n as nat),
        final(codes)@ == crate::parser::common::codes(final(out)@),
    decreases n,
{
    let ghost start = out@;
    if n >= 10 {
        push_decimal_coded(out, codes, n / 10);
    }
    push_coded(out, codes, digit(n % 10));
    proof {
        if n >= 10 {
            assert(decimal(n as nat) == decimal((n / 10) as nat).push(digit_char((n % 10) as nat)));
        }
        assert(out@ =~= start + decimal(n as nat));
    }
}

/// Appends the number `k` and ": " to `out`, and the codes to `codes`.
fn push_label(out: &mut Vec<char>, codes: &mut Vec<u8>, k: u64)
    requires
        old(codes)@ == crate::parser::common::codes(old(out)@),
    ensures
        final(out)@ == old(out)@ + line_label(k as nat),
        final(codes)@ == crate::parser::common::codes(final(out)@),
{
    let ghost start = out@;
    push_decimal_coded(out, codes, k);
    push_coded(out, codes, ':');
    push_coded(out, codes, ' ');
    proof {
        assert(out@ =~= start + line_label(k as nat));
    }
}

/// The text `program` with its lines numbered, and the codes of its
/// characters.
pub fn numbered_text(program: &str) -> (res: (Vec<char>, Vec<u8>))
    ensures
        res.0@ == numbered(program@),
        res.1@ == crate::parser::common::codes(res.0@),
{
    let mut out: Vec<char> = Vec::new();
    let mut codes: Vec<u8> = Vec::new();
    proof {
        assert(codes@ =~= crate::parser::common::codes(out@));
    }
    push_label(&mut out, &mut codes, 1);
    let mut k: u64 = 1;
    let ghost t = program@;
    proof {
        assert(t.skip(0) =~= t);
    }
    for c in it: program.chars()
        invariant
            it.seq() == t,
            1 <= k <= it.index() + 1,
            it.index() + 3 <= out@.len(),
            codes@ == crate::parser::common::codes(out@),
            out@ + numbered_rest(t.skip(it.index()), k as nat) == numbered(t),
    {
        let ghost i = it.index();
        proof {
            assert(t.skip(i).drop_first() =~= t.skip(i + 1));
            assert(t.skip(i)[0] == c);
        }
        if c == '\n' {
            let written = out.len();
            assert(k < written);
            push_coded(&mut out, &mut codes, '\n');
            k = k + 1;
            push_label(&mut out, &mut codes, k);
            proof {
                assert(numbered_rest(t.skip(i), (k - 1) as nat) == seq!['\n'] + line_label(k as nat)
                    + numbered_rest(t.skip(i + 1), k as nat));
            }
        } else {
            push_coded(&mut out, &mut codes, c);
        }
    }
    proof {
        assert(t.skip(t.len() as int) =~= Seq::<char>::empty());
    }
    (out, codes)
}


/// The functions of a program from `i` on, as many as there are; after the
/// last, nothing but a gap may be left.
pub open spec fn spec_functions(tx: Seq<char>, s: Seq<u8>, i: int, e: int) -> Parsed<Seq<FunctionSyntax>>
    decreases e - i,
{
    match spec_function(tx, s, i, e) {
        Parsed::Crash => Parsed::Crash,
        Parsed::NoMatch => if spec_gap(s, i, e) == e {
            Parsed::Done(Seq::empty(), e)
        } else {
            Parsed::NoMatch
        },
        Parsed::Done(f, j) => if i < j <= e {
            match spec_functions(tx, s, j, e) {
                Parsed::Done(rest, k) => Parsed::Done(seq![f] + rest, k),
                Parsed::NoMatch => Parsed::NoMatch,
                Parsed::Crash => Parsed::Crash,
            }
        } else {
            Parsed::NoMatch
        },
    }
}

/// The program written in the text `t`: its functions, read from the text
/// with its lines numbered.
pub open spec fn spec_program(t: Seq<char>) -> Parsed<Seq<FunctionSyntax>> {
    let tx = numbered(t);
    spec_functions(tx, crate::parser::common::codes(tx), 0, tx.len() as int)
}

/// The functions `v` are the functions written in `fs`, in order.
pub open spec fn functions_written_as(v: Seq<SwppFunction>, fs: Seq<FunctionSyntax>) -> bool {
    &&& v.len() == fs.len()
    &&& forall|k: int| 0 <= k < v.len() ==> function_written_as(#[trigger] v[k], fs[k])
}

/// `exec` holds the program that `spec` describes.
pub open spec fn program_found(
    spec: Parsed<Seq<FunctionSyntax>>,
    exec: Result<Option<Vec<SwppFunction>>, ParsePanic>,
) -> bool {
    match spec {
        Parsed::Done(fs, _) => exec matches Ok(Some(v)) && functions_written_as(v@, fs),
        Parsed::NoMatch => exec matches Ok(None),
        Parsed::Crash => exec is Err,
    }
}

/// Parses the functions of a program at `i`, before `e`.
fn functions_parser(src: &[char], s: &[u8], i: usize, e: usize) -> (res: Result<
    Option<Vec<SwppFunction>>,
    ParsePanic,
>)
    requires
        source(src, s@),
        i <= e <= s@.len(),
    ensures
        program_found(spec_functions(src@, s@, i as int, e as int), res),
        res matches Ok(Some(v)) ==> forall|k: int| 0 <= k < v@.len() ==> (#[trigger] v@[k]).wf() && blocks_wf(v@[k].spec_blocks()),
{
    let mut v: Vec<SwppFunction> = Vec::new();
    let mut p = i;
    let ghost mut done: Seq<FunctionSyntax> = Seq::empty();
    loop
        invariant
            source(src, s@),
            i <= p <= e <= s@.len(),
            functions_written_as(v@, done),
            forall|k: int| 0 <= k < v@.len() ==> (#[trigger] v@[k]).wf() && blocks_wf(v@[k].spec_blocks()),
            spec_functions(src@, s@, i as int, e as int) == match spec_functions(src@, s@, p as int, e as int) {
                Parsed::Done(rest, k) => Parsed::Done(done + rest, k),
                Parsed::NoMatch => Parsed::NoMatch,
                Parsed::Crash => Parsed::Crash,
            },
        decreases e - p,
    {
        match function_parser(src, s, p, e)? {
            Some((f, j)) => {
                proof {
                    let x = spec_function(src@, s@, p as int, e as int)->Done_0;
                    if let Parsed::Done(rest, k) = spec_functions(src@, s@, j as int, e as int) {
                        assert(done + (seq![x] + rest) =~= done.push(x) + rest);
                    }
                    done = done.push(x);
                }
                let ghost old_v = v@;
                v.push(f);
                proof {
                    assert forall|q: int| 0 <= q < v@.len() implies (#[trigger] v@[q]).wf() && blocks_wf(v@[q].spec_blocks()) by {
                        if q < old_v.len() {
                            assert(v@[q] == old_v[q]);
                        }
                    }
                }
                p = j;
            },
            None => {
                if gap_parser(s, p, e) == e {
                    proof {
                        assert(done + Seq::<FunctionSyntax>::empty() =~= done);
                    }
                    return Ok(Some(v));
                } else {
                    return Ok(None);
                }
            },
        }
    }
}

/// Reads the program written in `program`: its lines are numbered from 1,
/// then read as functions, each `start <name> <nargs>:`, its blocks and
/// `end <name>`, with empty and comment lines (`; ...`) between them.
/// `Ok(None)` when the text is no program, `Err` where reading it panics.
pub fn total_program_parser(program: &str) -> (res: Result<Option<Vec<SwppFunction>>, ParsePanic>)
    ensures
        program_found(spec_program(program@), res),
        res matches Ok(Some(v)) ==> forall|k: int| 0 <= k < v@.len() ==> (#[trigger] v@[k]).wf() && blocks_wf(v@[k].spec_blocks()),
{
    let (chars, codes) = numbered_text(program);
    functions_parser(chars.as_slice(), codes.as_slice(), 0, codes.len())
}

} // verus!
