//! The compiler: folds the flat token sequence into per-instruction groups
//! with a label map (`Ast`), then lowers each group to a typed
//! `Instruction`, interning string literals into the text section and
//! resolving labels and reserved constants to integer addresses.
//!
//! `spec_ast` and `spec_compile` state the two stages exactly; `Ast::new`
//! and `compile` are proved to return their results.

use vstd::prelude::*;

use crate::argument::Argument;
use crate::assembly::Assembly;
use crate::debug_info::DebugInfo;
use crate::errors::CompilationError;
use crate::errors::CompilationErrorKind;
use crate::instruction::Instruction;
use crate::limits::Limits;
use crate::location::Location;
use crate::operation::Operation;
use crate::source_unit::SourceUnit;
use crate::text::str_eq;
use crate::token::ArgumentToken;
use crate::token::Token;
use crate::token::TokenKind;
use vstd::string::StringExecFns;
use vstd::string::StringSliceAdditionalSpecFns;
use vstd::utf8::encode_utf8;

verus! {

/// One operation token with its argument tokens attached as children.
#[derive(Debug, PartialEq)]
pub struct SyntaxToken {
    pub token: Token,
    pub child: Vec<SyntaxToken>,
}

/// The folded program: a label map (name, target instruction index) in
/// definition order, and the per-instruction token groups.
#[derive(Debug, PartialEq)]
pub struct Ast {
    pub labels: Vec<(String, usize)>,
    pub tokens: Vec<SyntaxToken>,
}

/// What stops either compilation stage, with the position it is reported
/// at.
pub enum CompileFault {
    DuplicateLabel { name: Seq<char>, loc: Location },
    StrayArgument { loc: Location },
    InvalidOperation { loc: Location },
    UnknownLabel { name: Seq<char>, loc: Location },
    UnknownConstant { name: Seq<char>, loc: Location },
    TooLarge { size: int, loc: Location },
}

/// Whether a reported error is the one a fault calls for.
pub open spec fn fault_matches(e: CompilationError, f: CompileFault) -> bool {
    match f {
        CompileFault::DuplicateLabel { name, loc } => e.kind
            matches CompilationErrorKind::DuplicateLabel { name: n } && n@ == name && e.location
            == loc,
        CompileFault::StrayArgument { loc } => e.location == loc && e.kind
            == CompilationErrorKind::InvalidArgument,
        CompileFault::InvalidOperation { loc } => e.location == loc && e.kind
            == CompilationErrorKind::InvalidOperation,
        CompileFault::UnknownLabel { name, loc } => e.kind
            matches CompilationErrorKind::UnknownLabel { name: n } && n@ == name && e.location
            == loc,
        CompileFault::UnknownConstant { name, loc } => e.kind
            matches CompilationErrorKind::UnknownConstant { name: n } && n@ == name && e.location
            == loc,
        CompileFault::TooLarge { size, loc } => e.kind
            matches CompilationErrorKind::TooLargeAssembly { size: s } && s == size && e.location
            == loc,
    }
}

/// Whether a (name, value) table holds an entry for `name`.
pub open spec fn label_defined(labels: Seq<(Seq<char>, int)>, name: Seq<char>) -> bool {
    exists|j: int| 0 <= j < labels.len() && labels[j].0 == name
}

/// The target index recorded for a label name (labels are unique).
pub open spec fn label_target(labels: Seq<(Seq<char>, int)>, name: Seq<char>) -> int
    decreases labels.len(),
{
    if labels.len() == 0 {
        0
    } else if labels[0].0 == name {
        labels[0].1
    } else {
        label_target(labels.drop_first(), name)
    }
}

/// The committed instruction groups, with the pending one appended if any.
pub open spec fn flushed(instrs: Seq<(Token, Seq<Token>)>, cur: Option<(Token, Seq<Token>)>)
    -> Seq<(Token, Seq<Token>)> {
    match cur {
        Some(c) => instrs.push(c),
        None => instrs,
    }
}

/// Folding the token stream, from token `i` on: labels record the index of
/// the next committed instruction; arguments attach to the pending
/// operation; comments only flush it.
pub open spec fn spec_build_ast(
    tokens: Seq<Token>,
    i: int,
    labels: Seq<(Seq<char>, int)>,
    instrs: Seq<(Token, Seq<Token>)>,
    cur: Option<(Token, Seq<Token>)>,
) -> Result<(Seq<(Seq<char>, int)>, Seq<(Token, Seq<Token>)>), CompileFault>
    decreases tokens.len() - i,
{
    if i < 0 || i >= tokens.len() {
        Ok((labels, flushed(instrs, cur)))
    } else {
        match tokens[i].kind {
            TokenKind::Comment { .. } => spec_build_ast(
                tokens,
                i + 1,
                labels,
                flushed(instrs, cur),
                None,
            ),
            TokenKind::Label { name } => if label_defined(labels, name@) {
                Err(CompileFault::DuplicateLabel { name: name@, loc: tokens[i].location })
            } else {
                spec_build_ast(
                    tokens,
                    i + 1,
                    labels.push((name@, flushed(instrs, cur).len() as int)),
                    flushed(instrs, cur),
                    None,
                )
            },
            TokenKind::Operation { .. } => spec_build_ast(
                tokens,
                i + 1,
                labels,
                flushed(instrs, cur),
                Some((tokens[i], Seq::empty())),
            ),
            TokenKind::Argument { .. } => match cur {
                Some((t, args)) => spec_build_ast(
                    tokens,
                    i + 1,
                    labels,
                    instrs,
                    Some((t, args.push(tokens[i]))),
                ),
                None => Err(CompileFault::StrayArgument { loc: tokens[i].location }),
            },
        }
    }
}

/// The abstract syntax of a token stream.
pub open spec fn spec_ast(tokens: Seq<Token>) -> Result<
    (Seq<(Seq<char>, int)>, Seq<(Token, Seq<Token>)>),
    CompileFault,
> {
    spec_build_ast(tokens, 0, Seq::empty(), Seq::empty(), None)
}

pub open spec fn abs_labels(ls: Seq<(String, usize)>) -> Seq<(Seq<char>, int)> {
    ls.map_values(|p: (String, usize)| (p.0@, p.1 as int))
}

/// The model of one syntax token: its operation token and its argument
/// tokens.
pub open spec fn abs_syn1(s: SyntaxToken) -> (Token, Seq<Token>) {
    (s.token, s.child@.map_values(|c: SyntaxToken| c.token))
}

pub open spec fn abs_syntax(ss: Seq<SyntaxToken>) -> Seq<(Token, Seq<Token>)> {
    ss.map_values(|s: SyntaxToken| abs_syn1(s))
}

pub open spec fn abs_cur(cur: Option<SyntaxToken>) -> Option<(Token, Seq<Token>)> {
    match cur {
        Some(c) => Some(abs_syn1(c)),
        None => None,
    }
}

proof fn lemma_abs_syntax_push(ss: Seq<SyntaxToken>, s: SyntaxToken)
    ensures
        abs_syntax(ss.push(s)) =~= abs_syntax(ss).push(abs_syn1(s)),
{
}

proof fn lemma_abs_labels_push(ls: Seq<(String, usize)>, l: (String, usize))
    ensures
        abs_labels(ls.push(l)) =~= abs_labels(ls).push((l.0@, l.1 as int)),
{
}

/// A syntax token group as `Ast::new` builds it: an operation token whose
/// children are argument tokens without further children.
pub open spec fn syntax_shaped(s: SyntaxToken) -> bool {
    &&& s.token.kind matches TokenKind::Operation { .. }
    &&& forall|k: int|
        0 <= k < s.child@.len() ==> ((#[trigger] s.child@[k].token.kind)
            matches TokenKind::Argument { .. } && s.child@[k].child@.len() == 0)
}

fn find_label(labels: &Vec<(String, usize)>, name: &str) -> (r: Option<usize>)
    ensures
        match r {
            Some(v) => label_defined(abs_labels(labels@), name@) && v as int == label_target(
                abs_labels(labels@),
                name@,
            ),
            None => !label_defined(abs_labels(labels@), name@),
        },
{
    let n = labels.len();
    let mut j: usize = 0;
    proof {
        assert(abs_labels(labels@).skip(0) =~= abs_labels(labels@));
    }
    while j < n
        invariant
            j <= n == labels@.len(),
            forall|k: int| 0 <= k < j ==> (#[trigger] abs_labels(labels@)[k]).0 != name@,
            label_target(abs_labels(labels@), name@) == label_target(
                abs_labels(labels@).skip(j as int),
                name@,
            ),
        decreases n - j,
    {
        proof {
            assert(abs_labels(labels@).skip(j as int)[0] == abs_labels(labels@)[j as int]);
            assert(abs_labels(labels@).skip(j as int).drop_first() =~= abs_labels(labels@).skip(
                j as int + 1,
            ));
        }
        if str_eq(labels[j].0.as_str(), name) {
            return Some(labels[j].1);
        }
        j += 1;
    }
    proof {
        if label_defined(abs_labels(labels@), name@) {
            let w = choose|w: int|
                0 <= w < abs_labels(labels@).len() && abs_labels(labels@)[w].0 == name@;
            assert((abs_labels(labels@)[w]).0 == name@);
            assert(false);
        }
    }
    None
}

impl Ast {
    /// Folds a token stream into instruction groups and the label map.
    pub fn new(tokens: &[Token]) -> (r: Result<Ast, CompilationError>)
        ensures
            match r {
                Ok(ast) => {
                    &&& spec_ast(tokens@) == Ok::<_, CompileFault>(
                        (abs_labels(ast.labels@), abs_syntax(ast.tokens@)),
                    )
                    &&& forall|j: int|
                        0 <= j < ast.tokens@.len() ==> syntax_shaped(#[trigger] ast.tokens@[j])
                },
                Err(e) => spec_ast(tokens@) matches Err(f) && fault_matches(e, f),
            },
    {
        let n = tokens.len();
        let mut labels: Vec<(String, usize)> = Vec::new();
        let mut done: Vec<SyntaxToken> = Vec::new();
        let mut cur: Option<SyntaxToken> = None;
        let mut i: usize = 0;
        proof {
            assert(abs_labels(labels@) =~= Seq::<(Seq<char>, int)>::empty());
            assert(abs_syntax(done@) =~= Seq::<(Token, Seq<Token>)>::empty());
        }
        while i < n
            invariant
                i <= n == tokens@.len(),
                spec_ast(tokens@) == spec_build_ast(
                    tokens@,
                    i as int,
                    abs_labels(labels@),
                    abs_syntax(done@),
                    abs_cur(cur),
                ),
                forall|j: int| 0 <= j < done@.len() ==> syntax_shaped(#[trigger] done@[j]),
                match cur {
                    Some(c) => syntax_shaped(c),
                    None => true,
                },
            decreases n - i,
        {
            let ghost i0 = i as int;
            let ghost labels0 = abs_labels(labels@);
            let ghost done0 = abs_syntax(done@);
            let ghost cur0 = abs_cur(cur);
            let tk = &tokens[i];
            match &tk.kind {
                TokenKind::Comment { .. } => {
                    let prev = cur;
                    cur = None;
                    if let Some(c) = prev {
                        let ghost ds = done@;
                        let ghost ce = abs_syn1(c);
                        done.push(c);
                        proof {
                            lemma_abs_syntax_push(ds, done@[done@.len() - 1]);
                            assert(abs_syntax(done@) =~= flushed(done0, cur0));
                        }
                    }
                    proof {
                        assert(spec_build_ast(tokens@, i0, labels0, done0, cur0)
                            == spec_build_ast(
                            tokens@,
                            i0 + 1,
                            abs_labels(labels@),
                            abs_syntax(done@),
                            abs_cur(cur),
                        ));
                    }
                },
                TokenKind::Label { name } => {
                    let prev = cur;
                    cur = None;
                    if let Some(c) = prev {
                        let ghost ds = done@;
                        done.push(c);
                        proof {
                            lemma_abs_syntax_push(ds, done@[done@.len() - 1]);
                            assert(abs_syntax(done@) =~= flushed(done0, cur0));
                        }
                    }
                    match find_label(&labels, name.as_str()) {
                        Some(_) => {
                            let mut m = "Duplicate label: ".to_owned();
                            m.append(name.as_str());
                            return Err(
                                CompilationError::new(
                                    m,
                                    tk.location,
                                    CompilationErrorKind::DuplicateLabel { name: name.clone() },
                                ),
                            );
                        },
                        None => {
                            let target = done.len();
                            let ghost ls = labels@;
                            labels.push((name.clone(), target));
                            proof {
                                lemma_abs_labels_push(ls, labels@[labels@.len() - 1]);
                                assert(abs_labels(labels@) =~= labels0.push(
                                    (name@, flushed(done0, cur0).len() as int),
                                ));
                                assert(spec_build_ast(tokens@, i0, labels0, done0, cur0)
                                    == spec_build_ast(
                                    tokens@,
                                    i0 + 1,
                                    abs_labels(labels@),
                                    abs_syntax(done@),
                                    abs_cur(cur),
                                ));
                            }
                        },
                    }
                },
                TokenKind::Operation { .. } => {
                    let prev = cur;
                    cur = None;
                    if let Some(c) = prev {
                        let ghost ds = done@;
                        done.push(c);
                        proof {
                            lemma_abs_syntax_push(ds, done@[done@.len() - 1]);
                            assert(abs_syntax(done@) =~= flushed(done0, cur0));
                        }
                    }
                    let newtok = SyntaxToken { token: tk.duplicate(), child: Vec::new() };
                    proof {
                        assert(newtok.child@.map_values(|x: SyntaxToken| x.token)
                            =~= Seq::<Token>::empty());
                    }
                    cur = Some(newtok);
                    proof {
                        assert(abs_cur(cur) == Some((tokens@[i0], Seq::<Token>::empty())));
                        assert(spec_build_ast(tokens@, i0, labels0, done0, cur0)
                            == spec_build_ast(
                            tokens@,
                            i0 + 1,
                            abs_labels(labels@),
                            abs_syntax(done@),
                            abs_cur(cur),
                        ));
                    }
                },
                TokenKind::Argument { .. } => {
                    let prev = cur;
                    cur = None;
                    match prev {
                        Some(mut c) => {
                            let ghost cargs = c.child@.map_values(|x: SyntaxToken| x.token);
                            c.child.push(
                                SyntaxToken { token: tk.duplicate(), child: Vec::new() },
                            );
                            proof {
                                assert(c.child@.map_values(|x: SyntaxToken| x.token)
                                    =~= cargs.push(tokens@[i0]));
                            }
                            cur = Some(c);
                            proof {
                                assert(spec_build_ast(tokens@, i0, labels0, done0, cur0)
                                    == spec_build_ast(
                                    tokens@,
                                    i0 + 1,
                                    abs_labels(labels@),
                                    abs_syntax(done@),
                                    abs_cur(cur),
                                ));
                            }
                        },
                        None => {
                            return Err(
                                CompilationError::new(
                                    "Expected an operation but got an argument".to_owned(),
                                    tk.location,
                                    CompilationErrorKind::InvalidArgument,
                                ),
                            );
                        },
                    }
                },
            }
            i += 1;
        }
        let ghost done_final = abs_syntax(done@);
        let ghost cur_final = abs_cur(cur);
        if let Some(c) = cur {
            let ghost ds = done@;
            done.push(c);
            proof {
                lemma_abs_syntax_push(ds, done@[done@.len() - 1]);
                assert(abs_syntax(done@) =~= flushed(done_final, cur_final));
            }
        }
        Ok(Ast { labels, tokens: done })
    }
}


/// The code section's size: the instruction count rounded up to a multiple
/// of four.
pub open spec fn spec_align4(n: int) -> int {
    if n % 4 == 0 {
        n
    } else {
        n + (4 - n % 4)
    }
}

/// Lowering one argument token: registers, pins and numbers pass through;
/// strings intern into the text section; labels and constants resolve to
/// integers.
pub open spec fn spec_lower_arg(
    arg: ArgumentToken,
    oploc: Location,
    labels: Seq<(Seq<char>, int)>,
    css: int,
    ram_length: int,
    text: Seq<u8>,
    interns: Seq<(Seq<char>, int)>,
) -> Result<(Argument, Seq<u8>, Seq<(Seq<char>, int)>), CompileFault> {
    match arg {
        ArgumentToken::Register { register } => Ok((Argument::Register { register }, text, interns)),
        ArgumentToken::Pin { id } => Ok((Argument::Pin { id }, text, interns)),
        ArgumentToken::Int { value } => Ok((Argument::Int { value }, text, interns)),
        ArgumentToken::Float { bits } => Ok((Argument::Float { bits }, text, interns)),
        ArgumentToken::String { value } => match table_value_opt(interns, value@) {
            Some(a) => Ok((Argument::Int { value: a as i32 }, text, interns)),
            None => {
                let position = css + text.len();
                if position >= 0x7fffffff {
                    Err(CompileFault::TooLarge { size: (position as usize) as int, loc: oploc })
                } else {
                    Ok(
                        (
                            Argument::Int { value: position as i32 },
                            text + encode_utf8(value@) + seq![0u8],
                            interns.push((value@, position)),
                        ),
                    )
                }
            },
        },
        ArgumentToken::Label { name } => if label_defined(labels, name@) {
            Ok((Argument::Int { value: label_target(labels, name@) as i32 }, text, interns))
        } else {
            Err(CompileFault::UnknownLabel { name: name@, loc: oploc })
        },
        ArgumentToken::Constant { name } => if name@ == "data"@ {
            Ok((Argument::Int { value: css as i32 }, text, interns))
        } else if name@ == "ram_end"@ {
            Ok((Argument::Int { value: ram_length as i32 }, text, interns))
        } else {
            Err(CompileFault::UnknownConstant { name: name@, loc: oploc })
        },
    }
}

pub open spec fn table_value_opt(entries: Seq<(Seq<char>, int)>, name: Seq<char>) -> Option<int> {
    if label_defined(entries, name) {
        Some(label_target(entries, name))
    } else {
        None
    }
}

/// Lowering an instruction's argument tokens in order, threading the text
/// section and the intern table.
pub open spec fn spec_lower_args(
    args: Seq<Token>,
    k: int,
    oploc: Location,
    labels: Seq<(Seq<char>, int)>,
    css: int,
    ram_length: int,
    text: Seq<u8>,
    interns: Seq<(Seq<char>, int)>,
    acc: Seq<Argument>,
) -> Result<(Seq<Argument>, Seq<u8>, Seq<(Seq<char>, int)>), CompileFault>
    decreases args.len() - k,
{
    if k < 0 || k >= args.len() {
        Ok((acc, text, interns))
    } else {
        match args[k].kind {
            TokenKind::Argument { argument } => match spec_lower_arg(
                argument,
                oploc,
                labels,
                css,
                ram_length,
                text,
                interns,
            ) {
                Ok((a, t2, i2)) => spec_lower_args(
                    args,
                    k + 1,
                    oploc,
                    labels,
                    css,
                    ram_length,
                    t2,
                    i2,
                    acc.push(a),
                ),
                Err(f) => Err(f),
            },
            _ => Err(CompileFault::StrayArgument { loc: args[k].location }),
        }
    }
}

/// Lowering the instruction groups in order. After each appended
/// instruction, the program must still fit the RAM together with the text
/// section.
pub open spec fn spec_compile_instrs(
    instrs: Seq<(Token, Seq<Token>)>,
    i: int,
    labels: Seq<(Seq<char>, int)>,
    css: int,
    ram_length: int,
    text: Seq<u8>,
    interns: Seq<(Seq<char>, int)>,
    out: Seq<(Operation, Seq<Argument>)>,
    locs: Seq<Location>,
) -> Result<(Seq<(Operation, Seq<Argument>)>, Seq<u8>, Seq<Location>), CompileFault>
    decreases instrs.len() - i,
{
    if i < 0 || i >= instrs.len() {
        Ok((out, text, locs))
    } else {
        let (tok, args) = instrs[i];
        match tok.kind {
            TokenKind::Operation { operation } => match Operation::spec_of_name(operation@) {
                None => Err(CompileFault::InvalidOperation { loc: tok.location }),
                Some(op) => match spec_lower_args(
                    args,
                    0,
                    tok.location,
                    labels,
                    css,
                    ram_length,
                    text,
                    interns,
                    Seq::empty(),
                ) {
                    Err(f) => Err(f),
                    Ok((aa, t2, i2)) => if out.len() + 1 + t2.len() >= ram_length {
                        Err(
                            CompileFault::TooLarge {
                                size: out.len() + 1 as int,
                                loc: Location { line: 1, column: 1, offset: 0 },
                            },
                        )
                    } else {
                        spec_compile_instrs(
                            instrs,
                            i + 1,
                            labels,
                            css,
                            ram_length,
                            t2,
                            i2,
                            out.push((op, aa)),
                            locs.push(tok.location),
                        )
                    },
                },
            },
            _ => Err(CompileFault::InvalidOperation { loc: tok.location }),
        }
    }
}

/// The whole compilation of a token stream under the given limits: the
/// lowered instructions, the code section size, the text section, and the
/// per-instruction source positions.
pub open spec fn spec_compile(tokens: Seq<Token>, limits: Limits) -> Result<
    (Seq<(Operation, Seq<Argument>)>, int, Seq<u8>, Seq<Location>),
    CompileFault,
> {
    match spec_ast(tokens) {
        Err(f) => Err(f),
        Ok((labels, instrs)) => if instrs.len() > usize::MAX - 3 {
            Err(
                CompileFault::TooLarge {
                    size: instrs.len() as int,
                    loc: Location { line: 1, column: 1, offset: 0 },
                },
            )
        } else {
            let css = spec_align4(instrs.len() as int);
            match spec_compile_instrs(
                instrs,
                0,
                labels,
                css,
                limits.ram_length as int,
                Seq::empty(),
                Seq::empty(),
                Seq::empty(),
                Seq::empty(),
            ) {
                Ok((out, text, locs)) => Ok((out, css, text, locs)),
                Err(f) => Err(f),
            }
        },
    }
}

/// The model of compiled instructions: opcode and argument list.
pub open spec fn abs_instrs(s: Seq<Instruction>) -> Seq<(Operation, Seq<Argument>)> {
    s.map_values(|i: Instruction| (i.operation, i.arguments@))
}

proof fn lemma_abs_instrs_push(s: Seq<Instruction>, i: Instruction)
    ensures
        abs_instrs(s.push(i)) =~= abs_instrs(s).push((i.operation, i.arguments@)),
{
}

/// Lowers one instruction's argument tokens, interning strings into the
/// text section. On success the text section and intern table advance
/// exactly as `spec_lower_args` says.
fn lower_args(
    child: &Vec<SyntaxToken>,
    oploc: Location,
    labels: &Vec<(String, usize)>,
    css: usize,
    limits: &Limits,
    text_section: &mut Vec<u8>,
    interns: &mut Vec<(String, usize)>,
) -> (r: Result<Vec<Argument>, CompilationError>)
    requires
        forall|k: int|
            0 <= k < child@.len() ==> (#[trigger] child@[k].token.kind)
                matches TokenKind::Argument { .. },
    ensures
        match r {
            Ok(args) => spec_lower_args(
                child@.map_values(|c: SyntaxToken| c.token),
                0,
                oploc,
                abs_labels(labels@),
                css as int,
                limits.ram_length as int,
                old(text_section)@,
                abs_labels(old(interns)@),
                Seq::empty(),
            ) == Ok::<_, CompileFault>(
                (args@, final(text_section)@, abs_labels(final(interns)@)),
            ),
            Err(e) => spec_lower_args(
                child@.map_values(|c: SyntaxToken| c.token),
                0,
                oploc,
                abs_labels(labels@),
                css as int,
                limits.ram_length as int,
                old(text_section)@,
                abs_labels(old(interns)@),
                Seq::empty(),
            ) matches Err(f) && fault_matches(e, f),
        },
{
    let ghost args_m = child@.map_values(|c: SyntaxToken| c.token);
    let ghost labels_m = abs_labels(labels@);
    let ghost rl = limits.ram_length as int;
    let ghost text0 = text_section@;
    let ghost interns0 = abs_labels(interns@);
    let nargs = child.len();
    let mut arguments: Vec<Argument> = Vec::new();
    let mut k: usize = 0;
    proof {
        assert(arguments@ =~= Seq::<Argument>::empty());
    }
    while k < nargs
        invariant
            k <= nargs == child@.len(),
            args_m == child@.map_values(|c: SyntaxToken| c.token),
            labels_m == abs_labels(labels@),
            rl == limits.ram_length as int,
            text0 == old(text_section)@,
            interns0 == abs_labels(old(interns)@),
            forall|w: int|
                0 <= w < child@.len() ==> (#[trigger] child@[w].token.kind)
                    matches TokenKind::Argument { .. },
            spec_lower_args(args_m, 0, oploc, labels_m, css as int, rl, text0, interns0, Seq::empty())
                == spec_lower_args(
                args_m,
                k as int,
                oploc,
                labels_m,
                css as int,
                rl,
                text_section@,
                abs_labels(interns@),
                arguments@,
            ),
        decreases nargs - k,
    {
        let ghost textk = text_section@;
        let ghost internsk = abs_labels(interns@);
        let ghost argsk = arguments@;
        proof {
            assert(args_m[k as int] == child@[k as int].token);
        }
        let argtok = match &child[k].token.kind {
            TokenKind::Argument { argument } => argument,
            _ => vstd::pervasive::unreached(),
        };
        match argtok {
            ArgumentToken::Register { register } => {
                arguments.push(Argument::Register { register: *register });
            },
            ArgumentToken::Pin { id } => {
                arguments.push(Argument::Pin { id: *id });
            },
            ArgumentToken::Int { value } => {
                arguments.push(Argument::Int { value: *value });
            },
            ArgumentToken::Float { bits } => {
                arguments.push(Argument::Float { bits: *bits });
            },
            ArgumentToken::String { value } => {
                match find_label(interns, value.as_str()) {
                    Some(a) => {
                        arguments.push(Argument::Int { value: #[verifier::truncate] (a as i32) });
                    },
                    None => {
                        let position_wide: u128 = css as u128 + text_section.len() as u128;
                        if position_wide >= 0x7fffffff {
                            proof {
                                assert(spec_lower_args(
                                    args_m,
                                    k as int,
                                    oploc,
                                    labels_m,
                                    css as int,
                                    rl,
                                    text_section@,
                                    abs_labels(interns@),
                                    arguments@,
                                ) matches Err(_));
                            }
                            return Err(
                                CompilationError::new(
                                    "Assembly' text section is too large".to_owned(),
                                    oploc,
                                    CompilationErrorKind::TooLargeAssembly {
                                        size: #[verifier::truncate] (position_wide as usize),
                                    },
                                ),
                            );
                        }
                        let position: usize = css + text_section.len();
                        let ghost is0 = interns@;
                        interns.push((value.clone(), position));
                        proof {
                            lemma_abs_labels_push(is0, interns@[interns@.len() - 1]);
                        }
                        let bytes = value.as_str().as_bytes_vec();
                        let nb = bytes.len();
                        let mut w: usize = 0;
                        while w < nb
                            invariant
                                w <= nb == bytes@.len(),
                                text_section@ =~= textk + bytes@.subrange(0, w as int),
                            decreases nb - w,
                        {
                            let bb = bytes[w];
                            text_section.push(bb);
                            proof {
                                assert(text_section@ =~= textk + bytes@.subrange(0, w as int + 1));
                            }
                            w += 1;
                        }
                        text_section.push(0);
                        proof {
                            assert(bytes@.subrange(0, nb as int) =~= bytes@);
                            assert(text_section@ =~= textk + encode_utf8(value@) + seq![0u8]);
                        }
                        arguments.push(
                            Argument::Int { value: #[verifier::truncate] (position as i32) },
                        );
                    },
                }
            },
            ArgumentToken::Label { name } => {
                match find_label(labels, name.as_str()) {
                    Some(target) => {
                        arguments.push(
                            Argument::Int { value: #[verifier::truncate] (target as i32) },
                        );
                    },
                    None => {
                        proof {
                            assert(spec_lower_args(
                                args_m,
                                k as int,
                                oploc,
                                labels_m,
                                css as int,
                                rl,
                                text_section@,
                                abs_labels(interns@),
                                arguments@,
                            ) matches Err(_));
                        }
                        let mut m = "Unknown label: ".to_owned();
                        m.append(name.as_str());
                        return Err(
                            CompilationError::new(
                                m,
                                oploc,
                                CompilationErrorKind::UnknownLabel { name: name.clone() },
                            ),
                        );
                    },
                }
            },
            ArgumentToken::Constant { name } => {
                if str_eq(name.as_str(), "data") {
                    arguments.push(Argument::Int { value: #[verifier::truncate] (css as i32) });
                } else if str_eq(name.as_str(), "ram_end") {
                    arguments.push(
                        Argument::Int { value: #[verifier::truncate] (limits.ram_length as i32) },
                    );
                } else {
                    proof {
                        assert(spec_lower_args(
                            args_m,
                            k as int,
                            oploc,
                            labels_m,
                            css as int,
                            rl,
                            text_section@,
                            abs_labels(interns@),
                            arguments@,
                        ) matches Err(_));
                    }
                    let mut m = "Unknown constant: ".to_owned();
                    m.append(name.as_str());
                    return Err(
                        CompilationError::new(
                            m,
                            oploc,
                            CompilationErrorKind::UnknownConstant { name: name.clone() },
                        ),
                    );
                }
            },
        }
        k += 1;
    }
    Ok(arguments)
}

/// Compiles a token stream into an assembly: resolves opcodes, lowers
/// arguments, interns strings, and records debug locations.
pub fn compile(unit: SourceUnit, tokens: Vec<Token>, limits: &Limits) -> (r: Result<
    Assembly,
    CompilationError,
>)
    ensures
        match r {
            Ok(assembled) => spec_compile(tokens@, *limits) matches Ok((instrs, css, text, locs)) && {
                &&& abs_instrs(assembled.instructions@) == instrs
                &&& assembled.code_section_size as int == css
                &&& assembled.text_section@ == text
                &&& assembled.debug_info matches Some(di) && di.source_loc@ == locs && di.unit == unit
            },
            Err(e) => spec_compile(tokens@, *limits) matches Err(f) && fault_matches(e, f),
        },
{
    let ast = match Ast::new(tokens.as_slice()) {
        Ok(a) => a,
        Err(e) => {
            return Err(e);
        },
    };
    let count = ast.tokens.len();
    if count > usize::MAX - 3 {
        return Err(
            CompilationError::new(
                "Assembly is too large to be fitted into RAM".to_owned(),
                Location::new(1, 1, 0),
                CompilationErrorKind::TooLargeAssembly { size: count },
            ),
        );
    }
    let css: usize = if count % 4 == 0 {
        count
    } else {
        count - count % 4 + 4
    };
    let mut instructions: Vec<Instruction> = Vec::new();
    let mut text_section: Vec<u8> = Vec::new();
    let mut interns: Vec<(String, usize)> = Vec::new();
    let mut source_loc: Vec<Location> = Vec::new();
    let ghost labels_m = abs_labels(ast.labels@);
    let ghost instrs_m = abs_syntax(ast.tokens@);
    let ghost rl = limits.ram_length as int;
    let mut j: usize = 0;
    proof {
        assert(abs_instrs(instructions@) =~= Seq::<(Operation, Seq<Argument>)>::empty());
        assert(abs_labels(interns@) =~= Seq::<(Seq<char>, int)>::empty());
    }
    while j < count
        invariant
            j <= count == ast.tokens@.len(),
            labels_m == abs_labels(ast.labels@),
            instrs_m == abs_syntax(ast.tokens@),
            rl == limits.ram_length as int,
            css as int == spec_align4(count as int),
            forall|w: int| 0 <= w < ast.tokens@.len() ==> syntax_shaped(#[trigger] ast.tokens@[w]),
            spec_compile(tokens@, *limits) == (match spec_compile_instrs(
                instrs_m,
                j as int,
                labels_m,
                css as int,
                rl,
                text_section@,
                abs_labels(interns@),
                abs_instrs(instructions@),
                source_loc@,
            ) {
                Ok((out, text, locs)) => Ok::<_, CompileFault>((out, css as int, text, locs)),
                Err(f) => Err(f),
            }),
        decreases count - j,
    {
        let ghost j0 = j as int;
        let ghost text0 = text_section@;
        let ghost interns0 = abs_labels(interns@);
        let ghost out0 = abs_instrs(instructions@);
        let ghost locs0 = source_loc@;
        proof {
            assert(syntax_shaped(ast.tokens@[j0]));
            assert(instrs_m[j0] == abs_syn1(ast.tokens@[j0]));
        }
        let syn = &ast.tokens[j];
        let oploc = syn.token.location;
        let opname = match &syn.token.kind {
            TokenKind::Operation { operation } => operation,
            _ => vstd::pervasive::unreached(),
        };
        let op = match Operation::from_str(opname.as_str()) {
            Ok(op) => op,
            Err(_) => {
                let mut m = "Invalid operation: ".to_owned();
                m.append(opname.as_str());
                return Err(
                    CompilationError::new(m, oploc, CompilationErrorKind::InvalidOperation),
                );
            },
        };
        let arguments = match lower_args(
            &syn.child,
            oploc,
            &ast.labels,
            css,
            limits,
            &mut text_section,
            &mut interns,
        ) {
            Ok(a) => a,
            Err(e) => {
                return Err(e);
            },
        };
        let instr = Instruction { operation: op, arguments };
        let ghost ipre = instructions@;
        let ghost iv = (instr.operation, instr.arguments@);
        instructions.push(instr);
        source_loc.push(oploc);
        proof {
            lemma_abs_instrs_push(ipre, instructions@[instructions@.len() - 1]);
            assert(abs_instrs(instructions@) =~= out0.push(iv));
        }
        let wide_count: u128 = instructions.len() as u128 + text_section.len() as u128;
        if wide_count >= limits.ram_length as u128 {
            return Err(
                CompilationError::new(
                    "Assembly is too large to be fitted into RAM".to_owned(),
                    Location::new(1, 1, 0),
                    CompilationErrorKind::TooLargeAssembly { size: instructions.len() },
                ),
            );
        }
        j += 1;
    }
    Ok(
        Assembly {
            debug_info: Some(DebugInfo { source_loc, unit }),
            instructions,
            code_section_size: css,
            text_section,
        },
    )
}

} // verus!
