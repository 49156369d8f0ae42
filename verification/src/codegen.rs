//! The code generator: memory-layout initialization, per-instruction
//! translation, and indentation-aware line emission.
//!
//! The generator appends assembly lines to an owned buffer. Its whole
//! behaviour is pinned by the spec functions below, which give the exact
//! character sequence of every emitted line.

use vstd::prelude::*;
use vstd::string::StringExecFns;

use crate::ast::Segment;
use crate::ast::Stmt;
use crate::ast::is_supported;
use crate::ast::render;
use crate::ast::segment_supported;
use crate::ast::spec_render;
use crate::ast::stmt_supported;
use crate::text::leading_spaces;
use crate::text::lemma_leading_spaces_prefix;
use crate::text::space_string;
use crate::text::spec_dec;
use crate::text::spec_spaces;
use crate::text::u64_dec;

verus! {

/// Width of one word, in bytes, for every region and every offset.
pub const WORD_SIZE: u64 = 4;

/// Word capacity of the pre-initialized constant region.
pub const CONSTANT_SEGMENT_SIZE: u64 = 10;

/// Word capacity of the zero-initialized local region.
pub const LOCAL_SEGMENT_SIZE: u64 = 100;

/// Word capacity of the zero-initialized static region.
pub const STATIC_SEGMENT_SIZE: u64 = 100;

/// The one failure class of translation: an instruction names a segment
/// that no declared region backs.
#[derive(Clone, Copy, Debug, PartialEq, Eq)]
pub enum CodegenError {
    UnsupportedSegment,
}

/// The code generator: reads an instruction list and accumulates assembly
/// lines, indentation baked into each line at emission time.
pub struct Codegen<'a> {
    /// The emitted lines, in emission order.
    pub asm_list: Vec<String>,
    /// The instruction list to translate; read-only input.
    pub stmt_list: &'a Vec<Stmt>,
    /// The current indentation, counted in spaces.
    pub indent: usize,
}

/// The byte offset of `segment[index]`: `index * WORD_SIZE`.
pub open spec fn spec_offset(index: u32) -> nat {
    (index as nat) * (WORD_SIZE as nat)
}

/// Each line of `ls` with `n` spaces of indentation prepended.
pub open spec fn with_indent(n: nat, ls: Seq<Seq<char>>) -> Seq<Seq<char>> {
    Seq::new(ls.len(), |i: int| spec_spaces(n) + ls[i])
}

/// The un-indented translation lines for one instruction. An unsupported
/// segment contributes no lines: translation refuses it instead.
pub open spec fn spec_gen_lines(s: Stmt) -> Seq<Seq<char>> {
    match s {
        Stmt::Push { segment: Segment::Local, index } => seq![
            "push _local+"@ + spec_dec(spec_offset(index)) + "(%rip)"@,
        ],
        Stmt::Push { segment: Segment::Constant, index } => seq![
            "push _constant+"@ + spec_dec(spec_offset(index)) + "(%rip)"@,
        ],
        Stmt::Push { .. } => Seq::empty(),
        Stmt::Pop { segment: Segment::Local, index } => seq![
            "pop _local+"@ + spec_dec(spec_offset(index)) + "(%rip)"@,
        ],
        Stmt::Pop { segment: Segment::Constant, index } => seq![
            "pop _constant+"@ + spec_dec(spec_offset(index)) + "(%rip)"@,
        ],
        Stmt::Pop { .. } => Seq::empty(),
        Stmt::Add => seq![
            "pop %rbx"@,
            "pop %rax"@,
            "add %rbx, %rax"@,
            "push %rax"@,
        ],
        Stmt::Sub => seq![
            "pop %rbx"@,
            "pop %rax"@,
            "sub %rbx, %rax"@,
            "push %rax"@,
        ],
    }
}

/// The comment line echoing an instruction's textual form.
pub open spec fn spec_comment(s: Stmt) -> Seq<char> {
    "# "@ + spec_render(s)
}

/// All lines one translated instruction contributes inside the entry body:
/// its comment and its translation, each one indentation step deep.
pub open spec fn spec_stmt_block(s: Stmt) -> Seq<Seq<char>> {
    with_indent(2, seq![spec_comment(s)] + spec_gen_lines(s))
}

/// The lines contributed by a sequence of instructions, in input order.
pub open spec fn spec_stmts_lines(stmts: Seq<Stmt>) -> Seq<Seq<char>>
    decreases stmts.len(),
{
    if stmts.len() == 0 {
        Seq::empty()
    } else {
        spec_stmt_block(stmts[0]) + spec_stmts_lines(stmts.drop_first())
    }
}

/// How many instructions from the front of `stmts` are supported before the
/// first unsupported one.
pub open spec fn spec_supported_prefix(stmts: Seq<Stmt>) -> nat
    decreases stmts.len(),
{
    if stmts.len() == 0 {
        0
    } else if !stmt_supported(stmts[0]) {
        0
    } else {
        spec_supported_prefix(stmts.drop_first()) + 1
    }
}

/// Whether every instruction of `stmts` is supported.
pub open spec fn spec_all_supported(stmts: Seq<Stmt>) -> bool {
    forall|i: int| 0 <= i < stmts.len() ==> stmt_supported(stmts[i])
}

/// The lines of the data-section declarations and the entry prologue, in
/// emission order: the constant table, the two zero-filled regions, and the
/// entry label with its frame setup one indentation step deep.
pub open spec fn spec_init_lines() -> Seq<Seq<char>> {
    seq![".section __DATA,__data"@, "_constant:"@]
        + Seq::new(CONSTANT_SEGMENT_SIZE as nat, |i: int| ".long "@ + spec_dec(i as nat)) + seq![
        ""@,
        ".zerofill __DATA,__bss,_local,"@ + spec_dec(
            (LOCAL_SEGMENT_SIZE as nat) * (WORD_SIZE as nat),
        ) + ",4"@,
        ".zerofill __DATA,__bss,_static,"@ + spec_dec(
            (STATIC_SEGMENT_SIZE as nat) * (WORD_SIZE as nat),
        ) + ",4"@,
        ""@,
        ".section __TEXT,__text"@,
        ".globl _main"@,
        ""@,
        "_main:"@,
    ] + seq![spec_spaces(2) + "push %rbp"@, spec_spaces(2) + "mov %rsp, %rbp"@]
}

/// The un-indented epilogue lines: zero return value, frame restore, return.
pub open spec fn spec_end_lines() -> Seq<Seq<char>> {
    seq!["mov $0, %rax"@, "pop %rbp"@, "ret"@]
}

/// Everything one `run` appends: the layout, the blocks of the supported
/// prefix of the instruction list, and — when every instruction is
/// supported — the epilogue. On the first unsupported instruction the run
/// halts, contributing no line for it.
pub open spec fn spec_run_lines(stmts: Seq<Stmt>) -> Seq<Seq<char>> {
    spec_init_lines() + spec_stmts_lines(
        stmts.take(spec_supported_prefix(stmts) as int),
    ) + if spec_all_supported(stmts) {
        with_indent(2, spec_end_lines())
    } else {
        Seq::<Seq<char>>::empty()
    }
}

/// Appending one statement extends the contributed lines by its block.
proof fn lemma_stmts_lines_snoc(stmts: Seq<Stmt>, s: Stmt)
    ensures
        spec_stmts_lines(stmts.push(s)) == spec_stmts_lines(stmts) + spec_stmt_block(s),
    decreases stmts.len(),
{
    if stmts.len() == 0 {
        assert(stmts.push(s)[0] == s);
        assert(stmts.push(s).drop_first() =~= Seq::<Stmt>::empty());
        assert(stmts =~= Seq::<Stmt>::empty());
        assert(spec_stmts_lines(Seq::<Stmt>::empty()) == Seq::<Seq<char>>::empty());
        assert(spec_stmts_lines(stmts.push(s)) =~~= spec_stmts_lines(stmts) + spec_stmt_block(s));
    } else {
        assert(stmts.push(s)[0] == stmts[0]);
        assert(stmts.push(s).drop_first() =~= stmts.drop_first().push(s));
        lemma_stmts_lines_snoc(stmts.drop_first(), s);
        assert(spec_stmts_lines(stmts.push(s)) =~~= spec_stmts_lines(stmts) + spec_stmt_block(s));
    }
}

/// The supported prefix ends exactly at the first unsupported statement,
/// or at the end of the list when there is none.
proof fn lemma_supported_prefix_at(stmts: Seq<Stmt>, k: int)
    requires
        0 <= k <= stmts.len(),
        forall|j: int| 0 <= j < k ==> stmt_supported(stmts[j]),
        k < stmts.len() ==> !stmt_supported(stmts[k]),
    ensures
        spec_supported_prefix(stmts) == k,
    decreases k,
{
    if k == 0 {
    } else {
        assert(stmt_supported(stmts[0]));
        let tail = stmts.drop_first();
        assert forall|j: int| 0 <= j < k - 1 implies stmt_supported(tail[j]) by {
            assert(tail[j] == stmts[j + 1]);
        }
        if k - 1 < tail.len() {
            assert(tail[k - 1] == stmts[k]);
        }
        lemma_supported_prefix_at(tail, k - 1);
    }
}

/// The comment line of any statement begins with the comment marker, so it
/// never begins with a space.
proof fn lemma_comment_body(s: Stmt)
    ensures
        spec_comment(s).len() > 0,
        spec_comment(s)[0] == '#',
{
    reveal_strlit("# ");
}

/// Every translation line of a supported instruction is non-empty and does
/// not begin with a space.
proof fn lemma_gen_lines_body(s: Stmt)
    requires
        stmt_supported(s),
    ensures
        forall|k: int|
            0 <= k < spec_gen_lines(s).len() ==> (#[trigger] spec_gen_lines(s)[k]).len() > 0
                && spec_gen_lines(s)[k][0] != ' ',
{
    reveal_strlit("push _local+");
    reveal_strlit("push _constant+");
    reveal_strlit("pop _local+");
    reveal_strlit("pop _constant+");
    reveal_strlit("pop %rbx");
    reveal_strlit("pop %rax");
    reveal_strlit("add %rbx, %rax");
    reveal_strlit("sub %rbx, %rax");
    reveal_strlit("push %rax");
}

/// Every line of an instruction's block is exactly one step indented.
proof fn lemma_stmt_block_indent(s: Stmt)
    requires
        stmt_supported(s),
    ensures
        forall|k: int|
            0 <= k < spec_stmt_block(s).len() ==> leading_spaces(
                #[trigger] spec_stmt_block(s)[k],
            ) == 2,
{
    lemma_comment_body(s);
    lemma_gen_lines_body(s);
    assert forall|k: int| 0 <= k < spec_stmt_block(s).len() implies leading_spaces(
        spec_stmt_block(s)[k],
    ) == 2 by {
        let contents = seq![spec_comment(s)] + spec_gen_lines(s);
        assert(spec_stmt_block(s)[k] == spec_spaces(2) + contents[k]);
        if k == 0 {
            assert(contents[0] == spec_comment(s));
        } else {
            assert(contents[k] == spec_gen_lines(s)[k - 1]);
        }
        lemma_leading_spaces_prefix(2, contents[k]);
    }
}

/// Every line contributed by a sequence of supported instructions is
/// exactly one step indented.
proof fn lemma_stmts_lines_indent(stmts: Seq<Stmt>)
    requires
        forall|i: int| 0 <= i < stmts.len() ==> stmt_supported(#[trigger] stmts[i]),
    ensures
        forall|k: int|
            0 <= k < spec_stmts_lines(stmts).len() ==> leading_spaces(
                #[trigger] spec_stmts_lines(stmts)[k],
            ) == 2,
    decreases stmts.len(),
{
    if stmts.len() == 0 {
    } else {
        assert(stmt_supported(stmts[0]));
        lemma_stmt_block_indent(stmts[0]);
        let tail = stmts.drop_first();
        assert forall|i: int| 0 <= i < tail.len() implies stmt_supported(tail[i]) by {
            assert(tail[i] == stmts[i + 1]);
        }
        lemma_stmts_lines_indent(tail);
        assert forall|k: int| 0 <= k < spec_stmts_lines(stmts).len() implies leading_spaces(
            spec_stmts_lines(stmts)[k],
        ) == 2 by {
            if k < spec_stmt_block(stmts[0]).len() {
                assert(spec_stmts_lines(stmts)[k] == spec_stmt_block(stmts[0])[k]);
            } else {
                assert(spec_stmts_lines(stmts)[k] == spec_stmts_lines(tail)[k - spec_stmt_block(
                    stmts[0],
                ).len()]);
            }
        }
    }
}

/// The supported prefix is no longer than the list, and every statement
/// within it is supported.
proof fn lemma_prefix_supported(stmts: Seq<Stmt>)
    ensures
        spec_supported_prefix(stmts) <= stmts.len(),
        forall|j: int| 0 <= j < spec_supported_prefix(stmts) ==> stmt_supported(#[trigger] stmts[j]),
    decreases stmts.len(),
{
    if stmts.len() == 0 {
    } else if !stmt_supported(stmts[0]) {
    } else {
        let tail = stmts.drop_first();
        lemma_prefix_supported(tail);
        assert forall|j: int| 0 <= j < spec_supported_prefix(stmts) implies stmt_supported(
            stmts[j],
        ) by {
            if j > 0 {
                assert(tail[j - 1] == stmts[j]);
            }
        }
    }
}

/// The layout's lines: twenty-two in all, unindented through the entry
/// label, the two prologue lines one step deep.
proof fn lemma_init_lines_indent()
    ensures
        spec_init_lines().len() == 22,
        forall|k: int| 0 <= k < 20 ==> leading_spaces(#[trigger] spec_init_lines()[k]) == 0,
        leading_spaces(spec_init_lines()[20]) == 2,
        leading_spaces(spec_init_lines()[21]) == 2,
{
    reveal_strlit(".section __DATA,__data");
    reveal_strlit("_constant:");
    reveal_strlit(".long ");
    reveal_strlit("");
    reveal_strlit(".zerofill __DATA,__bss,_local,");
    reveal_strlit(".zerofill __DATA,__bss,_static,");
    reveal_strlit(".section __TEXT,__text");
    reveal_strlit(".globl _main");
    reveal_strlit("_main:");
    reveal_strlit("push %rbp");
    reveal_strlit("mov %rsp, %rbp");
    lemma_leading_spaces_prefix(2, "push %rbp"@);
    lemma_leading_spaces_prefix(2, "mov %rsp, %rbp"@);
    assert forall|k: int| 0 <= k < 20 implies leading_spaces(spec_init_lines()[k]) == 0 by {
        if 2 <= k < 12 {
            assert(spec_init_lines()[k] == ".long "@ + spec_dec((k - 2) as nat));
            assert(spec_init_lines()[k][0] == '.');
        } else if k == 13 {
            assert(spec_init_lines()[k][0] == '.');
        } else if k == 14 {
            assert(spec_init_lines()[k][0] == '.');
        }
    }
}

/// Indentation law: in any generated program, every line up to and
/// including the entry label carries no indentation, and every line after
/// it — instruction blocks and epilogue alike — carries exactly one
/// two-space step.
pub proof fn lemma_indentation(stmts: Seq<Stmt>)
    ensures
        spec_run_lines(stmts).len() >= 22,
        spec_run_lines(stmts)[19] == "_main:"@,
        forall|k: int| 0 <= k < 20 ==> leading_spaces(#[trigger] spec_run_lines(stmts)[k]) == 0,
        forall|k: int|
            20 <= k < spec_run_lines(stmts).len() ==> leading_spaces(
                #[trigger] spec_run_lines(stmts)[k],
            ) == 2,
{
    lemma_init_lines_indent();
    lemma_prefix_supported(stmts);
    let pre = stmts.take(spec_supported_prefix(stmts) as int);
    assert forall|j: int| 0 <= j < pre.len() implies stmt_supported(pre[j]) by {
        assert(pre[j] == stmts[j]);
    }
    lemma_stmts_lines_indent(pre);
    reveal_strlit("mov $0, %rax");
    reveal_strlit("pop %rbp");
    reveal_strlit("ret");
    lemma_leading_spaces_prefix(2, "mov $0, %rax"@);
    lemma_leading_spaces_prefix(2, "pop %rbp"@);
    lemma_leading_spaces_prefix(2, "ret"@);
    let mid = spec_stmts_lines(pre);
    assert forall|k: int| 20 <= k < spec_run_lines(stmts).len() implies leading_spaces(
        spec_run_lines(stmts)[k],
    ) == 2 by {
        if k < 22 {
            assert(spec_run_lines(stmts)[k] == spec_init_lines()[k]);
        } else if k < 22 + mid.len() {
            assert(spec_run_lines(stmts)[k] == mid[k - 22]);
        } else {
            assert(spec_run_lines(stmts)[k] == with_indent(2, spec_end_lines())[k - 22
                - mid.len()]);
        }
    }
}

/// Push-reference law: for either implemented segment and any index, the
/// push of `segment[index]` is exactly one line, its offset is exactly
/// `index * WORD_SIZE`, and its symbol names the segment's region.
pub proof fn lemma_push_reference(segment: Segment, index: u32)
    requires
        segment_supported(segment),
    ensures
        spec_gen_lines((Stmt::Push { segment, index })).len() == 1,
        segment == Segment::Local ==> spec_gen_lines((Stmt::Push { segment, index }))[0]
            == "push _local+"@ + spec_dec((index as nat) * (WORD_SIZE as nat)) + "(%rip)"@,
        segment == Segment::Constant ==> spec_gen_lines((Stmt::Push { segment, index }))[0]
            == "push _constant+"@ + spec_dec((index as nat) * (WORD_SIZE as nat)) + "(%rip)"@,
{
}

/// Arithmetic translation law: `Add` and `Sub` each emit exactly four
/// non-comment lines, in the fixed order pop, pop, compute, push.
pub proof fn lemma_arith_translation(s: Stmt)
    requires
        s == Stmt::Add || s == Stmt::Sub,
    ensures
        spec_gen_lines(s).len() == 4,
        spec_gen_lines(s)[0] == "pop %rbx"@,
        spec_gen_lines(s)[1] == "pop %rax"@,
        s == Stmt::Add ==> spec_gen_lines(s)[2] == "add %rbx, %rax"@,
        s == Stmt::Sub ==> spec_gen_lines(s)[2] == "sub %rbx, %rax"@,
        spec_gen_lines(s)[3] == "push %rax"@,
{
}

/// Constant-region law: right after its label, the layout holds exactly
/// `CONSTANT_SEGMENT_SIZE` ascending word entries starting at zero. The
/// layout reads no instruction, so this holds whatever the instruction list
/// is.
pub proof fn lemma_constant_region()
    ensures
        spec_init_lines().len() == 22,
        spec_init_lines()[1] == "_constant:"@,
        forall|i: int|
            0 <= i < CONSTANT_SEGMENT_SIZE ==> #[trigger] spec_init_lines()[2 + i] == ".long "@
                + spec_dec(i as nat),
{
}

/// Layout-determinism law: the layout's output is a function of the fixed
/// constants alone, so any two layout runs from fresh generators — whatever
/// their instruction lists — emit byte-identical lines.
pub proof fn lemma_layout_idempotent<'a, 'b>(
    first_before: Codegen<'a>,
    first_after: Codegen<'a>,
    second_before: Codegen<'b>,
    second_after: Codegen<'b>,
)
    requires
        first_before.lines().len() == 0,
        second_before.lines().len() == 0,
        first_after.lines() == first_before.lines() + spec_init_lines(),
        second_after.lines() == second_before.lines() + spec_init_lines(),
    ensures
        first_after.lines() == second_after.lines(),
{
    assert(first_after.lines() =~~= spec_init_lines());
    assert(second_after.lines() =~~= spec_init_lines());
}

impl<'a> Codegen<'a> {
    /// The emitted lines, each as its character sequence.
    pub open spec fn lines(&self) -> Seq<Seq<char>> {
        self.asm_list.deep_view()
    }

    /// A fresh generator over `stmt_list`: no lines yet, indentation zero.
    pub fn new(stmt_list: &'a Vec<Stmt>) -> (c: Codegen<'a>)
        ensures
            c.lines() == Seq::<Seq<char>>::empty(),
            c.indent == 0,
            c.stmt_list == stmt_list,
    {
        let c = Codegen { asm_list: Vec::new(), stmt_list: stmt_list, indent: 0 };
        proof {
            assert(c.lines() =~= Seq::<Seq<char>>::empty());
        }
        c
    }

    /// Appends `cmd` as one line, prefixed by the current indentation.
    pub fn set(&mut self, cmd: &str)
        ensures
            final(self).indent == old(self).indent,
            final(self).stmt_list == old(self).stmt_list,
            final(self).lines() == old(self).lines().push(
                spec_spaces(old(self).indent as nat) + cmd@,
            ),
    {
        let ind = space_string(self.indent);
        let line = ind.concat(cmd);
        self.asm_list.push(line);
        proof {
            assert(self.lines() =~~= old(self).lines().push(
                spec_spaces(old(self).indent as nat) + cmd@,
            ));
        }
    }

    /// Deepens the indentation by one two-space step.
    pub fn inc_indent(&mut self)
        requires
            old(self).indent + 2 <= usize::MAX,
        ensures
            final(self).indent == old(self).indent + 2,
            final(self).stmt_list == old(self).stmt_list,
            final(self).lines() == old(self).lines(),
    {
        self.indent = self.indent + 2;
    }

    /// Shallows the indentation by one two-space step.
    pub fn dec_indent(&mut self)
        requires
            old(self).indent >= 2,
        ensures
            final(self).indent == old(self).indent - 2,
            final(self).stmt_list == old(self).stmt_list,
            final(self).lines() == old(self).lines(),
    {
        self.indent = self.indent - 2;
    }

    /// Generates the whole program: layout, one block per instruction in
    /// input order, epilogue. On the first instruction over an unsupported
    /// segment, generation halts at once: no line is appended for it, no
    /// epilogue follows, and the error is returned.
    pub fn run(&mut self) -> (r: Result<(), CodegenError>)
        requires
            old(self).indent == 0,
        ensures
            final(self).indent == 2,
            final(self).stmt_list == old(self).stmt_list,
            final(self).lines() == old(self).lines() + spec_run_lines(old(self).stmt_list@),
            r == Ok::<(), CodegenError>(()) <==> spec_all_supported(old(self).stmt_list@),
            !spec_all_supported(old(self).stmt_list@) ==> r == Err::<(), CodegenError>(
                CodegenError::UnsupportedSegment,
            ),
    {
        self.gen_init();
        let sl: &Vec<Stmt> = self.stmt_list;
        let n = sl.len();
        proof {
            assert(sl@.take(0) =~= Seq::<Stmt>::empty());
            assert(self.lines() =~~= old(self).lines() + spec_init_lines() + spec_stmts_lines(
                sl@.take(0),
            ));
        }
        let mut idx: usize = 0;
        while idx < n
            invariant
                idx <= n,
                n == sl@.len(),
                sl == old(self).stmt_list,
                self.stmt_list == sl,
                self.indent == 2,
                forall|j: int| 0 <= j < idx ==> stmt_supported(sl@[j]),
                self.lines() == old(self).lines() + spec_init_lines() + spec_stmts_lines(
                    sl@.take(idx as int),
                ),
            decreases n - idx,
        {
            let stmt = sl[idx];
            if !is_supported(&stmt) {
                proof {
                    lemma_supported_prefix_at(sl@, idx as int);
                    assert(!spec_all_supported(sl@)) by {
                        assert(!stmt_supported(sl@[idx as int]));
                    }
                    assert(self.lines() =~~= old(self).lines() + spec_run_lines(sl@));
                }
                return Err(CodegenError::UnsupportedSegment);
            }
            let cmt = render(&stmt);
            let cline = String::from_str("# ").concat(cmt.as_str());
            self.set(cline.as_str());
            let res = self.gen(&stmt);
            proof {
                assert(res == Ok::<(), CodegenError>(()));
                assert(sl@.take(idx + 1) =~= sl@.take(idx as int).push(sl@[idx as int]));
                lemma_stmts_lines_snoc(sl@.take(idx as int), sl@[idx as int]);
                assert(self.lines() =~~= old(self).lines() + spec_init_lines() + spec_stmts_lines(
                    sl@.take(idx + 1),
                ));
            }
            idx = idx + 1;
        }
        self.gen_end();
        proof {
            lemma_supported_prefix_at(sl@, sl@.len() as int);
            assert(sl@.take(sl@.len() as int) =~= sl@);
            assert(self.lines() =~~= old(self).lines() + spec_run_lines(sl@));
        }
        Ok(())
    }

    /// Emits the data-section declarations and the entry prologue: the
    /// constant table with one ascending entry per word, the two zero-filled
    /// scratch regions, and the entry label followed by the frame setup one
    /// indentation step deeper. Takes no input beyond the fixed constants.
    pub fn gen_init(&mut self)
        requires
            old(self).indent == 0,
        ensures
            final(self).indent == 2,
            final(self).stmt_list == old(self).stmt_list,
            final(self).lines() == old(self).lines() + spec_init_lines(),
    {
        self.set(".section __DATA,__data");
        self.set("_constant:");
        proof {
            assert(self.lines() =~~= old(self).lines() + spec_init_lines().take(2));
        }
        let mut i: u64 = 0;
        while i < CONSTANT_SEGMENT_SIZE
            invariant
                i <= CONSTANT_SEGMENT_SIZE,
                self.indent == 0,
                self.stmt_list == old(self).stmt_list,
                self.lines() == old(self).lines() + spec_init_lines().take(2 + i as int),
            decreases CONSTANT_SEGMENT_SIZE - i,
        {
            let num = u64_dec(i);
            let line = String::from_str(".long ").concat(num.as_str());
            self.set(line.as_str());
            i = i + 1;
            proof {
                assert(self.lines() =~~= old(self).lines() + spec_init_lines().take(2 + i as int));
            }
        }
        let local_bytes = LOCAL_SEGMENT_SIZE * WORD_SIZE;
        let local_num = u64_dec(local_bytes);
        let local_line = String::from_str(".zerofill __DATA,__bss,_local,").concat(
            local_num.as_str(),
        ).concat(",4");
        let static_bytes = STATIC_SEGMENT_SIZE * WORD_SIZE;
        let static_num = u64_dec(static_bytes);
        let static_line = String::from_str(".zerofill __DATA,__bss,_static,").concat(
            static_num.as_str(),
        ).concat(",4");
        self.set("");
        self.set(local_line.as_str());
        self.set(static_line.as_str());
        self.set("");
        self.set(".section __TEXT,__text");
        self.set(".globl _main");
        self.set("");
        self.set("_main:");
        self.inc_indent();
        self.set("push %rbp");
        self.set("mov %rsp, %rbp");
        proof {
            assert(self.lines() =~~= old(self).lines() + spec_init_lines());
        }
    }

    /// Translates one instruction, appending its assembly at the current
    /// indentation. An instruction over an unsupported segment is refused:
    /// nothing is appended and the error is returned.
    pub fn gen(&mut self, stmt: &Stmt) -> (r: Result<(), CodegenError>)
        ensures
            final(self).indent == old(self).indent,
            final(self).stmt_list == old(self).stmt_list,
            stmt_supported(*stmt) ==> r == Ok::<(), CodegenError>(()) && final(self).lines()
                == old(self).lines() + with_indent(old(self).indent as nat, spec_gen_lines(*stmt)),
            !stmt_supported(*stmt) ==> r == Err::<(), CodegenError>(
                CodegenError::UnsupportedSegment,
            ) && final(self).lines() == old(self).lines(),
    {
        match stmt {
            Stmt::Push { segment, index } => {
                let offset: u64 = (*index as u64) * WORD_SIZE;
                let num = u64_dec(offset);
                let instr: String = match segment {
                    Segment::Local => String::from_str("push _local+").concat(num.as_str()).concat(
                        "(%rip)",
                    ),
                    Segment::Constant => String::from_str("push _constant+").concat(
                        num.as_str(),
                    ).concat("(%rip)"),
                    _ => {
                        return Err(CodegenError::UnsupportedSegment);
                    },
                };
                self.set(instr.as_str());
                proof {
                    assert(self.lines() =~~= old(self).lines() + with_indent(
                        old(self).indent as nat,
                        spec_gen_lines(*stmt),
                    ));
                }
                Ok(())
            },
            Stmt::Pop { segment, index } => {
                let offset: u64 = (*index as u64) * WORD_SIZE;
                let num = u64_dec(offset);
                let instr: String = match segment {
                    Segment::Local => String::from_str("pop _local+").concat(num.as_str()).concat(
                        "(%rip)",
                    ),
                    Segment::Constant => String::from_str("pop _constant+").concat(
                        num.as_str(),
                    ).concat("(%rip)"),
                    _ => {
                        return Err(CodegenError::UnsupportedSegment);
                    },
                };
                self.set(instr.as_str());
                proof {
                    assert(self.lines() =~~= old(self).lines() + with_indent(
                        old(self).indent as nat,
                        spec_gen_lines(*stmt),
                    ));
                }
                Ok(())
            },
            Stmt::Add => {
                self.set("pop %rbx");
                self.set("pop %rax");
                self.set("add %rbx, %rax");
                self.set("push %rax");
                proof {
                    assert(self.lines() =~~= old(self).lines() + with_indent(
                        old(self).indent as nat,
                        spec_gen_lines(*stmt),
                    ));
                }
                Ok(())
            },
            Stmt::Sub => {
                self.set("pop %rbx");
                self.set("pop %rax");
                self.set("sub %rbx, %rax");
                self.set("push %rax");
                proof {
                    assert(self.lines() =~~= old(self).lines() + with_indent(
                        old(self).indent as nat,
                        spec_gen_lines(*stmt),
                    ));
                }
                Ok(())
            },
        }
    }

    /// Emits the epilogue: load a zero return value, restore the caller's
    /// frame pointer, return.
    pub fn gen_end(&mut self)
        ensures
            final(self).indent == old(self).indent,
            final(self).stmt_list == old(self).stmt_list,
            final(self).lines() == old(self).lines() + with_indent(
                old(self).indent as nat,
                spec_end_lines(),
            ),
    {
        self.set("mov $0, %rax");
        self.set("pop %rbp");
        self.set("ret");
        proof {
            assert(self.lines() =~~= old(self).lines() + with_indent(
                old(self).indent as nat,
                spec_end_lines(),
            ));
        }
    }
}

} // verus!
