//! The instruction language: memory-segment selectors and stack-machine
//! statements, with their textual forms for comment lines.

use vstd::prelude::*;
use vstd::string::StringExecFns;

use crate::text::spec_dec;
use crate::text::u64_dec;

verus! {

/// A memory-segment selector. Only `Local` and `Constant` are backed by a
/// declared region and by translation logic; the remaining variants are
/// reserved for future segment support.
#[derive(Clone, Copy, Debug, PartialEq, Eq)]
pub enum Segment {
    Local,
    Constant,
    Static,
    Argument,
    This,
    That,
}

/// One stack-machine instruction.
#[derive(Clone, Copy, Debug, PartialEq, Eq)]
pub enum Stmt {
    /// Push the word at `segment[index]` onto the evaluation stack.
    Push { segment: Segment, index: u32 },
    /// Pop the top of the evaluation stack into `segment[index]`.
    Pop { segment: Segment, index: u32 },
    /// Pop two values and push their sum.
    Add,
    /// Pop two values and push the earlier-pushed value minus the
    /// later-pushed one.
    Sub,
}

/// Whether the translator has logic for this segment.
pub open spec fn segment_supported(s: Segment) -> bool {
    s == Segment::Local || s == Segment::Constant
}

/// Whether the translator has logic for this statement.
pub open spec fn stmt_supported(s: Stmt) -> bool {
    match s {
        Stmt::Push { segment, .. } => segment_supported(segment),
        Stmt::Pop { segment, .. } => segment_supported(segment),
        Stmt::Add => true,
        Stmt::Sub => true,
    }
}

/// Whether translating `stmt` is implemented.
pub fn is_supported(stmt: &Stmt) -> (b: bool)
    ensures
        b == stmt_supported(*stmt),
{
    match stmt {
        Stmt::Push { segment, .. } | Stmt::Pop { segment, .. } => match segment {
            Segment::Local | Segment::Constant => true,
            _ => false,
        },
        Stmt::Add | Stmt::Sub => true,
    }
}

/// The name of a segment, as written in comment lines.
pub open spec fn spec_segment_name(s: Segment) -> Seq<char> {
    match s {
        Segment::Local => "Local"@,
        Segment::Constant => "Constant"@,
        Segment::Static => "Static"@,
        Segment::Argument => "Argument"@,
        Segment::This => "This"@,
        Segment::That => "That"@,
    }
}

/// The textual form of a statement, as echoed in comment lines.
pub open spec fn spec_render(s: Stmt) -> Seq<char> {
    match s {
        Stmt::Push { segment, index } => "Push("@ + spec_segment_name(segment) + ", "@
            + spec_dec(index as nat) + ")"@,
        Stmt::Pop { segment, index } => "Pop("@ + spec_segment_name(segment) + ", "@
            + spec_dec(index as nat) + ")"@,
        Stmt::Add => "Add"@,
        Stmt::Sub => "Sub"@,
    }
}

/// The name of `s`, as written in comment lines.
pub fn segment_name(s: &Segment) -> (r: &'static str)
    ensures
        r@ == spec_segment_name(*s),
{
    match s {
        Segment::Local => "Local",
        Segment::Constant => "Constant",
        Segment::Static => "Static",
        Segment::Argument => "Argument",
        Segment::This => "This",
        Segment::That => "That",
    }
}

/// Renders `s` in its textual form.
pub fn render(s: &Stmt) -> (r: String)
    ensures
        r@ == spec_render(*s),
{
    match s {
        Stmt::Push { segment, index } => {
            let num = u64_dec(*index as u64);
            String::from_str("Push(").concat(segment_name(segment)).concat(", ").concat(
                num.as_str(),
            ).concat(")")
        },
        Stmt::Pop { segment, index } => {
            let num = u64_dec(*index as u64);
            String::from_str("Pop(").concat(segment_name(segment)).concat(", ").concat(
                num.as_str(),
            ).concat(")")
        },
        Stmt::Add => String::from_str("Add"),
        Stmt::Sub => String::from_str("Sub"),
    }
}

} // verus!
