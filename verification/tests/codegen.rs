use stackgen::ast::is_supported;
use stackgen::ast::render;
use stackgen::ast::Segment;
use stackgen::ast::Stmt;
use stackgen::codegen::Codegen;
use stackgen::codegen::CodegenError;
use stackgen::text::space_string;
use stackgen::text::u64_dec;

fn expected_layout() -> Vec<String> {
    let mut lines: Vec<String> = vec![
        ".section __DATA,__data".to_string(),
        "_constant:".to_string(),
    ];
    for i in 0..10 {
        lines.push(format!(".long {}", i));
    }
    lines.push("".to_string());
    lines.push(".zerofill __DATA,__bss,_local,400,4".to_string());
    lines.push(".zerofill __DATA,__bss,_static,400,4".to_string());
    lines.push("".to_string());
    lines.push(".section __TEXT,__text".to_string());
    lines.push(".globl _main".to_string());
    lines.push("".to_string());
    lines.push("_main:".to_string());
    lines.push("  push %rbp".to_string());
    lines.push("  mov %rsp, %rbp".to_string());
    lines
}

fn expected_epilogue() -> Vec<String> {
    vec![
        "  mov $0, %rax".to_string(),
        "  pop %rbp".to_string(),
        "  ret".to_string(),
    ]
}

#[test]
fn layout_exact_lines() {
    let stmts: Vec<Stmt> = Vec::new();
    let mut c = Codegen::new(&stmts);
    c.gen_init();
    assert_eq!(c.asm_list, expected_layout());
}

#[test]
fn layout_constant_region_ascending() {
    let stmts: Vec<Stmt> = Vec::new();
    let mut c = Codegen::new(&stmts);
    c.gen_init();
    assert_eq!(c.asm_list[1], "_constant:");
    for i in 0..10 {
        assert_eq!(c.asm_list[2 + i], format!(".long {}", i));
    }
    assert_eq!(c.asm_list[12], "");
}

#[test]
fn layout_idempotent() {
    let stmts_a: Vec<Stmt> = vec![Stmt::Add];
    let stmts_b: Vec<Stmt> = Vec::new();
    let mut a = Codegen::new(&stmts_a);
    let mut b = Codegen::new(&stmts_b);
    a.gen_init();
    b.gen_init();
    assert_eq!(a.asm_list, b.asm_list);
}

#[test]
fn run_empty_program() {
    let stmts: Vec<Stmt> = Vec::new();
    let mut c = Codegen::new(&stmts);
    let r = c.run();
    assert_eq!(r, Ok(()));
    let mut expected = expected_layout();
    expected.extend(expected_epilogue());
    assert_eq!(c.asm_list, expected);
}

#[test]
fn push_pop_offsets() {
    let stmts: Vec<Stmt> = Vec::new();

    let mut c = Codegen::new(&stmts);
    assert_eq!(c.gen(&Stmt::Push { segment: Segment::Local, index: 3 }), Ok(()));
    assert_eq!(c.asm_list, vec!["push _local+12(%rip)".to_string()]);

    let mut c = Codegen::new(&stmts);
    assert_eq!(c.gen(&Stmt::Push { segment: Segment::Constant, index: 0 }), Ok(()));
    assert_eq!(c.asm_list, vec!["push _constant+0(%rip)".to_string()]);

    let mut c = Codegen::new(&stmts);
    assert_eq!(c.gen(&Stmt::Pop { segment: Segment::Local, index: 7 }), Ok(()));
    assert_eq!(c.asm_list, vec!["pop _local+28(%rip)".to_string()]);

    let mut c = Codegen::new(&stmts);
    assert_eq!(c.gen(&Stmt::Pop { segment: Segment::Constant, index: 9 }), Ok(()));
    assert_eq!(c.asm_list, vec!["pop _constant+36(%rip)".to_string()]);
}

#[test]
fn arith_exactly_four_lines() {
    let stmts: Vec<Stmt> = Vec::new();

    let mut c = Codegen::new(&stmts);
    assert_eq!(c.gen(&Stmt::Add), Ok(()));
    assert_eq!(
        c.asm_list,
        vec![
            "pop %rbx".to_string(),
            "pop %rax".to_string(),
            "add %rbx, %rax".to_string(),
            "push %rax".to_string(),
        ]
    );

    let mut c = Codegen::new(&stmts);
    assert_eq!(c.gen(&Stmt::Sub), Ok(()));
    assert_eq!(
        c.asm_list,
        vec![
            "pop %rbx".to_string(),
            "pop %rax".to_string(),
            "sub %rbx, %rax".to_string(),
            "push %rax".to_string(),
        ]
    );
}

// Stack [2, 5] (5 pushed last): the first pop moves 5 into %rbx, the second
// moves 2 into %rax, and `sub %rbx, %rax` leaves 2 - 5 = -3 in %rax.
#[test]
fn sub_trace() {
    let stmts: Vec<Stmt> = vec![
        Stmt::Push { segment: Segment::Constant, index: 2 },
        Stmt::Push { segment: Segment::Constant, index: 5 },
        Stmt::Sub,
    ];
    let mut c = Codegen::new(&stmts);
    assert_eq!(c.run(), Ok(()));
    let body: Vec<String> = c.asm_list[22..].to_vec();
    assert_eq!(
        body,
        vec![
            "  # Push(Constant, 2)".to_string(),
            "  push _constant+8(%rip)".to_string(),
            "  # Push(Constant, 5)".to_string(),
            "  push _constant+20(%rip)".to_string(),
            "  # Sub".to_string(),
            "  pop %rbx".to_string(),
            "  pop %rax".to_string(),
            "  sub %rbx, %rax".to_string(),
            "  push %rax".to_string(),
            "  mov $0, %rax".to_string(),
            "  pop %rbp".to_string(),
            "  ret".to_string(),
        ]
    );
}

#[test]
fn end_to_end() {
    let stmts: Vec<Stmt> = vec![
        Stmt::Push { segment: Segment::Constant, index: 1 },
        Stmt::Push { segment: Segment::Constant, index: 2 },
        Stmt::Add,
        Stmt::Pop { segment: Segment::Local, index: 0 },
    ];
    let mut c = Codegen::new(&stmts);
    assert_eq!(c.run(), Ok(()));
    let mut expected = expected_layout();
    expected.push("  # Push(Constant, 1)".to_string());
    expected.push("  push _constant+4(%rip)".to_string());
    expected.push("  # Push(Constant, 2)".to_string());
    expected.push("  push _constant+8(%rip)".to_string());
    expected.push("  # Add".to_string());
    expected.push("  pop %rbx".to_string());
    expected.push("  pop %rax".to_string());
    expected.push("  add %rbx, %rax".to_string());
    expected.push("  push %rax".to_string());
    expected.push("  # Pop(Local, 0)".to_string());
    expected.push("  pop _local+0(%rip)".to_string());
    expected.extend(expected_epilogue());
    assert_eq!(c.asm_list, expected);
}

#[test]
fn unsupported_segment_halts_run() {
    let stmts: Vec<Stmt> = vec![Stmt::Push { segment: Segment::Static, index: 0 }];
    let mut c = Codegen::new(&stmts);
    assert_eq!(c.run(), Err(CodegenError::UnsupportedSegment));
    // Only the layout was emitted: no line at all for the bad instruction.
    assert_eq!(c.asm_list, expected_layout());
}

#[test]
fn unsupported_segment_halts_mid_list() {
    let stmts: Vec<Stmt> = vec![
        Stmt::Add,
        Stmt::Push { segment: Segment::This, index: 0 },
        Stmt::Sub,
    ];
    let mut c = Codegen::new(&stmts);
    assert_eq!(c.run(), Err(CodegenError::UnsupportedSegment));
    // The supported prefix was translated; nothing for or after the bad one.
    assert_eq!(c.asm_list.len(), 22 + 5);
    assert_eq!(c.asm_list[22], "  # Add");
    assert_eq!(c.asm_list[26], "  push %rax");
}

#[test]
fn unsupported_segment_refused_by_gen() {
    let stmts: Vec<Stmt> = Vec::new();
    let mut c = Codegen::new(&stmts);
    assert_eq!(
        c.gen(&Stmt::Pop { segment: Segment::Argument, index: 1 }),
        Err(CodegenError::UnsupportedSegment)
    );
    assert!(c.asm_list.is_empty());
}

#[test]
fn indentation_per_line() {
    let stmts: Vec<Stmt> = vec![
        Stmt::Push { segment: Segment::Constant, index: 1 },
        Stmt::Pop { segment: Segment::Local, index: 2 },
    ];
    let mut c = Codegen::new(&stmts);
    assert_eq!(c.run(), Ok(()));
    assert_eq!(c.asm_list[19], "_main:");
    for line in &c.asm_list[..20] {
        assert!(!line.starts_with(' '));
    }
    for line in &c.asm_list[20..] {
        assert!(line.starts_with("  "));
        assert!(!line[2..].starts_with(' '));
    }
}

#[test]
fn indent_steps() {
    let stmts: Vec<Stmt> = Vec::new();
    let mut c = Codegen::new(&stmts);
    c.set("a");
    c.inc_indent();
    c.set("b");
    c.inc_indent();
    c.set("c");
    c.dec_indent();
    c.set("d");
    assert_eq!(
        c.asm_list,
        vec![
            "a".to_string(),
            "  b".to_string(),
            "    c".to_string(),
            "  d".to_string(),
        ]
    );
}

#[test]
fn supported_statements() {
    assert!(is_supported(&Stmt::Push { segment: Segment::Local, index: 0 }));
    assert!(is_supported(&Stmt::Pop { segment: Segment::Constant, index: 5 }));
    assert!(is_supported(&Stmt::Add));
    assert!(is_supported(&Stmt::Sub));
    assert!(!is_supported(&Stmt::Push { segment: Segment::Static, index: 0 }));
    assert!(!is_supported(&Stmt::Pop { segment: Segment::Argument, index: 0 }));
    assert!(!is_supported(&Stmt::Push { segment: Segment::This, index: 0 }));
    assert!(!is_supported(&Stmt::Pop { segment: Segment::That, index: 0 }));
}

#[test]
fn statement_rendering() {
    assert_eq!(render(&Stmt::Push { segment: Segment::Local, index: 3 }), "Push(Local, 3)");
    assert_eq!(render(&Stmt::Pop { segment: Segment::Constant, index: 10 }), "Pop(Constant, 10)");
    assert_eq!(render(&Stmt::Push { segment: Segment::Static, index: 0 }), "Push(Static, 0)");
    assert_eq!(render(&Stmt::Add), "Add");
    assert_eq!(render(&Stmt::Sub), "Sub");
}

#[test]
fn decimal_rendering() {
    assert_eq!(u64_dec(0), "0");
    assert_eq!(u64_dec(7), "7");
    assert_eq!(u64_dec(10), "10");
    assert_eq!(u64_dec(400), "400");
    assert_eq!(u64_dec(1234567890), "1234567890");
    assert_eq!(u64_dec(u64::MAX), "18446744073709551615");
}

#[test]
fn space_rendering() {
    assert_eq!(space_string(0), "");
    assert_eq!(space_string(1), " ");
    assert_eq!(space_string(4), "    ");
}
