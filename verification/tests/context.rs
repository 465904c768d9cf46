use beryllium::ast::{Expr, Item, Param, Program, Statement};
use beryllium::codegen::x86::Codegen;
use beryllium::codegen::CodegenError;
use beryllium::context::{Context, LabelFrame, VariableFrame, VariableStack, MAX_SLOTS};
use beryllium::text::{decimal_string, hex_string};
use beryllium::type_registry::{Function, TypeRegistry};

fn function(name: &str, params: &[&str]) -> Item {
    Item::Function {
        name: name.into(),
        params: params.iter().map(|param| Param { name: (*param).into() }).collect(),
        body: Statement::Expr(Expr::Block(vec![])),
    }
}

fn registry(functions: &[(&str, &[&str])]) -> TypeRegistry {
    let items = functions.iter().map(|(name, params)| function(name, params)).collect();
    TypeRegistry::from(&Program(items))
}

fn literal(text: &str) -> Box<Expr> {
    Box::new(Expr::IntegerLiteral(text.into()))
}

#[test]
fn numbers_are_written_in_decimal_and_hexadecimal() {
    assert_eq!(decimal_string(0), "0");
    assert_eq!(decimal_string(7), "7");
    assert_eq!(decimal_string(10), "10");
    assert_eq!(decimal_string(1234567890), "1234567890");
    assert_eq!(decimal_string(u64::MAX), "18446744073709551615");
    assert_eq!(hex_string(0, 8), "00000000");
    assert_eq!(hex_string(255, 8), "000000ff");
    assert_eq!(hex_string(0xdead_beef, 8), "deadbeef");
    assert_eq!(hex_string(0x1_0000_0000, 8), "100000000");
    assert_eq!(hex_string(u64::MAX, 8), "ffffffffffffffff");
    assert_eq!(hex_string(0xab, 0), "ab");
    assert_eq!(hex_string(0, 0), "0");
    assert_eq!(hex_string(0, 1), "0");
    assert_eq!(hex_string(0x1f, 3), "01f");
    for n in [0u64, 1, 9, 10, 99, 100, 4096, 65535, 1 << 40] {
        assert_eq!(decimal_string(n), n.to_string());
        assert_eq!(hex_string(n, 8), format!("{:08x}", n));
    }
}

#[test]
fn push_and_pop_emit_and_count() {
    let mut context = Context::new(registry(&[]));
    assert_eq!(context.stack_height(), 0);
    assert_eq!(context.depth(), 0);
    assert!(!context.can_pop());
    assert_eq!(context.push("rax"), "    push rax\n");
    assert_eq!(context.stack_height(), 1);
    assert_eq!(context.depth(), 1);
    assert_eq!(context.push("42"), "    push 42\n");
    assert_eq!(context.stack_height(), 2);
    assert!(context.holds(2));
    assert!(!context.holds(3));
    assert_eq!(context.pop("rdi"), "    pop rdi\n");
    assert_eq!(context.pop("rbx"), "    pop rbx\n");
    assert_eq!(context.stack_height(), 0);
    assert_eq!(context.depth(), 1);
    assert!(!context.can_pop());
}

#[test]
fn scopes_release_their_slots() {
    let mut context = Context::new(registry(&[]));
    context.push("1");
    assert_eq!(context.enter(), "");
    assert_eq!(context.depth(), 2);
    context.push("2");
    context.push("3");
    context.push("4");
    assert_eq!(context.stack_height(), 4);
    assert_eq!(context.exit(), "    add rsp, 24\n");
    assert_eq!(context.stack_height(), 1);
    assert_eq!(context.depth(), 1);
    assert_eq!(context.enter(), "");
    assert_eq!(context.exit(), "    add rsp, 0\n");
    assert_eq!(context.exit(), "    add rsp, 8\n");
    assert_eq!(context.stack_height(), 0);
    assert_eq!(context.depth(), 0);
}

#[test]
fn variables_are_found_from_the_innermost_scope_out() {
    let mut context = Context::new(registry(&[]));
    assert_eq!(context.get_variable("x"), None);
    context.push("10");
    context.declare_variable("x".into(), false);
    context.push("20");
    context.declare_variable("y".into(), true);
    assert_eq!(context.get_variable("x"), Some("    push qword [rsp + 8]\n".to_string()));
    assert_eq!(context.get_variable("x"), Some("    push qword [rsp + 16]\n".to_string()));
    assert_eq!(context.get_variable("y"), Some("    push qword [rsp + 16]\n".to_string()));
    assert_eq!(context.stack_height(), 5);
    context.enter();
    assert_eq!(context.get_variable("y"), Some("    push qword [rsp + 24]\n".to_string()));
    context.declare_variable("x".into(), true);
    assert_eq!(context.get_variable("x"), Some("    push qword [rsp + 0]\n".to_string()));
    assert_eq!(context.has_variable("x"), true);
    assert_eq!(context.has_variable("z"), false);
    context.exit();
    assert_eq!(context.get_variable("x"), Some("    push qword [rsp + 32]\n".to_string()));
    assert_eq!(context.get_variable("z"), None);
    assert_eq!(context.stack_height(), 6);
}

#[test]
fn only_mutable_variables_are_stored_to() {
    let mut context = Context::new(registry(&[]));
    context.push("10");
    context.declare_variable("x".into(), false);
    context.push("20");
    context.declare_variable("y".into(), true);
    context.push("30");
    assert_eq!(
        context.set_variable("y", "rax"),
        Ok("    mov qword [rsp + 8], rax\n".to_string())
    );
    assert_eq!(
        context.set_variable("x", "rax"),
        Err(CodegenError::ChangedImmutableVariable("x".into()))
    );
    assert_eq!(
        context.set_variable("z", "rdx"),
        Err(CodegenError::IdentifierNotDeclared("z".into()))
    );
    context.enter();
    context.push("40");
    context.declare_variable("x".into(), true);
    assert_eq!(
        context.set_variable("x", "rdx"),
        Ok("    mov qword [rsp + 0], rdx\n".to_string())
    );
    assert_eq!(context.stack_height(), 4);
}

#[test]
fn a_variable_whose_slot_is_gone_has_no_slot() {
    let mut context = Context::new(registry(&[]));
    context.push("10");
    context.declare_variable("x".into(), true);
    context.pop("rax");
    assert_eq!(context.get_variable("x"), None);
    assert_eq!(
        context.set_variable("x", "rax"),
        Err(CodegenError::IdentifierNotDeclared("x".into()))
    );
}

#[test]
fn labels_count_by_tag() {
    let mut context = Context::new(registry(&[]));
    assert_eq!(context.create_label("if"), "if00000000");
    assert_eq!(context.create_label("else"), "else00000000");
    assert_eq!(context.create_label("if"), "if00000001");
    for _ in 2..255 {
        context.create_label("if");
    }
    assert_eq!(context.create_label("if"), "if000000ff");
    assert_eq!(context.create_label("if"), "if00000100");
    assert_eq!(context.create_label("else"), "else00000001");
    assert_eq!(context.create_label(""), "00000000");
    assert!(context.can_label("if"));
}

#[test]
fn loops_nest() {
    let mut context = Context::new(registry(&[]));
    assert_eq!(context.get_labelled_region().map(|frame| frame.end), None);
    assert!(context.exit_labelled_region().is_none());
    context.enter_labelled_region(LabelFrame { start: "a".into(), end: "b".into() });
    context.enter_labelled_region(LabelFrame::from(("c".to_string(), "d".to_string())));
    let inner = context.get_labelled_region().unwrap();
    assert_eq!((inner.start.as_str(), inner.end.as_str()), ("c", "d"));
    let left = context.exit_labelled_region().unwrap();
    assert_eq!((left.start.as_str(), left.end.as_str()), ("c", "d"));
    let outer = context.get_labelled_region().unwrap();
    assert_eq!((outer.start.as_str(), outer.end.as_str()), ("a", "b"));
    assert!(context.exit_labelled_region().is_some());
    assert!(context.get_labelled_region().is_none());
}

#[test]
fn a_function_is_entered_with_its_parameters() {
    let mut context = Context::new(registry(&[("add", &["a", "b", "c"]), ("none", &[])]));
    assert!(context.knows_function("add"));
    assert!(!context.knows_function("sub"));
    assert_eq!(context.enter_function("add"), Ok(String::new()));
    assert_eq!(context.depth(), 2);
    assert_eq!(context.stack_height(), 4);
    assert_eq!(context.get_variable("a"), Some("    push qword [rsp + 24]\n".to_string()));
    assert_eq!(context.pop("rax"), "    pop rax\n");
    assert_eq!(context.get_variable("b"), Some("    push qword [rsp + 16]\n".to_string()));
    assert_eq!(context.pop("rax"), "    pop rax\n");
    assert_eq!(context.get_variable("c"), Some("    push qword [rsp + 8]\n".to_string()));
    assert_eq!(context.pop("rax"), "    pop rax\n");
    assert_eq!(context.get_variable("a"), Some("    push qword [rsp + 24]\n".to_string()));
    assert_eq!(context.get_variable("b"), Some("    push qword [rsp + 24]\n".to_string()));
    assert_eq!(context.get_variable("c"), Some("    push qword [rsp + 24]\n".to_string()));
    assert_eq!(
        context.set_variable("a", "rax"),
        Err(CodegenError::ChangedImmutableVariable("a".into()))
    );
    assert_eq!(
        context.unwind(),
        Ok("    add rsp, 24\n    pop rbx\n    add rsp, 24\n    push rax\n    push rbx\n    ret\n"
            .to_string())
    );
    assert_eq!(
        context.exit_function(),
        Ok("    add rsp, 24\n    mov rbx, [rsp]\n    add rsp, 32\n    push rbx\n    ret\n"
            .to_string())
    );
    assert_eq!(context.depth(), 0);
    assert_eq!(context.stack_height(), 0);
    assert_eq!(
        context.enter_function("sub"),
        Err(CodegenError::FunctionNotDeclared("sub".into()))
    );
    assert_eq!(context.depth(), 0);
    assert_eq!(context.enter_function("none"), Ok(String::new()));
    assert_eq!(context.stack_height(), 1);
    assert_eq!(
        context.exit_function(),
        Ok("    add rsp, 0\n    mov rbx, [rsp]\n    add rsp, 8\n    push rbx\n    ret\n".to_string())
    );
}

#[test]
fn there_is_nothing_to_return_from_outside_a_function() {
    let mut context = Context::new(registry(&[]));
    assert_eq!(context.unwind(), Err(CodegenError::OutsideFunction));
    context.enter();
    assert_eq!(context.unwind(), Err(CodegenError::OutsideFunction));
    assert_eq!(
        Statement::Return(*literal("1")).codegen_x86(&mut context),
        Err(CodegenError::OutsideFunction)
    );
    let mut fresh = Context::new(registry(&[("f", &[])]));
    assert!(Statement::Let { identifier: "x".into(), value: *literal("1"), is_mutable: false }
        .codegen_x86(&mut fresh)
        .is_ok());
    assert_eq!(fresh.unwind(), Err(CodegenError::OutsideFunction));
    assert_eq!(
        Statement::Return(Expr::Identifier("x".into())).codegen_x86(&mut fresh),
        Err(CodegenError::OutsideFunction)
    );
    assert_eq!(fresh.enter_function("f"), Ok(String::new()));
    assert_eq!(
        fresh.unwind(),
        Ok("    add rsp, 0\n    pop rbx\n    add rsp, 0\n    push rax\n    push rbx\n    ret\n"
            .to_string())
    );
    fresh.enter();
    fresh.push("2");
    assert_eq!(
        fresh.unwind(),
        Ok("    add rsp, 8\n    pop rbx\n    add rsp, 0\n    push rax\n    push rbx\n    ret\n"
            .to_string())
    );
    fresh.exit();
    assert!(fresh.exit_function().is_ok());
    assert_eq!(fresh.unwind(), Err(CodegenError::OutsideFunction));
}

#[test]
fn a_call_leaves_its_result_in_place_of_its_arguments() {
    let mut context = Context::new(registry(&[("f", &["a", "b"])]));
    context.push("1");
    context.push("2");
    context.push("3");
    assert_eq!(context.stack_height(), 3);
    context.release(2);
    assert_eq!(context.stack_height(), 1);
    context.claim();
    assert_eq!(context.stack_height(), 2);
    let call = Expr::FunctionCall { name: "f".into(), args: vec![*literal("7"), *literal("8")] };
    assert_eq!(
        call.codegen_x86(&mut context),
        Ok("    push 7\n    push 8\n    call f\n".to_string())
    );
    assert_eq!(context.stack_height(), 3);
    let unknown = Expr::FunctionCall { name: "g".into(), args: vec![] };
    assert_eq!(
        unknown.codegen_x86(&mut context),
        Err(CodegenError::FunctionNotDeclared("g".into()))
    );
}

#[test]
fn a_value_takes_one_slot() {
    let mut context = Context::new(registry(&[("f", &[])]));
    context.push("5");
    context.declare_variable("x".into(), false);
    let values = vec![
        *literal("1"),
        Expr::Identifier("x".into()),
        Expr::Add(literal("1"), literal("2")),
        Expr::Lt(literal("1"), Box::new(Expr::Mul(literal("2"), literal("3")))),
        Expr::FunctionCall { name: "f".into(), args: vec![] },
        Expr::Mod(
            Box::new(Expr::Identifier("x".into())),
            Box::new(Expr::FunctionCall { name: "f".into(), args: vec![] }),
        ),
    ];
    let mut height = context.stack_height();
    let depth = context.depth();
    for value in values {
        assert!(value.codegen_x86(&mut context).is_ok());
        height += 1;
        assert_eq!(context.stack_height(), height);
        assert_eq!(context.depth(), depth);
    }
}

#[test]
fn a_block_leaves_the_stack_as_high_as_it_was() {
    let mut context = Context::new(registry(&[]));
    context.push("5");
    let block = Expr::Block(vec![
        Statement::Let { identifier: "a".into(), value: *literal("1"), is_mutable: true },
        Statement::Expr(Expr::Add(literal("1"), literal("2"))),
        Statement::Expr(Expr::Block(vec![Statement::Expr(*literal("3"))])),
        Statement::Expr(Expr::AddAssign { identifier: "a".into(), value: literal("4") }),
    ]);
    assert_eq!(
        block.codegen_x86(&mut context),
        Ok("    push 1\n\
            \x20   push 1\n    push 2\n    pop rbx\n    pop rax\n    add rax, rbx\n    push rax\n\
            \x20   push 3\n    add rsp, 8\n\
            \x20   push 4\n    push qword [rsp + 16]\n    pop rax\n    pop rbx\n    add rax, rbx\n\
            \x20   mov qword [rsp + 8], rax\n\
            \x20   add rsp, 16\n"
            .to_string())
    );
    assert_eq!(context.stack_height(), 1);
    assert_eq!(context.depth(), 1);
    assert_eq!(context.get_variable("a"), None);
}

#[test]
fn the_code_of_each_operator() {
    let table: Vec<(Expr, &str)> = vec![
        (Expr::Add(literal("1"), literal("2")), "    add rax, rbx\n    push rax\n"),
        (Expr::Sub(literal("1"), literal("2")), "    sub rax, rbx\n    push rax\n"),
        (Expr::Mul(literal("1"), literal("2")), "    mul rbx\n    push rax\n"),
        (Expr::Div(literal("1"), literal("2")), "    xor rdx, rdx\n    div rbx\n    push rax\n"),
        (Expr::Mod(literal("1"), literal("2")), "    xor rdx, rdx\n    div rbx\n    push rdx\n"),
        (Expr::Eq(literal("1"), literal("2")), "    mov rcx, 0\n    cmp rax, rbx\n    sete cl\n    push rcx\n"),
        (Expr::Ne(literal("1"), literal("2")), "    mov rcx, 0\n    cmp rax, rbx\n    setne cl\n    push rcx\n"),
        (Expr::Lt(literal("1"), literal("2")), "    mov rcx, 0\n    cmp rax, rbx\n    setl cl\n    push rcx\n"),
        (Expr::Le(literal("1"), literal("2")), "    mov rcx, 0\n    cmp rax, rbx\n    setle cl\n    push rcx\n"),
        (Expr::Gt(literal("1"), literal("2")), "    mov rcx, 0\n    cmp rax, rbx\n    setg cl\n    push rcx\n"),
        (Expr::Ge(literal("1"), literal("2")), "    mov rcx, 0\n    cmp rax, rbx\n    setge cl\n    push rcx\n"),
    ];
    for (expr, tail) in table {
        let mut context = Context::new(registry(&[]));
        let expected = format!("    push 1\n    push 2\n    pop rbx\n    pop rax\n{}", tail);
        assert_eq!(expr.codegen_x86(&mut context), Ok(expected));
        assert_eq!(context.stack_height(), 1);
    }
}

#[test]
fn the_code_of_each_compound_assignment() {
    let table: Vec<(fn(String, Box<Expr>) -> Expr, &str, &str)> = vec![
        (|identifier, value| Expr::AddAssign { identifier, value }, "    add rax, rbx\n", "rax"),
        (|identifier, value| Expr::SubAssign { identifier, value }, "    sub rax, rbx\n", "rax"),
        (|identifier, value| Expr::MulAssign { identifier, value }, "    mul rbx\n", "rax"),
        (|identifier, value| Expr::DivAssign { identifier, value }, "    xor rdx, rdx\n    div rbx\n", "rax"),
        (|identifier, value| Expr::ModAssign { identifier, value }, "    xor rdx, rdx\n    div rbx\n", "rdx"),
    ];
    for (make, instructions, result) in table {
        let mut context = Context::new(registry(&[]));
        context.push("9");
        context.declare_variable("v".into(), true);
        let expected = format!(
            "    push 2\n    push qword [rsp + 8]\n    pop rax\n    pop rbx\n{}    mov qword [rsp + 0], {}\n",
            instructions, result
        );
        assert_eq!(make("v".into(), literal("2")).codegen_x86(&mut context), Ok(expected));
        assert_eq!(context.stack_height(), 1);
    }
}

#[test]
fn the_code_of_the_control_forms() {
    let mut context = Context::new(registry(&[]));
    let conditional = Expr::If {
        check: literal("1"),
        body: Box::new(Statement::Expr(*literal("2"))),
        els: Some(Box::new(Statement::Expr(*literal("3")))),
    };
    assert_eq!(
        conditional.codegen_x86(&mut context),
        Ok("if00000000:\n    push 1\n    pop rax\n    or rax, rax\n    jz else00000000\n\
            \x20   push 2\n    add rsp, 8\n    jmp endif00000000\nelse00000000:\n\
            \x20   push 3\n    add rsp, 8\nendif00000000:\n"
            .to_string())
    );
    let bare = Expr::If { check: literal("1"), body: Box::new(Statement::Break), els: None };
    assert_eq!(bare.codegen_x86(&mut context), Err(CodegenError::OutsideLoop));
    let infinite = Expr::Loop { body: Box::new(Statement::Break) };
    assert_eq!(
        infinite.codegen_x86(&mut context),
        Ok("loop00000000:\n    jmp endloop00000000\n    jmp loop00000000\nendloop00000000:\n"
            .to_string())
    );
    let conditional_loop = Expr::While { check: literal("0"), body: Box::new(Statement::Continue) };
    assert_eq!(
        conditional_loop.codegen_x86(&mut context),
        Ok("while00000000:\n    push 0\n    pop rax\n    or rax, rax\n    jz endwhile00000000\n\
            \x20   jmp while00000000\n    jmp while00000000\nendwhile00000000:\n"
            .to_string())
    );
    assert!(context.get_labelled_region().is_none());
    assert_eq!(context.create_label("if"), "if00000002");
    assert_eq!(context.create_label("else"), "else00000002");
    assert_eq!(context.create_label("loop"), "loop00000001");
}

#[test]
fn the_code_of_the_statements() {
    let mut context = Context::new(registry(&[]));
    assert_eq!(
        Statement::Exit { value: *literal("3") }.codegen_x86(&mut context),
        Ok("    push 3\n    mov rax, 60\n    pop rdi\n    syscall\n".to_string())
    );
    assert_eq!(
        Statement::Let { identifier: "x".into(), value: *literal("4"), is_mutable: false }
            .codegen_x86(&mut context),
        Ok("    push 4\n".to_string())
    );
    assert_eq!(
        Statement::Expr(Expr::Identifier("x".into())).codegen_x86(&mut context),
        Ok("    push qword [rsp + 0]\n".to_string())
    );
    assert_eq!(Statement::Break.codegen_x86(&mut context), Err(CodegenError::OutsideLoop));
    assert_eq!(Statement::Continue.codegen_x86(&mut context), Err(CodegenError::OutsideLoop));
    context.enter_labelled_region(LabelFrame { start: "top".into(), end: "bottom".into() });
    assert_eq!(Statement::Break.codegen_x86(&mut context), Ok("    jmp bottom\n".to_string()));
    assert_eq!(Statement::Continue.codegen_x86(&mut context), Ok("    jmp top\n".to_string()));
    assert_eq!(
        Statement::Exit { value: Expr::Block(vec![]) }.codegen_x86(&mut Context::new(registry(&[]))),
        Err(CodegenError::EmptyStack)
    );
}

#[test]
fn the_code_of_an_item_and_of_a_program() {
    let item = Item::Function {
        name: "id".into(),
        params: vec![Param { name: "a".into() }],
        body: Statement::Return(Expr::Identifier("a".into())),
    };
    let program = Program(vec![item]);
    let mut context = Context::new(TypeRegistry::from(&program));
    assert_eq!(
        program.codegen_x86(&mut context),
        Ok("global _start\nid:\n    push qword [rsp + 8]\n    pop rax\n    add rsp, 0\n\
            \x20   pop rbx\n    add rsp, 8\n    push rax\n    push rbx\n    ret\n\
            \x20   add rsp, 0\n    mov rbx, [rsp]\n    add rsp, 16\n    push rbx\n    ret\n"
            .to_string())
    );
    assert_eq!(context.stack_height(), 0);
    let stray = Item::Function { name: "g".into(), params: vec![], body: Statement::Break };
    assert_eq!(
        stray.codegen_x86(&mut Context::new(registry(&[]))),
        Err(CodegenError::FunctionNotDeclared("g".into()))
    );
    assert_eq!(Program(vec![]).codegen_x86(&mut context), Ok("global _start\n".to_string()));
}

#[test]
fn the_registry_holds_the_last_definition_of_a_name() {
    let registry = registry(&[("f", &["a"]), ("g", &[]), ("f", &["x", "y"])]);
    let names = |function: &Function| -> Vec<String> {
        function.params.iter().map(|param| param.name.clone()).collect()
    };
    assert_eq!(registry.get_function("f").map(names), Some(vec!["x".to_string(), "y".to_string()]));
    assert_eq!(registry.get_function("g").map(names), Some(vec![]));
    assert!(registry.get_function("h").is_none());
    let mut built = TypeRegistry::new();
    assert!(built.get_function("f").is_none());
    built.register("f".into(), Function { params: vec![] });
    assert!(built.get_function("f").is_some());
    assert!(TypeRegistry::from_program(&Program(vec![])).get_function("f").is_none());
}

#[test]
fn a_stack_of_frames() {
    let mut stack = VariableStack::new();
    assert_eq!(stack.depth(), 0);
    assert!(stack.peek().is_none());
    assert!(stack.pop().is_none());
    assert_eq!(stack.get_offset("x"), None);
    assert_eq!(stack.is_mutable("x"), None);
    stack.declare_variable("x".into(), true);
    assert_eq!(stack.depth(), 1);
    assert_eq!(stack.get_offset("x"), Some(0));
    assert_eq!(stack.is_mutable("x"), Some(true));
    stack.push(VariableFrame::with_size(3));
    assert_eq!(stack.peek().map(|frame| frame.size()), Some(3));
    assert_eq!(stack.get_offset("x"), Some(3));
    stack.declare_variable("y".into(), false);
    stack.declare_variable_at("z".into(), true, 1);
    stack.declare_variable_at("far".into(), true, 4);
    assert_eq!(stack.get_offset("y"), Some(0));
    assert_eq!(stack.get_offset("z"), Some(2));
    assert_eq!(stack.get_offset("far"), None);
    assert_eq!(stack.is_mutable("far"), Some(true));
    assert_eq!(stack.is_mutable("y"), Some(false));
    stack.declare_variable_at("x".into(), false, 3);
    assert_eq!(stack.get_offset("x"), Some(0));
    assert_eq!(stack.is_mutable("x"), Some(false));
    stack.push(VariableFrame::default());
    assert_eq!(stack.get_offset("z"), Some(2));
    assert_eq!(stack.pop().map(|frame| frame.size()), Some(0));
    assert_eq!(stack.pop().map(|frame| frame.size()), Some(3));
    assert_eq!(stack.get_offset("x"), Some(0));
    assert_eq!(stack.is_mutable("x"), Some(true));
    assert_eq!(stack.depth(), 1);
}

#[test]
fn the_limit_of_the_stack_fits_a_byte_offset() {
    assert_eq!(MAX_SLOTS, u64::MAX / 8);
    assert!(MAX_SLOTS.checked_mul(8).is_some());
    assert!((MAX_SLOTS + 1).checked_mul(8).is_none());
}

#[test]
fn the_code_of_a_function_starts_with_its_label_and_ends_with_ret() {
    let add = Item::Function {
        name: "add".into(),
        params: vec![Param { name: "a".into() }, Param { name: "b".into() }],
        body: Statement::Expr(Expr::Block(vec![Statement::Return(Expr::Add(
            Box::new(Expr::Identifier("a".into())),
            Box::new(Expr::Identifier("b".into())),
        ))])),
    };
    let mut context = Context::new(registry(&[("add", &["a", "b"])]));
    context.enter();
    context.push("1");
    let depth = context.depth();
    let height = context.stack_height();
    let code = add.codegen_x86(&mut context).unwrap();
    assert_eq!(
        code,
        "add:\n\
         \x20   push qword [rsp + 16]\n    push qword [rsp + 16]\n\
         \x20   pop rbx\n    pop rax\n    add rax, rbx\n    push rax\n\
         \x20   pop rax\n    add rsp, 0\n    pop rbx\n    add rsp, 16\n\
         \x20   push rax\n    push rbx\n    ret\n\
         \x20   add rsp, 0\n    add rsp, 0\n    mov rbx, [rsp]\n    add rsp, 24\n\
         \x20   push rbx\n    ret\n"
    );
    assert!(code.starts_with("add:\n"));
    assert!(code.ends_with("    ret\n"));
    assert_eq!(context.depth(), depth);
    assert_eq!(context.stack_height(), height);
}
