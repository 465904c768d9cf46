use beryllium::{compile_source, CompileError};
use std::collections::HashMap;

/// What became of a run of emitted code.
#[derive(Debug, PartialEq, Eq)]
enum Run {
    /// The `exit` system call, with the exit code that the shell would see.
    Exited(u8),
    /// Anything else: a fault, or too many steps.
    Stopped(String),
}

fn memory_slot(operand: &str) -> Option<usize> {
    let inner = operand.strip_prefix("qword ").unwrap_or(operand);
    let inner = inner.strip_prefix('[')?.strip_suffix(']')?;
    if inner == "rsp" {
        return Some(0);
    }
    let bytes: usize = inner.strip_prefix("rsp + ")?.parse().ok()?;
    assert_eq!(bytes % 8, 0, "an unaligned slot: {}", operand);
    Some(bytes / 8)
}

struct Machine {
    registers: HashMap<String, u64>,
    stack: Vec<u64>,
    compared: (u64, u64),
    zero: bool,
}

impl Machine {
    fn read(&self, operand: &str) -> Result<u64, String> {
        if let Some(slot) = memory_slot(operand) {
            if slot >= self.stack.len() {
                return Err(format!("a read below the stack: {}", operand));
            }
            return Ok(self.stack[self.stack.len() - 1 - slot]);
        }
        if let Some(value) = self.registers.get(operand) {
            return Ok(*value);
        }
        operand.parse::<u64>().map_err(|_| format!("an unknown operand: {}", operand))
    }

    fn write(&mut self, operand: &str, value: u64) -> Result<(), String> {
        if let Some(slot) = memory_slot(operand) {
            if slot >= self.stack.len() {
                return Err(format!("a write below the stack: {}", operand));
            }
            let at = self.stack.len() - 1 - slot;
            self.stack[at] = value;
            return Ok(());
        }
        match self.registers.get_mut(operand) {
            Some(register) => {
                *register = value;
                Ok(())
            }
            None => Err(format!("an unknown destination: {}", operand)),
        }
    }
}

/// Runs the assembly text `code` from `_start` as the processor would, with
/// the stack as the kernel leaves it: one slot on top.
fn run(code: &str) -> Run {
    let mut lines: Vec<&str> = Vec::new();
    let mut labels: HashMap<&str, usize> = HashMap::new();
    for line in code.lines() {
        if line.starts_with("global ") {
            continue;
        }
        if let Some(label) = line.strip_suffix(':') {
            assert!(!label.starts_with(' '), "an indented label: {:?}", line);
            assert!(labels.insert(label, lines.len()).is_none(), "a label twice: {}", label);
        } else {
            assert!(line.starts_with("    "), "an instruction that is not indented: {:?}", line);
            lines.push(line.trim());
        }
    }
    let mut machine = Machine {
        registers: ["rax", "rbx", "rcx", "rdx", "rdi"]
            .iter()
            .map(|name| (name.to_string(), 0xdead_beef_u64))
            .collect(),
        stack: vec![1],
        compared: (0, 0),
        zero: false,
    };
    let mut at = match labels.get("_start") {
        Some(at) => *at,
        None => return Run::Stopped("no _start".into()),
    };
    for _ in 0..1_000_000 {
        if at >= lines.len() {
            return Run::Stopped("ran off the end of the code".into());
        }
        let line = lines[at];
        at += 1;
        let (name, rest) = line.split_once(' ').unwrap_or((line, ""));
        let operands: Vec<&str> =
            if rest.is_empty() { Vec::new() } else { rest.split(", ").collect() };
        let outcome: Result<(), String> = (|| {
            match (name, operands.as_slice()) {
                ("push", [source]) => {
                    let value = machine.read(source)?;
                    machine.stack.push(value);
                }
                ("pop", [target]) => {
                    let value = machine.stack.pop().ok_or("a pop from an empty stack")?;
                    machine.write(target, value)?;
                }
                ("mov", [target, source]) => {
                    let value = machine.read(source)?;
                    machine.write(target, value)?;
                }
                ("add", ["rsp", bytes]) => {
                    let bytes: usize = bytes.parse().map_err(|_| "a bad release")?;
                    if bytes % 8 != 0 || bytes / 8 > machine.stack.len() {
                        return Err(format!("a release of {} bytes", bytes));
                    }
                    let kept = machine.stack.len() - bytes / 8;
                    machine.stack.truncate(kept);
                }
                ("add", ["rax", "rbx"]) => {
                    let value = machine.read("rax")?.wrapping_add(machine.read("rbx")?);
                    machine.write("rax", value)?;
                }
                ("sub", ["rax", "rbx"]) => {
                    let value = machine.read("rax")?.wrapping_sub(machine.read("rbx")?);
                    machine.write("rax", value)?;
                }
                ("mul", ["rbx"]) => {
                    let product =
                        (machine.read("rax")? as u128) * (machine.read("rbx")? as u128);
                    machine.write("rax", product as u64)?;
                    machine.write("rdx", (product >> 64) as u64)?;
                }
                ("xor", ["rdx", "rdx"]) => {
                    machine.write("rdx", 0)?;
                }
                ("div", ["rbx"]) => {
                    let divisor = machine.read("rbx")? as u128;
                    let dividend =
                        ((machine.read("rdx")? as u128) << 64) | (machine.read("rax")? as u128);
                    if divisor == 0 || dividend / divisor > u64::MAX as u128 {
                        return Err("a divide error".into());
                    }
                    machine.write("rax", (dividend / divisor) as u64)?;
                    machine.write("rdx", (dividend % divisor) as u64)?;
                }
                ("cmp", ["rax", "rbx"]) => {
                    machine.compared = (machine.read("rax")?, machine.read("rbx")?);
                }
                ("or", ["rax", "rax"]) => {
                    machine.zero = machine.read("rax")? == 0;
                }
                ("sete" | "setne" | "setl" | "setle" | "setg" | "setge", ["cl"]) => {
                    let (left, right) = (machine.compared.0 as i64, machine.compared.1 as i64);
                    let holds = match name {
                        "sete" => left == right,
                        "setne" => left != right,
                        "setl" => left < right,
                        "setle" => left <= right,
                        "setg" => left > right,
                        _ => left >= right,
                    };
                    let value = (machine.read("rcx")? & !0xff) | (holds as u64);
                    machine.write("rcx", value)?;
                }
                ("jmp", [label]) => {
                    at = *labels.get(label).ok_or(format!("no label {}", label))?;
                }
                ("jz", [label]) => {
                    if machine.zero {
                        at = *labels.get(label).ok_or(format!("no label {}", label))?;
                    }
                }
                ("call", [label]) => {
                    machine.stack.push(at as u64);
                    at = *labels.get(label).ok_or(format!("no label {}", label))?;
                }
                ("ret", []) => {
                    at = machine.stack.pop().ok_or("a return from an empty stack")? as usize;
                }
                _ => return Err(format!("an unknown instruction: {}", line)),
            }
            Ok(())
        })();
        if name == "syscall" {
            return if machine.registers["rax"] == 60 {
                Run::Exited(machine.registers["rdi"] as u8)
            } else {
                Run::Stopped("a system call other than exit".into())
            };
        }
        if let Err(fault) = outcome {
            return Run::Stopped(fault);
        }
    }
    Run::Stopped("too many steps".into())
}

fn exit_code(source: &str) -> Run {
    match compile_source(source) {
        Ok(code) => run(&code),
        Err(error) => Run::Stopped(format!("{:?}", error)),
    }
}

fn in_start(body: &str) -> String {
    format!("fn _start() {{ {} }}", body)
}

#[test]
fn exit_with_zero() {
    assert_eq!(exit_code(&in_start("exit(0);")), Run::Exited(0));
}

#[test]
fn exit_with_a_literal() {
    assert_eq!(exit_code(&in_start("exit(20);")), Run::Exited(20));
}

#[test]
fn exit_with_a_variable() {
    assert_eq!(exit_code(&in_start("let x = 10; exit(x);")), Run::Exited(10));
    assert_eq!(exit_code(&in_start("let x = 0; let y = 20; exit(y);")), Run::Exited(20));
    assert_eq!(exit_code(&in_start("let x = 7; let y = 20; exit(x);")), Run::Exited(7));
}

#[test]
fn addition() {
    assert_eq!(exit_code(&in_start("exit(1 + 2);")), Run::Exited(3));
    assert_eq!(exit_code(&in_start("exit(1 + 2 + 3);")), Run::Exited(6));
    assert_eq!(exit_code(&in_start("let a = 2; let b = 4; exit(a + b);")), Run::Exited(6));
}

#[test]
fn multiplication() {
    assert_eq!(exit_code(&in_start("exit(2 * 3);")), Run::Exited(6));
    assert_eq!(exit_code(&in_start("let a = 2; let b = 4; exit(a * b);")), Run::Exited(8));
}

#[test]
fn division_and_remainder() {
    assert_eq!(exit_code(&in_start("exit(7 / 2);")), Run::Exited(3));
    assert_eq!(exit_code(&in_start("exit(7 % 2);")), Run::Exited(1));
    assert_eq!(exit_code(&in_start("exit(10 / 2);")), Run::Exited(5));
    assert_eq!(exit_code(&in_start("exit(10 % 5);")), Run::Exited(0));
}

#[test]
fn division_does_not_depend_on_what_was_computed_before() {
    assert_eq!(exit_code(&in_start("let r = 7 % 4; exit(9 / 3);")), Run::Exited(3));
    assert_eq!(exit_code(&in_start("let r = 7 % 4; exit(r + 9 % 5);")), Run::Exited(7));
    assert_eq!(exit_code(&in_start("let mut x = 17; x %= 5; x /= 2; exit(x);")), Run::Exited(1));
}

#[test]
fn subtraction_associates_to_the_left() {
    assert_eq!(exit_code(&in_start("exit(3 - 2);")), Run::Exited(1));
    assert_eq!(exit_code(&in_start("exit(5 - 3 - 2);")), Run::Exited(0));
    assert_eq!(exit_code(&in_start("exit(1 - 2 - 3);")), Run::Exited(252));
    assert_eq!(exit_code(&in_start("exit(10 - 1 - 2 - 3);")), Run::Exited(4));
    assert_eq!(exit_code(&in_start("exit(64 / 4 / 2 / 2);")), Run::Exited(4));
    assert_eq!(exit_code(&in_start("exit(2 + 3 * 4 - 10 / 5);")), Run::Exited(12));
}

#[test]
fn if_and_else() {
    let source = in_start("let x = 5; if (x == 5) exit(0); else exit(1);");
    assert_eq!(exit_code(&source), Run::Exited(0));
    let source = in_start("let x = 4; if (x == 5) exit(0); else exit(1);");
    assert_eq!(exit_code(&source), Run::Exited(1));
    assert_eq!(exit_code(&in_start("if (1) exit(1); exit(0);")), Run::Exited(1));
    assert_eq!(exit_code(&in_start("if (0) exit(1); exit(0);")), Run::Exited(0));
    assert_eq!(exit_code(&in_start("if (0) { exit(1); } else { exit(2); }")), Run::Exited(2));
}

#[test]
fn comparisons() {
    let table = [
        ("1 == 1", 1), ("1 == 2", 0), ("1 != 2", 1), ("2 != 2", 0),
        ("1 < 2", 1), ("2 < 2", 0), ("3 < 2", 0),
        ("1 <= 2", 1), ("2 <= 2", 1), ("3 <= 2", 0),
        ("3 > 2", 1), ("2 > 2", 0), ("1 > 2", 0),
        ("3 >= 2", 1), ("2 >= 2", 1), ("1 >= 2", 0),
        ("0 - 1 < 0", 1), ("0 > 0 - 1", 1),
    ];
    for (text, expected) in table {
        let source = in_start(&format!("exit({});", text));
        assert_eq!(exit_code(&source), Run::Exited(expected), "{}", text);
    }
}

#[test]
fn while_counts_to_ten() {
    let source = in_start("let mut i = 0; while (i < 10) i += 1; exit(i);");
    assert_eq!(exit_code(&source), Run::Exited(10));
    let source = in_start("let mut i = 0; let mut s = 0; while (i < 5) { i += 1; s += i; } exit(s);");
    assert_eq!(exit_code(&source), Run::Exited(15));
}

#[test]
fn loop_with_break_and_continue() {
    let source = in_start("let mut i = 0; loop { if (i == 10) break; i += 1; } exit(i);");
    assert_eq!(exit_code(&source), Run::Exited(10));
    let source = in_start(
        "let mut i = 0; let mut odd = 0; \
         while (i < 10) { i += 1; if (i % 2 == 0) continue; odd += 1; } exit(odd);",
    );
    assert_eq!(exit_code(&source), Run::Exited(5));
}

#[test]
fn compound_assignments() {
    assert_eq!(exit_code(&in_start("let mut x = 10; x += 5; exit(x);")), Run::Exited(15));
    assert_eq!(exit_code(&in_start("let mut x = 10; x -= 4; exit(x);")), Run::Exited(6));
    assert_eq!(exit_code(&in_start("let mut x = 10; x *= 3; exit(x);")), Run::Exited(30));
    assert_eq!(exit_code(&in_start("let mut x = 10; x /= 3; exit(x);")), Run::Exited(3));
    assert_eq!(exit_code(&in_start("let mut x = 10; x %= 3; exit(x);")), Run::Exited(1));
    assert_eq!(exit_code(&in_start("let mut x = 1; let y = 2; x += y * 3; exit(x);")), Run::Exited(7));
}

#[test]
fn variables_in_nested_scopes() {
    let source = in_start("let x = 5; { let y = 3; } exit(x);");
    assert_eq!(exit_code(&source), Run::Exited(5));
    let source = in_start("let x = 1; { let x = 2; { let x = 3; exit(x); } }");
    assert_eq!(exit_code(&source), Run::Exited(3));
    let source = in_start("let x = 1; let mut r = 0; { let y = 2; { let z = 4; r += x + y + z; } } exit(r);");
    assert_eq!(exit_code(&source), Run::Exited(7));
    let source = in_start("let x = 3; { 1 + 2; 4; } if (1) { 5; let q = 6; } exit(x);");
    assert_eq!(exit_code(&source), Run::Exited(3));
}

#[test]
fn a_function_is_called_and_returns() {
    let source = "fn add(a, b) { return a + b; } fn _start() { exit(add(2, 3)); }";
    assert_eq!(exit_code(source), Run::Exited(5));
    let source = "fn one() { return 1; } fn _start() { exit(one()); }";
    assert_eq!(exit_code(source), Run::Exited(1));
    let source = "fn twice(n) { return n + n; } fn _start() { let a = 4; exit(twice(a) + twice(a + 1)); }";
    assert_eq!(exit_code(source), Run::Exited(18));
}

#[test]
fn a_return_unwinds_the_scopes_it_stands_in() {
    let source = "fn pick(n) { let a = 10; if (n == 1) { let b = 20; { let c = 30; return a + b + c; } } return a; } \
                  fn _start() { let keep = 7; exit(pick(1) + pick(2) + keep); }";
    assert_eq!(exit_code(source), Run::Exited(77));
    let source = "fn count(n) { let mut i = 0; loop { if (i == n) return i * 2; i += 1; } } \
                  fn _start() { exit(count(21)); }";
    assert_eq!(exit_code(source), Run::Exited(42));
}

#[test]
fn functions_call_functions() {
    let source = "fn fact(n) { if (n < 2) return 1; return n * fact(n - 1); } \
                  fn _start() { exit(fact(5)); }";
    assert_eq!(exit_code(source), Run::Exited(120));
    let source = "fn _start() { exit(later(20)); } fn later(n) { return n + 1; }";
    assert_eq!(exit_code(source), Run::Exited(21));
}

#[test]
fn the_parameters_are_the_arguments_in_order() {
    let source = "fn first(a, b) { return a; } fn _start() { exit(first(7, 9)); }";
    assert_eq!(exit_code(source), Run::Exited(7));
    let source = "fn second(a, b) { return b; } fn _start() { exit(second(7, 9)); }";
    assert_eq!(exit_code(source), Run::Exited(9));
    let source = "fn sub(a, b) { return a - b; } fn _start() { exit(sub(5, 3)); }";
    assert_eq!(exit_code(source), Run::Exited(2));
    let source = "fn mix(a, b, c) { let d = 1; { return a * 100 + b * 10 + c + d - 1; } } \
                  fn _start() { exit(mix(1, 2, 3)); }";
    assert_eq!(exit_code(source), Run::Exited(123));
    let source = "fn div(a, b) { return a / b; } fn _start() { let k = 4; exit(div(k * 5, k)); }";
    assert_eq!(exit_code(source), Run::Exited(5));
}

#[test]
fn assigning_to_an_immutable_variable_fails() {
    let source = in_start("let x = 1; x += 1; exit(x);");
    assert_eq!(
        compile_source(&source),
        Err(CompileError::ChangedImmutableVariable("x".into()))
    );
    let source = in_start("let mut x = 1; x += 1; exit(x);");
    assert_eq!(exit_code(&source), Run::Exited(2));
}

#[test]
fn there_is_no_plain_assignment() {
    let source = in_start("let x = 1; x = 2; exit(x);");
    match compile_source(&source) {
        Err(CompileError::UnexpectedToken(token)) => {
            assert_eq!(
                token.data,
                beryllium::tokenize::TokenData::Symbol(beryllium::tokenize::Symbol::Equals)
            );
            assert_eq!(token.location.index, 27);
        }
        other => panic!("{:?}", other),
    }
}

#[test]
fn a_jump_outside_every_loop_fails() {
    assert_eq!(compile_source(&in_start("break;")), Err(CompileError::OutsideLoop));
    assert_eq!(compile_source(&in_start("continue;")), Err(CompileError::OutsideLoop));
    assert_eq!(
        compile_source(&in_start("let x = 1; if (x) { { break; } } exit(0);")),
        Err(CompileError::OutsideLoop)
    );
    assert_eq!(
        compile_source(&in_start("loop { break; } continue;")),
        Err(CompileError::OutsideLoop)
    );
    assert!(compile_source(&in_start("loop { if (1) { break; } } exit(0);")).is_ok());
}

#[test]
fn the_errors_of_each_stage() {
    assert_eq!(
        compile_source(&in_start("exit(y);")),
        Err(CompileError::IdentifierNotDeclared("y".into()))
    );
    assert_eq!(
        compile_source(&in_start("y += 1;")),
        Err(CompileError::IdentifierNotDeclared("y".into()))
    );
    assert_eq!(
        compile_source(&in_start("exit(f(1));")),
        Err(CompileError::FunctionNotDeclared("f".into()))
    );
    assert_eq!(compile_source("fn _start() { exit(1 $ 2); }"), Err(CompileError::UnrecognizedCharacter('$')));
    assert_eq!(compile_source("fn _start() { exit(1);"), Err(CompileError::UnexpectedEnd));
    assert_eq!(compile_source(&in_start("exit({});")), Err(CompileError::EmptyStack));
    assert_eq!(compile_source(&in_start("let x = { 1; } + 2;")), Err(CompileError::EmptyStack));
    assert!(matches!(compile_source("exit(0);"), Err(CompileError::UnexpectedToken(_))));
}

#[test]
fn a_variable_is_gone_with_its_scope() {
    assert_eq!(
        compile_source(&in_start("{ let y = 1; } exit(y);")),
        Err(CompileError::IdentifierNotDeclared("y".into()))
    );
    assert_eq!(
        compile_source("fn f(a) { return a; } fn _start() { exit(a); }"),
        Err(CompileError::IdentifierNotDeclared("a".into()))
    );
}

#[test]
fn an_empty_source_is_an_empty_program() {
    assert_eq!(compile_source(""), Ok("global _start\n".to_string()));
    assert_eq!(compile_source(" \n\t"), Ok("global _start\n".to_string()));
}

#[test]
fn the_same_source_gives_the_same_code() {
    let source = "fn add(a, b) { return a + b; } fn _start() { let mut i = 0; while (i < 3) { i += add(1, 0); } exit(i); }";
    let first = compile_source(source);
    let second = compile_source(source);
    assert!(first.is_ok());
    assert_eq!(first, second);
    assert_eq!(exit_code(source), Run::Exited(3));
}

#[test]
fn the_code_of_the_smallest_program() {
    let expected = "global _start\n\
                    _start:\n\
                    \x20   push 0\n\
                    \x20   mov rax, 60\n\
                    \x20   pop rdi\n\
                    \x20   syscall\n\
                    \x20   add rsp, 0\n\
                    \x20   add rsp, 0\n\
                    \x20   mov rbx, [rsp]\n\
                    \x20   add rsp, 8\n\
                    \x20   push rbx\n\
                    \x20   ret\n";
    assert_eq!(compile_source("fn _start() { exit(0); }"), Ok(expected.to_string()));
}
