use tinyeval::host::Host;
use tinyeval::ir::{
    BinaryOperator, Data, Exec, Expr, Function, Literal, NaryOperator, Prototype, Reference,
    ReservedIdents, TernaryOperator, UnaryOperator,
};
use tinyeval::misc::modulo;
use tinyeval::state::{call_by_name, State};
use tinyeval::value::{Fatal, Heap, Value};

/// A host for tests: captured output, an in-memory file store, and real
/// 64-bit float arithmetic on the bit patterns.
struct TestHost {
    lines: Vec<String>,
    files: Vec<(String, String)>,
}

impl TestHost {
    fn new() -> TestHost {
        TestHost { lines: Vec::new(), files: Vec::new() }
    }
}

impl Host for TestHost {
    fn print_line(&mut self, line: &str) {
        self.lines.push(line.to_string());
    }

    fn read_file(&mut self, path: &str) -> Result<String, String> {
        for (p, c) in &self.files {
            if p == path {
                return Ok(c.clone());
            }
        }
        Err(format!("no such file: {}", path))
    }

    fn write_file(&mut self, path: &str, contents: &str) -> Result<(), String> {
        self.files.push((path.to_string(), contents.to_string()));
        Ok(())
    }

    fn float_add(&mut self, a: u64, b: u64) -> u64 {
        (f64::from_bits(a) + f64::from_bits(b)).to_bits()
    }

    fn float_sub(&mut self, a: u64, b: u64) -> u64 {
        (f64::from_bits(a) - f64::from_bits(b)).to_bits()
    }

    fn float_mul(&mut self, a: u64, b: u64) -> u64 {
        (f64::from_bits(a) * f64::from_bits(b)).to_bits()
    }

    fn float_div(&mut self, a: u64, b: u64) -> u64 {
        (f64::from_bits(a) / f64::from_bits(b)).to_bits()
    }

    fn float_modulo(&mut self, a: u64, b: u64) -> u64 {
        let left = f64::from_bits(a);
        let right = f64::from_bits(b);
        let mut result = left % right;
        if result != 0.0 && ((result < 0.0) != (right < 0.0)) {
            result += right;
        }
        result.to_bits()
    }

    fn float_neg(&mut self, a: u64) -> u64 {
        (-f64::from_bits(a)).to_bits()
    }

    fn float_eq(&mut self, a: u64, b: u64) -> bool {
        f64::from_bits(a) == f64::from_bits(b)
    }

    fn float_lt(&mut self, a: u64, b: u64) -> bool {
        f64::from_bits(a) < f64::from_bits(b)
    }

    fn float_leq(&mut self, a: u64, b: u64) -> bool {
        f64::from_bits(a) <= f64::from_bits(b)
    }

    fn float_of_int(&mut self, i: i64) -> u64 {
        (i as f64).to_bits()
    }

    fn float_to_int(&mut self, a: u64) -> i64 {
        f64::from_bits(a) as i64
    }

    fn float_display(&mut self, a: u64) -> String {
        format!("{}", f64::from_bits(a))
    }
}

fn lit_nil() -> Expr {
    Expr::Literal { literal: Literal::Nil }
}

fn lit_int(i: i64) -> Expr {
    Expr::Literal { literal: Literal::Int(i) }
}

fn lit_float(x: f64) -> Expr {
    Expr::Literal { literal: Literal::Float(x.to_bits()) }
}

fn lit_str(s: &str) -> Expr {
    Expr::Literal { literal: Literal::Str(s.to_string()) }
}

fn unary(operator: UnaryOperator, expr: Expr) -> Expr {
    Expr::UnaryOperation { operator, expr: Box::new(expr) }
}

fn binary(operator: BinaryOperator, left: Expr, right: Expr) -> Expr {
    Expr::BinaryOperation { operator, left: Box::new(left), right: Box::new(right) }
}

fn var(k: usize) -> Expr {
    Expr::Reference { reference: Reference::Variable(k) }
}

fn set_var(k: usize, expr: Expr) -> Exec {
    Exec::Expr { expr: Expr::SetVar { variable: Reference::Variable(k), expr: Box::new(expr) } }
}

fn print_stmt(expr: Expr) -> Exec {
    Exec::Expr { expr: unary(UnaryOperator::Print, expr) }
}

/// A program with one `main` taking no parameters and `nvars` locals.
fn program(nvars: usize, body: Vec<Exec>) -> Data {
    Data {
        functions: vec![Function {
            name: "main".to_string(),
            parameters: vec![],
            variables: (0..nvars).map(|i| format!("v{}", i)).collect(),
            body,
        }],
        prototypes: vec![],
        ident_map: vec![],
        reserved_idents: ReservedIdents { next: 0, __call__: 1 },
        files: vec![],
    }
}

/// Run `main`, checking the load-time validation and, afterwards, that the
/// frame stack is completely empty again.
fn run(data: &Data, host: &mut TestHost) -> Result<Option<Value>, Fatal> {
    assert!(data.check());
    let mut state = State::new();
    let r = call_by_name(data, &mut state, host, "main", &vec![]);
    // The universal frame invariant: a finished program leaves no frame.
    assert_eq!(state.variables.len(), 0);
    assert_eq!(state.variables_begin, 0);
    r
}

fn empty_data() -> Data {
    program(0, vec![])
}

fn string_content(heap: &Heap, v: &Value) -> String {
    match v {
        Value::Str(id) => heap.strings[*id].clone(),
        _ => panic!("expected a string value"),
    }
}

#[test]
fn modulo_takes_the_divisor_sign() {
    assert_eq!(modulo(7, 3), 1);
    assert_eq!(modulo(-7, 3), 2);
    assert_eq!(modulo(7, -3), -2);
    assert_eq!(modulo(-7, -3), -1);
    assert_eq!(modulo(4, -2), 0);
    assert_eq!(modulo(i64::MIN, -1), 0);
}

#[test]
fn err_is_idempotent() {
    let mut heap = Heap::new();
    let e = Value::new_err(&mut heap, "x");
    let inner_id = match &e {
        Value::Error(b) => match **b {
            Value::Str(id) => id,
            _ => panic!("expected a string payload"),
        },
        _ => panic!("expected an error"),
    };
    match e.err() {
        Value::Error(b) => match *b {
            Value::Str(id) => assert_eq!(id, inner_id),
            _ => panic!("err changed the payload"),
        },
        _ => panic!("err unwrapped an error"),
    }
}

#[test]
fn bool_is_idempotent() {
    let samples = vec![
        Value::Nil,
        Value::IterEnd,
        Value::Bool(false),
        Value::Bool(true),
        Value::Int(0),
        Value::Str(0),
    ];
    for v in samples {
        let once = v.clone().bool();
        let twice = once.clone().bool();
        match (once, twice) {
            (Value::Bool(a), Value::Bool(b)) => assert_eq!(a, b),
            _ => panic!("bool() must give a boolean"),
        }
    }
}

#[test]
fn is_compares_cells_and_eq_compares_contents() {
    let data = empty_data();
    let mut host = TestHost::new();
    let mut heap = Heap::new();
    let a = Value::List(heap.new_list(vec![Value::Int(1)]));
    let b = Value::List(heap.new_list(vec![Value::Int(1)]));
    assert!(a.is(&a));
    assert!(!a.is(&b));
    assert!(a.eq(&b, &heap, &mut host, &data, 64).unwrap());
}

#[test]
fn eq_true_never_crosses_type_groups() {
    let data = empty_data();
    let mut host = TestHost::new();
    let mut heap = Heap::new();
    let s = Value::Str(heap.new_string("1".to_string()));
    assert!(!s.eq(&Value::Int(1), &heap, &mut host, &data, 64).unwrap());
    assert!(Value::Int(1).eq(&Value::Bool(true), &heap, &mut host, &data, 64).unwrap());
    assert!(Value::Float(1.0f64.to_bits()).eq(&Value::Int(1), &heap, &mut host, &data, 64).unwrap());
    // Cross-numeric equality compares by value: a fractional float never
    // equals an integer.
    assert!(!Value::Int(1).eq(&Value::Float(1.5f64.to_bits()), &heap, &mut host, &data, 64).unwrap());
    assert!(!Value::Float(1.5f64.to_bits()).eq(&Value::Int(1), &heap, &mut host, &data, 64).unwrap());
}

#[test]
fn getitem_counts_negative_indexes_from_the_end() {
    let data = empty_data();
    let mut heap = Heap::new();
    let s = Value::Str(heap.new_string("abc".to_string()));
    let c = s.clone().getitem(Value::Int(-1), &mut heap, &data);
    assert_eq!(string_content(&heap, &c), "c");
    let out = s.clone().getitem(Value::Int(3), &mut heap, &data);
    assert!(matches!(out, Value::Nil));
    let far = s.getitem(Value::Int(-4), &mut heap, &data);
    assert!(matches!(far, Value::Nil));
}

#[test]
fn setitem_then_getitem_returns_the_written_value() {
    let data = empty_data();
    let mut heap = Heap::new();
    let l = Value::List(heap.new_list(vec![Value::Int(1), Value::Int(2)]));
    let wrote = l.clone().setitem(Value::Int(1), Value::Int(9), &mut heap, &data);
    assert!(matches!(wrote, Value::Nil));
    let back = l.getitem(Value::Int(1), &mut heap, &data);
    assert!(matches!(back, Value::Int(9)));
}

#[test]
fn integer_division_by_zero_is_fatal() {
    let mut host = TestHost::new();
    let data = program(
        0,
        vec![Exec::Expr { expr: binary(BinaryOperator::Div, lit_int(0), lit_int(0)) }],
    );
    assert!(run(&data, &mut host).is_err());
}

#[test]
fn float_zero_over_zero_is_nan() {
    let mut host = TestHost::new();
    let zero = Value::Float(0.0f64.to_bits());
    let r = zero.clone().div(zero, &mut host).unwrap();
    match r {
        Value::Float(bits) => assert!(f64::from_bits(bits).is_nan()),
        _ => panic!("float division must stay a float"),
    }
}

#[test]
fn arithmetic_promotion_prints_a_float() {
    let mut host = TestHost::new();
    let data = program(
        0,
        vec![print_stmt(binary(BinaryOperator::Add, lit_int(1), lit_float(2.5)))],
    );
    run(&data, &mut host).unwrap();
    assert_eq!(host.lines, vec!["3.5".to_string()]);
}

#[test]
fn errors_are_falsy_in_conditions() {
    let mut host = TestHost::new();
    let data = program(
        0,
        vec![print_stmt(Expr::TernaryOperation {
            operator: TernaryOperator::Branch,
            first: Box::new(unary(UnaryOperator::Error, lit_str("x"))),
            second: Box::new(lit_str("t")),
            third: Box::new(lit_str("f")),
        })],
    );
    run(&data, &mut host).unwrap();
    assert_eq!(host.lines, vec!["\"f\"".to_string()]);
}

/// The iterator protocol: a prototype `R` with fields `{i, n}` and a `next`
/// method that yields `i` while `i < n`, then the end sentinel.
#[test]
fn for_loops_drive_the_iterator_protocol() {
    // Identifier ids: 0 = next, 1 = __call__, 2 = i, 3 = n.
    // Functions: 0 = main, 1 = next. Locals of next: self, tmp.
    let next_body = vec![Exec::Branch {
        condition: binary(
            BinaryOperator::Lt,
            Expr::GetField { instance: Box::new(var(0)), field_id: 2 },
            Expr::GetField { instance: Box::new(var(0)), field_id: 3 },
        ),
        then: vec![
            set_var(1, Expr::GetField { instance: Box::new(var(0)), field_id: 2 }),
            Exec::Expr {
                expr: Expr::SetField {
                    instance: Box::new(var(0)),
                    field_id: 2,
                    value: Box::new(binary(BinaryOperator::Add, var(1), lit_int(1))),
                },
            },
            Exec::Return { expr: var(1) },
        ],
        otherwise: vec![Exec::Return { expr: Expr::Literal { literal: Literal::IterEnd } }],
    }];
    let main_body = vec![Exec::ForLoop {
        variable: Reference::Variable(0),
        iterator: Expr::Struct { prototype: 0, values: vec![lit_int(0), lit_int(3)] },
        block: vec![print_stmt(var(0))],
    }];
    let data = Data {
        functions: vec![
            Function {
                name: "main".to_string(),
                parameters: vec![],
                variables: vec!["x".to_string()],
                body: main_body,
            },
            Function {
                name: "next".to_string(),
                parameters: vec!["self".to_string()],
                variables: vec!["self".to_string(), "tmp".to_string()],
                body: next_body,
            },
        ],
        prototypes: vec![Prototype {
            name: "R".to_string(),
            field_map: vec![(2, 0), (3, 1)],
            method_map: vec![(0, 1)],
        }],
        ident_map: vec![
            (0, "next".to_string()),
            (1, "__call__".to_string()),
            (2, "i".to_string()),
            (3, "n".to_string()),
        ],
        reserved_idents: ReservedIdents { next: 0, __call__: 1 },
        files: vec![],
    };
    let mut host = TestHost::new();
    run(&data, &mut host).unwrap();
    assert_eq!(host.lines, vec!["0".to_string(), "1".to_string(), "2".to_string()]);
}

/// A struct whose prototype exposes `__call__` can be called like a
/// function.
#[test]
fn callable_structs_dispatch_through_call() {
    // Functions: 0 = main, 1 = answer.
    let data = Data {
        functions: vec![
            Function {
                name: "main".to_string(),
                parameters: vec![],
                variables: vec![],
                body: vec![Exec::Return {
                    expr: Expr::Call {
                        callable: Box::new(Expr::Struct { prototype: 0, values: vec![] }),
                        parameters: vec![],
                    },
                }],
            },
            Function {
                name: "answer".to_string(),
                parameters: vec!["self".to_string()],
                variables: vec!["self".to_string()],
                body: vec![Exec::Return { expr: lit_int(42) }],
            },
        ],
        prototypes: vec![Prototype {
            name: "C".to_string(),
            field_map: vec![],
            method_map: vec![(1, 1)],
        }],
        ident_map: vec![(0, "next".to_string()), (1, "__call__".to_string())],
        reserved_idents: ReservedIdents { next: 0, __call__: 1 },
        files: vec![],
    };
    let mut host = TestHost::new();
    let r = run(&data, &mut host).unwrap();
    assert!(matches!(r, Some(Value::Int(42))));
}

#[test]
fn calling_anything_else_gives_a_not_callable_error() {
    let mut host = TestHost::new();
    let data = program(
        0,
        vec![Exec::Return {
            expr: Expr::Call { callable: Box::new(lit_int(5)), parameters: vec![] },
        }],
    );
    let r = run(&data, &mut host).unwrap();
    assert!(matches!(r, Some(Value::Error(_))));
}

/// Two names can alias one list: pushing through one is seen through the
/// other.
#[test]
fn assignment_aliases_shared_lists() {
    let mut host = TestHost::new();
    let data = program(
        2,
        vec![
            set_var(0, Expr::NaryOperation { operator: NaryOperator::List, parameters: vec![lit_int(1)] }),
            set_var(1, var(0)),
            Exec::Expr { expr: binary(BinaryOperator::Push, var(1), lit_int(2)) },
            print_stmt(unary(UnaryOperator::Len, var(0))),
        ],
    );
    run(&data, &mut host).unwrap();
    assert_eq!(host.lines, vec!["2".to_string()]);
}

/// `or_die` of an error value ends the program fatally, carrying the error's
/// display form.
#[test]
fn or_die_of_an_error_is_fatal_with_the_message() {
    let mut host = TestHost::new();
    let data = program(
        0,
        vec![Exec::Expr {
            expr: Expr::OrDie {
                expr: Box::new(unary(UnaryOperator::Error, lit_str("boom"))),
                range: tinyeval::ir::Range { file: 0, line: 0, col: 0, len: 0 },
            },
        }],
    );
    let f = run(&data, &mut host).unwrap_err();
    assert!(f.message.contains("boom"));
    assert_eq!(f.message, "err(\"boom\")");
}

#[test]
fn or_die_passes_other_values_through() {
    let mut host = TestHost::new();
    let data = program(
        0,
        vec![Exec::Return {
            expr: Expr::OrDie {
                expr: Box::new(lit_int(7)),
                range: tinyeval::ir::Range { file: 0, line: 0, col: 0, len: 0 },
            },
        }],
    );
    let r = run(&data, &mut host).unwrap();
    assert!(matches!(r, Some(Value::Int(7))));
}

/// `str(int(n)) == str(n)` for integers.
#[test]
fn str_of_int_coercion_is_str_of_the_integer() {
    let data = empty_data();
    let mut host = TestHost::new();
    for n in vec![0i64, 7, -7, 1234567890, i64::MIN, i64::MAX] {
        let v = Value::Int(n);
        let coerced = v.clone().to_int(&mut host).unwrap();
        let mut heap = Heap::new();
        let a = v.str(&data, &mut heap, &mut host).unwrap();
        let b = coerced.str(&data, &mut heap, &mut host).unwrap();
        assert_eq!(string_content(&heap, &a), string_content(&heap, &b));
        assert_eq!(string_content(&heap, &a), format!("{}", n));
    }
}

/// Joining with the empty separator concatenates the display forms of the
/// elements.
#[test]
fn join_with_empty_separator_concatenates() {
    let data = empty_data();
    let mut host = TestHost::new();
    let mut heap = Heap::new();
    let a = Value::Str(heap.new_string("a".to_string()));
    let b = Value::Str(heap.new_string("b".to_string()));
    let l = Value::List(heap.new_list(vec![a, b]));
    let sep = Value::Str(heap.new_string(String::new()));
    let joined = l.join(&data, &mut heap, &mut host, sep).unwrap();
    // The display form of a string is quoted, so the concatenation keeps
    // the quotes of each element.
    assert_eq!(string_content(&heap, &joined), "\"a\"\"b\"");
}

#[test]
fn join_interposes_the_separator() {
    let data = empty_data();
    let mut host = TestHost::new();
    let mut heap = Heap::new();
    let l = Value::List(heap.new_list(vec![Value::Int(1), Value::Int(2), Value::Int(3)]));
    let sep = Value::Str(heap.new_string("; ".to_string()));
    let joined = l.join(&data, &mut heap, &mut host, sep).unwrap();
    assert_eq!(string_content(&heap, &joined), "1; 2; 3");
}

/// An empty function body produces no value, so the call yields `Nil`.
#[test]
fn empty_bodies_return_nothing() {
    let mut host = TestHost::new();
    let data = program(0, vec![]);
    let r = run(&data, &mut host).unwrap();
    assert!(r.is_none());
}

#[test]
fn missing_functions_are_not_called() {
    let mut host = TestHost::new();
    let data = program(0, vec![]);
    assert!(data.check());
    let mut state = State::new();
    let r = call_by_name(&data, &mut state, &mut host, "absent", &vec![]).unwrap();
    assert!(r.is_none());
}

#[test]
fn the_split_plugin_cuts_at_separators() {
    let mut host = TestHost::new();
    let data = program(
        0,
        vec![Exec::Return {
            expr: Expr::Plugin { id: 0, parameters: vec![lit_str("a,b,c"), lit_str(",")] },
        }],
    );
    assert!(data.check());
    let mut state = State::new();
    let r = call_by_name(&data, &mut state, &mut host, "main", &vec![]).unwrap().unwrap();
    let items = match r {
        Value::List(l) => state.heap.lists[l].clone(),
        _ => panic!("split must give a list"),
    };
    let contents: Vec<String> =
        items.iter().map(|v| string_content(&state.heap, v)).collect();
    assert_eq!(contents, vec!["a".to_string(), "b".to_string(), "c".to_string()]);
}

#[test]
fn the_split_plugin_cuts_every_boundary_on_an_empty_separator() {
    let mut host = TestHost::new();
    let data = program(
        0,
        vec![Exec::Return {
            expr: Expr::Plugin { id: 0, parameters: vec![lit_str("ab"), lit_str("")] },
        }],
    );
    assert!(data.check());
    let mut state = State::new();
    let r = call_by_name(&data, &mut state, &mut host, "main", &vec![]).unwrap().unwrap();
    let items = match r {
        Value::List(l) => state.heap.lists[l].clone(),
        _ => panic!("split must give a list"),
    };
    let contents: Vec<String> =
        items.iter().map(|v| string_content(&state.heap, v)).collect();
    assert_eq!(
        contents,
        vec!["".to_string(), "a".to_string(), "b".to_string(), "".to_string()]
    );
}

#[test]
fn reads_and_writes_go_through_the_host() {
    let mut host = TestHost::new();
    let data = program(
        0,
        vec![
            Exec::Expr {
                expr: binary(BinaryOperator::Write, lit_str("notes"), lit_str("hello")),
            },
            print_stmt(unary(UnaryOperator::Read, lit_str("notes"))),
        ],
    );
    run(&data, &mut host).unwrap();
    assert_eq!(host.lines, vec!["\"hello\"".to_string()]);
}

#[test]
fn reading_a_missing_file_is_an_error_value() {
    let mut host = TestHost::new();
    let data = program(
        0,
        vec![Exec::Return { expr: unary(UnaryOperator::Read, lit_str("absent")) }],
    );
    let r = run(&data, &mut host).unwrap();
    assert!(matches!(r, Some(Value::Error(_))));
}

#[test]
fn index_finds_substrings_and_elements() {
    let data = empty_data();
    let mut host = TestHost::new();
    let mut heap = Heap::new();
    let hay = Value::Str(heap.new_string("hello".to_string()));
    let needle = Value::Str(heap.new_string("ll".to_string()));
    let at = hay.index(needle, &heap, &mut host, &data, 64).unwrap();
    assert!(matches!(at, Value::Int(2)));
    // The reported position is the byte offset in the UTF-8 form: a
    // two-byte character before the match counts as two.
    let hay = Value::Str(heap.new_string("\u{e9}x".to_string()));
    let needle = Value::Str(heap.new_string("x".to_string()));
    let at = hay.index(needle, &heap, &mut host, &data, 64).unwrap();
    assert!(matches!(at, Value::Int(2)));
    let l = Value::List(heap.new_list(vec![Value::Int(4), Value::Int(5)]));
    let at = l.clone().index(Value::Int(5), &heap, &mut host, &data, 64).unwrap();
    assert!(matches!(at, Value::Int(1)));
    let missing = l.index(Value::Int(6), &heap, &mut host, &data, 64).unwrap();
    assert!(matches!(missing, Value::Nil));
}

#[test]
fn out_of_range_shifts_are_fatal() {
    assert!(Value::Int(1).leftshift(Value::Int(64)).is_err());
    assert!(Value::Int(1).rightshift(Value::Int(-1)).is_err());
    assert!(matches!(
        Value::Int(1).leftshift(Value::Int(3)).unwrap(),
        Value::Int(8)
    ));
}

#[test]
fn unsupported_operand_pairs_give_nil() {
    let mut host = TestHost::new();
    let r = Value::Int(1).sub(Value::Str(0), &mut host);
    assert!(matches!(r, Value::Nil));
    let r = Value::Nil.lt(Value::Int(1), &mut host);
    assert!(matches!(r, Value::Nil));
}

#[test]
fn structs_display_their_prototype_and_fields() {
    let mut host = TestHost::new();
    let data = Data {
        functions: vec![Function {
            name: "main".to_string(),
            parameters: vec![],
            variables: vec![],
            body: vec![print_stmt(Expr::Struct {
                prototype: 0,
                values: vec![lit_int(1), lit_str("x")],
            })],
        }],
        prototypes: vec![Prototype {
            name: "P".to_string(),
            field_map: vec![(2, 0), (3, 1)],
            method_map: vec![],
        }],
        ident_map: vec![
            (0, "next".to_string()),
            (1, "__call__".to_string()),
            (2, "a".to_string()),
            (3, "b".to_string()),
        ],
        reserved_idents: ReservedIdents { next: 0, __call__: 1 },
        files: vec![],
    };
    run(&data, &mut host).unwrap();
    assert_eq!(host.lines, vec!["P{a = 1, b = \"x\"}".to_string()]);
}

#[test]
fn while_loops_run_until_falsy() {
    let mut host = TestHost::new();
    let data = program(
        1,
        vec![
            set_var(0, lit_int(0)),
            Exec::While {
                condition: binary(BinaryOperator::Lt, var(0), lit_int(3)),
                block: vec![
                    print_stmt(var(0)),
                    set_var(0, binary(BinaryOperator::Add, var(0), lit_int(1))),
                ],
            },
        ],
    );
    run(&data, &mut host).unwrap();
    assert_eq!(host.lines, vec!["0".to_string(), "1".to_string(), "2".to_string()]);
}

#[test]
fn and_or_propagate_values_without_coercion() {
    let mut host = TestHost::new();
    let data = program(
        0,
        vec![
            print_stmt(binary(BinaryOperator::And, lit_int(1), lit_int(2))),
            print_stmt(binary(BinaryOperator::Or, lit_nil(), lit_int(3))),
            print_stmt(binary(BinaryOperator::And, lit_nil(), lit_int(4))),
        ],
    );
    run(&data, &mut host).unwrap();
    assert_eq!(
        host.lines,
        vec!["2".to_string(), "3".to_string(), "nil".to_string()]
    );
}

#[test]
fn the_loader_rejects_dangling_references() {
    // A variable index beyond the declared locals.
    let bad = program(1, vec![Exec::Return { expr: var(1) }]);
    assert!(!bad.check());
    // A struct construction with the wrong field count.
    let bad = Data {
        functions: vec![Function {
            name: "main".to_string(),
            parameters: vec![],
            variables: vec![],
            body: vec![Exec::Return {
                expr: Expr::Struct { prototype: 0, values: vec![] },
            }],
        }],
        prototypes: vec![Prototype {
            name: "P".to_string(),
            field_map: vec![(2, 0)],
            method_map: vec![],
        }],
        ident_map: vec![(2, "a".to_string())],
        reserved_idents: ReservedIdents { next: 0, __call__: 1 },
        files: vec![],
    };
    assert!(!bad.check());
}

#[test]
fn type_names_follow_the_variant() {
    let mut heap = Heap::new();
    let data = empty_data();
    let named = Value::Bool(true).typename(&data, &mut heap);
    assert_eq!(string_content(&heap, &named), "bool");
    let named = Value::Nil.typename(&data, &mut heap);
    assert_eq!(string_content(&heap, &named), "nil");
    let e = Value::new_err(&mut heap, "oops");
    let named = e.typename(&data, &mut heap);
    assert_eq!(string_content(&heap, &named), "err");
}

#[test]
fn do_while_runs_the_body_before_the_condition() {
    let mut host = TestHost::new();
    let data = program(
        1,
        vec![
            set_var(0, lit_int(10)),
            Exec::DoWhile {
                block: vec![print_stmt(var(0))],
                condition: binary(BinaryOperator::Lt, var(0), lit_int(3)),
            },
        ],
    );
    run(&data, &mut host).unwrap();
    assert_eq!(host.lines, vec!["10".to_string()]);
}

#[test]
fn die_wraps_plain_values_before_reporting() {
    let mut host = TestHost::new();
    let data = program(
        0,
        vec![Exec::Expr {
            expr: Expr::Die {
                expr: Box::new(lit_int(5)),
                range: tinyeval::ir::Range { file: 0, line: 0, col: 0, len: 0 },
            },
        }],
    );
    let f = run(&data, &mut host).unwrap_err();
    assert_eq!(f.message, "err(5)");
}

#[test]
fn remove_takes_an_element_out_in_place() {
    let data = empty_data();
    let mut heap = Heap::new();
    let l = Value::List(heap.new_list(vec![Value::Int(1), Value::Int(2), Value::Int(3)]));
    let taken = l.clone().remove(Value::Int(1), &mut heap, &data);
    assert!(matches!(taken, Value::Int(2)));
    let len = l.clone().len(&heap, &data);
    assert!(matches!(len, Value::Int(2)));
    let missing = l.remove(Value::Int(5), &mut heap, &data);
    assert!(matches!(missing, Value::Nil));
}

#[test]
fn list_equality_zips_the_common_prefix() {
    let data = empty_data();
    let mut host = TestHost::new();
    let mut heap = Heap::new();
    let short = Value::List(heap.new_list(vec![Value::Int(1)]));
    let long = Value::List(heap.new_list(vec![Value::Int(1), Value::Int(2)]));
    let different = Value::List(heap.new_list(vec![Value::Int(9)]));
    assert!(short.eq(&long, &heap, &mut host, &data, 64).unwrap());
    assert!(!short.eq(&different, &heap, &mut host, &data, 64).unwrap());
}

#[test]
fn modulo_of_values_follows_the_divisor() {
    let mut host = TestHost::new();
    let a = Value::Int(-7).modulo(Value::Int(3), &mut host).unwrap();
    assert!(matches!(a, Value::Int(2)));
    assert!(Value::Int(1).modulo(Value::Int(0), &mut host).is_err());
}

#[test]
fn string_repetition_builds_a_fresh_string() {
    let data = empty_data();
    let mut host = TestHost::new();
    let mut heap = Heap::new();
    let s = Value::Str(heap.new_string("ab".to_string()));
    let r = s.clone().mul(Value::Int(3), &mut heap, &mut host, &data);
    assert_eq!(string_content(&heap, &r), "ababab");
    let none = s.mul(Value::Int(-1), &mut heap, &mut host, &data);
    assert_eq!(string_content(&heap, &none), "");
}

#[test]
fn list_concatenation_allocates_a_new_cell() {
    let data = empty_data();
    let mut host = TestHost::new();
    let mut heap = Heap::new();
    let a = Value::List(heap.new_list(vec![Value::Int(1)]));
    let b = Value::List(heap.new_list(vec![Value::Int(2)]));
    let c = a.clone().add(b, &mut heap, &mut host, &data);
    assert!(!a.is(&c));
    let len = c.len(&heap, &data);
    assert!(matches!(len, Value::Int(2)));
}

#[test]
fn integer_arithmetic_wraps_on_overflow() {
    let mut host = TestHost::new();
    let data = empty_data();
    let mut heap = Heap::new();
    let r = Value::Int(i64::MAX).add(Value::Int(1), &mut heap, &mut host, &data);
    assert!(matches!(r, Value::Int(i64::MIN)));
}

/// Argument expressions are evaluated in the caller's frame before the
/// callee's frame is set up, so they can read the caller's locals.
#[test]
fn arguments_read_the_caller_frame() {
    // Functions: 0 = main, 1 = add2(a, b) { return a + b }.
    let data = Data {
        functions: vec![
            Function {
                name: "main".to_string(),
                parameters: vec![],
                variables: vec!["x".to_string()],
                body: vec![
                    set_var(0, lit_int(5)),
                    Exec::Return {
                        expr: Expr::Call {
                            callable: Box::new(Expr::Reference {
                                reference: Reference::Function(1),
                            }),
                            parameters: vec![
                                var(0),
                                binary(BinaryOperator::Add, var(0), lit_int(1)),
                            ],
                        },
                    },
                ],
            },
            Function {
                name: "add2".to_string(),
                parameters: vec!["a".to_string(), "b".to_string()],
                variables: vec!["a".to_string(), "b".to_string()],
                body: vec![Exec::Return { expr: binary(BinaryOperator::Add, var(0), var(1)) }],
            },
        ],
        prototypes: vec![],
        ident_map: vec![],
        reserved_idents: ReservedIdents { next: 0, __call__: 1 },
        files: vec![],
    };
    let mut host = TestHost::new();
    let r = run(&data, &mut host).unwrap();
    assert!(matches!(r, Some(Value::Int(11))));
}

/// A method read off a struct is bound to it: `self` arrives as the first
/// parameter, before the written arguments.
#[test]
fn bound_methods_carry_their_struct() {
    // Identifier ids: 2 = v (field), 3 = bump (method).
    // Functions: 0 = main, 1 = bump(self, by) { return self.v + by }.
    let data = Data {
        functions: vec![
            Function {
                name: "main".to_string(),
                parameters: vec![],
                variables: vec!["obj".to_string()],
                body: vec![
                    set_var(0, Expr::Struct { prototype: 0, values: vec![lit_int(40)] }),
                    Exec::Return {
                        expr: Expr::Call {
                            callable: Box::new(Expr::GetField {
                                instance: Box::new(var(0)),
                                field_id: 3,
                            }),
                            parameters: vec![lit_int(2)],
                        },
                    },
                ],
            },
            Function {
                name: "bump".to_string(),
                parameters: vec!["self".to_string(), "by".to_string()],
                variables: vec!["self".to_string(), "by".to_string()],
                body: vec![Exec::Return {
                    expr: binary(
                        BinaryOperator::Add,
                        Expr::GetField { instance: Box::new(var(0)), field_id: 2 },
                        var(1),
                    ),
                }],
            },
        ],
        prototypes: vec![Prototype {
            name: "Counter".to_string(),
            field_map: vec![(2, 0)],
            method_map: vec![(3, 1)],
        }],
        ident_map: vec![
            (0, "next".to_string()),
            (1, "__call__".to_string()),
            (2, "v".to_string()),
            (3, "bump".to_string()),
        ],
        reserved_idents: ReservedIdents { next: 0, __call__: 1 },
        files: vec![],
    };
    let mut host = TestHost::new();
    let r = run(&data, &mut host).unwrap();
    assert!(matches!(r, Some(Value::Int(42))));
}

/// Missing fields are an error value on reads; fields win over methods of
/// the same name on a read.
#[test]
fn field_reads_prefer_fields_and_report_misses() {
    let data = Data {
        functions: vec![Function {
            name: "main".to_string(),
            parameters: vec![],
            variables: vec!["obj".to_string()],
            body: vec![
                set_var(0, Expr::Struct { prototype: 0, values: vec![lit_int(7)] }),
                Exec::Return {
                    expr: Expr::GetField { instance: Box::new(var(0)), field_id: 9 },
                },
            ],
        }],
        prototypes: vec![Prototype {
            name: "P".to_string(),
            field_map: vec![(2, 0)],
            method_map: vec![],
        }],
        ident_map: vec![
            (0, "next".to_string()),
            (1, "__call__".to_string()),
            (2, "v".to_string()),
        ],
        reserved_idents: ReservedIdents { next: 0, __call__: 1 },
        files: vec![],
    };
    let mut host = TestHost::new();
    let r = run(&data, &mut host).unwrap();
    assert!(matches!(r, Some(Value::Error(_))));
    // Reading a field off a non-struct value gives Nil.
    let data = program(
        0,
        vec![Exec::Return {
            expr: Expr::GetField { instance: Box::new(lit_int(1)), field_id: 2 },
        }],
    );
    let r = run(&data, &mut host).unwrap();
    assert!(matches!(r, Some(Value::Nil)));
}
