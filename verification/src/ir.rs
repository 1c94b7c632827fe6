//! The immutable program representation: functions, prototypes, the
//! identifier table, and the statement/expression tree.
//!
//! The loader is expected to reject programs that are not well-formed; the
//! well-formedness predicate [`data_wf`] is decided by the verified
//! [`Data::check`], and every index the evaluator follows is covered by it.

use vstd::prelude::*;

verus! {

/// How many host-provided plugin operations exist (see `plugins`).
pub const PLUGIN_COUNT: usize = 1;

/// A block is a sequence of statements, run in order.
pub type Block = Vec<Exec>;

/// A source location, used only for diagnostics.
pub struct Range {
    /// Index for `Data.files`.
    pub file: usize,
    /// 0-indexed line number.
    pub line: usize,
    /// 0-indexed column number.
    pub col: usize,
    /// Length of the token.
    pub len: usize,
}

/// Identifiers the evaluator looks up by a well-known id: `next` drives
/// `for`-loops, `__call__` makes a struct callable.
pub struct ReservedIdents {
    pub next: usize,
    pub __call__: usize,
}

/// The shape of a struct: named fields (each mapped to a dense slot index)
/// and named methods (each mapped to a function index).
pub struct Prototype {
    pub name: String,
    /// Field ident id -> index into `Struct.values`.
    pub field_map: Vec<(usize, usize)>,
    /// Method ident id -> index into `Data.functions`.
    pub method_map: Vec<(usize, usize)>,
}

/// One function of the program. The first `parameters.len()` entries of
/// `variables` are the parameters, in order.
pub struct Function {
    pub name: String,
    pub parameters: Vec<String>,
    pub variables: Vec<String>,
    pub body: Block,
}

/// The whole immutable program.
pub struct Data {
    pub functions: Vec<Function>,
    pub prototypes: Vec<Prototype>,
    /// Ident id -> ident name.
    pub ident_map: Vec<(usize, String)>,
    pub reserved_idents: ReservedIdents,
    pub files: Vec<String>,
}

/// Literal values for the primitive data-types. A float literal is carried
/// as the bit pattern of its 64-bit representation; the library never
/// computes with it directly.
pub enum Literal {
    Nil,
    IterEnd,
    Bool(bool),
    Int(i64),
    Float(u64),
    Str(String),
}

/// Operators which take 1 parameter.
pub enum UnaryOperator {
    Not,
    BitNot,
    Minus,
    Type,
    Error,
    Bool,
    Int,
    Float,
    Str,
    Len,
    Print,
    Read,
}

/// Operators which take 2 parameters.
pub enum BinaryOperator {
    Add,
    Sub,
    Mul,
    Div,
    Modulo,
    GetItem,
    Eq,
    Is,
    Lt,
    Leq,
    BitAnd,
    BitOr,
    BitXor,
    LeftShift,
    RightShift,
    And,
    Or,
    Push,
    Remove,
    Index,
    Join,
    Write,
}

/// Operators which take 3 parameters.
pub enum TernaryOperator {
    Branch,
    SetItem,
}

/// Operators which take any number of parameters.
pub enum NaryOperator {
    List,
}

/// A reference names either a frame slot or a program function.
pub enum Reference {
    /// Offset into the current frame.
    Variable(usize),
    /// Index into `Data.functions`.
    Function(usize),
}

/// A statement.
pub enum Exec {
    While { condition: Expr, block: Block },
    ForLoop { variable: Reference, iterator: Expr, block: Block },
    DoWhile { block: Block, condition: Expr },
    Branch { condition: Expr, then: Block, otherwise: Block },
    Return { expr: Expr },
    /// A statement comprising an expression whose value is dropped.
    Expr { expr: Expr },
}

/// An expression.
pub enum Expr {
    Literal { literal: Literal },
    Reference { reference: Reference },
    UnaryOperation { operator: UnaryOperator, expr: Box<Expr> },
    BinaryOperation { operator: BinaryOperator, left: Box<Expr>, right: Box<Expr> },
    TernaryOperation { operator: TernaryOperator, first: Box<Expr>, second: Box<Expr>, third: Box<Expr> },
    NaryOperation { operator: NaryOperator, parameters: Vec<Expr> },
    Call { callable: Box<Expr>, parameters: Vec<Expr> },
    Plugin { id: usize, parameters: Vec<Expr> },
    Struct { prototype: usize, values: Vec<Expr> },
    SetVar { variable: Reference, expr: Box<Expr> },
    SetField { instance: Box<Expr>, field_id: usize, value: Box<Expr> },
    GetField { instance: Box<Expr>, field_id: usize },
    Die { expr: Box<Expr>, range: Range },
    OrDie { expr: Box<Expr>, range: Range },
}

/// Whether an identifier id has a name in the identifier table.
pub open spec fn ident_defined(data: Data, id: usize) -> bool {
    exists|i: int| 0 <= i < data.ident_map@.len() && (#[trigger] data.ident_map@[i]).0 == id
}

/// The name of an identifier: the first matching entry of the table.
pub open spec fn ident_name_from(entries: Seq<(usize, String)>, id: usize) -> Seq<char>
    decreases entries.len(),
{
    if entries.len() == 0 {
        Seq::empty()
    } else if entries[0].0 == id {
        entries[0].1@
    } else {
        ident_name_from(entries.skip(1), id)
    }
}

/// The name of an identifier id, as the display function renders it.
pub open spec fn ident_name(data: Data, id: usize) -> Seq<char> {
    ident_name_from(data.ident_map@, id)
}

/// A reference is in range: a variable offset within the `nvars` slots of
/// the frame it appears in, or an existing function index.
pub open spec fn reference_wf(r: Reference, data: Data, nvars: int) -> bool {
    match r {
        Reference::Variable(k) => k < nvars,
        Reference::Function(f) => f < data.functions@.len(),
    }
}

/// Every index inside the expression is in range for `data`, with variable
/// offsets below `nvars`. Assignment targets must name variables, and a
/// struct construction must supply exactly the prototype's field count.
pub open spec fn expr_wf(e: Expr, data: Data, nvars: int) -> bool
    decreases e,
{
    match e {
        Expr::Literal { literal } => true,
        Expr::Reference { reference } => reference_wf(reference, data, nvars),
        Expr::UnaryOperation { operator, expr } => expr_wf(*expr, data, nvars),
        Expr::BinaryOperation { operator, left, right } => expr_wf(*left, data, nvars)
            && expr_wf(*right, data, nvars),
        Expr::TernaryOperation { operator, first, second, third } => expr_wf(*first, data, nvars)
            && expr_wf(*second, data, nvars) && expr_wf(*third, data, nvars),
        Expr::NaryOperation { operator, parameters } => exprs_wf(parameters@, data, nvars),
        Expr::Call { callable, parameters } => expr_wf(*callable, data, nvars)
            && exprs_wf(parameters@, data, nvars),
        Expr::Plugin { id, parameters } => id < PLUGIN_COUNT && exprs_wf(parameters@, data, nvars),
        Expr::Struct { prototype, values } => prototype < data.prototypes@.len()
            && values@.len() == data.prototypes@[prototype as int].field_map@.len()
            && exprs_wf(values@, data, nvars),
        Expr::SetVar { variable, expr } => variable is Variable
            && reference_wf(variable, data, nvars) && expr_wf(*expr, data, nvars),
        Expr::SetField { instance, field_id, value } => expr_wf(*instance, data, nvars)
            && expr_wf(*value, data, nvars),
        Expr::GetField { instance, field_id } => expr_wf(*instance, data, nvars),
        Expr::Die { expr, range } => expr_wf(*expr, data, nvars),
        Expr::OrDie { expr, range } => expr_wf(*expr, data, nvars),
    }
}

/// All expressions of a sequence are well-formed.
pub open spec fn exprs_wf(es: Seq<Expr>, data: Data, nvars: int) -> bool
    decreases es,
{
    es.len() == 0 || (expr_wf(es[0], data, nvars) && exprs_wf(es.skip(1), data, nvars))
}

/// Every index inside the statement is in range (see [`expr_wf`]); a
/// `for`-loop binds a variable, never a function name.
pub open spec fn exec_wf(s: Exec, data: Data, nvars: int) -> bool
    decreases s,
{
    match s {
        Exec::While { condition, block } => expr_wf(condition, data, nvars)
            && block_wf(block@, data, nvars),
        Exec::ForLoop { variable, iterator, block } => variable is Variable
            && reference_wf(variable, data, nvars) && expr_wf(iterator, data, nvars)
            && block_wf(block@, data, nvars),
        Exec::DoWhile { block, condition } => block_wf(block@, data, nvars)
            && expr_wf(condition, data, nvars),
        Exec::Branch { condition, then, otherwise } => expr_wf(condition, data, nvars)
            && block_wf(then@, data, nvars) && block_wf(otherwise@, data, nvars),
        Exec::Return { expr } => expr_wf(expr, data, nvars),
        Exec::Expr { expr } => expr_wf(expr, data, nvars),
    }
}

/// All statements of a block are well-formed.
pub open spec fn block_wf(b: Seq<Exec>, data: Data, nvars: int) -> bool
    decreases b,
{
    b.len() == 0 || (exec_wf(b[0], data, nvars) && block_wf(b.skip(1), data, nvars))
}

/// A function declares at least as many variables as parameters, and its
/// body only mentions indices in range.
pub open spec fn function_wf(f: Function, data: Data) -> bool {
    f.parameters@.len() <= f.variables@.len() && block_wf(f.body@, data, f.variables@.len() as int)
}

/// Field slots are dense indices below the field count, every field name is
/// in the identifier table (the display function prints it), and methods
/// name existing functions.
pub open spec fn prototype_wf(p: Prototype, data: Data) -> bool {
    &&& forall|i: int|
        0 <= i < p.field_map@.len() ==> (#[trigger] p.field_map@[i]).1 < p.field_map@.len()
            && ident_defined(data, p.field_map@[i].0)
    &&& forall|i: int|
        0 <= i < p.method_map@.len() ==> (#[trigger] p.method_map@[i]).1 < data.functions@.len()
}

/// The invariant the loader establishes: every reference inside the program
/// is in range.
pub open spec fn data_wf(data: Data) -> bool {
    &&& forall|i: int|
        0 <= i < data.functions@.len() ==> function_wf(#[trigger] data.functions@[i], data)
    &&& forall|i: int|
        0 <= i < data.prototypes@.len() ==> prototype_wf(#[trigger] data.prototypes@[i], data)
}

impl Data {
    /// Decide [`data_wf`]: the loader calls this once and rejects the
    /// program when it fails, so the evaluator never follows a dangling
    /// index.
    #[verifier::loop_isolation(false)]
    pub fn check(&self) -> (ok: bool)
        ensures
            ok == data_wf(*self),
    {
        let mut i: usize = 0;
        while i < self.functions.len()
            invariant
                0 <= i <= self.functions@.len(),
                forall|j: int| 0 <= j < i ==> function_wf(#[trigger] self.functions@[j], *self),
            decreases self.functions@.len() - i,
        {
            let f = &self.functions[i];
            if f.parameters.len() > f.variables.len() {
                return false;
            }
            if !check_block(&f.body, self, f.variables.len()) {
                return false;
            }
            i = i + 1;
        }
        let mut p: usize = 0;
        while p < self.prototypes.len()
            invariant
                0 <= p <= self.prototypes@.len(),
                forall|j: int| 0 <= j < p ==> prototype_wf(#[trigger] self.prototypes@[j], *self),
            decreases self.prototypes@.len() - p,
        {
            if !self.check_prototype(p) {
                return false;
            }
            p = p + 1;
        }
        true
    }

    #[verifier::loop_isolation(false)]
    fn check_prototype(&self, p: usize) -> (ok: bool)
        requires
            p < self.prototypes@.len(),
        ensures
            ok == prototype_wf(self.prototypes@[p as int], *self),
    {
        let proto = &self.prototypes[p];
        let nfields = proto.field_map.len();
        let mut i: usize = 0;
        while i < proto.field_map.len()
            invariant
                0 <= i <= proto.field_map@.len(),
                nfields == proto.field_map@.len(),
                forall|j: int|
                    0 <= j < i ==> (#[trigger] proto.field_map@[j]).1 < proto.field_map@.len()
                        && ident_defined(*self, proto.field_map@[j].0),
            decreases proto.field_map@.len() - i,
        {
            let (ident, slot) = proto.field_map[i];
            if slot >= nfields {
                return false;
            }
            if !self.ident_exists(ident) {
                return false;
            }
            i = i + 1;
        }
        let mut m: usize = 0;
        while m < proto.method_map.len()
            invariant
                0 <= m <= proto.method_map@.len(),
                forall|j: int|
                    0 <= j < m ==> (#[trigger] proto.method_map@[j]).1 < self.functions@.len(),
            decreases proto.method_map@.len() - m,
        {
            if proto.method_map[m].1 >= self.functions.len() {
                return false;
            }
            m = m + 1;
        }
        true
    }

    #[verifier::loop_isolation(false)]
    fn ident_exists(&self, id: usize) -> (found: bool)
        ensures
            found == ident_defined(*self, id),
    {
        let mut i: usize = 0;
        while i < self.ident_map.len()
            invariant
                0 <= i <= self.ident_map@.len(),
                forall|j: int| 0 <= j < i ==> (#[trigger] self.ident_map@[j]).0 != id,
            decreases self.ident_map@.len() - i,
        {
            if self.ident_map[i].0 == id {
                return true;
            }
            i = i + 1;
        }
        false
    }

    /// The name of an identifier id: the first matching entry of the table,
    /// or the empty string when the id is unknown.
    #[verifier::loop_isolation(false)]
    pub fn ident_name(&self, id: usize) -> (name: String)
        ensures
            name@ == ident_name(*self, id),
    {
        proof {
            assert(self.ident_map@.skip(0) =~= self.ident_map@);
        }
        let mut i: usize = 0;
        while i < self.ident_map.len()
            invariant
                0 <= i <= self.ident_map@.len(),
                ident_name_from(self.ident_map@, id) == ident_name_from(
                    self.ident_map@.skip(i as int),
                    id,
                ),
            decreases self.ident_map@.len() - i,
        {
            if self.ident_map[i].0 == id {
                proof {
                    assert(self.ident_map@.skip(i as int)[0] == self.ident_map@[i as int]);
                }
                return self.ident_map[i].1.clone();
            }
            proof {
                assert(self.ident_map@.skip(i as int).skip(1) =~= self.ident_map@.skip(
                    i as int + 1,
                ));
                assert(self.ident_map@.skip(i as int)[0] == self.ident_map@[i as int]);
            }
            i = i + 1;
        }
        proof {
            assert(self.ident_map@.skip(i as int).len() == 0);
        }
        String::new()
    }
}

fn check_reference(r: &Reference, data: &Data, nvars: usize) -> (ok: bool)
    ensures
        ok == reference_wf(*r, *data, nvars as int),
{
    match r {
        Reference::Variable(k) => *k < nvars,
        Reference::Function(f) => *f < data.functions.len(),
    }
}

fn check_expr(e: &Expr, data: &Data, nvars: usize) -> (ok: bool)
    ensures
        ok == expr_wf(*e, *data, nvars as int),
    decreases *e,
{
    match e {
        Expr::Literal { literal } => true,
        Expr::Reference { reference } => check_reference(reference, data, nvars),
        Expr::UnaryOperation { operator, expr } => check_expr(expr, data, nvars),
        Expr::BinaryOperation { operator, left, right } => check_expr(left, data, nvars)
            && check_expr(right, data, nvars),
        Expr::TernaryOperation { operator, first, second, third } => check_expr(first, data, nvars)
            && check_expr(second, data, nvars) && check_expr(third, data, nvars),
        Expr::NaryOperation { operator, parameters } => check_exprs(parameters, data, nvars),
        Expr::Call { callable, parameters } => check_expr(callable, data, nvars) && check_exprs(
            parameters,
            data,
            nvars,
        ),
        Expr::Plugin { id, parameters } => *id < PLUGIN_COUNT && check_exprs(
            parameters,
            data,
            nvars,
        ),
        Expr::Struct { prototype, values } => *prototype < data.prototypes.len()
            && values.len() == data.prototypes[*prototype].field_map.len() && check_exprs(
            values,
            data,
            nvars,
        ),
        Expr::SetVar { variable, expr } => match variable {
            Reference::Variable(k) => *k < nvars && check_expr(expr, data, nvars),
            Reference::Function(_) => false,
        },
        Expr::SetField { instance, field_id, value } => check_expr(instance, data, nvars)
            && check_expr(value, data, nvars),
        Expr::GetField { instance, field_id } => check_expr(instance, data, nvars),
        Expr::Die { expr, range } => check_expr(expr, data, nvars),
        Expr::OrDie { expr, range } => check_expr(expr, data, nvars),
    }
}

#[verifier::loop_isolation(false)]
fn check_exprs(es: &Vec<Expr>, data: &Data, nvars: usize) -> (ok: bool)
    ensures
        ok == exprs_wf(es@, *data, nvars as int),
    decreases es,
{
    proof {
        assert(es@.skip(0) =~= es@);
    }
    let mut i: usize = 0;
    let mut ok = true;
    while i < es.len()
        invariant
            0 <= i <= es@.len(),
            ok,
            exprs_wf(es@, *data, nvars as int) == exprs_wf(es@.skip(i as int), *data, nvars as int),
        decreases es@.len() - i,
    {
        proof {
            assert(es@.skip(i as int)[0] == es@[i as int]);
            assert(es@.skip(i as int).skip(1) =~= es@.skip(i as int + 1));
        }
        if !check_expr(&es[i], data, nvars) {
            return false;
        }
        i = i + 1;
    }
    true
}

fn check_exec(s: &Exec, data: &Data, nvars: usize) -> (ok: bool)
    ensures
        ok == exec_wf(*s, *data, nvars as int),
    decreases *s,
{
    match s {
        Exec::While { condition, block } => check_expr(condition, data, nvars) && check_block(
            block,
            data,
            nvars,
        ),
        Exec::ForLoop { variable, iterator, block } => match variable {
            Reference::Variable(k) => *k < nvars && check_expr(iterator, data, nvars)
                && check_block(block, data, nvars),
            Reference::Function(_) => false,
        },
        Exec::DoWhile { block, condition } => check_block(block, data, nvars) && check_expr(
            condition,
            data,
            nvars,
        ),
        Exec::Branch { condition, then, otherwise } => check_expr(condition, data, nvars)
            && check_block(then, data, nvars) && check_block(otherwise, data, nvars),
        Exec::Return { expr } => check_expr(expr, data, nvars),
        Exec::Expr { expr } => check_expr(expr, data, nvars),
    }
}

#[verifier::loop_isolation(false)]
fn check_block(b: &Block, data: &Data, nvars: usize) -> (ok: bool)
    ensures
        ok == block_wf(b@, *data, nvars as int),
    decreases b,
{
    proof {
        assert(b@.skip(0) =~= b@);
    }
    let mut i: usize = 0;
    while i < b.len()
        invariant
            0 <= i <= b@.len(),
            block_wf(b@, *data, nvars as int) == block_wf(b@.skip(i as int), *data, nvars as int),
        decreases b@.len() - i,
    {
        proof {
            assert(b@.skip(i as int)[0] == b@[i as int]);
            assert(b@.skip(i as int).skip(1) =~= b@.skip(i as int + 1));
        }
        if !check_exec(&b[i], data, nvars) {
            return false;
        }
        i = i + 1;
    }
    true
}


/// The first value mapped to `id` in an association list, if any.
pub open spec fn pairs_lookup(entries: Seq<(usize, usize)>, id: usize) -> Option<usize>
    decreases entries.len(),
{
    if entries.len() == 0 {
        None
    } else if entries[0].0 == id {
        Some(entries[0].1)
    } else {
        pairs_lookup(entries.skip(1), id)
    }
}

impl Prototype {
    /// Look up a field's dense slot index by its identifier id.
    #[verifier::loop_isolation(false)]
    pub fn find_field(&self, id: usize) -> (r: Option<usize>)
        ensures
            r == pairs_lookup(self.field_map@, id),
    {
        proof {
            assert(self.field_map@.skip(0) =~= self.field_map@);
        }
        let mut i: usize = 0;
        while i < self.field_map.len()
            invariant
                0 <= i <= self.field_map@.len(),
                pairs_lookup(self.field_map@, id) == pairs_lookup(
                    self.field_map@.skip(i as int),
                    id,
                ),
            decreases self.field_map@.len() - i,
        {
            proof {
                assert(self.field_map@.skip(i as int)[0] == self.field_map@[i as int]);
                assert(self.field_map@.skip(i as int).skip(1) =~= self.field_map@.skip(
                    i as int + 1,
                ));
            }
            if self.field_map[i].0 == id {
                return Some(self.field_map[i].1);
            }
            i = i + 1;
        }
        None
    }

    /// Look up a method's function index by its identifier id.
    #[verifier::loop_isolation(false)]
    pub fn find_method(&self, id: usize) -> (r: Option<usize>)
        ensures
            r == pairs_lookup(self.method_map@, id),
    {
        proof {
            assert(self.method_map@.skip(0) =~= self.method_map@);
        }
        let mut i: usize = 0;
        while i < self.method_map.len()
            invariant
                0 <= i <= self.method_map@.len(),
                pairs_lookup(self.method_map@, id) == pairs_lookup(
                    self.method_map@.skip(i as int),
                    id,
                ),
            decreases self.method_map@.len() - i,
        {
            proof {
                assert(self.method_map@.skip(i as int)[0] == self.method_map@[i as int]);
                assert(self.method_map@.skip(i as int).skip(1) =~= self.method_map@.skip(
                    i as int + 1,
                ));
            }
            if self.method_map[i].0 == id {
                return Some(self.method_map[i].1);
            }
            i = i + 1;
        }
        None
    }
}

/// A looked-up field slot is in range, and a looked-up method names an
/// existing function, on any well-formed prototype.
pub proof fn lemma_pairs_lookup_in_range(entries: Seq<(usize, usize)>, id: usize, bound: int)
    requires
        forall|i: int| 0 <= i < entries.len() ==> (#[trigger] entries[i]).1 < bound,
        pairs_lookup(entries, id) is Some,
    ensures
        pairs_lookup(entries, id)->Some_0 < bound,
    decreases entries.len(),
{
    if entries.len() > 0 && entries[0].0 != id {
        assert forall|i: int| 0 <= i < entries.skip(1).len() implies (#[trigger] entries.skip(
            1,
        )[i]).1 < bound by {
            assert(entries.skip(1)[i] == entries[i + 1]);
        }
        lemma_pairs_lookup_in_range(entries.skip(1), id, bound);
    }
}

/// Membership in a block is preserved by `skip`: used to carry
/// well-formedness of a whole block to each of its statements.
pub proof fn lemma_block_wf_index(b: Seq<Exec>, data: Data, nvars: int, i: int)
    requires
        block_wf(b, data, nvars),
        0 <= i < b.len(),
    ensures
        exec_wf(b[i], data, nvars),
    decreases i,
{
    if i > 0 {
        lemma_block_wf_index(b.skip(1), data, nvars, i - 1);
        assert(b.skip(1)[i - 1] == b[i]);
    }
}

/// Each expression of a well-formed sequence is well-formed.
pub proof fn lemma_exprs_wf_index(es: Seq<Expr>, data: Data, nvars: int, i: int)
    requires
        exprs_wf(es, data, nvars),
        0 <= i < es.len(),
    ensures
        expr_wf(es[i], data, nvars),
    decreases i,
{
    if i > 0 {
        lemma_exprs_wf_index(es.skip(1), data, nvars, i - 1);
        assert(es.skip(1)[i - 1] == es[i]);
    }
}

/// Well-formedness only asks that indices are below `nvars`, so it is kept
/// when the frame widens.
pub proof fn lemma_expr_wf_widen(e: Expr, data: Data, nvars: int, wider: int)
    requires
        expr_wf(e, data, nvars),
        nvars <= wider,
    ensures
        expr_wf(e, data, wider),
    decreases e,
{
    match e {
        Expr::Literal { literal } => {},
        Expr::Reference { reference } => {},
        Expr::UnaryOperation { operator, expr } => lemma_expr_wf_widen(*expr, data, nvars, wider),
        Expr::BinaryOperation { operator, left, right } => {
            lemma_expr_wf_widen(*left, data, nvars, wider);
            lemma_expr_wf_widen(*right, data, nvars, wider);
        },
        Expr::TernaryOperation { operator, first, second, third } => {
            lemma_expr_wf_widen(*first, data, nvars, wider);
            lemma_expr_wf_widen(*second, data, nvars, wider);
            lemma_expr_wf_widen(*third, data, nvars, wider);
        },
        Expr::NaryOperation { operator, parameters } => {
            lemma_exprs_wf_widen(parameters@, data, nvars, wider);
        },
        Expr::Call { callable, parameters } => {
            lemma_expr_wf_widen(*callable, data, nvars, wider);
            lemma_exprs_wf_widen(parameters@, data, nvars, wider);
        },
        Expr::Plugin { id, parameters } => {
            lemma_exprs_wf_widen(parameters@, data, nvars, wider);
        },
        Expr::Struct { prototype, values } => {
            lemma_exprs_wf_widen(values@, data, nvars, wider);
        },
        Expr::SetVar { variable, expr } => lemma_expr_wf_widen(*expr, data, nvars, wider),
        Expr::SetField { instance, field_id, value } => {
            lemma_expr_wf_widen(*instance, data, nvars, wider);
            lemma_expr_wf_widen(*value, data, nvars, wider);
        },
        Expr::GetField { instance, field_id } => lemma_expr_wf_widen(*instance, data, nvars, wider),
        Expr::Die { expr, range } => lemma_expr_wf_widen(*expr, data, nvars, wider),
        Expr::OrDie { expr, range } => lemma_expr_wf_widen(*expr, data, nvars, wider),
    }
}

/// See [`lemma_expr_wf_widen`].
pub proof fn lemma_exprs_wf_widen(es: Seq<Expr>, data: Data, nvars: int, wider: int)
    requires
        exprs_wf(es, data, nvars),
        nvars <= wider,
    ensures
        exprs_wf(es, data, wider),
    decreases es,
{
    if es.len() > 0 {
        lemma_expr_wf_widen(es[0], data, nvars, wider);
        lemma_exprs_wf_widen(es.skip(1), data, nvars, wider);
    }
}

} // verus!
