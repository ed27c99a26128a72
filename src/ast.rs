//! The program tree: expressions, statements, declarations, types, functions.
use vstd::prelude::*;

verus! {

broadcast use vstd::std_specs::vec::axiom_vec_index_decreases,
    vstd::std_specs::vec::axiom_vec_decreases_to_view,
    vstd::seq::axiom_seq_index_decreases;

/// Binary operators, from the loosest-binding tier to the tightest.
#[derive(Clone, Copy, Debug, PartialEq, Eq, Structural)]
pub enum BinaryOp {
    Assign,
    Add,
    Subtract,
    Multiply,
    Divide,
    Modulo,
    And,
    Or,
}

/// Prefix operators: `&`, `*`, `-` and the identity `+`.
#[derive(Clone, Copy, Debug, PartialEq, Eq, Structural)]
pub enum UnaryOp {
    Reference,
    Dereference,
    Negate,
    DontNegate,
}

/// A numeric literal. An integer literal holds its value; a literal with a decimal point
/// holds its text as scanned (digits and one `.`), which a consumer may read as a float.
#[derive(Debug, PartialEq)]
pub enum Number {
    Int(i64),
    Float(String),
}

impl Clone for Number {
    fn clone(&self) -> (r: Number)
        ensures
            r == *self,
    {
        match self {
            Number::Int(i) => Number::Int(*i),
            Number::Float(s) => Number::Float(s.clone()),
        }
    }
}

/// What a `Number` stands for.
pub enum NumberModel {
    Int(i64),
    Float(Seq<char>),
}

impl View for Number {
    type V = NumberModel;

    open spec fn view(&self) -> NumberModel {
        match self {
            Number::Int(i) => NumberModel::Int(*i),
            Number::Float(s) => NumberModel::Float(s@),
        }
    }
}

/// A C-style type specifier such as `const unsigned int **`.
#[derive(Clone, Debug, PartialEq)]
pub struct Type {
    /// The type name, like `int` or `FILE`.
    pub base_name: String,
    /// Modifiers such as `unsigned` or `const`, in source order.
    pub modifiers: Vec<String>,
    /// The array length, `None` for a non-array.
    pub length: Option<usize>,
    /// 0 for a value, 1 for a pointer, 2 for a pointer to a pointer, and so on.
    pub pointer_levels: usize,
}

/// What a `Type` stands for.
pub struct TypeModel {
    pub base_name: Seq<char>,
    pub modifiers: Seq<Seq<char>>,
    pub length: Option<usize>,
    pub pointer_levels: nat,
}

impl View for Type {
    type V = TypeModel;

    open spec fn view(&self) -> TypeModel {
        TypeModel {
            base_name: self.base_name@,
            modifiers: self.modifiers@.map_values(|m: String| m@),
            length: self.length,
            pointer_levels: self.pointer_levels as nat,
        }
    }
}

/// One named binding: a type and a name.
#[derive(Clone, Debug, PartialEq)]
pub struct Declaration {
    pub _type: Type,
    pub name: String,
}

/// What a `Declaration` stands for.
pub struct DeclModel {
    pub ty: TypeModel,
    pub name: Seq<char>,
}

impl View for Declaration {
    type V = DeclModel;

    open spec fn view(&self) -> DeclModel {
        DeclModel { ty: self._type@, name: self.name@ }
    }
}

/// An expression tree; each node owns its children.
#[derive(Debug, PartialEq)]
pub enum Expression {
    UnaryOp(UnaryOp, Box<Expression>),
    BinaryOp(Box<Expression>, BinaryOp, Box<Expression>),
    MemberAccess { struct_name: Box<Expression>, field_name: String },
    ArrayIndex { array: Box<Expression>, index: Box<Expression> },
    FunctionCall { name: String, args: Vec<Expression> },
    Parenthetical(Box<Expression>),
    Declaration(Declaration),
    Variable(String),
    Number(Number),
    String(String),
    Character(char),
}

/// What an `Expression` stands for.
pub enum ExprModel {
    UnaryOp(UnaryOp, Box<ExprModel>),
    BinaryOp(Box<ExprModel>, BinaryOp, Box<ExprModel>),
    MemberAccess(Box<ExprModel>, Seq<char>),
    ArrayIndex(Box<ExprModel>, Box<ExprModel>),
    FunctionCall(Seq<char>, Seq<ExprModel>),
    Parenthetical(Box<ExprModel>),
    Declaration(DeclModel),
    Variable(Seq<char>),
    Number(NumberModel),
    Str(Seq<char>),
    Character(char),
}

/// The models of a sequence of expressions.
pub open spec fn expr_models(es: Seq<Expression>) -> Seq<ExprModel> {
    es.map_values(|e: Expression| e.model())
}

/// The model of a call is its name and the models of its arguments.
pub proof fn lemma_call_model(name: String, args: Vec<Expression>)
    ensures
        (Expression::FunctionCall { name, args }).model() == ExprModel::FunctionCall(
            name@,
            expr_models(args@),
        ),
{
    let e = Expression::FunctionCall { name, args };
    if let ExprModel::FunctionCall(_, s) = e.model() {
        assert(s =~= expr_models(args@));
    }
}

impl Expression {
    /// The model of this expression.
    pub open spec fn model(&self) -> ExprModel
        decreases self,
    {
        match self {
            Expression::UnaryOp(op, e) => ExprModel::UnaryOp(*op, Box::new(e.model())),
            Expression::BinaryOp(l, op, r) => ExprModel::BinaryOp(
                Box::new(l.model()),
                *op,
                Box::new(r.model()),
            ),
            Expression::MemberAccess { struct_name, field_name } => ExprModel::MemberAccess(
                Box::new(struct_name.model()),
                field_name@,
            ),
            Expression::ArrayIndex { array, index } => ExprModel::ArrayIndex(
                Box::new(array.model()),
                Box::new(index.model()),
            ),
            Expression::FunctionCall { name, args } => ExprModel::FunctionCall(
                name@,
                Seq::new(
                    args.len() as nat,
                    |i: int|
                        if 0 <= i < args.len() {
                            args[i].model()
                        } else {
                            ExprModel::Character(' ')
                        },
                ),
            ),
            Expression::Parenthetical(e) => ExprModel::Parenthetical(Box::new(e.model())),
            Expression::Declaration(d) => ExprModel::Declaration(d@),
            Expression::Variable(v) => ExprModel::Variable(v@),
            Expression::Number(n) => ExprModel::Number(n@),
            Expression::String(s) => ExprModel::Str(s@),
            Expression::Character(c) => ExprModel::Character(*c),
        }
    }
}

/// A statement inside a function body.
#[derive(Debug, PartialEq)]
pub enum Statement {
    Declaration(Declaration),
    Expression(Expression),
    Return(Expression),
    Continue,
    Break,
}

/// What a `Statement` stands for.
pub enum StmtModel {
    Declaration(DeclModel),
    Expression(ExprModel),
    Return(ExprModel),
    Continue,
    Break,
}

impl View for Statement {
    type V = StmtModel;

    open spec fn view(&self) -> StmtModel {
        match self {
            Statement::Declaration(d) => StmtModel::Declaration(d@),
            Statement::Expression(e) => StmtModel::Expression(e.model()),
            Statement::Return(e) => StmtModel::Return(e.model()),
            Statement::Continue => StmtModel::Continue,
            Statement::Break => StmtModel::Break,
        }
    }
}

/// A function definition.
#[derive(Debug, PartialEq)]
pub struct Function {
    pub name: String,
    pub arguments: Vec<Declaration>,
    pub return_type: Type,
    pub statements: Vec<Statement>,
}

/// What a `Function` stands for.
pub struct FunctionModel {
    pub name: Seq<char>,
    pub arguments: Seq<DeclModel>,
    pub return_type: TypeModel,
    pub statements: Seq<StmtModel>,
}

impl View for Function {
    type V = FunctionModel;

    open spec fn view(&self) -> FunctionModel {
        FunctionModel {
            name: self.name@,
            arguments: self.arguments@.map_values(|d: Declaration| d@),
            return_type: self.return_type@,
            statements: self.statements@.map_values(|st: Statement| st@),
        }
    }
}

/// The root of the tree: global declarations and function definitions, in source order.
#[derive(Debug, PartialEq)]
pub struct Program {
    pub globals: Vec<Declaration>,
    pub functions: Vec<Function>,
}

/// What a `Program` stands for.
pub struct ProgramModel {
    pub globals: Seq<DeclModel>,
    pub functions: Seq<FunctionModel>,
}

impl View for Program {
    type V = ProgramModel;

    open spec fn view(&self) -> ProgramModel {
        ProgramModel {
            globals: self.globals@.map_values(|d: Declaration| d@),
            functions: self.functions@.map_values(|f: Function| f@),
        }
    }
}

} // verus!
