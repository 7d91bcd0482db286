use vstd::prelude::*;

verus! {

/// Keyword types of the surface language.
#[derive(Debug, PartialEq, Eq)]
pub enum PrimKind {
    /// The textual string type.
    Text,
    /// The numeric type; every number of the surface language is a 64-bit float.
    Number,
    Boolean,
    Void,
    Null,
    Undefined,
    /// Any other keyword type (any, unknown, never, ...).
    OtherKeyword,
}

/// A type annotation of the surface language, as the parser hands it over.
#[derive(Debug, PartialEq, Eq)]
pub enum SourceType {
    Primitive(PrimKind),
    Array(Box<SourceType>),
    /// A named type, possibly with type arguments.
    Reference(String, Vec<SourceType>),
    /// Sugar for a union of the inner type with undefined.
    Optional(Box<SourceType>),
    Union(Vec<SourceType>),
    Promise(Box<SourceType>),
    /// A string-literal type, as in a closed union of string constants.
    StrLit(String),
    /// Any annotation shape without a translation rule.
    Other,
}

/// A type of the target language, the image of the type mapping.
#[derive(Debug, PartialEq, Eq)]
pub enum TargetType {
    /// A named type held by value; reference names pass through here verbatim.
    Owned(String),
    Vector(Box<TargetType>),
    OptionOf(Box<TargetType>),
    /// Shared ownership of a component, for dependency-classified fields.
    SharedHandle(Box<TargetType>),
    ResultOf(Box<TargetType>, Box<TargetType>),
    /// The permanent fallback for constructs the mapping does not know.
    DynamicValue,
    /// A type parameter of the enclosing generic declaration.
    GenericParam(String),
    /// The empty type, image of void.
    Unit,
}

/// A literal expression. A numeric literal carries its decimal text; the
/// conversion from the parser's float value to text happens outside the
/// library, which keeps the translator itself free of float arithmetic.
#[derive(Debug, PartialEq, Eq)]
pub enum Lit {
    Num(String),
    Str(String),
    Bool(bool),
    Other,
}

#[derive(Debug, PartialEq, Eq)]
pub enum UnOp {
    Not,
    Neg,
    Plus,
    Other,
}

#[derive(Debug, PartialEq, Eq)]
pub enum BinOp {
    Add,
    Sub,
    Mul,
    Div,
    EqEq,
    NotEq,
    Lt,
    LtEq,
    Gt,
    GtEq,
    And,
    Or,
    Other,
}

#[derive(Debug, PartialEq, Eq)]
pub enum AssignOp {
    Assign,
    AddAssign,
    SubAssign,
    Other,
}

#[derive(Debug, PartialEq, Eq)]
pub enum UpdateOp {
    Incr,
    Decr,
}

/// A call or constructor argument, possibly spread.
#[derive(Debug, PartialEq, Eq)]
pub struct Arg {
    pub spread: bool,
    pub expr: Expr,
}

/// A property of an object literal.
#[derive(Debug, PartialEq, Eq)]
pub enum Prop {
    KeyValue(String, Expr),
    Shorthand(String),
    Other,
}

/// The property part of a member access.
#[derive(Debug, PartialEq, Eq)]
pub enum MemberProp {
    Named(String),
    Computed(Box<Expr>),
    Other,
}

/// The callee of a call; super and import calls have no translation rule.
#[derive(Debug, PartialEq, Eq)]
pub enum Callee {
    ExprCallee(Box<Expr>),
    Other,
}

/// One parameter of an arrow function.
#[derive(Debug, PartialEq, Eq)]
pub enum ArrowParam {
    Ident(String, Option<SourceType>),
    Other,
}

#[derive(Debug, PartialEq, Eq)]
pub enum ArrowBody {
    BlockBody(Vec<Stmt>),
    ExprBody(Box<Expr>),
}

/// The target of an assignment.
#[derive(Debug, PartialEq, Eq)]
pub enum AssignTarget {
    Ident(String),
    Member(Box<Expr>, MemberProp),
    Other,
}

/// An expression of the surface language.
#[derive(Debug, PartialEq, Eq)]
pub enum Expr {
    This,
    Ident(String),
    Lit(Lit),
    Bin(BinOp, Box<Expr>, Box<Expr>),
    Unary(UnOp, Box<Expr>),
    Member(Box<Expr>, MemberProp),
    /// A call; the last part carries the one type argument a call of the
    /// outbound HTTP helper may take.
    Call(Callee, Vec<Arg>, Option<SourceType>),
    New(Box<Expr>, Vec<Arg>),
    Object(Vec<Prop>),
    Array(Vec<Option<Arg>>),
    /// A template literal: the quasis are the fixed text parts, one more of
    /// them than there are interpolated expressions.
    Tpl(Vec<String>, Vec<Expr>),
    Arrow(Vec<ArrowParam>, ArrowBody, bool),
    Update(UpdateOp, Box<Expr>),
    Assign(AssignOp, AssignTarget, Box<Expr>),
    Await(Box<Expr>),
    Paren(Box<Expr>),
    /// Any expression kind without a translation rule.
    Other,
}

#[derive(Debug, PartialEq, Eq)]
pub enum VarKind {
    Const,
    Let,
    Var,
}

#[derive(Debug, PartialEq, Eq)]
pub struct VarDeclarator {
    pub name: String,
    pub init: Option<Expr>,
}

/// A statement of the surface language.
#[derive(Debug, PartialEq, Eq)]
pub enum Stmt {
    Return(Option<Expr>),
    ExprStmt(Expr),
    VarDecl(VarKind, Vec<VarDeclarator>),
    Block(Vec<Stmt>),
    If(Expr, Box<Stmt>, Option<Box<Stmt>>),
    While(Expr, Box<Stmt>),
    /// Any statement kind without a translation rule.
    Other,
}

/// One key of a decorator's object-literal argument together with the
/// identifiers of its array value.
#[derive(Debug, PartialEq, Eq)]
pub struct ObjKeyIdents {
    pub key: String,
    pub idents: Vec<String>,
}

/// An annotation-shaped call expression attached to a declaration: its name,
/// an optional leading string argument, and an optional object-literal
/// argument reduced to identifier lists per key.
#[derive(Debug, PartialEq, Eq)]
pub struct Decorator {
    pub name: String,
    pub str_arg: Option<String>,
    pub obj_arg: Option<Vec<ObjKeyIdents>>,
}

/// A declared field of a class.
#[derive(Debug, PartialEq, Eq)]
pub struct ClassProp {
    pub name: String,
    pub type_ann: Option<SourceType>,
    pub is_optional: bool,
}

/// One parameter of a class method.
#[derive(Debug, PartialEq, Eq)]
pub struct MethodParam {
    pub name: String,
    pub type_ann: Option<SourceType>,
    pub decorators: Vec<Decorator>,
}

#[derive(Debug, PartialEq, Eq)]
pub struct ClassMethod {
    pub name: String,
    pub decorators: Vec<Decorator>,
    pub params: Vec<MethodParam>,
    pub return_type: Option<SourceType>,
    pub is_async: bool,
    pub body: Option<Vec<Stmt>>,
}

/// Whether a constructor parameter also declares a field.
#[derive(Debug, PartialEq, Eq)]
pub enum CtorParamKind {
    PropParam,
    PlainParam,
}

#[derive(Debug, PartialEq, Eq)]
pub struct CtorParam {
    pub kind: CtorParamKind,
    pub name: String,
    pub type_ann: Option<SourceType>,
}

#[derive(Debug, PartialEq, Eq)]
pub struct Constructor {
    pub params: Vec<CtorParam>,
    pub body: Option<Vec<Stmt>>,
}

#[derive(Debug, PartialEq, Eq)]
pub enum ClassMember {
    Prop(ClassProp),
    Method(ClassMethod),
    Ctor(Constructor),
    Other,
}

#[derive(Debug, PartialEq, Eq)]
pub struct ClassDecl {
    pub name: String,
    pub type_params: Vec<String>,
    pub decorators: Vec<Decorator>,
    pub members: Vec<ClassMember>,
}

#[derive(Debug, PartialEq, Eq)]
pub struct FnParam {
    pub name: String,
    pub type_ann: Option<SourceType>,
}

#[derive(Debug, PartialEq, Eq)]
pub struct FnDecl {
    pub name: String,
    pub type_params: Vec<String>,
    pub params: Vec<FnParam>,
    pub return_type: Option<SourceType>,
    pub is_async: bool,
    pub body: Option<Vec<Stmt>>,
}

/// A bare summary of a translated function, name and argument names only.
#[derive(Debug, PartialEq, Eq)]
pub struct OxFunction {
    pub name: String,
    pub args: Vec<String>,
}

/// A bare summary of a translated interface and its operations.
#[derive(Debug, PartialEq, Eq)]
pub struct OxInterface {
    pub name: String,
    pub methods: Vec<OxFunction>,
}

/// A property signature of an interface.
#[derive(Debug, PartialEq, Eq)]
pub struct PropSig {
    pub name: String,
    pub type_ann: Option<SourceType>,
    pub optional: bool,
}

#[derive(Debug, PartialEq, Eq)]
pub struct InterfaceDecl {
    pub name: String,
    pub type_params: Vec<String>,
    pub members: Vec<PropSig>,
}

#[derive(Debug, PartialEq, Eq)]
pub struct TypeAlias {
    pub name: String,
    pub ty: SourceType,
}

#[derive(Debug, PartialEq, Eq)]
pub enum EnumInit {
    NoInit,
    StrInit(String),
    NumInit(i64),
}

#[derive(Debug, PartialEq, Eq)]
pub struct EnumMember {
    pub name: String,
    pub init: EnumInit,
}

#[derive(Debug, PartialEq, Eq)]
pub struct TsEnumDecl {
    pub name: String,
    pub members: Vec<EnumMember>,
}

#[derive(Debug, PartialEq, Eq)]
pub enum ImportSpecifier {
    Named(Option<String>, String),
    DefaultSpec(String),
    Namespace(String),
}

#[derive(Debug, PartialEq, Eq)]
pub struct ImportDecl {
    pub src: String,
    pub specifiers: Vec<ImportSpecifier>,
}

/// A top-level declaration.
#[derive(Debug, PartialEq, Eq)]
pub enum Decl {
    ClassD(ClassDecl),
    FnD(FnDecl),
    InterfaceD(InterfaceDecl),
    AliasD(TypeAlias),
    EnumD(TsEnumDecl),
    Other,
}

/// One item of a source file.
#[derive(Debug, PartialEq, Eq)]
pub enum ModuleItem {
    Export(Decl),
    ExportDefault(Decl),
    Plain(Decl),
    Import(ImportDecl),
    StmtItem(Stmt),
    Other,
}

/// One parsed source file.
#[derive(Debug, PartialEq, Eq)]
pub struct Program {
    pub items: Vec<ModuleItem>,
}

} // verus!
