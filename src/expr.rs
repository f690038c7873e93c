//! Expressions: literals and operator nodes, with the properties an
//! optimizer asks of them.

use vstd::prelude::*;
use vstd::string::StringExecFns;
use crate::text::{decimal, decimal_string};
use crate::types::DataType;

verus! {

/// A constant value of one of the atomic types; `None` is null.
pub enum Literal {
    Boolean(Option<bool>),
    Byte(Option<i8>),
    Short(Option<i16>),
    Integer(Option<i32>),
    Long(Option<i64>),
    Text(Option<String>),
}

/// What an expression node is.
pub enum ExprKind {
    /// A constant, with no children.
    Constant(Literal),
    /// An operator over two children, written `(left symbol right)`.
    Binary(String),
    /// An operator over one child, written `(symbol child)`.
    Unary(String),
}

/// A node of an expression tree.
pub struct Expression {
    pub name: String,
    pub kind: ExprKind,
    pub children: Vec<Expression>,
}

/// The decimal text of an integer, with a leading `-` when negative.
pub open spec fn signed_text(x: int) -> Seq<char> {
    if x < 0 {
        "-"@ + decimal((-x) as nat)
    } else {
        decimal(x as nat)
    }
}

/// `"true"` or `"false"`.
pub open spec fn flag_text(b: bool) -> Seq<char> {
    if b {
        "true"@
    } else {
        "false"@
    }
}

/// The text of a literal: `null` for a null, strings in double quotes.
pub open spec fn literal_text(v: Literal) -> Seq<char> {
    match v {
        Literal::Boolean(Some(b)) => flag_text(b),
        Literal::Byte(Some(x)) => signed_text(x as int),
        Literal::Short(Some(x)) => signed_text(x as int),
        Literal::Integer(Some(x)) => signed_text(x as int),
        Literal::Long(Some(x)) => signed_text(x as int),
        Literal::Text(Some(s)) => "\""@ + s@ + "\""@,
        _ => "null"@,
    }
}

/// The text of `e` and its descendants: a literal's text, `(l s r)` for a
/// binary operator `s` and `(s c)` for a unary one.
pub open spec fn pretty(e: Expression) -> Seq<char>
    decreases e,
{
    let first = if e.children.len() > 0 {
        pretty(e.children@[0])
    } else {
        Seq::empty()
    };
    let second = if e.children.len() > 1 {
        pretty(e.children@[1])
    } else {
        Seq::empty()
    };
    match e.kind {
        ExprKind::Constant(v) => literal_text(v),
        ExprKind::Binary(s) => "("@ + first + " "@ + s@ + " "@ + second + ")"@,
        ExprKind::Unary(s) => "("@ + s@ + first + ")"@,
    }
}

/// Whether `e` can be evaluated before the query runs: literals can, an
/// operator can when all its children can.
pub open spec fn is_foldable(e: Expression) -> bool
    decreases e,
{
    forall|i: int| 0 <= i < e.children.len() ==> is_foldable(#[trigger] e.children@[i])
}

/// Whether `e` always gives the same result: literals do, an operator does
/// when all its children do.
pub open spec fn is_deterministic(e: Expression) -> bool
    decreases e,
{
    forall|i: int| 0 <= i < e.children.len() ==> is_deterministic(#[trigger] e.children@[i])
}

/// Whether `e` may be null: a literal when it is null, an operator when any
/// of its children may be.
pub open spec fn is_nullable(e: Expression) -> bool
    decreases e,
{
    match e.kind {
        ExprKind::Constant(v) => v.spec_is_null(),
        _ => exists|i: int| 0 <= i < e.children.len() && is_nullable(#[trigger] e.children@[i]),
    }
}

/// Whether `e` and all its descendants are resolved, that is type-checked
/// against their children: literals are, an operator is when it has its
/// operands, all of them are resolved, and the two operands of a binary
/// operator have the same type.
pub open spec fn is_resolved(e: Expression) -> bool
    decreases e,
{
    &&& match e.kind {
        ExprKind::Constant(_) => e.children.len() == 0,
        ExprKind::Binary(_) => e.children.len() == 2,
        ExprKind::Unary(_) => e.children.len() == 1,
    }
    &&& forall|i: int| 0 <= i < e.children.len() ==> is_resolved(#[trigger] e.children@[i])
    &&& e.kind is Binary ==> type_of(e.children@[0]).model() == type_of(e.children@[1]).model()
}

/// The type of the result of `e`: a literal's own type, and for an operator
/// the type of its first operand.
pub open spec fn type_of(e: Expression) -> DataType
    decreases e,
{
    match e.kind {
        ExprKind::Constant(v) => v.spec_data_type(),
        _ => if e.children.len() > 0 {
            type_of(e.children@[0])
        } else {
            DataType::BooleanType
        },
    }
}

impl Literal {
    /// Whether this literal is null.
    pub open spec fn spec_is_null(self) -> bool {
        match self {
            Literal::Boolean(v) => v is None,
            Literal::Byte(v) => v is None,
            Literal::Short(v) => v is None,
            Literal::Integer(v) => v is None,
            Literal::Long(v) => v is None,
            Literal::Text(v) => v is None,
        }
    }

    /// The type of this literal.
    pub open spec fn spec_data_type(self) -> DataType {
        match self {
            Literal::Boolean(_) => DataType::BooleanType,
            Literal::Byte(_) => DataType::ByteType,
            Literal::Short(_) => DataType::ShortType,
            Literal::Integer(_) => DataType::IntegerType,
            Literal::Long(_) => DataType::LongType,
            Literal::Text(_) => DataType::StringType,
        }
    }

    /// Returns `true` iff this literal is null.
    pub fn is_null(&self) -> (r: bool)
        ensures
            r == self.spec_is_null(),
    {
        match self {
            Literal::Boolean(v) => v.is_none(),
            Literal::Byte(v) => v.is_none(),
            Literal::Short(v) => v.is_none(),
            Literal::Integer(v) => v.is_none(),
            Literal::Long(v) => v.is_none(),
            Literal::Text(v) => v.is_none(),
        }
    }

    /// The type of this literal.
    pub fn data_type(&self) -> (r: DataType)
        ensures
            r == self.spec_data_type(),
    {
        match self {
            Literal::Boolean(_) => DataType::BooleanType,
            Literal::Byte(_) => DataType::ByteType,
            Literal::Short(_) => DataType::ShortType,
            Literal::Integer(_) => DataType::IntegerType,
            Literal::Long(_) => DataType::LongType,
            Literal::Text(_) => DataType::StringType,
        }
    }

    /// The text of this literal.
    pub fn text(&self) -> (r: String)
        ensures
            r@ == literal_text(*self),
    {
        proof {
            reveal_strlit("true");
            reveal_strlit("false");
            reveal_strlit("null");
            reveal_strlit("\"");
        }
        match self {
            Literal::Boolean(Some(b)) => if *b {
                "true".to_owned()
            } else {
                "false".to_owned()
            },
            Literal::Byte(Some(x)) => signed_string(*x as i64),
            Literal::Short(Some(x)) => signed_string(*x as i64),
            Literal::Integer(Some(x)) => signed_string(*x as i64),
            Literal::Long(Some(x)) => signed_string(*x),
            Literal::Text(Some(s)) => "\"".to_owned().concat(s.as_str()).concat("\""),
            _ => "null".to_owned(),
        }
    }
}

fn signed_string(x: i64) -> (r: String)
    ensures
        r@ == signed_text(x as int),
{
    if x < 0 {
        proof {
            reveal_strlit("-");
        }
        let magnitude = (-(x as i128)) as u64;
        let r = "-".to_owned().concat(decimal_string(magnitude).as_str());
        r
    } else {
        decimal_string(x as u64)
    }
}

/// A literal expression.
pub fn literal(value: Literal) -> (r: Expression)
    ensures
        r.name@ == "literal"@,
        r.kind == ExprKind::Constant(value),
        r.children@.len() == 0,
{
    proof {
        reveal_strlit("literal");
    }
    Expression { name: "literal".to_owned(), kind: ExprKind::Constant(value), children: Vec::new() }
}

/// A binary operator node named `name`, written with `symbol`, over `left`
/// and `right`.
pub fn binary(name: String, symbol: String, left: Expression, right: Expression) -> (r: Expression)
    ensures
        r.name == name,
        r.kind == ExprKind::Binary(symbol),
        r.children@ == seq![left, right],
{
    let mut children: Vec<Expression> = Vec::new();
    children.push(left);
    children.push(right);
    Expression { name, kind: ExprKind::Binary(symbol), children }
}

/// A unary operator node named `name`, written with `symbol`, over `child`.
pub fn unary(name: String, symbol: String, child: Expression) -> (r: Expression)
    ensures
        r.name == name,
        r.kind == ExprKind::Unary(symbol),
        r.children@ == seq![child],
{
    let mut children: Vec<Expression> = Vec::new();
    children.push(child);
    Expression { name, kind: ExprKind::Unary(symbol), children }
}

impl Expression {
    /// The text of this expression and its descendants.
    pub fn pretty_string(&self) -> (r: String)
        ensures
            r@ == pretty(*self),
        decreases self,
    {
        proof {
            reveal_strlit("(");
            reveal_strlit(")");
            reveal_strlit(" ");
            reveal_strlit("");
        }
        let first = if self.children.len() > 0 {
            self.children[0].pretty_string()
        } else {
            "".to_owned()
        };
        let second = if self.children.len() > 1 {
            self.children[1].pretty_string()
        } else {
            "".to_owned()
        };
        match &self.kind {
            ExprKind::Constant(v) => v.text(),
            ExprKind::Binary(s) => "(".to_owned().concat(first.as_str()).concat(" ").concat(
                s.as_str(),
            ).concat(" ").concat(second.as_str()).concat(")"),
            ExprKind::Unary(s) => "(".to_owned().concat(s.as_str()).concat(first.as_str()).concat(
                ")",
            ),
        }
    }

    /// Whether this expression can be evaluated before the query runs.
    pub fn foldable(&self) -> (r: bool)
        ensures
            r == is_foldable(*self),
        decreases self,
    {
        let n = self.children.len();
        let mut i: usize = 0;
        while i < n
            invariant
                n == self.children.len(),
                0 <= i <= n,
                forall|j: int| 0 <= j < i ==> is_foldable(#[trigger] self.children@[j]),
            decreases n - i,
        {
            if !self.children[i].foldable() {
                return false;
            }
            i += 1;
        }
        true
    }

    /// Whether this expression always gives the same result for the same inputs.
    pub fn deterministic(&self) -> (r: bool)
        ensures
            r == is_deterministic(*self),
        decreases self,
    {
        let n = self.children.len();
        let mut i: usize = 0;
        while i < n
            invariant
                n == self.children.len(),
                0 <= i <= n,
                forall|j: int| 0 <= j < i ==> is_deterministic(#[trigger] self.children@[j]),
            decreases n - i,
        {
            if !self.children[i].deterministic() {
                return false;
            }
            i += 1;
        }
        true
    }

    /// Whether this expression may be null.
    pub fn nullable(&self) -> (r: bool)
        ensures
            r == is_nullable(*self),
        decreases self,
    {
        match &self.kind {
            ExprKind::Constant(v) => v.is_null(),
            _ => {
                let n = self.children.len();
                let mut i: usize = 0;
                while i < n
                    invariant
                        n == self.children.len(),
                        0 <= i <= n,
                        !(self.kind is Constant),
                        forall|j: int| 0 <= j < i ==> !is_nullable(#[trigger] self.children@[j]),
                    decreases n - i,
                {
                    if self.children[i].nullable() {
                        return true;
                    }
                    i += 1;
                }
                false
            },
        }
    }

    /// Whether this expression has its operands and all of them are resolved.
    pub fn resolved(&self) -> (r: bool)
        ensures
            r == is_resolved(*self),
        decreases self,
    {
        let n = self.children.len();
        let arity_ok = match &self.kind {
            ExprKind::Constant(_) => n == 0,
            ExprKind::Binary(_) => n == 2,
            ExprKind::Unary(_) => n == 1,
        };
        if !arity_ok {
            return false;
        }
        let mut i: usize = 0;
        while i < n
            invariant
                n == self.children.len(),
                0 <= i <= n,
                forall|j: int| 0 <= j < i ==> is_resolved(#[trigger] self.children@[j]),
            decreases n - i,
        {
            if !self.children[i].resolved() {
                return false;
            }
            i += 1;
        }
        match &self.kind {
            ExprKind::Binary(_) => self.children[0].data_type() == self.children[1].data_type(),
            _ => true,
        }
    }

    /// The type of the result of this expression. Only a resolved
    /// expression has one.
    pub fn data_type(&self) -> (r: DataType)
        requires
            is_resolved(*self),
        ensures
            r == type_of(*self),
        decreases self,
    {
        match &self.kind {
            ExprKind::Constant(v) => v.data_type(),
            _ => self.children[0].data_type(),
        }
    }

    /// The children of this expression, in order.
    pub fn children(&self) -> (r: &Vec<Expression>)
        ensures
            r == self.children,
    {
        &self.children
    }
}

} // verus!
