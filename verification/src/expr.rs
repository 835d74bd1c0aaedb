//! The parse tree.

use vstd::prelude::*;

verus! {

/// A literal value.
#[derive(Debug, Clone, PartialEq)]
pub enum Value {
    Int(i128),
    /// A number that is no `i128`, kept as the text of its literal: digits,
    /// with a fraction or without. Floating point itself is left to the
    /// caller.
    Float(String),
    String(String),
}

pub ghost enum ValueView {
    Int(i128),
    Float(Seq<char>),
    String(Seq<char>),
}

impl View for Value {
    type V = ValueView;

    open spec fn view(&self) -> ValueView {
        match self {
            Value::Int(n) => ValueView::Int(*n),
            Value::Float(s) => ValueView::Float(s@),
            Value::String(s) => ValueView::String(s@),
        }
    }
}

/// One declared name with the name of its type.
#[derive(Debug, Clone, PartialEq, Eq)]
pub struct Parameter {
    pub name: String,
    pub ptype: String,
}

/// The entries of a type map, in the order in which they were declared.
#[derive(Debug, Clone, PartialEq, Eq)]
pub struct Parameters {
    pub entries: Vec<Parameter>,
}

/// The mapping that a list of entries stands for: each name with the type of
/// its last entry.
pub open spec fn entries_map(entries: Seq<(Seq<char>, Seq<char>)>) -> Map<Seq<char>, Seq<char>>
    decreases entries.len(),
{
    if entries.len() == 0 {
        Map::empty()
    } else {
        entries_map(entries.drop_last()).insert(entries.last().0, entries.last().1)
    }
}

impl View for Parameters {
    type V = Seq<(Seq<char>, Seq<char>)>;

    open spec fn view(&self) -> Seq<(Seq<char>, Seq<char>)> {
        Seq::new(self.entries@.len(), |i: int| (self.entries@[i].name@, self.entries@[i].ptype@))
    }
}

impl Parameters {
    /// The mapping from name to type name.
    pub open spec fn map(self) -> Map<Seq<char>, Seq<char>> {
        entries_map(self@)
    }

    pub fn new() -> (r: Self)
        ensures
            r@ == Seq::<(Seq<char>, Seq<char>)>::empty(),
    {
        let r = Parameters { entries: Vec::new() };
        assert(r@ =~= Seq::<(Seq<char>, Seq<char>)>::empty());
        r
    }

    /// Adds an entry; an earlier entry of the same name is overridden.
    pub fn insert(&mut self, name: String, ptype: String)
        ensures
            final(self)@ == old(self)@.push((name@, ptype@)),
            final(self).map() == old(self).map().insert(name@, ptype@),
    {
        self.entries.push(Parameter { name, ptype });
        assert(self@ =~= old(self)@.push((name@, ptype@)));
        assert(self@.drop_last() =~= old(self)@);
    }

    /// The number of entries that were declared.
    pub fn len(&self) -> (r: usize)
        ensures
            r == self@.len(),
    {
        self.entries.len()
    }

    /// The type name declared for `name`, if any.
    pub fn get(&self, name: &str) -> (r: Option<String>)
        ensures
            r is Some == self.map().contains_key(name@),
            r is Some ==> r->0@ == self.map()[name@],
    {
        let mut i: usize = self.entries.len();
        assert(self@.subrange(0, i as int) =~= self@);
        while i > 0
            invariant
                i <= self.entries@.len(),
                self@.len() == self.entries@.len(),
                self.map().contains_key(name@) == entries_map(
                    self@.subrange(0, i as int),
                ).contains_key(name@),
                self.map().contains_key(name@) ==> self.map()[name@] == entries_map(
                    self@.subrange(0, i as int),
                )[name@],
            decreases i,
        {
            let ghost prefix = self@.subrange(0, i as int);
            assert(prefix.drop_last() =~= self@.subrange(0, i - 1));
            assert(prefix.last() == self@[i - 1]);
            i = i - 1;
            if crate::token::same_text(self.entries[i].name.as_str(), name) {
                return Some(self.entries[i].ptype.clone());
            }
        }
        None
    }
}

/// A node of the parse tree.
#[derive(Debug, PartialEq)]
pub enum Expr {
    Value(Value),
    Function { name: String, rettype: String, params: Parameters, body: Box<Expr> },
    Block(Vec<Expr>),
}

pub ghost enum ExprView {
    Value(ValueView),
    Function {
        name: Seq<char>,
        rettype: Seq<char>,
        params: Seq<(Seq<char>, Seq<char>)>,
        body: Box<ExprView>,
    },
    Block(Seq<ExprView>),
}

impl Expr {
    /// The node as plain values.
    pub open spec fn view(&self) -> ExprView
        decreases self,
    {
        match self {
            Expr::Value(v) => ExprView::Value(v@),
            Expr::Function { name, rettype, params, body } => ExprView::Function {
                name: name@,
                rettype: rettype@,
                params: params@,
                body: Box::new(body.view()),
            },
            Expr::Block(items) => ExprView::Block(
                Seq::new(
                    items@.len(),
                    |i: int|
                        if 0 <= i < items@.len() {
                            items@[i].view()
                        } else {
                            ExprView::Block(Seq::empty())
                        },
                ),
            ),
        }
    }
}

} // verus!
