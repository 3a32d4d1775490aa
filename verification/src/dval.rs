//! Runtime values, the errors that evaluation produces, and symbol tables.
use std::rc::Rc;
use std::sync::Arc;
use vstd::prelude::*;

use crate::expr::Expr;
use crate::names::string_vector_items;
use crate::runtime::{rc_clone, Caller, DescV, FunctionDesc_, ID};

verus! {

/// A runtime value.
#[derive(Debug)]
pub enum Dval_ {
    DInt(i32),
    DBool(bool),
    DStr(String),
    /// A list. Its members are values that can be lists again; an outside
    /// collection type such as `im_rc::Vector` cannot take part in a type
    /// defined through itself, and behind an opaque struct of the library the
    /// view of a value could not be shown to terminate; so the list is a `Vec`.
    DList(Vec<Dval>),
    /// A function value: the symbol table it closes over, its parameter
    /// names and its body.
    DLambda(SymTable, im_rc::Vector<String>, Expr),
    /// A value that stands for a failed or unfinished computation.
    DSpecial(Special),
}

pub type Dval = Rc<Dval_>;

/// Values that record why a computation did not produce an ordinary value.
#[derive(Debug)]
pub enum Special {
    /// An error, with the place it came from.
    Error(Caller, Error),
    /// Evaluation reached a blank at this place.
    Incomplete(Caller),
}

/// The errors of evaluation.
#[derive(Debug)]
pub enum Error {
    /// No function of this name exists.
    MissingFunction(FunctionDesc_),
    /// A function was called with arguments it does not take; the arguments
    /// are kept.
    IncorrectArguments(FunctionDesc_, Vec<Dval>),
    /// A value was not of the type that its place requires.
    InvalidType(Dval, DType),
}

/// The types that an error can say a value should have had.
#[derive(Debug, Clone, Copy, PartialEq, Eq, Structural)]
pub enum DType {
    TBool,
}

/// Types of values, as function signatures describe them.
#[derive(Debug)]
pub enum Type {
    TList(Arc<Type>),
    TLambda,
    TAny,
    NamedType(String),
}

/// A symbol table: what each variable name is bound to. Updating it makes a
/// new table and leaves the old one as it was; copies share their contents.
/// It is a list of bindings shared through `Rc`: the values it binds can be
/// lambdas that hold a table again, and an outside map type such as
/// `im_rc::HashMap` cannot take part in a type defined through itself, and
/// behind an opaque struct of the library the view of a value could not be
/// shown to terminate.
#[derive(Debug)]
pub struct SymTable {
    head: Option<Rc<Binding>>,
}

#[derive(Debug)]
struct Binding {
    name: String,
    value: Dval,
    rest: SymTable,
}

/// The pattern that a parameter of the type named `ty` matches when a
/// standard library function is called, as the variant's name and the names
/// its fields are bound to: an `Int` parameter `p` matches `DInt(p)`, a `List`
/// parameter `p` matches `DList(p)`, and a `Lambda` parameter `p` matches
/// `DLambda(p_symtable, p_vars, p_body)` (the bindings the lambda closed over,
/// its parameter names and its body). No other type name has a pattern.
pub open spec fn pattern_for(ty: Seq<char>, param: Seq<char>) -> Option<(Seq<char>, Seq<Seq<char>>)> {
    if ty == "Int"@ {
        Some(("DInt"@, seq![param]))
    } else if ty == "List"@ {
        Some(("DList"@, seq![param]))
    } else if ty == "Lambda"@ {
        Some(("DLambda"@, seq![param + "_symtable"@, param + "_vars"@, param + "_body"@]))
    } else {
        None
    }
}

/// The pattern of a parameter named `param` of the type named `ty_name`, as
/// [`pattern_for`] gives it.
pub fn pattern_variant(ty_name: &String, param: &String) -> (r: Option<(String, Vec<String>)>)
    ensures
        pattern_for(ty_name@, param@) == match r {
            Some((v, fields)) => Some((v@, fields@.map_values(|f: String| f@))),
            None => None,
        },
{
    let mut fields: Vec<String> = Vec::new();
    if *ty_name == "Int".to_string() || *ty_name == "List".to_string() {
        fields.push(param.clone());
        let v = if *ty_name == "Int".to_string() {
            "DInt".to_string()
        } else {
            "DList".to_string()
        };
        assert(fields@.map_values(|f: String| f@) =~= seq![param@]);
        Some((v, fields))
    } else if *ty_name == "Lambda".to_string() {
        let mut symtable = param.clone();
        symtable.append("_symtable");
        let mut vars = param.clone();
        vars.append("_vars");
        let mut body = param.clone();
        body.append("_body");
        fields.push(symtable);
        fields.push(vars);
        fields.push(body);
        assert(fields@.map_values(|f: String| f@) =~= seq![
            param@ + "_symtable"@,
            param@ + "_vars"@,
            param@ + "_body"@,
        ]);
        Some(("DLambda".to_string(), fields))
    } else {
        None
    }
}

/// A runtime value as plain values.
pub enum DvalV {
    VInt(i32),
    VBool(bool),
    VStr(Seq<char>),
    VList(Seq<DvalV>),
    /// The bindings closed over, the parameter names, the body.
    VLambda(Map<Seq<char>, DvalV>, Seq<Seq<char>>, Expr),
    VSpecial(SpecialV),
}

/// A special value as plain values.
pub enum SpecialV {
    VError(Caller, ErrorV),
    VIncomplete(Caller),
}

/// An error as plain values.
pub enum ErrorV {
    VMissingFunction(DescV),
    VIncorrectArguments(DescV, Seq<DvalV>),
    VInvalidType(Box<DvalV>, DType),
}

pub open spec fn dval_view(d: Dval_) -> DvalV
    decreases d,
{
    match d {
        Dval_::DInt(i) => DvalV::VInt(i),
        Dval_::DBool(b) => DvalV::VBool(b),
        Dval_::DStr(s) => DvalV::VStr(s@),
        Dval_::DList(v) => DvalV::VList(dvals_view(v@)),
        Dval_::DLambda(st, params, body) => DvalV::VLambda(
            symtable_view(st),
            string_vector_items(params),
            body,
        ),
        Dval_::DSpecial(Special::Error(c, e)) => DvalV::VSpecial(SpecialV::VError(c, error_view(e))),
        Dval_::DSpecial(Special::Incomplete(c)) => DvalV::VSpecial(SpecialV::VIncomplete(c)),
    }
}

pub open spec fn dvals_view(s: Seq<Dval>) -> Seq<DvalV>
    decreases s,
{
    if s.len() == 0 {
        seq![]
    } else {
        dvals_view(s.drop_last()).push(dval_view(*s.last()))
    }
}

pub open spec fn error_view(e: Error) -> ErrorV
    decreases e,
{
    match e {
        Error::MissingFunction(name) => ErrorV::VMissingFunction(name@),
        Error::IncorrectArguments(name, args) => ErrorV::VIncorrectArguments(
            name@,
            dvals_view(args@),
        ),
        Error::InvalidType(v, t) => ErrorV::VInvalidType(Box::new(dval_view(*v)), t),
    }
}

pub closed spec fn symtable_view(st: SymTable) -> Map<Seq<char>, DvalV>
    decreases st,
{
    match st.head {
        None => Map::empty(),
        Some(b) => symtable_view(b.rest).insert(b.name@, dval_view(*b.value)),
    }
}

impl View for Dval_ {
    type V = DvalV;

    open spec fn view(&self) -> DvalV {
        dval_view(*self)
    }
}

impl View for Error {
    type V = ErrorV;

    open spec fn view(&self) -> ErrorV {
        error_view(*self)
    }
}

impl View for SymTable {
    type V = Map<Seq<char>, DvalV>;

    open spec fn view(&self) -> Map<Seq<char>, DvalV> {
        symtable_view(*self)
    }
}

/// The view of each item of a vector of values.
pub proof fn lemma_dvals_view(s: Seq<Dval>)
    ensures
        dvals_view(s).len() == s.len(),
        forall|i: int| 0 <= i < s.len() ==> #[trigger] dvals_view(s)[i] == dval_view(*s[i]),
    decreases s.len(),
{
    if s.len() > 0 {
        lemma_dvals_view(s.drop_last());
    }
}

/// The view of a vector of values after a push.
pub proof fn lemma_dvals_view_push(s: Seq<Dval>, x: Dval)
    ensures
        dvals_view(s.push(x)) == dvals_view(s).push(dval_view(*x)),
{
    assert(s.push(x).drop_last() =~= s);
}

impl SymTable {
    /// The empty table.
    pub fn new() -> (st: SymTable)
        ensures
            st@ == Map::<Seq<char>, DvalV>::empty(),
    {
        SymTable { head: None }
    }

    /// What `name` is bound to, if anything.
    pub fn get(&self, name: &String) -> (res: Option<Dval>)
        ensures
            match res {
                Some(v) => self@.dom().contains(name@) && (*v)@ == self@[name@],
                None => !self@.dom().contains(name@),
            },
        decreases *self,
    {
        match &self.head {
            None => None,
            Some(b) => {
                if b.name == *name {
                    Some(rc_clone(&b.value))
                } else {
                    b.rest.get(name)
                }
            },
        }
    }

    /// A table that binds `name` to `value` and every other name as this one does.
    pub fn update(&self, name: String, value: Dval) -> (st: SymTable)
        ensures
            st@ == self@.insert(name@, (*value)@),
    {
        SymTable { head: Some(Rc::new(Binding { name, value, rest: self.clone() })) }
    }
}

impl Clone for SymTable {
    fn clone(&self) -> (st: Self)
        ensures
            st@ == self@,
    {
        match &self.head {
            None => SymTable { head: None },
            Some(b) => SymTable { head: Some(rc_clone(b)) },
        }
    }
}

/// An integer value.
pub fn dint(i: i32) -> (d: Dval)
    ensures
        (*d)@ == DvalV::VInt(i),
{
    Rc::new(Dval_::DInt(i))
}

/// A boolean value.
pub fn dbool(b: bool) -> (d: Dval)
    ensures
        (*d)@ == DvalV::VBool(b),
{
    Rc::new(Dval_::DBool(b))
}

/// A string value.
pub fn dstr(s: &str) -> (d: Dval)
    ensures
        (*d)@ == DvalV::VStr(s@),
{
    Rc::new(Dval_::DStr(s.to_string()))
}

/// A list value.
pub fn list(l: Vec<Dval>) -> (d: Dval)
    ensures
        (*d)@ == DvalV::VList(dvals_view(l@)),
{
    Rc::new(Dval_::DList(l))
}

/// The error `e`, produced at `caller`.
pub fn derror(caller: &Caller, e: Error) -> (d: Dval)
    ensures
        (*d)@ == DvalV::VSpecial(SpecialV::VError(*caller, e@)),
{
    Rc::new(Dval_::DSpecial(Special::Error(*caller, e)))
}

/// The error `e`, produced at the expression `id` of the caller's toplevel.
pub fn dcode_error(caller: &Caller, id: ID, e: Error) -> (d: Dval)
    ensures
        (*d)@ == DvalV::VSpecial(SpecialV::VError(Caller::Code(caller.tlid(), id), e@)),
{
    Rc::new(Dval_::DSpecial(Special::Error(Caller::Code(caller.to_tlid(), id), e)))
}

/// The value of an unfinished computation at `caller`.
pub fn dincomplete(caller: &Caller) -> (d: Dval)
    ensures
        (*d)@ == DvalV::VSpecial(SpecialV::VIncomplete(*caller)),
{
    Rc::new(Dval_::DSpecial(Special::Incomplete(*caller)))
}

impl Dval_ {
    /// Whether this value records a failed or unfinished computation.
    pub fn is_special(&self) -> (b: bool)
        ensures
            b == (self@ is VSpecial),
    {
        match self {
            Dval_::DSpecial(_) => true,
            _ => false,
        }
    }
}

} // verus!
