//! Names of functions, callers and identifiers, and the table of standard
//! library functions that evaluation looks names up in.
use std::rc::Rc;
use vstd::prelude::*;

use crate::stdlib_laws::law_lookup_exact_name;
use crate::text::{nat_text, push_nat_text};

verus! {

/// The full name of a function: owner, package, module, name and version.
#[derive(Debug, Eq, Hash)]
pub enum FunctionDesc_ {
    FunctionDesc(String, String, String, String, u32),
}

/// A function name as plain values: the text of its four parts and its version.
pub type DescV = (Seq<char>, Seq<char>, Seq<char>, Seq<char>, u32);

impl View for FunctionDesc_ {
    type V = DescV;

    open spec fn view(&self) -> DescV {
        match self {
            FunctionDesc_::FunctionDesc(owner, package, module, name, version) => (
                owner@,
                package@,
                module@,
                name@,
                *version,
            ),
        }
    }
}

/// The printed form of a function name: `owner/package/module::name_vN`.
pub open spec fn desc_text(d: DescV) -> Seq<char> {
    d.0 + seq!['/'] + d.1 + seq!['/'] + d.2 + seq![':', ':'] + d.3 + seq!['_', 'v'] + nat_text(
        d.4 as nat,
    )
}

/// The name of a function of the standard library: owner `dark`, package `stdlib`.
pub open spec fn stdlib_desc_view(module: Seq<char>, name: Seq<char>, version: u32) -> DescV {
    ("dark"@, "stdlib"@, module, name, version)
}

impl PartialEq for FunctionDesc_ {
    fn eq(&self, other: &Self) -> (res: bool) {
        self.same_as(other)
    }
}

impl vstd::std_specs::cmp::PartialEqSpecImpl for FunctionDesc_ {
    open spec fn obeys_eq_spec() -> bool {
        true
    }

    open spec fn eq_spec(&self, other: &Self) -> bool {
        self@ == other@
    }
}

impl Clone for FunctionDesc_ {
    fn clone(&self) -> (res: Self)
        ensures
            res == *self,
    {
        match self {
            FunctionDesc_::FunctionDesc(owner, package, module, name, version) => {
                FunctionDesc_::FunctionDesc(
                    owner.clone(),
                    package.clone(),
                    module.clone(),
                    name.clone(),
                    *version,
                )
            },
        }
    }
}

impl FunctionDesc_ {
    /// Whether two names are the same name.
    pub fn same_as(&self, other: &FunctionDesc_) -> (res: bool)
        ensures
            res == (self@ == other@),
    {
        match (self, other) {
            (
                FunctionDesc_::FunctionDesc(o1, p1, m1, n1, v1),
                FunctionDesc_::FunctionDesc(o2, p2, m2, n2, v2),
            ) => *o1 == *o2 && *p1 == *p2 && *m1 == *m2 && *n1 == *n2 && *v1 == *v2,
        }
    }

    /// The printed form of the name, `owner/package/module::name_vN`.
    pub fn to_string(&self) -> (s: String)
        ensures
            s@ == desc_text(self@),
    {
        proof {
            reveal_strlit("/");
            reveal_strlit("::");
            reveal_strlit("_v");
        }
        match self {
            FunctionDesc_::FunctionDesc(owner, package, module, name, version) => {
                let mut s = owner.clone();
                s.append("/");
                s.append(package.as_str());
                s.append("/");
                s.append(module.as_str());
                s.append("::");
                s.append(name.as_str());
                s.append("_v");
                push_nat_text(&mut s, *version as u64);
                assert(s@ =~= desc_text(self@));
                s
            },
        }
    }
}

/// The identifier of a toplevel (a handler or a function of a canvas).
#[derive(Debug, Clone, Copy, PartialEq, Eq, Structural, Hash)]
pub enum TLID {
    TLID(u64),
}

/// The identifier of an expression.
#[derive(Debug, Clone, Copy, PartialEq, Eq, Structural, Hash)]
pub enum ID {
    ID(u64),
}

/// Where a value was produced: at a toplevel, or at an expression in one.
#[derive(Debug, Clone, Copy, PartialEq, Eq, Structural, Hash)]
pub enum Caller {
    Toplevel(TLID),
    Code(TLID, ID),
}

impl Caller {
    /// The toplevel that a caller belongs to.
    pub open spec fn tlid(self) -> TLID {
        match self {
            Caller::Toplevel(tlid) => tlid,
            Caller::Code(tlid, _) => tlid,
        }
    }

    pub fn to_tlid(&self) -> (t: TLID)
        ensures
            t == self.tlid(),
    {
        match self {
            Caller::Toplevel(tlid) => *tlid,
            Caller::Code(tlid, _) => *tlid,
        }
    }
}

/// Calls `rand::random::<u64>()`: a number from the thread-local generator.
/// Nothing is stated of the number; the generator panics only when the
/// operating system cannot seed it.
#[verifier::external_body]
fn random_u64() -> u64 {
    rand::random::<u64>()
}

/// Calls `rand::random::<i32>()`: a number from the thread-local generator.
/// Nothing is stated of the number; the generator panics only when the
/// operating system cannot seed it.
#[verifier::external_body]
pub(crate) fn random_i32() -> i32 {
    rand::random::<i32>()
}

/// A fresh expression identifier, drawn at random.
pub fn gid() -> ID {
    ID::ID(random_u64())
}

/// A fresh toplevel identifier, drawn at random.
pub fn gtlid() -> TLID {
    TLID::TLID(random_u64())
}

/// Calls `Rc::clone`, which makes another pointer to the same allocation:
/// the value behind it is the value behind `r`.
#[verifier::external_body]
pub(crate) fn rc_clone<T>(r: &Rc<T>) -> (res: Rc<T>)
    ensures
        res == *r,
{
    Rc::clone(r)
}

/// The functions of the standard library.
#[derive(Debug, Clone, Copy, PartialEq, Eq, Structural)]
pub enum Builtin {
    /// `Int::random_v0`: a random integer.
    IntRandom,
    /// `Int::range_v0`: the integers from the first argument up to, not
    /// including, the second.
    IntRange,
    /// `List::map_v0`: applies a lambda to each member of a list.
    ListMap,
    /// `Int::toString_v0`: the decimal text of an integer.
    IntToString,
    /// `Int::eq_v0`: whether two integers are equal.
    IntEq,
    /// `Int::mod_v0`: the remainder of integer division.
    IntMod,
}

/// A function that a name resolves to.
pub struct StdlibFunction {
    pub f: Builtin,
}

impl StdlibFunction {
    /// How a function of the table is written in debugging output: `function`.
    pub fn debug_text(&self) -> (s: &'static str)
        ensures
            s@ == "function"@,
    {
        "function"
    }
}

/// The function table: names with the functions they resolve to.
pub type StdlibDef = Vec<(FunctionDesc_, StdlibFunction)>;

/// What evaluation resolves function names in.
pub struct Environment {
    pub functions: StdlibDef,
}

/// The function that a table resolves a name to: the first entry with that name.
pub open spec fn lookup_entries(entries: Seq<(FunctionDesc_, StdlibFunction)>, key: DescV) -> Option<
    Builtin,
>
    decreases entries.len(),
{
    if entries.len() == 0 {
        None
    } else if entries[0].0@ == key {
        Some(entries[0].1.f)
    } else {
        lookup_entries(entries.drop_first(), key)
    }
}

/// The function that a name denotes in the standard library: `dark/stdlib`
/// functions of version 0, `Int::random`, `Int::range`, `Int::toString`,
/// `Int::eq`, `Int::mod` and `List::map`.
pub open spec fn stdlib_lookup(key: DescV) -> Option<Builtin> {
    if key.0 == "dark"@ && key.1 == "stdlib"@ && key.4 == 0 {
        if key.2 == "Int"@ {
            if key.3 == "random"@ {
                Some(Builtin::IntRandom)
            } else if key.3 == "range"@ {
                Some(Builtin::IntRange)
            } else if key.3 == "toString"@ {
                Some(Builtin::IntToString)
            } else if key.3 == "eq"@ {
                Some(Builtin::IntEq)
            } else if key.3 == "mod"@ {
                Some(Builtin::IntMod)
            } else {
                None
            }
        } else if key.2 == "List"@ && key.3 == "map"@ {
            Some(Builtin::ListMap)
        } else {
            None
        }
    } else {
        None
    }
}

impl Environment {
    /// The table resolves every name as the standard library does.
    pub open spec fn is_stdlib(&self) -> bool {
        forall|key: DescV| #[trigger] lookup_entries(self.functions@, key) == stdlib_lookup(key)
    }

    /// The function that `name` resolves to, if any: that of the first entry
    /// with exactly that name, and nothing where no entry has it.
    pub fn get(&self, name: &FunctionDesc_) -> (res: Option<Builtin>)
        ensures
            res == lookup_entries(self.functions@, name@),
            res matches Some(b) ==> exists|i: int|
                0 <= i < self.functions@.len() && #[trigger] self.functions@[i].0@ == name@
                    && self.functions@[i].1.f == b,
            res is None ==> forall|i: int|
                0 <= i < self.functions@.len() ==> #[trigger] self.functions@[i].0@ != name@,
    {
        proof {
            law_lookup_exact_name(self.functions@, name@);
        }
        let n = self.functions.len();
        let mut i: usize = 0;
        assert(self.functions@.skip(0) =~= self.functions@);
        while i < n
            invariant
                n == self.functions@.len(),
                i <= n,
                lookup_entries(self.functions@, name@) == lookup_entries(
                    self.functions@.skip(i as int),
                    name@,
                ),
            decreases n - i,
        {
            let entry = &self.functions[i];
            assert(self.functions@.skip(i as int)[0] == self.functions@[i as int]);
            if entry.0.same_as(name) {
                return Some(entry.1.f);
            }
            assert(self.functions@.skip(i as int).drop_first() =~= self.functions@.skip(
                (i + 1) as int,
            ));
            i += 1;
        }
        None
    }
}

/// The name `dark/stdlib/module::name_v0`.
fn stdlib_name(module: &str, name: &str) -> (d: FunctionDesc_)
    ensures
        d@ == stdlib_desc_view(module@, name@, 0),
{
    FunctionDesc_::FunctionDesc(
        "dark".to_string(),
        "stdlib".to_string(),
        module.to_string(),
        name.to_string(),
        0,
    )
}

proof fn lemma_stdlib_table(s0: Seq<(FunctionDesc_, StdlibFunction)>)
    requires
        s0.len() == 6,
        s0[0].0@ == stdlib_desc_view("Int"@, "random"@, 0),
        s0[0].1.f == Builtin::IntRandom,
        s0[1].0@ == stdlib_desc_view("Int"@, "range"@, 0),
        s0[1].1.f == Builtin::IntRange,
        s0[2].0@ == stdlib_desc_view("List"@, "map"@, 0),
        s0[2].1.f == Builtin::ListMap,
        s0[3].0@ == stdlib_desc_view("Int"@, "toString"@, 0),
        s0[3].1.f == Builtin::IntToString,
        s0[4].0@ == stdlib_desc_view("Int"@, "eq"@, 0),
        s0[4].1.f == Builtin::IntEq,
        s0[5].0@ == stdlib_desc_view("Int"@, "mod"@, 0),
        s0[5].1.f == Builtin::IntMod,
    ensures
        forall|key: DescV| #[trigger] lookup_entries(s0, key) == stdlib_lookup(key),
{
    reveal_strlit("dark");
    reveal_strlit("stdlib");
    reveal_strlit("Int");
    reveal_strlit("List");
    reveal_strlit("random");
    reveal_strlit("range");
    reveal_strlit("map");
    reveal_strlit("toString");
    reveal_strlit("eq");
    reveal_strlit("mod");
    assert("Int"@.len() == 3 && "List"@.len() == 4);
    assert("random"@.len() == 6 && "range"@.len() == 5 && "map"@.len() == 3);
    assert("toString"@.len() == 8 && "eq"@.len() == 2 && "mod"@.len() == 3);
    let s1 = s0.drop_first();
    let s2 = s1.drop_first();
    let s3 = s2.drop_first();
    let s4 = s3.drop_first();
    let s5 = s4.drop_first();
    let s6 = s5.drop_first();
    assert(s1[0] == s0[1]);
    assert(s2[0] == s0[2]);
    assert(s3[0] == s0[3]);
    assert(s4[0] == s0[4]);
    assert(s5[0] == s0[5]);
    assert forall|key: DescV| #[trigger] lookup_entries(s0, key) == stdlib_lookup(key) by {
        assert(lookup_entries(s6, key) == None::<Builtin>);
        assert(lookup_entries(s5, key) == if s0[5].0@ == key { Some(s0[5].1.f) } else { None });
        assert(lookup_entries(s4, key) == if s0[4].0@ == key { Some(s0[4].1.f) } else { lookup_entries(s5, key) });
        assert(lookup_entries(s3, key) == if s0[3].0@ == key { Some(s0[3].1.f) } else { lookup_entries(s4, key) });
        assert(lookup_entries(s2, key) == if s0[2].0@ == key { Some(s0[2].1.f) } else { lookup_entries(s3, key) });
        assert(lookup_entries(s1, key) == if s0[1].0@ == key { Some(s0[1].1.f) } else { lookup_entries(s2, key) });
        assert(lookup_entries(s0, key) == if s0[0].0@ == key { Some(s0[0].1.f) } else { lookup_entries(s1, key) });
    }
}

/// The standard library's function table.
pub fn stdlib() -> (def: StdlibDef)
    ensures
        def@.len() == 6,
        forall|key: DescV| #[trigger] lookup_entries(def@, key) == stdlib_lookup(key),
{
    let mut fns: StdlibDef = Vec::new();
    fns.push((stdlib_name("Int", "random"), StdlibFunction { f: Builtin::IntRandom }));
    fns.push((stdlib_name("Int", "range"), StdlibFunction { f: Builtin::IntRange }));
    fns.push((stdlib_name("List", "map"), StdlibFunction { f: Builtin::ListMap }));
    fns.push((stdlib_name("Int", "toString"), StdlibFunction { f: Builtin::IntToString }));
    fns.push((stdlib_name("Int", "eq"), StdlibFunction { f: Builtin::IntEq }));
    fns.push((stdlib_name("Int", "mod"), StdlibFunction { f: Builtin::IntMod }));
    proof {
        lemma_stdlib_table(fns@);
    }
    fns
}

} // verus!
