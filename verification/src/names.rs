//! Lists of parameter names, held in `im_rc`'s persistent vector.
use vstd::prelude::*;

verus! {

/// `im_rc::Vector`, a persistent vector; its items are known only through
/// the names and calls below.
#[verifier::external_type_specification]
#[verifier::external_body]
#[verifier::reject_recursive_types(A)]
pub struct ExVector<A>(im_rc::Vector<A>);

/// What an `im_rc::Vector<String>` holds: the text of each string, in order.
pub uninterp spec fn string_vector_items(v: im_rc::Vector<String>) -> Seq<Seq<char>>;

/// What an `im_rc::Vector<&str>` holds: the text of each string, in order.
pub uninterp spec fn str_vector_items(v: im_rc::Vector<&str>) -> Seq<Seq<char>>;

/// Calls `im_rc::Vector::new`, which makes an empty vector.
#[verifier::external_body]
pub(crate) fn string_vector_new() -> (v: im_rc::Vector<String>)
    ensures
        string_vector_items(v) == Seq::<Seq<char>>::empty(),
{
    im_rc::Vector::new()
}

/// Calls `im_rc::Vector::push_back`, which adds `s` at the end.
#[verifier::external_body]
pub(crate) fn string_vector_push_back(v: &mut im_rc::Vector<String>, s: String)
    ensures
        string_vector_items(*final(v)) == string_vector_items(*old(v)).push(s@),
{
    v.push_back(s)
}

/// Calls `im_rc::Vector::len`, the number of items.
#[verifier::external_body]
pub(crate) fn string_vector_len(v: &im_rc::Vector<String>) -> (n: usize)
    ensures
        n == string_vector_items(*v).len(),
{
    v.len()
}

/// Calls `im_rc::Vector::index`, the item at a position; it panics only when
/// the position is out of bounds, which `requires` rules out.
#[verifier::external_body]
pub(crate) fn string_vector_get(v: &im_rc::Vector<String>, i: usize) -> (s: &String)
    requires
        i < string_vector_items(*v).len(),
    ensures
        s@ == string_vector_items(*v)[i as int],
{
    &v[i]
}

/// Calls `im_rc::Vector::clone`, which shares the items of `v`: the copy
/// holds the same items in the same order.
#[verifier::external_body]
pub(crate) fn string_vector_clone(v: &im_rc::Vector<String>) -> (c: im_rc::Vector<String>)
    ensures
        string_vector_items(c) == string_vector_items(*v),
{
    v.clone()
}

/// Calls `im_rc::Vector::new`, which makes an empty vector.
#[verifier::external_body]
pub(crate) fn str_vector_new<'a>() -> (v: im_rc::Vector<&'a str>)
    ensures
        str_vector_items(v) == Seq::<Seq<char>>::empty(),
{
    im_rc::Vector::new()
}

/// Calls `im_rc::Vector::push_back`, which adds `s` at the end.
#[verifier::external_body]
pub(crate) fn str_vector_push_back<'a>(v: &mut im_rc::Vector<&'a str>, s: &'a str)
    ensures
        str_vector_items(*final(v)) == str_vector_items(*old(v)).push(s@),
{
    v.push_back(s)
}

/// Calls `im_rc::Vector::len`, the number of items.
#[verifier::external_body]
pub(crate) fn str_vector_len(v: &im_rc::Vector<&str>) -> (n: usize)
    ensures
        n == str_vector_items(*v).len(),
{
    v.len()
}

/// Calls `im_rc::Vector::index`, the item at a position; it panics only when
/// the position is out of bounds, which `requires` rules out.
#[verifier::external_body]
pub(crate) fn str_vector_get<'a>(v: &im_rc::Vector<&'a str>, i: usize) -> (s: &'a str)
    requires
        i < str_vector_items(*v).len(),
    ensures
        s@ == str_vector_items(*v)[i as int],
{
    v[i]
}

/// A list of parameter names, as `elambda` takes it, holding `names` in order.
pub fn param_names<'a>(names: &Vec<&'a str>) -> (v: im_rc::Vector<&'a str>)
    ensures
        str_vector_items(v).len() == names@.len(),
        forall|i: int| 0 <= i < names@.len() ==> #[trigger] str_vector_items(v)[i] == names@[i]@,
{
    let mut v = str_vector_new();
    let mut i: usize = 0;
    while i < names.len()
        invariant
            i <= names@.len(),
            str_vector_items(v).len() == i,
            forall|k: int| 0 <= k < i ==> #[trigger] str_vector_items(v)[k] == names@[k]@,
        decreases names@.len() - i,
    {
        str_vector_push_back(&mut v, names[i]);
        i += 1;
    }
    v
}

} // verus!
