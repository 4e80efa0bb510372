use vstd::prelude::*;
use vstd::string::StringExecFns;

use crate::error::MavecError;

verus! {

/// A number carried by a structured value, sign preserved.
///
/// Integers keep their machine value and are rendered in plain
/// decimal.  A number that is not an integer is carried as the
/// decimal text it was rendered to where it was produced, and that
/// text is emitted verbatim.
#[derive(Debug, PartialEq, Eq)]
pub enum Number {
    /// A signed integer.
    Int(i64),
    /// An unsigned integer.
    UInt(u64),
    /// A non-integer number, as decimal text.
    Decimal(String),
}

/// A structured value: a scalar leaf, an ordered array of values, or
/// an object of string-keyed pairs in the order the mapping exposes
/// them.
#[derive(Debug, PartialEq, Eq)]
pub enum Value {
    /// The null value.
    Null,
    /// A boolean.
    Bool(bool),
    /// A number.
    Number(Number),
    /// A text value.
    String(String),
    /// An ordered sequence of values.
    Array(Vec<Value>),
    /// String-keyed pairs, in the order the mapping exposes them.
    Object(Vec<(String, Value)>),
}

impl Clone for Number {
    /// A copy that is equal to the original.
    fn clone(&self) -> (res: Self)
        ensures
            res == *self,
    {
        match self {
            Number::Int(i) => Number::Int(*i),
            Number::UInt(u) => Number::UInt(*u),
            Number::Decimal(text) => Number::Decimal(text.clone()),
        }
    }
}

impl Clone for Value {
    /// A deep copy.  A scalar copy is equal to its original; a copied
    /// container has the original's shape and renders and flattens to
    /// the very same tokens.
    #[verifier::loop_isolation(false)]
    fn clone(&self) -> (res: Self)
        ensures
            flatten_spec(res) == flatten_spec(*self),
            leaf_token(res) == leaf_token(*self),
            res is Object <==> *self is Object,
            res is Array <==> *self is Array,
            !(*self is Array) && !(*self is Object) ==> res == *self,
        decreases *self,
    {
        match self {
            Value::Null => Value::Null,
            Value::Bool(b) => Value::Bool(*b),
            Value::Number(n) => Value::Number(n.clone()),
            Value::String(text) => Value::String(text.clone()),
            Value::Array(elems) => {
                let mut out: Vec<Value> = Vec::new();
                let mut i: usize = 0;
                while i < elems.len()
                    invariant
                        i <= elems.len(),
                        out@.len() == i,
                        array_tokens(out@) == array_tokens(elems@.take(i as int)),
                    decreases elems.len() - i,
                {
                    proof {
                        broadcast use vstd::std_specs::vec::axiom_vec_index_decreases;

                        assert(decreases_to!(*self => self->Array_0));
                        assert(decreases_to!(self->Array_0 => self->Array_0[i as int]));
                    }
                    let ghost before = out@;
                    out.push(elems[i].clone());
                    i += 1;
                    proof {
                        assert(out@.drop_last() =~= before);
                        assert(elems@.take(i as int).drop_last() =~= elems@.take(i as int - 1));
                    }
                }
                proof {
                    assert(elems@.take(elems@.len() as int) =~= elems@);
                }
                Value::Array(out)
            },
            Value::Object(pairs) => {
                let mut out: Vec<(String, Value)> = Vec::new();
                let mut i: usize = 0;
                while i < pairs.len()
                    invariant
                        i <= pairs.len(),
                        out@.len() == i,
                        object_tokens(out@) == object_tokens(pairs@.take(i as int)),
                    decreases pairs.len() - i,
                {
                    proof {
                        broadcast use vstd::std_specs::vec::axiom_vec_index_decreases;

                        assert(decreases_to!(*self => self->Object_0));
                        assert(decreases_to!(self->Object_0 => self->Object_0[i as int]));
                        assert(decreases_to!(self->Object_0[i as int] => self->Object_0[i as int].1));
                    }
                    let pair = &pairs[i];
                    let ghost before = out@;
                    out.push((pair.0.clone(), pair.1.clone()));
                    i += 1;
                    proof {
                        assert(out@.drop_last() =~= before);
                        assert(pairs@.take(i as int).drop_last() =~= pairs@.take(i as int - 1));
                    }
                }
                proof {
                    assert(pairs@.take(pairs@.len() as int) =~= pairs@);
                }
                Value::Object(out)
            },
        }
    }
}

/// The character for one decimal digit.
pub open spec fn digit_char(d: nat) -> char {
    if d == 0 {
        '0'
    } else if d == 1 {
        '1'
    } else if d == 2 {
        '2'
    } else if d == 3 {
        '3'
    } else if d == 4 {
        '4'
    } else if d == 5 {
        '5'
    } else if d == 6 {
        '6'
    } else if d == 7 {
        '7'
    } else if d == 8 {
        '8'
    } else {
        '9'
    }
}

/// The decimal digits of `n`, most significant first, no sign and no
/// leading zero (a single `'0'` for zero itself).
pub open spec fn dec_rep(n: nat) -> Seq<char>
    decreases n,
{
    if n < 10 {
        seq![digit_char(n)]
    } else {
        dec_rep(n / 10).push(digit_char(n % 10))
    }
}

/// The decimal text of a signed integer: a minus sign for a negative
/// value, then the digits of its magnitude.
pub open spec fn int_text(i: int) -> Seq<char> {
    if i < 0 {
        seq!['-'] + dec_rep((-i) as nat)
    } else {
        dec_rep(i as nat)
    }
}

/// Renders one decimal digit.
fn digit_str(d: u64) -> (s: &'static str)
    requires
        d < 10,
    ensures
        s@ == seq![digit_char(d as nat)],
{
    let s: &'static str = if d == 0 {
        "0"
    } else if d == 1 {
        "1"
    } else if d == 2 {
        "2"
    } else if d == 3 {
        "3"
    } else if d == 4 {
        "4"
    } else if d == 5 {
        "5"
    } else if d == 6 {
        "6"
    } else if d == 7 {
        "7"
    } else if d == 8 {
        "8"
    } else {
        "9"
    };
    proof {
        reveal_strlit("0");
        reveal_strlit("1");
        reveal_strlit("2");
        reveal_strlit("3");
        reveal_strlit("4");
        reveal_strlit("5");
        reveal_strlit("6");
        reveal_strlit("7");
        reveal_strlit("8");
        reveal_strlit("9");
        assert(s@ =~= seq![digit_char(d as nat)]);
    }
    s
}

/// Renders an unsigned integer in decimal.
pub fn u64_to_string(n: u64) -> (s: String)
    ensures
        s@ == dec_rep(n as nat),
{
    if n < 10 {
        return String::from_str(digit_str(n));
    }
    let mut rest: u64 = n;
    let mut s = String::new();
    proof {
        assert(dec_rep(n as nat) + s@ =~= dec_rep(n as nat));
    }
    while rest > 0
        invariant
            rest > 0 ==> dec_rep(n as nat) == dec_rep(rest as nat) + s@,
            rest == 0 ==> s@ == dec_rep(n as nat),
        decreases rest,
    {
        let ghost prev = s@;
        let ghost r0: nat = rest as nat;
        let d: u64 = rest % 10;
        let digit = String::from_str(digit_str(d));
        s = digit.concat(s.as_str());
        rest = rest / 10;
        proof {
            if rest > 0 {
                assert(dec_rep(r0) == dec_rep(r0 / 10).push(digit_char(r0 % 10)));
                assert(dec_rep(r0 / 10).push(digit_char(r0 % 10)) + prev =~= dec_rep(r0 / 10) + s@);
            } else {
                assert(dec_rep(r0) == seq![digit_char(r0)]);
                assert(seq![digit_char(r0)] + prev =~= s@);
            }
        }
    }
    s
}

/// The text of a number token.
pub open spec fn number_text(n: Number) -> Seq<char> {
    match n {
        Number::Int(i) => int_text(i as int),
        Number::UInt(u) => dec_rep(u as nat),
        Number::Decimal(text) => text@,
    }
}

/// The token emitted for a value met one level below the top: leaves
/// are rendered per kind, and a nested container collapses to the
/// empty token rather than being flattened in turn.
pub open spec fn leaf_token(v: Value) -> Seq<char> {
    match v {
        Value::Null => "null"@,
        Value::Bool(b) => if b {
            "true"@
        } else {
            "false"@
        },
        Value::Number(n) => number_text(n),
        Value::String(text) => text@,
        Value::Array(_) => Seq::<char>::empty(),
        Value::Object(_) => Seq::<char>::empty(),
    }
}

/// The tokens of an object's pairs: for each pair in order, the key
/// as it stands, then the rendered value.
pub open spec fn object_tokens(pairs: Seq<(String, Value)>) -> Seq<Seq<char>>
    decreases pairs.len(),
{
    if pairs.len() == 0 {
        Seq::empty()
    } else {
        object_tokens(pairs.drop_last()).push(pairs.last().0@).push(leaf_token(pairs.last().1))
    }
}

/// The tokens of an array's elements, one per element, in order.
pub open spec fn array_tokens(elems: Seq<Value>) -> Seq<Seq<char>>
    decreases elems.len(),
{
    if elems.len() == 0 {
        Seq::empty()
    } else {
        array_tokens(elems.drop_last()).push(leaf_token(elems.last()))
    }
}

/// What flattening yields: the token sequence of a container, and
/// nothing for a bare scalar.
pub open spec fn flatten_spec(v: Value) -> Option<Seq<Seq<char>>> {
    match v {
        Value::Object(pairs) => Some(object_tokens(pairs@)),
        Value::Array(elems) => Some(array_tokens(elems@)),
        _ => None,
    }
}

/// An object's token sequence holds exactly two tokens per pair.
pub proof fn lemma_object_tokens_len(pairs: Seq<(String, Value)>)
    ensures
        object_tokens(pairs).len() == 2 * pairs.len(),
    decreases pairs.len(),
{
    if pairs.len() > 0 {
        lemma_object_tokens_len(pairs.drop_last());
    }
}

/// An array's token sequence holds exactly one token per element.
pub proof fn lemma_array_tokens_len(elems: Seq<Value>)
    ensures
        array_tokens(elems).len() == elems.len(),
    decreases elems.len(),
{
    if elems.len() > 0 {
        lemma_array_tokens_len(elems.drop_last());
    }
}

/// In an object's token sequence, each key stands immediately before
/// its own value's token.
pub proof fn lemma_object_tokens_index(pairs: Seq<(String, Value)>, i: int)
    requires
        0 <= i < pairs.len(),
    ensures
        object_tokens(pairs)[2 * i] == pairs[i].0@,
        object_tokens(pairs)[2 * i + 1] == leaf_token(pairs[i].1),
    decreases pairs.len(),
{
    lemma_object_tokens_len(pairs.drop_last());
    if i < pairs.len() - 1 {
        lemma_object_tokens_index(pairs.drop_last(), i);
    }
}

/// An array's token sequence renders its elements pointwise.
pub proof fn lemma_array_tokens_index(elems: Seq<Value>, i: int)
    requires
        0 <= i < elems.len(),
    ensures
        array_tokens(elems)[i] == leaf_token(elems[i]),
    decreases elems.len(),
{
    lemma_array_tokens_len(elems.drop_last());
    if i < elems.len() - 1 {
        lemma_array_tokens_index(elems.drop_last(), i);
    }
}

/// Flattening is a pure function of its input: two runs on equal
/// values yield equal outcomes, there being no state between calls.
pub proof fn lemma_flatten_deterministic(first: Value, second: Value)
    requires
        first == second,
    ensures
        flatten_spec(first) == flatten_spec(second),
{
}

/// Renders a signed integer in decimal, minus sign first for a
/// negative value.
pub fn i64_to_string(i: i64) -> (s: String)
    ensures
        s@ == int_text(i as int),
{
    if i >= 0 {
        u64_to_string(i as u64)
    } else {
        let magnitude: u64 = (-(i as i128)) as u64;
        let digits = u64_to_string(magnitude);
        let s = String::from_str("-").concat(digits.as_str());
        proof {
            reveal_strlit("-");
            assert(s@ =~= int_text(i as int));
        }
        s
    }
}

/// Renders a number token.
pub fn number_to_string(n: &Number) -> (s: String)
    ensures
        s@ == number_text(*n),
{
    match n {
        Number::Int(i) => i64_to_string(*i),
        Number::UInt(u) => u64_to_string(*u),
        Number::Decimal(text) => text.clone(),
    }
}

/// Renders the token for a value met one level below the top.
pub fn leaf_to_string(v: &Value) -> (s: String)
    ensures
        s@ == leaf_token(*v),
{
    match v {
        Value::Null => String::from_str("null"),
        Value::Bool(b) => if *b {
            String::from_str("true")
        } else {
            String::from_str("false")
        },
        Value::Number(n) => number_to_string(n),
        Value::String(text) => text.clone(),
        Value::Array(_) => String::new(),
        Value::Object(_) => String::new(),
    }
}

/// Flattens a structured value into one flat sequence of text tokens.
///
/// An object yields, pair by pair in the order the pairs stand, the
/// key and then the rendered value; an array yields one rendered
/// token per element, in order; a bare scalar is refused with a
/// structural parse error.  Nested containers are not recursed into:
/// one level down they collapse to the empty token.
pub fn to_vec(value: Value) -> (result: Result<Vec<String>, MavecError>)
    ensures
        match result {
            Ok(tokens) => {
                &&& flatten_spec(value) == Some(tokens.deep_view())
                &&& value is Object || value is Array
                &&& (value matches Value::Object(pairs) ==> tokens@.len() == 2 * pairs@.len())
                &&& (value matches Value::Array(elems) ==> tokens@.len() == elems@.len())
            },
            Err(e) => {
                &&& !(value is Object) && !(value is Array)
                &&& (e matches MavecError::JsonStructureParseError(detail) && detail@
                    == "Value could not be converted to Vec"@)
            },
        },
{
    match value {
        Value::Object(pairs) => {
            let mut tokens: Vec<String> = Vec::new();
            let mut idx: usize = 0;
            while idx < pairs.len()
                invariant
                    idx <= pairs.len(),
                    tokens.deep_view() == object_tokens(pairs@.take(idx as int)),
                    tokens@.len() == 2 * idx,
                decreases pairs.len() - idx,
            {
                let ghost before = tokens.deep_view();
                let pair = &pairs[idx];
                let key = pair.0.clone();
                let token = leaf_to_string(&pair.1);
                tokens.push(key);
                tokens.push(token);
                idx += 1;
                proof {
                    let taken = pairs@.take(idx as int);
                    assert(taken.drop_last() =~= pairs@.take(idx as int - 1));
                    assert(tokens.deep_view() =~= before.push(pair.0@).push(leaf_token(pair.1)));
                }
            }
            proof {
                assert(pairs@.take(pairs@.len() as int) =~= pairs@);
            }
            Ok(tokens)
        },
        Value::Array(elems) => {
            let mut tokens: Vec<String> = Vec::new();
            let mut idx: usize = 0;
            while idx < elems.len()
                invariant
                    idx <= elems.len(),
                    tokens.deep_view() == array_tokens(elems@.take(idx as int)),
                    tokens@.len() == idx,
                decreases elems.len() - idx,
            {
                let ghost before = tokens.deep_view();
                let token = leaf_to_string(&elems[idx]);
                tokens.push(token);
                idx += 1;
                proof {
                    let taken = elems@.take(idx as int);
                    assert(taken.drop_last() =~= elems@.take(idx as int - 1));
                    assert(tokens.deep_view() =~= before.push(leaf_token(elems@[idx as int - 1])));
                }
            }
            proof {
                assert(elems@.take(elems@.len() as int) =~= elems@);
            }
            Ok(tokens)
        },
        _ => Err(
            MavecError::JsonStructureParseError(
                String::from_str("Value could not be converted to Vec"),
            ),
        ),
    }
}

} // verus!
