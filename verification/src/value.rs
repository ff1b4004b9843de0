//! Runtime values, the coercion ladder between their kinds, and arithmetic
//! and comparison on them.

use vstd::prelude::*;
use vstd::arithmetic::power::pow;
use crate::error::{error, Console, EventV};
use crate::number::{
    decimal_text, float_from_integer, float_less, float_minus, float_nearest_integer, float_over,
    float_plus, float_raised, float_rest, float_times, float_to_decimal,
    quotient_toward_zero, remainder_toward_zero, Float, FloatV, Integer,
};

verus! {

/// The precision of every float, in bits of mantissa.
pub const FLOATING_PRECISION: u32 = 363;

/// The universal runtime datum.
#[derive(Debug, PartialEq, Eq)]
pub enum Value {
    Float(Float),
    Integer(Integer),
    Bool(bool),
    String(String),
    List(Vec<Value>),
    Nil,
}

/// The mathematical content of a [`Value`].
pub enum ValueV {
    Float(FloatV),
    Integer(int),
    Bool(bool),
    String(Seq<char>),
    List(Seq<ValueV>),
    Nil,
}

impl View for Value {
    type V = ValueV;

    open spec fn view(&self) -> ValueV
        decreases self,
    {
        match self {
            Value::Float(f) => ValueV::Float(f@),
            Value::Integer(i) => ValueV::Integer(i@),
            Value::Bool(b) => ValueV::Bool(*b),
            Value::String(s) => ValueV::String(s@),
            Value::List(l) => ValueV::List(
                Seq::new(
                    l@.len(),
                    |i: int|
                        if 0 <= i < l@.len() {
                            l@[i].view()
                        } else {
                            ValueV::Nil
                        },
                ),
            ),
            Value::Nil => ValueV::Nil,
        }
    }
}

/// The contents of a list of values.
pub open spec fn list_view(l: Seq<Value>) -> Seq<ValueV> {
    Seq::new(l.len(), |i: int| l[i]@)
}

/// The view of a list value is the list of the views of its elements.
pub proof fn lemma_list_view(l: Vec<Value>)
    ensures
        Value::List(l)@ == ValueV::List(list_view(l@)),
{
    assert(Value::List(l)@->List_0 =~= list_view(l@));
}

impl ValueV {
    /// The rank of a value's kind on the coercion ladder; the smaller rank
    /// wins when two values meet.
    pub open spec fn strength(self) -> nat {
        match self {
            ValueV::Nil => 0,
            ValueV::List(_) => 1,
            ValueV::String(_) => 2,
            ValueV::Float(_) => 3,
            ValueV::Integer(_) => 4,
            ValueV::Bool(_) => 5,
        }
    }

    /// The value as a float, or `Nil` where it has none.
    pub open spec fn as_float(self) -> ValueV {
        match self {
            ValueV::Float(_) => self,
            ValueV::Integer(i) => ValueV::Float(float_from_integer(i, FLOATING_PRECISION as nat)),
            ValueV::Bool(b) => if b {
                ValueV::Float(float_from_integer(1, FLOATING_PRECISION as nat))
            } else {
                ValueV::Float(FloatV { mantissa: 0, exponent: 0 })
            },
            _ => ValueV::Nil,
        }
    }

    /// The value as an integer, or `Nil` where it has none. A float goes to
    /// the nearest integer, an infinity to zero.
    pub open spec fn as_integer(self) -> ValueV {
        match self {
            ValueV::Float(f) => ValueV::Integer(
                if f.is_infinite() {
                    0
                } else {
                    float_nearest_integer(f)
                },
            ),
            ValueV::Integer(_) => self,
            ValueV::Bool(b) => ValueV::Integer(
                if b {
                    1
                } else {
                    0
                },
            ),
            _ => ValueV::Nil,
        }
    }

    /// The value as a boolean, or `Nil` for `Nil`: numbers are true when
    /// positive, strings and lists when not empty.
    pub open spec fn as_bool(self) -> ValueV {
        match self {
            ValueV::Float(f) => ValueV::Bool(f.is_positive()),
            ValueV::Integer(i) => ValueV::Bool(i > 0),
            ValueV::Bool(_) => self,
            ValueV::String(s) => ValueV::Bool(s.len() > 0),
            ValueV::List(l) => ValueV::Bool(l.len() > 0),
            ValueV::Nil => ValueV::Nil,
        }
    }

    /// The value as a string, or `Nil` for `Nil`. A list is written in its
    /// structural form.
    pub open spec fn as_str(self) -> ValueV {
        match self {
            ValueV::Float(f) => ValueV::String(float_to_decimal(f, FLOATING_PRECISION as nat)),
            ValueV::Integer(i) => ValueV::String(decimal_text(i)),
            ValueV::Bool(b) => ValueV::String(bool_text(b)),
            ValueV::String(_) => self,
            ValueV::List(l) => ValueV::String(structure_list_text(l)),
            ValueV::Nil => ValueV::Nil,
        }
    }

    /// The value as a list, or `Nil` for `Nil`: anything but a list becomes
    /// the list of that one element.
    pub open spec fn as_lst(self) -> ValueV {
        match self {
            ValueV::List(_) => self,
            ValueV::Nil => ValueV::Nil,
            _ => ValueV::List(seq![self]),
        }
    }

    /// The value coerced to the kind of the given rank.
    pub open spec fn as_strength(self, tag: nat) -> ValueV {
        if tag == 0 {
            ValueV::Nil
        } else if tag == 1 {
            self.as_lst()
        } else if tag == 2 {
            self.as_str()
        } else if tag == 3 {
            self.as_float()
        } else if tag == 4 {
            self.as_integer()
        } else {
            self.as_bool()
        }
    }

    /// Both values coerced to the stronger of their two kinds; both `Nil`
    /// where either coercion fails.
    pub open spec fn strongest(self, other: ValueV) -> (ValueV, ValueV) {
        let tag = if self.strength() <= other.strength() {
            self.strength()
        } else {
            other.strength()
        };
        let a = self.as_strength(tag);
        let b = other.as_strength(tag);
        if a is Nil || b is Nil {
            (ValueV::Nil, ValueV::Nil)
        } else {
            (a, b)
        }
    }

    /// Whether the value is a number.
    pub open spec fn is_comparable(self) -> bool {
        self is Float || self is Integer
    }

    /// The text by which a value is printed.
    pub open spec fn display(self) -> Seq<char>
        decreases self,
    {
        match self {
            ValueV::Float(f) => float_to_decimal(f, FLOATING_PRECISION as nat),
            ValueV::Integer(i) => decimal_text(i),
            ValueV::Bool(b) => bool_text(b),
            ValueV::String(s) => s,
            ValueV::List(l) => "["@ + display_items(l) + "]"@,
            ValueV::Nil => "nil"@,
        }
    }

    /// The structural text of a value: the name of its kind and, in
    /// parentheses, its content.
    pub open spec fn structure_text(self) -> Seq<char>
        decreases self, 0nat,
    {
        match self {
            ValueV::Float(f) => "Float("@ + float_to_decimal(f, FLOATING_PRECISION as nat) + ")"@,
            ValueV::Integer(i) => "Integer("@ + decimal_text(i) + ")"@,
            ValueV::Bool(b) => "Bool("@ + bool_text(b) + ")"@,
            ValueV::String(s) => "String("@ + quoted_text(s) + ")"@,
            ValueV::List(l) => "List("@ + structure_list_text(l) + ")"@,
            ValueV::Nil => "Nil"@,
        }
    }
}

/// The text of a boolean.
pub open spec fn bool_text(b: bool) -> Seq<char> {
    if b {
        "true"@
    } else {
        "false"@
    }
}

/// The printed items of a list, each followed by a comma.
pub open spec fn display_items(l: Seq<ValueV>) -> Seq<char>
    decreases l,
{
    if l.len() == 0 {
        Seq::<char>::empty()
    } else {
        display_items(l.drop_last()) + l.last().display() + ","@
    }
}

/// The structural texts of the items of a list, separated by a comma and a
/// space.
pub open spec fn structure_items(l: Seq<ValueV>) -> Seq<char>
    decreases l, 0nat,
{
    if l.len() == 0 {
        Seq::<char>::empty()
    } else if l.len() == 1 {
        l.last().structure_text()
    } else {
        structure_items(l.drop_last()) + ", "@ + l.last().structure_text()
    }
}

/// The structural text of a list: its items in square brackets.
pub open spec fn structure_list_text(l: Seq<ValueV>) -> Seq<char>
    decreases l, 1nat,
{
    "["@ + structure_items(l) + "]"@
}

/// The text that the `Debug` formatting of `str` gives for a string: the
/// string in double quotes, with its special characters escaped.
pub uninterp spec fn quoted_text(s: Seq<char>) -> Seq<char>;

/// Formats a string with the `Debug` implementation of `str`.
#[verifier::external_body]
fn debug_string(s: &str) -> (r: String)
    ensures
        r@ == quoted_text(s@),
{
    format!("{:?}", s)
}

/// What an operation on values comes to: a value, or a failure with the
/// message of its diagnostic.
pub type Outcome = Result<ValueV, Seq<char>>;

/// Whether an operation with the given outcome may return `r` and turn the
/// console from `before` into `after`: a value is returned as it is and
/// leaves the console alone; a failure returns `Nil` and adds its diagnostic.
pub open spec fn reports(outcome: Outcome, r: ValueV, before: Seq<EventV>, after: Seq<EventV>) -> bool {
    match outcome {
        Ok(v) => r == v && after == before,
        Err(m) => r is Nil && after == before.push(EventV::Diagnostic(m)),
    }
}

/// The outcome of a float operation: its result, or a failure where it has
/// none.
pub open spec fn float_outcome(r: Option<FloatV>) -> Outcome {
    match r {
        Some(f) => Ok(ValueV::Float(f)),
        None => Err("Float operation without a finite result"@),
    }
}

/// The sign of `a - b` for two numbers, `None` unless both are numbers. An
/// integer is compared with a float as a float.
pub open spec fn comp_spec(a: ValueV, b: ValueV) -> Option<i8> {
    if !(a.is_comparable() && b.is_comparable()) {
        None
    } else if a is Float || b is Float {
        let x = a.as_float()->Float_0;
        let y = b.as_float()->Float_0;
        if float_less(x, y) {
            Some(-1i8)
        } else if float_less(y, x) {
            Some(1i8)
        } else {
            Some(0i8)
        }
    } else {
        let x = a->Integer_0;
        let y = b->Integer_0;
        if x < y {
            Some(-1i8)
        } else if y < x {
            Some(1i8)
        } else {
            Some(0i8)
        }
    }
}

/// The outcome of `a + b`.
pub open spec fn add_spec(a: ValueV, b: ValueV) -> Outcome {
    match a.strongest(b) {
        (ValueV::Float(x), ValueV::Float(y)) => float_outcome(
            float_plus(x, y, FLOATING_PRECISION as nat),
        ),
        (ValueV::Integer(x), ValueV::Integer(y)) => Ok(ValueV::Integer(x + y)),
        (ValueV::Bool(_), ValueV::Bool(_)) => Err("Cannot add bool to bool"@),
        (ValueV::String(x), ValueV::String(y)) => Ok(ValueV::String(x + y)),
        (ValueV::List(x), ValueV::List(y)) => Ok(ValueV::List(x + y)),
        _ => Ok(ValueV::Nil),
    }
}

/// The outcome of `a - b`.
pub open spec fn sub_spec(a: ValueV, b: ValueV) -> Outcome {
    match a.strongest(b) {
        (ValueV::Float(x), ValueV::Float(y)) => float_outcome(
            float_minus(x, y, FLOATING_PRECISION as nat),
        ),
        (ValueV::Integer(x), ValueV::Integer(y)) => Ok(ValueV::Integer(x - y)),
        (ValueV::Bool(_), ValueV::Bool(_)) => Err("Cannot sub bool from bool"@),
        (ValueV::String(_), ValueV::String(_)) => Err("Cannot sub string"@),
        (ValueV::List(_), ValueV::List(_)) => Err("Cannot sub list"@),
        _ => Ok(ValueV::Nil),
    }
}

/// The outcome of `a * b`.
pub open spec fn mul_spec(a: ValueV, b: ValueV) -> Outcome {
    match a.strongest(b) {
        (ValueV::Float(x), ValueV::Float(y)) => float_outcome(
            float_times(x, y, FLOATING_PRECISION as nat),
        ),
        (ValueV::Integer(x), ValueV::Integer(y)) => Ok(ValueV::Integer(x * y)),
        (ValueV::Bool(_), ValueV::Bool(_)) => Err("Cannot mul bool and bool"@),
        (ValueV::String(_), ValueV::String(_)) => Err("Cannot mul string"@),
        (ValueV::List(_), ValueV::List(_)) => Err("Cannot mul list"@),
        _ => Ok(ValueV::Nil),
    }
}

/// The outcome of `a / b`. Integers divide with the quotient rounded
/// towards zero.
pub open spec fn div_spec(a: ValueV, b: ValueV) -> Outcome {
    match a.strongest(b) {
        (ValueV::Float(x), ValueV::Float(y)) => if y.is_zero() {
            Err("division by zero!"@)
        } else {
            float_outcome(float_over(x, y, FLOATING_PRECISION as nat))
        },
        (ValueV::Integer(x), ValueV::Integer(y)) => if y == 0 {
            Err("division by zero!"@)
        } else {
            Ok(ValueV::Integer(quotient_toward_zero(x, y)))
        },
        (ValueV::Bool(_), ValueV::Bool(_)) => Err("Cannot div bool and bool"@),
        (ValueV::String(_), ValueV::String(_)) => Err("Cannot div (by) string"@),
        (ValueV::List(_), ValueV::List(_)) => Err("Cannot div (by) list"@),
        _ => Ok(ValueV::Nil),
    }
}

/// The outcome of `a ^ b`. An integer exponent has to fit in 32 bits without
/// a sign.
pub open spec fn pow_spec(a: ValueV, b: ValueV) -> Outcome {
    match a.strongest(b) {
        (ValueV::Float(x), ValueV::Float(y)) => float_outcome(
            float_raised(x, y, FLOATING_PRECISION as nat),
        ),
        (ValueV::Integer(x), ValueV::Integer(y)) => if 0 <= y <= u32::MAX {
            Ok(ValueV::Integer(pow(x, y as nat)))
        } else {
            Err(
                "Exponent too big! (Or Small). To bypass this error first convert to float using float(arg)."@,
            )
        },
        (ValueV::Bool(_), ValueV::Bool(_)) => Err("Cannot raise bool to power"@),
        (ValueV::String(_), ValueV::String(_)) => Err(
            "Cannot raise String to Value or raise Value to String"@,
        ),
        (ValueV::List(_), ValueV::List(_)) => Err(
            "Cannot raise List to Value or raise Value to List"@,
        ),
        _ => Ok(ValueV::Nil),
    }
}

/// The outcome of `a % b`. The remainder has the sign of `a`.
pub open spec fn mod_spec(a: ValueV, b: ValueV) -> Outcome {
    match a.strongest(b) {
        (ValueV::Float(x), ValueV::Float(y)) => if y.is_zero() {
            Err("division by zero!"@)
        } else {
            float_outcome(float_rest(x, y, FLOATING_PRECISION as nat))
        },
        (ValueV::Integer(x), ValueV::Integer(y)) => if y == 0 {
            Err("division by zero!"@)
        } else {
            Ok(ValueV::Integer(remainder_toward_zero(x, y)))
        },
        (ValueV::Bool(_), ValueV::Bool(_)) => Err("Cannot mod bool and bool"@),
        (ValueV::String(_), ValueV::String(_)) => Err("Cannot mod (by) string"@),
        (ValueV::List(_), ValueV::List(_)) => Err("Cannot mod (by) list"@),
        _ => Ok(ValueV::Nil),
    }
}

impl Clone for Value {
    fn clone(&self) -> (r: Self)
        ensures
            r@ == self@,
        decreases self, 0nat,
    {
        match self {
            Value::Float(f) => Value::Float(f.clone()),
            Value::Integer(i) => Value::Integer(i.clone()),
            Value::Bool(b) => Value::Bool(*b),
            Value::String(s) => Value::String(s.clone()),
            Value::List(l) => {
                let out = clone_list(l);
                proof {
                    lemma_list_view(out);
                    lemma_list_view(*l);
                }
                Value::List(out)
            },
            Value::Nil => Value::Nil,
        }
    }
}

/// A deep copy of a list of values.
pub fn clone_list(l: &Vec<Value>) -> (out: Vec<Value>)
    ensures
        list_view(out@) == list_view(l@),
    decreases l, 1nat,
{
    let mut out: Vec<Value> = Vec::new();
    let mut i: usize = 0;
    while i < l.len()
        invariant
            i <= l.len(),
            out@.len() == i,
            forall|j: int| 0 <= j < i ==> (#[trigger] out@[j])@ == l@[j]@,
        decreases l.len() - i,
    {
        out.push(l[i].clone());
        i += 1;
    }
    assert(list_view(out@) =~= list_view(l@));
    out
}

/// Finishes a float operation: its result as a value, or the diagnostic of
/// an operation without a finite result.
fn float_result(r: Option<Float>, console: &mut Console) -> (v: Value)
    ensures
        reports(float_outcome(crate::number::float_option_view(r)), v@, old(console)@, final(console)@),
{
    match r {
        Some(f) => Value::Float(f),
        None => error(String::from_str("Float operation without a finite result"), console),
    }
}

impl Value {
    /// The rank of the value's kind on the coercion ladder.
    fn strength(&self) -> (r: u8)
        ensures
            r == self@.strength(),
    {
        match self {
            Value::Nil => 0,
            Value::List(_) => 1,
            Value::String(_) => 2,
            Value::Float(_) => 3,
            Value::Integer(_) => 4,
            Value::Bool(_) => 5,
        }
    }

    /// The value coerced to the kind of the given rank.
    fn as_strength(self, s_tag: u8) -> (r: Value)
        requires
            s_tag <= 5,
        ensures
            r@ == self@.as_strength(s_tag as nat),
    {
        if s_tag == 0 {
            Value::Nil
        } else if s_tag == 1 {
            self.as_lst()
        } else if s_tag == 2 {
            self.as_str()
        } else if s_tag == 3 {
            self.as_float()
        } else if s_tag == 4 {
            self.as_integer()
        } else {
            self.as_bool()
        }
    }

    /// Coerces both values to the stronger of their two kinds. From the
    /// strongest kind to the weakest: nil, list, string, float, integer, bool.
    /// The two results are of one kind.
    pub fn strongest(self, other: Value) -> (r: (Value, Value))
        ensures
            (r.0@, r.1@) == self@.strongest(other@),
            r.0@.strength() == r.1@.strength(),
    {
        let s1 = self.strength();
        let s2 = other.strength();
        let tag = if s1 <= s2 {
            s1
        } else {
            s2
        };
        let a = self.as_strength(tag);
        let b = other.as_strength(tag);
        if a.is_nill() || b.is_nill() {
            (Value::Nil, Value::Nil)
        } else {
            (a, b)
        }
    }

    /// The float zero.
    pub fn fzero() -> (r: Float)
        ensures
            r@ == (FloatV { mantissa: 0, exponent: 0 }),
    {
        Float::zero()
    }

    /// The value as a float; the result is a float or `Nil`.
    pub fn as_float(self) -> (r: Value)
        ensures
            r@ == self@.as_float(),
    {
        match self {
            Value::Float(f) => Value::Float(f),
            Value::Integer(i) => Value::Float(Float::from_integer(&i, FLOATING_PRECISION as usize)),
            Value::Bool(b) => {
                if b {
                    Value::Float(Float::from_integer(&Integer::one(), FLOATING_PRECISION as usize))
                } else {
                    Value::Float(Self::fzero())
                }
            },
            Value::String(_) => Value::Nil,
            Value::List(_) => Value::Nil,
            Value::Nil => Value::Nil,
        }
    }

    /// The value as an integer; the result is an integer or `Nil`.
    pub fn as_integer(self) -> (r: Value)
        ensures
            r@ == self@.as_integer(),
    {
        match self {
            Value::Float(f) => Value::Integer(f.to_integer()),
            Value::Integer(i) => Value::Integer(i),
            Value::Bool(b) => Value::Integer(
                if b {
                    Integer::one()
                } else {
                    Integer::zero()
                },
            ),
            Value::String(_) => Value::Nil,
            Value::List(_) => Value::Nil,
            Value::Nil => Value::Nil,
        }
    }

    /// The value as a boolean; the result is a boolean or `Nil`.
    pub fn as_bool(self) -> (r: Value)
        ensures
            r@ == self@.as_bool(),
    {
        match self {
            Value::Float(f) => Value::Bool(f.is_positive()),
            Value::Integer(i) => Value::Bool(i.is_positive()),
            Value::Bool(b) => Value::Bool(b),
            Value::String(s) => Value::Bool(!s.as_str().is_empty()),
            Value::List(l) => Value::Bool(l.len() > 0),
            Value::Nil => Value::Nil,
        }
    }

    /// The value as a string; the result is a string or `Nil`.
    pub fn as_str(self) -> (r: Value)
        ensures
            r@ == self@.as_str(),
    {
        match self {
            Value::Float(f) => Value::String(f.to_text(FLOATING_PRECISION as usize)),
            Value::Integer(i) => Value::String(i.to_text()),
            Value::Bool(b) => Value::String(bool_string(b)),
            Value::String(s) => Value::String(s),
            Value::List(l) => {
                proof {
                    lemma_list_view(l);
                }
                Value::String(structure_list_string(&l))
            },
            Value::Nil => Value::Nil,
        }
    }

    /// The value as a list; the result is a list or `Nil`.
    pub fn as_lst(self) -> (r: Value)
        ensures
            r@ == self@.as_lst(),
    {
        match self {
            Value::List(l) => Value::List(l),
            Value::Nil => Value::Nil,
            _ => {
                let ghost old_view = self@;
                let v = vec![self];
                proof {
                    lemma_list_view(v);
                    assert(list_view(v@) =~= seq![old_view]);
                }
                Value::List(v)
            },
        }
    }

    /// The truth of the value as a condition. `Nil` has none: it counts as
    /// false and a diagnostic is reported.
    pub fn force_bool(self, console: &mut Console) -> (r: bool)
        ensures
            r == (self@.as_bool() == ValueV::Bool(true)),
            final(console)@ == if self@ is Nil {
                old(console)@.push(EventV::Diagnostic("Attempts to convert NILL to boolean"@))
            } else {
                old(console)@
            },
    {
        match self.as_bool() {
            Value::Bool(x) => x,
            _ => {
                error(String::from_str("Attempts to convert NILL to boolean"), console);
                false
            },
        }
    }

    /// Whether the value is `Nil`.
    pub fn is_nill(&self) -> (r: bool)
        ensures
            r == (self@ is Nil),
    {
        match self {
            Value::Nil => true,
            _ => false,
        }
    }

    /// Whether the value is an integer.
    pub fn is_integer(&self) -> (r: bool)
        ensures
            r == (self@ is Integer),
    {
        match self {
            Value::Integer(_) => true,
            _ => false,
        }
    }

    /// Whether the value is a float.
    pub fn is_float(&self) -> (r: bool)
        ensures
            r == (self@ is Float),
    {
        match self {
            Value::Float(_) => true,
            _ => false,
        }
    }

    /// Whether the value is a list.
    pub fn is_vec(&self) -> (r: bool)
        ensures
            r == (self@ is List),
    {
        match self {
            Value::List(_) => true,
            _ => false,
        }
    }

    /// The float that the value holds, if it is a float.
    pub fn force_float(self) -> (r: Option<Float>)
        ensures
            match r {
                Some(f) => self@ == ValueV::Float(f@),
                None => !(self@ is Float),
            },
    {
        match self {
            Value::Float(f) => Some(f),
            _ => None,
        }
    }

    /// The integer that the value holds, if it is an integer.
    pub fn force_integer(self) -> (r: Option<Integer>)
        ensures
            match r {
                Some(i) => self@ == ValueV::Integer(i@),
                None => !(self@ is Integer),
            },
    {
        match self {
            Value::Integer(i) => Some(i),
            _ => None,
        }
    }

    /// Compares two numbers: the sign of `self - other` as -1, 0 or 1, and
    /// `None` unless both are numbers.
    pub fn comp(self, other: Value) -> (r: Option<i8>)
        ensures
            r == comp_spec(self@, other@),
    {
        if !(self.is_comparable() && other.is_comparable()) {
            return None;
        }
        if self.is_float() || other.is_float() {
            let one = match self.as_float().force_float() {
                Some(f) => f,
                None => {
                    return None;
                },
            };
            let two = match other.as_float().force_float() {
                Some(f) => f,
                None => {
                    return None;
                },
            };
            if one.less_than(&two) {
                Some(-1)
            } else if two.less_than(&one) {
                Some(1)
            } else {
                Some(0)
            }
        } else {
            let one = match self.as_integer().force_integer() {
                Some(i) => i,
                None => {
                    return None;
                },
            };
            let two = match other.as_integer().force_integer() {
                Some(i) => i,
                None => {
                    return None;
                },
            };
            if one.less_than(&two) {
                Some(-1)
            } else if two.less_than(&one) {
                Some(1)
            } else {
                Some(0)
            }
        }
    }

    /// Whether the value is a number.
    pub fn is_comparable(&self) -> (r: bool)
        ensures
            r == self@.is_comparable(),
    {
        match self {
            Value::Float(_) => true,
            Value::Integer(_) => true,
            _ => false,
        }
    }

    /// `self + other`: numbers add, strings and lists concatenate.
    pub fn add(self, other: Value, console: &mut Console) -> (r: Value)
        ensures
            reports(add_spec(self@, other@), r@, old(console)@, final(console)@),
    {
        let (l, r) = self.strongest(other);
        match (l, r) {
            (Value::Float(f1), Value::Float(f2)) => float_result(
                f1.plus(&f2, FLOATING_PRECISION as usize),
                console,
            ),
            (Value::Integer(i1), Value::Integer(i2)) => Value::Integer(i1.plus(&i2)),
            (Value::Bool(_), Value::Bool(_)) => error(
                String::from_str("Cannot add bool to bool"),
                console,
            ),
            (Value::String(s1), Value::String(s2)) => {
                let mut s1 = s1;
                s1.append(s2.as_str());
                Value::String(s1)
            },
            (Value::List(l1), Value::List(l2)) => {
                let mut l1 = l1;
                let mut l2 = l2;
                proof {
                    lemma_list_view(l1);
                    lemma_list_view(l2);
                }
                let ghost v1 = l1@;
                let ghost v2 = l2@;
                l1.append(&mut l2);
                proof {
                    lemma_list_view(l1);
                    assert(list_view(l1@) =~= list_view(v1) + list_view(v2));
                }
                Value::List(l1)
            },
            _ => Value::Nil,
        }
    }

    /// `self - other`, for numbers.
    pub fn sub(self, other: Value, console: &mut Console) -> (r: Value)
        ensures
            reports(sub_spec(self@, other@), r@, old(console)@, final(console)@),
    {
        let (l, r) = self.strongest(other);
        match (l, r) {
            (Value::Float(f1), Value::Float(f2)) => float_result(
                f1.minus(&f2, FLOATING_PRECISION as usize),
                console,
            ),
            (Value::Integer(i1), Value::Integer(i2)) => Value::Integer(i1.minus(&i2)),
            (Value::Bool(_), Value::Bool(_)) => error(
                String::from_str("Cannot sub bool from bool"),
                console,
            ),
            (Value::String(_), Value::String(_)) => error(
                String::from_str("Cannot sub string"),
                console,
            ),
            (Value::List(_), Value::List(_)) => error(String::from_str("Cannot sub list"), console),
            _ => Value::Nil,
        }
    }

    /// `self * other`, for numbers.
    pub fn mul(self, other: Value, console: &mut Console) -> (r: Value)
        ensures
            reports(mul_spec(self@, other@), r@, old(console)@, final(console)@),
    {
        let (l, r) = self.strongest(other);
        match (l, r) {
            (Value::Float(f1), Value::Float(f2)) => float_result(
                f1.times(&f2, FLOATING_PRECISION as usize),
                console,
            ),
            (Value::Integer(i1), Value::Integer(i2)) => Value::Integer(i1.times(&i2)),
            (Value::Bool(_), Value::Bool(_)) => error(
                String::from_str("Cannot mul bool and bool"),
                console,
            ),
            (Value::String(_), Value::String(_)) => error(
                String::from_str("Cannot mul string"),
                console,
            ),
            (Value::List(_), Value::List(_)) => error(String::from_str("Cannot mul list"), console),
            _ => Value::Nil,
        }
    }

    /// `self / other`, for numbers; a zero divisor is reported.
    pub fn div(self, other: Value, console: &mut Console) -> (r: Value)
        ensures
            reports(div_spec(self@, other@), r@, old(console)@, final(console)@),
    {
        let (l, r) = self.strongest(other);
        match (l, r) {
            (Value::Float(f1), Value::Float(f2)) => {
                if f2.is_zero() {
                    error(String::from_str("division by zero!"), console)
                } else {
                    float_result(f1.quotient(&f2, FLOATING_PRECISION as usize), console)
                }
            },
            (Value::Integer(i1), Value::Integer(i2)) => {
                match i1.quotient(&i2) {
                    Some(q) => Value::Integer(q),
                    None => error(String::from_str("division by zero!"), console),
                }
            },
            (Value::Bool(_), Value::Bool(_)) => error(
                String::from_str("Cannot div bool and bool"),
                console,
            ),
            (Value::String(_), Value::String(_)) => error(
                String::from_str("Cannot div (by) string"),
                console,
            ),
            (Value::List(_), Value::List(_)) => error(
                String::from_str("Cannot div (by) list"),
                console,
            ),
            _ => Value::Nil,
        }
    }

    /// `self ^ other`, for numbers; an integer exponent that does not fit in
    /// 32 bits without a sign is reported.
    pub fn pow(self, other: Value, console: &mut Console) -> (r: Value)
        ensures
            reports(pow_spec(self@, other@), r@, old(console)@, final(console)@),
    {
        let (l, r) = self.strongest(other);
        match (l, r) {
            (Value::Float(f1), Value::Float(f2)) => float_result(
                f1.power(&f2, FLOATING_PRECISION as usize),
                console,
            ),
            (Value::Integer(i1), Value::Integer(i2)) => {
                match i2.to_u32() {
                    Some(t) => Value::Integer(i1.power(t)),
                    None => error(
                        String::from_str(
                            "Exponent too big! (Or Small). To bypass this error first convert to float using float(arg).",
                        ),
                        console,
                    ),
                }
            },
            (Value::Bool(_), Value::Bool(_)) => error(
                String::from_str("Cannot raise bool to power"),
                console,
            ),
            (Value::String(_), Value::String(_)) => error(
                String::from_str("Cannot raise String to Value or raise Value to String"),
                console,
            ),
            (Value::List(_), Value::List(_)) => error(
                String::from_str("Cannot raise List to Value or raise Value to List"),
                console,
            ),
            _ => Value::Nil,
        }
    }

    /// `self % other`, for numbers; a zero divisor is reported.
    pub fn mod_(self, other: Value, console: &mut Console) -> (r: Value)
        ensures
            reports(mod_spec(self@, other@), r@, old(console)@, final(console)@),
    {
        let (l, r) = self.strongest(other);
        match (l, r) {
            (Value::Float(f1), Value::Float(f2)) => {
                if f2.is_zero() {
                    error(String::from_str("division by zero!"), console)
                } else {
                    float_result(f1.remainder(&f2, FLOATING_PRECISION as usize), console)
                }
            },
            (Value::Integer(i1), Value::Integer(i2)) => {
                match i1.remainder(&i2) {
                    Some(q) => Value::Integer(q),
                    None => error(String::from_str("division by zero!"), console),
                }
            },
            (Value::Bool(_), Value::Bool(_)) => error(
                String::from_str("Cannot mod bool and bool"),
                console,
            ),
            (Value::String(_), Value::String(_)) => error(
                String::from_str("Cannot mod (by) string"),
                console,
            ),
            (Value::List(_), Value::List(_)) => error(
                String::from_str("Cannot mod (by) list"),
                console,
            ),
            _ => Value::Nil,
        }
    }

    /// The text by which the value is printed: numbers in base ten, a string
    /// as it is, a list in square brackets with a comma after every item.
    pub fn to_text(&self) -> (r: String)
        ensures
            r@ == self@.display(),
        decreases self, 0nat,
    {
        match self {
            Value::Float(f) => f.to_text(FLOATING_PRECISION as usize),
            Value::Integer(i) => i.to_text(),
            Value::Bool(b) => bool_string(*b),
            Value::String(s) => s.clone(),
            Value::List(l) => {
                proof {
                    lemma_list_view(*l);
                }
                display_list_string(l)
            },
            Value::Nil => String::from_str("nil"),
        }
    }

    /// The structural text of the value: the name of its kind and, in
    /// parentheses, its content.
    pub fn to_structure_text(&self) -> (r: String)
        ensures
            r@ == self@.structure_text(),
        decreases self, 0nat,
    {
        match self {
            Value::Float(f) => {
                let mut out = String::from_str("Float(");
                out.append(f.to_text(FLOATING_PRECISION as usize).as_str());
                out.append(")");
                out
            },
            Value::Integer(i) => {
                let mut out = String::from_str("Integer(");
                out.append(i.to_text().as_str());
                out.append(")");
                out
            },
            Value::Bool(b) => {
                let mut out = String::from_str("Bool(");
                out.append(bool_string(*b).as_str());
                out.append(")");
                out
            },
            Value::String(s) => {
                let mut out = String::from_str("String(");
                out.append(debug_string(s.as_str()).as_str());
                out.append(")");
                out
            },
            Value::List(l) => {
                proof {
                    lemma_list_view(*l);
                }
                let mut out = String::from_str("List(");
                out.append(structure_list_string(l).as_str());
                out.append(")");
                out
            },
            Value::Nil => String::from_str("Nil"),
        }
    }
}

/// The text of a boolean.
fn bool_string(b: bool) -> (r: String)
    ensures
        r@ == bool_text(b),
{
    if b {
        String::from_str("true")
    } else {
        String::from_str("false")
    }
}

/// The printed text of a list: its items in square brackets, a comma after
/// each.
fn display_list_string(l: &Vec<Value>) -> (r: String)
    ensures
        r@ == "["@ + display_items(list_view(l@)) + "]"@,
    decreases l, 1nat,
{
    let mut out = String::from_str("[");
    let mut i: usize = 0;
    proof {
        assert(list_view(l@).take(0) =~= Seq::<ValueV>::empty());
    }
    while i < l.len()
        invariant
            i <= l.len(),
            out@ == "["@ + display_items(list_view(l@).take(i as int)),
        decreases l.len() - i,
    {
        let item = l[i].to_text();
        out.append(item.as_str());
        out.append(",");
        proof {
            let next = list_view(l@).take(i + 1);
            assert(next.drop_last() =~= list_view(l@).take(i as int));
            assert(next.last() == l@[i as int]@);
        }
        i += 1;
    }
    out.append("]");
    proof {
        assert(list_view(l@).take(l@.len() as int) =~= list_view(l@));
    }
    out
}

/// The structural text of a list: the structural texts of its items,
/// separated by a comma and a space, in square brackets.
fn structure_list_string(l: &Vec<Value>) -> (r: String)
    ensures
        r@ == structure_list_text(list_view(l@)),
    decreases l, 1nat,
{
    let mut out = String::from_str("[");
    let mut i: usize = 0;
    proof {
        assert(list_view(l@).take(0) =~= Seq::<ValueV>::empty());
    }
    while i < l.len()
        invariant
            i <= l.len(),
            out@ == "["@ + structure_items(list_view(l@).take(i as int)),
        decreases l.len() - i,
    {
        if i > 0 {
            out.append(", ");
        }
        let item = l[i].to_structure_text();
        out.append(item.as_str());
        proof {
            let next = list_view(l@).take(i + 1);
            assert(next.drop_last() =~= list_view(l@).take(i as int));
            assert(next.last() == l@[i as int]@);
        }
        i += 1;
    }
    out.append("]");
    proof {
        assert(list_view(l@).take(l@.len() as int) =~= list_view(l@));
    }
    out
}

} // verus!
