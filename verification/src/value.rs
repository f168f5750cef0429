//! The values that a program computes with, and their display text.

use vstd::prelude::*;
use vstd::string::StringExecFns;
use std::rc::Rc;
use crate::ast::{Block, BlockView};
use crate::shared::share;
use crate::text::{i64_to_string, int_text, join};

verus! {

/// A 64-bit floating-point number as the library carries it: the bits of
/// its IEEE 754 encoding and its display text. The library does no
/// floating-point arithmetic; both parts come from whoever computed the
/// number. `S` is the type of the text.
#[derive(Debug, Clone, PartialEq)]
pub struct FloatValue<S = String> {
    pub bits: u64,
    pub text: S,
}

/// A float as specifications see it.
pub type FloatView = FloatValue<Seq<char>>;

impl View for FloatValue<String> {
    type V = FloatView;

    open spec fn view(&self) -> FloatView {
        FloatValue { bits: self.bits, text: self.text@ }
    }
}

/// Whether the bits encode zero: all clear but for the sign.
pub open spec fn is_zero_bits(bits: u64) -> bool {
    bits & 0x7fff_ffff_ffff_ffff == 0
}

impl FloatValue<String> {
    pub fn new(bits: u64, text: String) -> (r: Self)
        ensures
            r.bits == bits,
            r.text == text,
    {
        FloatValue { bits, text }
    }

    /// Whether the number is zero, positive or negative.
    pub fn is_zero(&self) -> (r: bool)
        ensures
            r == is_zero_bits(self.bits),
    {
        self.bits & 0x7fff_ffff_ffff_ffff == 0
    }

    /// A copy of this number.
    pub fn dup(&self) -> (r: Self)
        ensures
            r@ == self@,
    {
        FloatValue { bits: self.bits, text: self.text.clone() }
    }
}

/// The native functions.
#[derive(Debug, Clone, Copy, PartialEq, Eq, Structural)]
pub enum Builtin {
    /// Writes its arguments.
    Print,
    /// Writes its arguments and a line break.
    Println,
    /// The number of characters of a string or of elements of an array.
    Len,
}

/// A function value: parameters, body and the scope in which it was made.
#[derive(Debug, PartialEq)]
pub struct Function {
    /// The scope that was current where the function was defined.
    pub captured_env: usize,
    pub params: Vec<String>,
    pub body: Rc<Block>,
}

impl Function {
    pub fn new(params: Vec<String>, body: Rc<Block>, env: usize) -> (r: Self)
        ensures
            r.captured_env == env,
            r.params == params,
            r.body == body,
    {
        Function { captured_env: env, params, body }
    }
}

#[derive(Debug, PartialEq)]
pub enum Value {
    Integer(i64),
    Float(FloatValue),
    Boolean(bool),
    Function(Function),
    String(String),
    Array(Vec<Rc<Value>>),
    Builtin(Builtin),
    /// The payload of a `return` on its way to the call that it ends.
    Returned(Rc<Value>),
    VOID,
}

/// A value as specifications see it.
pub enum ValueView {
    Integer(i64),
    Float(FloatView),
    Boolean(bool),
    /// The parameters, the body and the captured scope.
    Function(Seq<Seq<char>>, BlockView, nat),
    String(Seq<char>),
    Array(Seq<ValueView>),
    Builtin(Builtin),
    Returned(Box<ValueView>),
    Void,
}

/// The views of a list of strings.
pub open spec fn strings_view(strings: Seq<String>) -> Seq<Seq<char>> {
    Seq::new(strings.len(), |i: int| strings[i]@)
}

/// The views of a list of values.
pub open spec fn values_view(values: Seq<Rc<Value>>) -> Seq<ValueView>
    decreases values,
{
    Seq::new(
        values.len(),
        |i: int|
            if 0 <= i < values.len() {
                values[i].model()
            } else {
                arbitrary()
            },
    )
}

impl Value {
    /// The value as specifications see it.
    pub open spec fn model(&self) -> ValueView
        decreases self,
    {
        match self {
            Value::Integer(i) => ValueView::Integer(*i),
            Value::Float(f) => ValueView::Float(f@),
            Value::Boolean(b) => ValueView::Boolean(*b),
            Value::Function(f) => ValueView::Function(
                strings_view(f.params@),
                f.body.model(),
                f.captured_env as nat,
            ),
            Value::String(s) => ValueView::String(s@),
            Value::Array(values) => ValueView::Array(values_view(values@)),
            Value::Builtin(b) => ValueView::Builtin(*b),
            Value::Returned(v) => ValueView::Returned(Box::new(v.model())),
            Value::VOID => ValueView::Void,
        }
    }
}

impl View for Value {
    type V = ValueView;

    open spec fn view(&self) -> ValueView {
        self.model()
    }
}

/// The display texts of the values, separated by `sep`.
pub open spec fn display_all(values: Seq<ValueView>, sep: Seq<char>) -> Seq<char>
    decreases values,
{
    if values.len() == 0 {
        Seq::empty()
    } else if values.len() == 1 {
        display(values[0])
    } else {
        display_all(values.drop_last(), sep) + sep + display(values.last())
    }
}

/// The display text of a value.
pub open spec fn display(v: ValueView) -> Seq<char>
    decreases v,
{
    match v {
        ValueView::Void => "void"@,
        ValueView::Integer(i) => int_text(i as int),
        ValueView::Float(f) => f.text,
        ValueView::Boolean(b) => if b {
            "true"@
        } else {
            "false"@
        },
        ValueView::Returned(inner) => display(*inner),
        ValueView::String(s) => s,
        ValueView::Function(params, _, _) => "fn("@ + join(params, ", "@) + ")"@,
        ValueView::Builtin(_) => "builtin"@,
        ValueView::Array(values) => "["@ + display_all(values, ", "@) + "]"@,
    }
}

/// What `unwrap_returned` yields: the payload of a `Returned`, and `Void`
/// for any other value.
pub open spec fn unwrapped(v: ValueView) -> ValueView {
    match v {
        ValueView::Returned(inner) => *inner,
        _ => ValueView::Void,
    }
}

/// The strings, separated by a comma and a space.
pub fn join_names(names: &Vec<String>) -> (r: String)
    ensures
        r@ == join(strings_view(names@), ", "@),
{
    let ghost views = strings_view(names@);
    let mut out = String::new();
    let mut i: usize = 0;
    while i < names.len()
        invariant
            i <= names.len(),
            views == strings_view(names@),
            out@ == join(views.take(i as int), ", "@),
        decreases names.len() - i,
    {
        if i > 0 {
            out.append(", ");
        }
        out.append(names[i].as_str());
        proof {
            assert(views.take(i + 1).drop_last() =~= views.take(i as int));
            assert(views.take(i + 1).last() == names@[i as int]@);
            if i == 0 {
                assert(Seq::<char>::empty() + names@[0]@ =~= names@[0]@);
            }
        }
        i += 1;
    }
    assert(views.take(names.len() as int) =~= views);
    out
}

/// The display texts of the values, separated by `sep`.
pub fn display_values(values: &Vec<Rc<Value>>, sep: &str) -> (r: String)
    ensures
        r@ == display_all(values_view(values@), sep@),
    decreases values,
{
    let ghost views = values_view(values@);
    let mut out = String::new();
    let mut i: usize = 0;
    while i < values.len()
        invariant
            i <= values.len(),
            views == values_view(values@),
            out@ == display_all(views.take(i as int), sep@),
        decreases values.len() - i,
    {
        if i > 0 {
            out.append(sep);
        }
        let t = values[i].to_string();
        out.append(t.as_str());
        proof {
            assert(views.take(i + 1).drop_last() =~= views.take(i as int));
            assert(views.take(i + 1).last() == values@[i as int]@);
            if i == 0 {
                assert(Seq::<char>::empty() + t@ =~= t@);
            }
        }
        i += 1;
    }
    assert(views.take(values.len() as int) =~= views);
    out
}

impl Value {
    pub fn new_builtin(value: Builtin) -> (r: Rc<Self>)
        ensures
            r@ == ValueView::Builtin(value),
    {
        Rc::new(Value::Builtin(value))
    }

    pub fn new_string(value: String) -> (r: Rc<Self>)
        ensures
            r@ == ValueView::String(value@),
    {
        Rc::new(Value::String(value))
    }

    pub fn new_integer(value: i64) -> (r: Rc<Self>)
        ensures
            r@ == ValueView::Integer(value),
    {
        Rc::new(Value::Integer(value))
    }

    pub fn new_float(value: FloatValue) -> (r: Rc<Self>)
        ensures
            r@ == ValueView::Float(value@),
    {
        Rc::new(Value::Float(value))
    }

    pub fn new_returned(value: Rc<Value>) -> (r: Rc<Self>)
        ensures
            r@ == ValueView::Returned(Box::new(value@)),
    {
        Rc::new(Value::Returned(value))
    }

    pub fn new_function(params: Vec<String>, body: Rc<Block>, env: usize) -> (r: Rc<Self>)
        ensures
            r@ == ValueView::Function(strings_view(params@), body@, env as nat),
    {
        Rc::new(Value::Function(Function::new(params, body, env)))
    }

    pub fn new_array(els: Vec<Rc<Value>>) -> (r: Rc<Self>)
        ensures
            r@ == ValueView::Array(values_view(els@)),
    {
        Rc::new(Value::Array(els))
    }

    pub fn new_void() -> (r: Rc<Self>)
        ensures
            r@ == ValueView::Void,
    {
        Rc::new(Value::VOID)
    }

    pub fn from_native_bool(value: bool) -> (r: Rc<Self>)
        ensures
            r@ == ValueView::Boolean(value),
    {
        Rc::new(Value::Boolean(value))
    }

    /// Returns the inner value of a Returned variant or VOID if not a Returned variant
    pub fn unwrap_returned(&self) -> (r: Rc<Value>)
        ensures
            r@ == unwrapped(self@),
    {
        match self {
            Value::Returned(value) => share(value),
            _ => Rc::new(Value::VOID),
        }
    }

    pub fn is_void(&self) -> (r: bool)
        ensures
            r == (self@ is Void),
    {
        match self {
            Value::VOID => true,
            _ => false,
        }
    }

    pub fn is_returned(&self) -> (r: bool)
        ensures
            r == (self@ is Returned),
    {
        match self {
            Value::Returned(_) => true,
            _ => false,
        }
    }

    pub fn is_string(&self) -> (r: bool)
        ensures
            r == (self@ is String),
    {
        matches!(self, Value::String(_))
    }

    pub fn is_array(&self) -> (r: bool)
        ensures
            r == (self@ is Array),
    {
        matches!(self, Value::Array(_))
    }

    pub fn rc(self) -> (r: Rc<Self>)
        ensures
            *r == self,
    {
        Rc::new(self)
    }

    /// The display text of the value.
    pub fn to_string(&self) -> (r: String)
        ensures
            r@ == display(self@),
        decreases self,
    {
        match self {
            Value::VOID => "void".to_owned(),
            Value::Integer(value) => i64_to_string(*value),
            Value::Float(value) => value.text.clone(),
            Value::Boolean(value) => if *value {
                "true".to_owned()
            } else {
                "false".to_owned()
            },
            Value::Returned(value) => value.to_string(),
            Value::String(value) => value.clone(),
            Value::Function(func) => {
                let mut out = "fn(".to_owned();
                let params = join_names(&func.params);
                out.append(params.as_str());
                out.append(")");
                out
            },
            Value::Builtin(_) => "builtin".to_owned(),
            Value::Array(array) => {
                let mut out = "[".to_owned();
                let inner = display_values(array, ", ");
                out.append(inner.as_str());
                out.append("]");
                out
            },
        }
    }
}

} // verus!
