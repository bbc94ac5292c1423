//! Named properties of a declared element, and the property reconciler.

use vstd::prelude::*;
use vstd::string::StringExecFns;

use crate::dom::{live_find, props_wf, LiveElement};

verus! {

/// The name of the first intrinsic, user-mutable element field.
pub fn checked_name() -> (r: String)
    ensures
        r@ == "checked"@,
{
    String::from_str("checked")
}

/// The two intrinsic names are different names.
pub proof fn lemma_intrinsic_names_distinct()
    ensures
        "checked"@ != "value"@,
{
    reveal_strlit("checked");
    reveal_strlit("value");
    assert("checked"@.len() == 7);
    assert("value"@.len() == 5);
}

/// The name of the second intrinsic, user-mutable element field.
pub fn value_name() -> (r: String)
    ensures
        r@ == "value"@,
{
    String::from_str("value")
}

/// The value of a property: one of a closed set of primitive kinds.
#[derive(Debug)]
pub enum Value {
    String(String),
    Bool(bool),
}

impl Clone for Value {
    fn clone(&self) -> (r: Value)
        ensures
            r == *self,
    {
        match self {
            Value::String(s) => Value::String(s.clone()),
            Value::Bool(b) => Value::Bool(*b),
        }
    }
}

/// The two intrinsic names carry their intrinsic kind: `checked` is a
/// boolean and `value` is a string.
pub open spec fn prop_kinded(p: Property) -> bool {
    &&& p.name@ == "checked"@ ==> p.value is Bool
    &&& p.name@ == "value"@ ==> p.value is String
}

/// Two property values are the same primitive of the same kind.
pub open spec fn value_matches(a: Value, b: Value) -> bool {
    match (a, b) {
        (Value::String(x), Value::String(y)) => x@ == y@,
        (Value::Bool(x), Value::Bool(y)) => x == y,
        _ => false,
    }
}

impl PartialEq for Value {
    fn eq(&self, other: &Value) -> (r: bool) {
        match (self, other) {
            (Value::String(x), Value::String(y)) => *x == *y,
            (Value::Bool(x), Value::Bool(y)) => *x == *y,
            _ => false,
        }
    }
}

impl vstd::std_specs::cmp::PartialEqSpecImpl for Value {
    open spec fn obeys_eq_spec() -> bool {
        true
    }

    open spec fn eq_spec(&self, other: &Value) -> bool {
        value_matches(*self, *other)
    }
}

/// A name/value pair attached to a declared element node.
#[derive(Debug)]
pub struct Property {
    pub name: String,
    pub value: Value,
}

impl Clone for Property {
    fn clone(&self) -> (r: Property)
        ensures
            r == *self,
    {
        Property { name: self.name.clone(), value: self.value.clone() }
    }
}

impl Property {
    pub fn new(name: String, value: Value) -> (p: Property)
        ensures
            p.name@ == name@,
            p.value == value,
    {
        Property { name, value }
    }

    pub fn name(&self) -> (r: &str)
        ensures
            r@ == self.name@,
    {
        self.name.as_str()
    }

    pub fn value(&self) -> (r: &Value)
        ensures
            r == self.value,
    {
        &self.value
    }

}

/// Two optional property values agree: both absent, or both present and
/// the same primitive.
pub open spec fn opt_value_matches(a: Option<Value>, b: Option<Value>) -> bool {
    match (a, b) {
        (None, None) => true,
        (Some(x), Some(y)) => value_matches(x, y),
        _ => false,
    }
}

/// The previously declared value, if a property existed at the same name.
pub open spec fn opt_value(o: Option<&Property>) -> Option<Value> {
    match o {
        None => None,
        Some(p) => Some(p.value),
    }
}

/// Whether reconciling `p` issues a write against the live element `e`,
/// given the previous declaration `o` at the same name.
///
/// The two intrinsic names compare against the live, possibly
/// user-mutated value; every other name compares declared against
/// previously declared.
pub open spec fn prop_writes(p: Property, o: Option<Value>, e: LiveElement) -> bool {
    if p.name@ == "checked"@ {
        match p.value {
            Value::Bool(b) => b != e.checked,
            _ => false,
        }
    } else if p.name@ == "value"@ {
        match p.value {
            Value::String(s) => s@ != e.value@,
            _ => false,
        }
    } else {
        match o {
            None => true,
            Some(ov) => !value_matches(p.value, ov),
        }
    }
}

impl Property {
    /// Apply the minimal mutation for this property against a live
    /// element, comparing against the previous declaration at the same
    /// name (if any), or against the live value for the two intrinsic
    /// names.
    pub fn patch(&self, old_property: Option<&Property>, element: &mut LiveElement) -> (wrote:
        bool)
        requires
            prop_kinded(*self),
            props_wf(old(element).props@),
        ensures
            props_wf(final (element).props@),
            wrote == prop_writes(*self, opt_value(old_property), *old(element)),
            final (element).tag == old(element).tag,
            final (element).listeners == old(element).listeners,
            final (element).children == old(element).children,
            self.name@ == "checked"@ ==> {
                &&& final (element).value == old(element).value
                &&& final (element).props == old(element).props
                &&& final (element).checked == (match self.value {
                    Value::Bool(b) => b,
                    _ => old(element).checked,
                })
            },
            self.name@ == "value"@ ==> {
                &&& final (element).checked == old(element).checked
                &&& final (element).props == old(element).props
                &&& final (element).value@ == (match self.value {
                    Value::String(s) => s@,
                    _ => old(element).value@,
                })
            },
            self.name@ != "checked"@ && self.name@ != "value"@ ==> {
                &&& final (element).checked == old(element).checked
                &&& final (element).value == old(element).value
                &&& if prop_writes(*self, opt_value(old_property), *old(element)) {
                    &&& live_find(final (element).props@, self.name@) == Some(self.value)
                    &&& forall|m: Seq<char>|
                        m != self.name@ ==> live_find(final (element).props@, m) == live_find(
                            old(element).props@,
                            m,
                        )
                } else {
                    final (element).props == old(element).props
                }
            },
    {
        proof {
            lemma_intrinsic_names_distinct();
        }
        if self.name == checked_name() {
            match &self.value {
                Value::Bool(b) => {
                    if *b != element.checked {
                        element.checked = *b;
                        true
                    } else {
                        false
                    }
                },
                Value::String(_) => {
                    // excluded by well-formedness of the declaration
                    false
                },
            }
        } else if self.name == value_name() {
            match &self.value {
                Value::String(s) => {
                    if element.value == *s {
                        false
                    } else {
                        element.value = s.clone();
                        true
                    }
                },
                Value::Bool(_) => {
                    // excluded by well-formedness of the declaration
                    false
                },
            }
        } else {
            let differs = match old_property {
                None => true,
                Some(op) => !(self.value == op.value),
            };
            if differs {
                let v = self.value.clone();
                element.set_prop(&self.name, v);
                true
            } else {
                false
            }
        }
    }

    /// Clear this property on the live element: a previous render declared
    /// it, the new one does not.
    pub fn remove(&self, element: &mut LiveElement)
        requires
            props_wf(old(element).props@),
        ensures
            props_wf(final (element).props@),
            final (element).tag == old(element).tag,
            final (element).listeners == old(element).listeners,
            final (element).children == old(element).children,
            self.name@ == "checked"@ ==> {
                &&& final (element).checked == false
                &&& final (element).value == old(element).value
                &&& final (element).props == old(element).props
            },
            self.name@ == "value"@ ==> {
                &&& final (element).value@ == Seq::<char>::empty()
                &&& final (element).checked == old(element).checked
                &&& final (element).props == old(element).props
            },
            self.name@ != "checked"@ && self.name@ != "value"@ ==> {
                &&& live_find(final (element).props@, self.name@) is None
                &&& forall|m: Seq<char>|
                    m != self.name@ ==> live_find(final (element).props@, m) == live_find(
                        old(element).props@,
                        m,
                    )
                &&& final (element).checked == old(element).checked
                &&& final (element).value == old(element).value
            },
    {
        element.remove_prop(&self.name);
    }
}

impl From<bool> for Value {
    fn from(b: bool) -> (v: Value) {
        Value::Bool(b)
    }
}

impl vstd::std_specs::convert::FromSpecImpl<bool> for Value {
    open spec fn obeys_from_spec() -> bool {
        true
    }

    open spec fn from_spec(b: bool) -> Value {
        Value::Bool(b)
    }
}

impl From<&'static str> for Value {
    fn from(s: &'static str) -> (v: Value)
        ensures
            v matches Value::String(t) && t@ == s@,
    {
        Value::String(String::from_str(s))
    }
}

impl vstd::std_specs::convert::FromSpecImpl<&'static str> for Value {
    open spec fn obeys_from_spec() -> bool {
        // a String cannot be built in specification code, so the
        // conversion promises its result through its own contract instead
        false
    }

    open spec fn from_spec(s: &'static str) -> Value {
        arbitrary()
    }
}

impl From<String> for Value {
    fn from(s: String) -> (v: Value) {
        Value::String(s)
    }
}

impl vstd::std_specs::convert::FromSpecImpl<String> for Value {
    open spec fn obeys_from_spec() -> bool {
        true
    }

    open spec fn from_spec(s: String) -> Value {
        Value::String(s)
    }
}

} // verus!
