//! JSON values, as far as the arguments of a command are read.

use vstd::prelude::*;
use vstd::string::*;

use crate::text::{decimal, decimal_string, push_number};

verus! {

/// A JSON number.
#[derive(Debug)]
pub enum Number {
    /// A natural number.
    PosInt(u64),
    /// A negative integer.
    NegInt(i64),
    /// Any other number, as it is printed.
    Float(String),
}

/// A JSON value.
#[derive(Debug)]
pub enum Value {
    Null,
    Bool(bool),
    Number(Number),
    String(String),
    Array(Vec<Value>),
    /// The members of an object, in the order in which they are read.
    Object(Vec<(String, Value)>),
}

impl Number {
    /// The number as it is printed.
    pub open spec fn text(self) -> Seq<char> {
        match self {
            Number::PosInt(n) => decimal(n as nat),
            Number::NegInt(n) => if n < 0 {
                "-"@ + decimal(-n as nat)
            } else {
                decimal(n as nat)
            },
            Number::Float(printed) => printed@,
        }
    }

    /// The number as it is printed.
    pub fn print(&self) -> (r: String)
        ensures
            r@ == self.text(),
    {
        match self {
            Number::PosInt(n) => decimal_string(*n),
            Number::NegInt(n) => {
                if *n < 0 {
                    let mut out = "-".to_owned();
                    let below: u64 = (-(*n + 1)) as u64;
                    push_number(&mut out, below + 1, 10);
                    out
                } else {
                    decimal_string(*n as u64)
                }
            },
            Number::Float(printed) => printed.clone(),
        }
    }

    /// The number, if it is a natural number of 64 bits.
    pub fn as_u64(&self) -> (r: Option<u64>)
        ensures
            r == (match *self {
                Number::PosInt(n) => Some(n),
                _ => None,
            }),
    {
        match self {
            Number::PosInt(n) => Some(*n),
            _ => None,
        }
    }
}

/// The value of the first member named `name`.
pub open spec fn member(members: Seq<(String, Value)>, name: Seq<char>) -> Option<Value>
    decreases members.len(),
{
    if members.len() == 0 {
        None
    } else if members[0].0@ == name {
        Some(members[0].1)
    } else {
        member(members.skip(1), name)
    }
}

/// The value of the first member named `name`.
pub fn get_member<'a>(members: &'a Vec<(String, Value)>, name: &str) -> (r: Option<&'a Value>)
    ensures
        (match r {
            Some(value) => Some(*value),
            None => None,
        }) == member(members@, name@),
{
    let wanted: String = name.to_owned();
    let mut i: usize = 0;
    assert(members@.skip(0) =~= members@);
    while i < members.len()
        invariant
            wanted@ == name@,
            i <= members@.len(),
            member(members@, name@) == member(members@.skip(i as int), name@),
        decreases members.len() - i,
    {
        assert(members@.skip(i as int).skip(1) =~= members@.skip(i + 1));
        if members[i].0 == wanted {
            return Some(&members[i].1);
        }
        i = i + 1;
    }
    None
}

/// A number prints as its digits in decimal, with a minus sign in front where it is
/// negative, or as it was printed before.
pub proof fn law_printed_numbers(n: u64, negative: i64, printed: String)
    requires
        negative < 0,
    ensures
        Number::PosInt(n).text() == decimal(n as nat),
        Number::NegInt(negative).text() == "-"@ + decimal((-negative) as nat),
        Number::Float(printed).text() == printed@,
{
}

/// The member that is found by a name is the first one of that name; none is found
/// exactly if none has that name.
pub proof fn law_first_member_of_a_name_counts(
    members: Seq<(String, Value)>,
    name: Seq<char>,
    j: int,
)
    ensures
        0 <= j < members.len() && members[j].0@ == name && (forall|k: int|
            0 <= k < j ==> (#[trigger] members[k]).0@ != name) ==> member(members, name) == Some(
            members[j].1,
        ),
        member(members, name) is None <==> forall|k: int|
            0 <= k < members.len() ==> (#[trigger] members[k]).0@ != name,
    decreases members.len(),
{
    if members.len() > 0 && members[0].0@ != name {
        let rest = members.skip(1);
        law_first_member_of_a_name_counts(rest, name, j - 1);
        assert(forall|k: int| 0 <= k < rest.len() ==> rest[k] == #[trigger] members[k + 1]);
        if forall|k: int| 0 <= k < rest.len() ==> (#[trigger] rest[k]).0@ != name {
            assert forall|k: int| 0 <= k < members.len() implies (#[trigger] members[k]).0@
                != name by {
                if k > 0 {
                    assert(rest[k - 1] == members[k]);
                }
            }
        }
        if forall|k: int| 0 <= k < members.len() ==> (#[trigger] members[k]).0@ != name {
            assert forall|k: int| 0 <= k < rest.len() implies (#[trigger] rest[k]).0@ != name by {
                assert(members[k + 1].0@ != name);
            }
        }
        if 0 <= j < members.len() && members[j].0@ == name && (forall|k: int|
            0 <= k < j ==> (#[trigger] members[k]).0@ != name) {
            assert(j > 0);
            assert forall|k: int| 0 <= k < j - 1 implies (#[trigger] rest[k]).0@ != name by {
                assert(members[k + 1].0@ != name);
            }
            assert(rest[j - 1] == members[j]);
        }
    } else if members.len() > 0 {
        assert(members[0].0@ == name);
    }
}

} // verus!
