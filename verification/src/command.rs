//! The inbound command model: what one parsed frame means.  A frame is a
//! JSON object with an optional correlation `id`, a `command` name and an
//! optional structured `data` payload; the payload's fields are scalars.
//! Field access mirrors a JSON object lookup where the last occurrence of a
//! key wins.

use vstd::prelude::*;

verus! {

/// One JSON value of a payload field.  Integers keep their value — in
/// `Int` when they fit `i64`, in `Big` when they only fit `u64`; numbers
/// beyond that, fractions and exponents are kept as `NonInt`; arrays and
/// nested objects are kept as `Composite`.  The last three parse, but no
/// field accessor reads anything out of them.
#[derive(Debug, PartialEq)]
pub enum Scalar {
    Null,
    Bool(bool),
    Int(i64),
    Big(u64),
    NonInt,
    Str(Vec<u8>),
    Composite,
}

/// Spec-level mirror of `Scalar`.
pub enum ScalarV {
    Null,
    Bool(bool),
    Int(i64),
    Big(u64),
    NonInt,
    Str(Seq<u8>),
    Composite,
}

impl View for Scalar {
    type V = ScalarV;

    open spec fn view(&self) -> ScalarV {
        match self {
            Scalar::Null => ScalarV::Null,
            Scalar::Bool(b) => ScalarV::Bool(*b),
            Scalar::Int(n) => ScalarV::Int(*n),
            Scalar::Big(n) => ScalarV::Big(*n),
            Scalar::NonInt => ScalarV::NonInt,
            Scalar::Str(s) => ScalarV::Str(s@),
            Scalar::Composite => ScalarV::Composite,
        }
    }
}

/// One `key: value` pair of a payload object.
#[derive(Debug, PartialEq)]
pub struct Member {
    pub key: Vec<u8>,
    pub val: Scalar,
}

impl View for Member {
    type V = (Seq<u8>, ScalarV);

    open spec fn view(&self) -> (Seq<u8>, ScalarV) {
        (self.key@, self.val@)
    }
}

/// The view of a member list.
pub open spec fn members_view(ms: Seq<Member>) -> Seq<(Seq<u8>, ScalarV)> {
    ms.map_values(|m: Member| m@)
}

/// The `data` field of a command: a flat object of scalars, or some other
/// JSON value that no field can be read from.
#[derive(Debug, PartialEq)]
pub enum Payload {
    Object(Vec<Member>),
    NonObject,
}

/// Spec-level mirror of `Payload`.
pub enum PayloadV {
    Object(Seq<(Seq<u8>, ScalarV)>),
    NonObject,
}

impl View for Payload {
    type V = PayloadV;

    open spec fn view(&self) -> PayloadV {
        match self {
            Payload::Object(ms) => PayloadV::Object(members_view(ms@)),
            Payload::NonObject => PayloadV::NonObject,
        }
    }
}

/// One parsed command frame.
#[derive(Debug, PartialEq)]
pub struct Command {
    pub id: Option<Vec<u8>>,
    pub name: Vec<u8>,
    pub data: Option<Payload>,
}

/// Spec-level mirror of `Command`.
pub struct CommandV {
    pub id: Option<Seq<u8>>,
    pub name: Seq<u8>,
    pub data: Option<PayloadV>,
}

impl View for Command {
    type V = CommandV;

    open spec fn view(&self) -> CommandV {
        CommandV {
            id: match &self.id {
                Option::None => Option::None,
                Option::Some(i) => Option::Some(i@),
            },
            name: self.name@,
            data: match &self.data {
                Option::None => Option::None,
                Option::Some(p) => Option::Some(p@),
            },
        }
    }
}

/// Lookup in a member list; the last occurrence of a key wins, as in a JSON
/// object built by inserting the pairs in order.
pub open spec fn lookup(ms: Seq<(Seq<u8>, ScalarV)>, k: Seq<u8>) -> Option<ScalarV>
    decreases ms.len(),
{
    if ms.len() == 0 {
        Option::None
    } else if ms.last().0 == k {
        Option::Some(ms.last().1)
    } else {
        lookup(ms.drop_last(), k)
    }
}

/// The field `k` of a command's data, if the data is an object that has it.
pub open spec fn field(data: Option<PayloadV>, k: Seq<u8>) -> Option<ScalarV> {
    match data {
        Option::Some(PayloadV::Object(ms)) => lookup(ms, k),
        _ => Option::None,
    }
}

/// The field `k` read as a string.
pub open spec fn field_str(data: Option<PayloadV>, k: Seq<u8>) -> Option<Seq<u8>> {
    match field(data, k) {
        Option::Some(ScalarV::Str(s)) => Option::Some(s),
        _ => Option::None,
    }
}

/// The field `k` read as a non-negative integer.
pub open spec fn field_u64(data: Option<PayloadV>, k: Seq<u8>) -> Option<u64> {
    match field(data, k) {
        Option::Some(ScalarV::Int(n)) => if n >= 0 {
            Option::Some(n as u64)
        } else {
            Option::None
        },
        Option::Some(ScalarV::Big(n)) => Option::Some(n),
        _ => Option::None,
    }
}

/// The field `k` read as a signed integer.
pub open spec fn field_i64(data: Option<PayloadV>, k: Seq<u8>) -> Option<i64> {
    match field(data, k) {
        Option::Some(ScalarV::Int(n)) => Option::Some(n),
        _ => Option::None,
    }
}

/// Find the member with key `k`, scanning from the end.
fn get_member<'a>(ms: &'a Vec<Member>, k: &[u8]) -> (r: Option<&'a Scalar>)
    ensures
        match r {
            Option::None => lookup(members_view(ms@), k@) is None,
            Option::Some(v) => lookup(members_view(ms@), k@) == Option::Some(v@),
        },
{
    let mut i: usize = ms.len();
    proof {
        assert(members_view(ms@).subrange(0, ms@.len() as int) =~= members_view(ms@));
    }
    while i > 0
        invariant
            i <= ms@.len(),
            lookup(members_view(ms@), k@) == lookup(
                members_view(ms@).subrange(0, i as int),
                k@,
            ),
        decreases i,
    {
        i -= 1;
        let ghost pre = members_view(ms@).subrange(0, i as int + 1);
        proof {
            assert(pre.last() == ms@[i as int]@);
            assert(pre.drop_last() =~= members_view(ms@).subrange(0, i as int));
        }
        if crate::bytestr::bytes_eq(ms[i].key.as_slice(), k) {
            return Option::Some(&ms[i].val);
        }
    }
    proof {
        assert(members_view(ms@).subrange(0, 0) =~= Seq::<(Seq<u8>, ScalarV)>::empty());
    }
    Option::None
}

impl Command {
    /// The string field `k` of this command's data.
    pub fn get_str<'a>(&'a self, k: &[u8]) -> (r: Option<&'a Vec<u8>>)
        ensures
            match r {
                Option::None => field_str(self@.data, k@) is None,
                Option::Some(s) => field_str(self@.data, k@) == Option::Some(s@),
            },
    {
        match &self.data {
            Option::Some(Payload::Object(ms)) => match get_member(ms, k) {
                Option::Some(Scalar::Str(s)) => Option::Some(s),
                _ => Option::None,
            },
            _ => Option::None,
        }
    }

    /// The non-negative integer field `k` of this command's data.
    pub fn get_u64(&self, k: &[u8]) -> (r: Option<u64>)
        ensures
            r == field_u64(self@.data, k@),
    {
        match &self.data {
            Option::Some(Payload::Object(ms)) => match get_member(ms, k) {
                Option::Some(Scalar::Int(n)) => if *n >= 0 {
                    Option::Some(*n as u64)
                } else {
                    Option::None
                },
                Option::Some(Scalar::Big(n)) => Option::Some(*n),
                _ => Option::None,
            },
            _ => Option::None,
        }
    }

    /// The signed integer field `k` of this command's data.
    pub fn get_i64(&self, k: &[u8]) -> (r: Option<i64>)
        ensures
            r == field_i64(self@.data, k@),
    {
        match &self.data {
            Option::Some(Payload::Object(ms)) => match get_member(ms, k) {
                Option::Some(Scalar::Int(n)) => Option::Some(*n),
                _ => Option::None,
            },
            _ => Option::None,
        }
    }
}

} // verus!
