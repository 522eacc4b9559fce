//! Tables of typed fields, first-match lookup and typed materialization.
use vstd::prelude::*;
use vstd::string::*;
use crate::text::str_eq;
use crate::value::{kind_of, Kind, Scalar, Value};

verus! {

/// A named, ordered list of `(key, value)` fields. Keys may repeat; lookups
/// take the first.
#[derive(Debug, Clone)]
pub struct Table {
    pub name: String,
    pub fields: Vec<(String, Value)>,
}

/// What a table holds, with strings seen as character sequences.
pub ghost struct TableModel {
    pub name: Seq<char>,
    pub fields: Seq<(Seq<char>, Scalar)>,
}

pub open spec fn fields_view(f: Seq<(String, Value)>) -> Seq<(Seq<char>, Scalar)> {
    f.map_values(|p: (String, Value)| (p.0@, p.1@))
}

impl View for Table {
    type V = TableModel;

    open spec fn view(&self) -> TableModel {
        TableModel { name: self.name@, fields: fields_view(self.fields@) }
    }
}

/// The value of the first field named `key`.
pub open spec fn lookup(fields: Seq<(Seq<char>, Scalar)>, key: Seq<char>) -> Option<Scalar>
    decreases fields.len(),
{
    if fields.len() == 0 {
        None
    } else if fields[0].0 == key {
        Some(fields[0].1)
    } else {
        lookup(fields.drop_first(), key)
    }
}

/// Why a record could not be built from a table.
#[derive(Debug, Clone, PartialEq)]
pub enum FieldError {
    /// The table has no field of this name.
    Missing(String),
    /// The field's value is of another kind than the record asks for.
    WrongKind(String),
}

pub ghost enum FieldFault {
    Missing(Seq<char>),
    WrongKind(Seq<char>),
}

impl View for FieldError {
    type V = FieldFault;

    open spec fn view(&self) -> FieldFault {
        match self {
            FieldError::Missing(n) => FieldFault::Missing(n@),
            FieldError::WrongKind(n) => FieldFault::WrongKind(n@),
        }
    }
}

pub open spec fn shape_view(s: Seq<(&str, Kind)>) -> Seq<(Seq<char>, Kind)> {
    s.map_values(|p: (&str, Kind)| (p.0@, p.1))
}

pub open spec fn values_view(v: Seq<Value>) -> Seq<Scalar> {
    v.map_values(|x: Value| x@)
}

/// The values that a record of the given `(name, kind)` fields takes from
/// `fields`, in the record's order; the first field that is absent or of
/// another kind is the error.
pub open spec fn spec_materialize(
    fields: Seq<(Seq<char>, Scalar)>,
    shape: Seq<(Seq<char>, Kind)>,
) -> Result<Seq<Scalar>, FieldFault>
    decreases shape.len(),
{
    if shape.len() == 0 {
        Ok(Seq::empty())
    } else {
        match spec_materialize(fields, shape.drop_last()) {
            Err(e) => Err(e),
            Ok(vs) => {
                let (name, kind) = shape.last();
                match lookup(fields, name) {
                    None => Err(FieldFault::Missing(name)),
                    Some(v) => if kind_of(v) == kind {
                        Ok(vs.push(v))
                    } else {
                        Err(FieldFault::WrongKind(name))
                    },
                }
            },
        }
    }
}

/// An error on a leading part of the record is the error of the whole.
pub proof fn lemma_materialize_err_prefix(
    fields: Seq<(Seq<char>, Scalar)>,
    shape: Seq<(Seq<char>, Kind)>,
    k: int,
)
    requires
        0 <= k <= shape.len(),
        spec_materialize(fields, shape.subrange(0, k)) is Err,
    ensures
        spec_materialize(fields, shape) == spec_materialize(fields, shape.subrange(0, k)),
    decreases shape.len() - k,
{
    if k == shape.len() {
        assert(shape.subrange(0, k) =~= shape);
    } else {
        assert(shape.subrange(0, k + 1).drop_last() =~= shape.subrange(0, k));
        lemma_materialize_err_prefix(fields, shape, k + 1);
    }
}

impl Value {
    /// A copy of this value.
    pub fn duplicate(&self) -> (r: Value)
        ensures
            r@ == self@,
    {
        match self {
            Value::String(s) => Value::String(s.clone()),
            Value::Char(c) => Value::Char(*c),
            Value::Integer(i) => Value::Integer(*i),
            Value::Float(t) => Value::Float(t.clone()),
            Value::Boolean(b) => Value::Boolean(*b),
        }
    }
}

impl Table {
    /// The value of the first field named `key`, if there is one.
    pub fn get(&self, key: &str) -> (r: Option<&Value>)
        ensures
            match r {
                Some(v) => lookup(self@.fields, key@) == Some(v@),
                None => lookup(self@.fields, key@) is None,
            },
    {
        let n = self.fields.len();
        let ghost fv = self@.fields;
        let mut i: usize = 0;
        assert(fv.subrange(0, n as int) =~= fv);
        while i < n
            invariant
                n == self.fields@.len(),
                fv == self@.fields,
                i <= n,
                lookup(fv, key@) == lookup(fv.subrange(i as int, n as int), key@),
            decreases n - i,
        {
            let (k, v) = &self.fields[i];
            assert(fv[i as int] == (k@, v@));
            if str_eq(k.as_str(), key) {
                return Some(v);
            }
            assert(fv.subrange(i as int, n as int).drop_first() =~= fv.subrange(i + 1, n as int));
            i = i + 1;
        }
        None
    }

    /// The values for a record whose fields are `shape`, each looked up by
    /// name (first match) and required to be of the named kind.
    pub fn materialize(&self, shape: &[(&str, Kind)]) -> (r: Result<Vec<Value>, FieldError>)
        ensures
            match r {
                Ok(vs) => spec_materialize(self@.fields, shape_view(shape@)) == Ok::<
                    Seq<Scalar>,
                    FieldFault,
                >(values_view(vs@)),
                Err(e) => spec_materialize(self@.fields, shape_view(shape@)) == Err::<
                    Seq<Scalar>,
                    FieldFault,
                >(e@),
            },
    {
        let ghost sv = shape_view(shape@);
        let mut out: Vec<Value> = Vec::new();
        let mut i: usize = 0;
        assert(values_view(out@) =~= Seq::<Scalar>::empty());
        while i < shape.len()
            invariant
                sv == shape_view(shape@),
                i <= shape@.len(),
                spec_materialize(self@.fields, sv.subrange(0, i as int)) == Ok::<
                    Seq<Scalar>,
                    FieldFault,
                >(values_view(out@)),
            decreases shape@.len() - i,
        {
            let (name, kind) = shape[i];
            let ghost pre = sv.subrange(0, i as int);
            assert(sv.subrange(0, i + 1).drop_last() =~= pre);
            assert(sv.subrange(0, i + 1).last() == (name@, kind));
            match self.get(name) {
                None => {
                    proof {
                        lemma_materialize_err_prefix(self@.fields, sv, i + 1);
                    }
                    return Err(FieldError::Missing(String::from_str(name)));
                },
                Some(v) => {
                    if v.kind() != kind {
                        proof {
                            lemma_materialize_err_prefix(self@.fields, sv, i + 1);
                        }
                        return Err(FieldError::WrongKind(String::from_str(name)));
                    }
                    let w = v.duplicate();
                    let ghost before = out@;
                    out.push(w);
                    assert(values_view(out@) =~= values_view(before).push(w@));
                },
            }
            i = i + 1;
        }
        assert(sv.subrange(0, shape@.len() as int) =~= sv);
        Ok(out)
    }
}

} // verus!
