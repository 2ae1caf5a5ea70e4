//! Descriptions of the packed event records as structured-array fields.
use vstd::prelude::*;

verus! {

/// The scalar type of one field.
#[derive(Debug, Clone, Copy, PartialEq, Eq, Structural)]
pub enum DtypeBase {
    Bool,
    I8,
    I16,
    I32,
    I64,
    Isize,
    U8,
    U16,
    U32,
    U64,
    Usize,
    F32,
    F64,
}

impl DtypeBase {
    /// Size in bytes on a 64-bit machine.
    pub open spec fn size_spec(self) -> nat {
        match self {
            DtypeBase::Bool | DtypeBase::I8 | DtypeBase::U8 => 1,
            DtypeBase::I16 | DtypeBase::U16 => 2,
            DtypeBase::I32 | DtypeBase::U32 | DtypeBase::F32 => 4,
            DtypeBase::I64 | DtypeBase::U64 | DtypeBase::F64 => 8,
            DtypeBase::Isize | DtypeBase::Usize => 8,
        }
    }

    pub fn size(&self) -> (r: usize)
        ensures
            r == self.size_spec(),
    {
        match self {
            DtypeBase::Bool | DtypeBase::I8 | DtypeBase::U8 => 1,
            DtypeBase::I16 | DtypeBase::U16 => 2,
            DtypeBase::I32 | DtypeBase::U32 | DtypeBase::F32 => 4,
            DtypeBase::I64 | DtypeBase::U64 | DtypeBase::F64 => 8,
            DtypeBase::Isize | DtypeBase::Usize => 8,
        }
    }
}

/// A named field.
#[derive(Debug, Clone, Copy)]
pub struct DtypeField {
    pub name: &'static str,
    pub base: DtypeBase,
}

impl DtypeField {
    pub fn new(name: &'static str, base: DtypeBase) -> (r: Self)
        ensures
            r.name == name,
            r.base == base,
    {
        DtypeField { name, base }
    }

    pub fn size(&self) -> (r: usize)
        ensures
            r == self.base.size_spec(),
    {
        self.base.size()
    }
}

/// The total size of the fields: the size of one packed record.
pub open spec fn fields_size(fields: Seq<DtypeField>) -> nat
    decreases fields.len(),
{
    if fields.len() == 0 {
        0
    } else {
        fields_size(fields.drop_last()) + fields.last().base.size_spec()
    }
}

proof fn lemma_fields_size_bound(fields: Seq<DtypeField>)
    ensures
        fields_size(fields) <= 8 * fields.len(),
    decreases fields.len(),
{
    if fields.len() > 0 {
        lemma_fields_size_bound(fields.drop_last());
    }
}

/// A record layout: its fields, in order.
#[derive(Debug)]
pub struct Dtype<const N: usize>(pub [DtypeField; N]);

impl<const N: usize> Dtype<N> {
    /// The size in bytes of one record.
    pub fn size(&self) -> (r: usize)
        requires
            N <= usize::MAX / 8,
        ensures
            r == fields_size(self.0@),
    {
        let mut total: usize = 0;
        let mut index: usize = 0;
        while index < N
            invariant
                index <= N,
                N <= usize::MAX / 8,
                self.0@.len() == N,
                total == fields_size(self.0@.take(index as int)),
            decreases N - index,
        {
            proof {
                assert(self.0@.take(index + 1).drop_last() =~= self.0@.take(index as int));
                lemma_fields_size_bound(self.0@.take(index + 1));
            }
            total = total + self.0[index].size();
            index = index + 1;
        }
        assert(self.0@.take(N as int) =~= self.0@);
        total
    }
}

/// Fields of a DVS record: `t`, `x`, `y`, `on`.
pub fn dvs_events_dtype() -> (r: Dtype<4>)
    ensures
        fields_size(r.0@) == 13,
{
    let t = DtypeField::new("t", DtypeBase::U64);
    let x = DtypeField::new("x", DtypeBase::U16);
    let y = DtypeField::new("y", DtypeBase::U16);
    let on = DtypeField::new("on", DtypeBase::Bool);
    let r = Dtype([t, x, y, on]);
    proof {
        assert(r.0@ =~= seq![t, x, y, on]);
        reveal_with_fuel(fields_size, 5);
        assert(seq![t, x, y, on].drop_last() =~= seq![t, x, y]);
        assert(seq![t, x, y].drop_last() =~= seq![t, x]);
        assert(seq![t, x].drop_last() =~= seq![t]);
        assert(seq![t].drop_last() =~= Seq::<DtypeField>::empty());
    }
    r
}

/// Fields of a trigger record: `t`, `id`, `rising`.
pub fn trigger_events_dtype() -> (r: Dtype<3>)
    ensures
        fields_size(r.0@) == 10,
{
    let t = DtypeField::new("t", DtypeBase::U64);
    let id = DtypeField::new("id", DtypeBase::U8);
    let rising = DtypeField::new("rising", DtypeBase::Bool);
    let r = Dtype([t, id, rising]);
    proof {
        assert(r.0@ =~= seq![t, id, rising]);
        reveal_with_fuel(fields_size, 4);
        assert(seq![t, id, rising].drop_last() =~= seq![t, id]);
        assert(seq![t, id].drop_last() =~= seq![t]);
        assert(seq![t].drop_last() =~= Seq::<DtypeField>::empty());
    }
    r
}

} // verus!
