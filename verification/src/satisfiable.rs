use vstd::prelude::*;

verus! {

/// A concrete value that satisfiability tests compare against: it has an equality
/// and a strict total order.
pub trait FieldValue: Sized {
    /// The strict order on values.
    spec fn spec_less(&self, other: &Self) -> bool;

    fn is_equal(&self, other: &Self) -> (r: bool)
        ensures
            r == (*self == *other),
    ;

    fn is_less(&self, other: &Self) -> (r: bool)
        ensures
            r == self.spec_less(other),
    ;

    fn copy_value(&self) -> (r: Self)
        ensures
            r == *self,
    ;
}

impl FieldValue for u16 {
    open spec fn spec_less(&self, other: &Self) -> bool {
        *self < *other
    }

    fn is_equal(&self, other: &Self) -> (r: bool) {
        *self == *other
    }

    fn is_less(&self, other: &Self) -> (r: bool) {
        *self < *other
    }

    fn copy_value(&self) -> (r: Self) {
        *self
    }
}

impl FieldValue for u32 {
    open spec fn spec_less(&self, other: &Self) -> bool {
        *self < *other
    }

    fn is_equal(&self, other: &Self) -> (r: bool) {
        *self == *other
    }

    fn is_less(&self, other: &Self) -> (r: bool) {
        *self < *other
    }

    fn copy_value(&self) -> (r: Self) {
        *self
    }
}

impl FieldValue for u64 {
    open spec fn spec_less(&self, other: &Self) -> bool {
        *self < *other
    }

    fn is_equal(&self, other: &Self) -> (r: bool) {
        *self == *other
    }

    fn is_less(&self, other: &Self) -> (r: bool) {
        *self < *other
    }

    fn copy_value(&self) -> (r: Self) {
        *self
    }
}

/// `None` orders before every `Some`, and two `Some` values order by their contents,
/// as `Option`'s own ordering does.
impl FieldValue for Option<u64> {
    open spec fn spec_less(&self, other: &Self) -> bool {
        match (*self, *other) {
            (None, Some(_)) => true,
            (Some(a), Some(b)) => a < b,
            _ => false,
        }
    }

    fn is_equal(&self, other: &Self) -> (r: bool) {
        match (self, other) {
            (None, None) => true,
            (Some(a), Some(b)) => *a == *b,
            _ => false,
        }
    }

    fn is_less(&self, other: &Self) -> (r: bool) {
        match (self, other) {
            (None, Some(_)) => true,
            (Some(a), Some(b)) => *a < *b,
            _ => false,
        }
    }

    fn copy_value(&self) -> (r: Self) {
        *self
    }
}

/// A SatisfiableField represents an abstract test that will be performed on a concrete value.
#[derive(Debug)]
pub enum SatisfiableField<T> {
    /// The concrete value may have any value for this field.
    Ignore,
    /// The concrete value must be exactly this value.
    Exactly(T),
    /// The concrete value must not be this value.
    NotExactly(T),
    /// The concrete value must be one of these values.
    In(Vec<T>),
    /// The concrete value must not be any of these values.
    NotIn(Vec<T>),
    /// The concrete value must be strictly greater than this value.
    GreaterThan(T),
    /// The concrete value must be greater than or equal to this value.
    GreaterThanOrEqual(T),
    /// The concrete value must be strictly less than this value.
    LessThan(T),
    /// The concrete value must be less than or equal to this value.
    LessThanOrEqual(T),
}

/// The mathematical model of a [`SatisfiableField`]: the lists become sequences.
pub enum FieldTest<T> {
    Ignore,
    Exactly(T),
    NotExactly(T),
    In(Seq<T>),
    NotIn(Seq<T>),
    GreaterThan(T),
    GreaterThanOrEqual(T),
    LessThan(T),
    LessThanOrEqual(T),
}

impl<T> View for SatisfiableField<T> {
    type V = FieldTest<T>;

    open spec fn view(&self) -> FieldTest<T> {
        match *self {
            SatisfiableField::Ignore => FieldTest::Ignore,
            SatisfiableField::Exactly(x) => FieldTest::Exactly(x),
            SatisfiableField::NotExactly(x) => FieldTest::NotExactly(x),
            SatisfiableField::In(xs) => FieldTest::In(xs@),
            SatisfiableField::NotIn(xs) => FieldTest::NotIn(xs@),
            SatisfiableField::GreaterThan(x) => FieldTest::GreaterThan(x),
            SatisfiableField::GreaterThanOrEqual(x) => FieldTest::GreaterThanOrEqual(x),
            SatisfiableField::LessThan(x) => FieldTest::LessThan(x),
            SatisfiableField::LessThanOrEqual(x) => FieldTest::LessThanOrEqual(x),
        }
    }
}

/// Whether the value `v` passes the test `field`.
pub open spec fn field_satisfied<T: FieldValue>(field: FieldTest<T>, v: T) -> bool {
    match field {
        FieldTest::Ignore => true,
        FieldTest::Exactly(x) => x == v,
        FieldTest::NotExactly(x) => x != v,
        FieldTest::In(xs) => xs.contains(v),
        FieldTest::NotIn(xs) => !xs.contains(v),
        FieldTest::GreaterThan(x) => x.spec_less(&v),
        FieldTest::GreaterThanOrEqual(x) => x.spec_less(&v) || x == v,
        FieldTest::LessThan(x) => v.spec_less(&x),
        FieldTest::LessThanOrEqual(x) => v.spec_less(&x) || v == x,
    }
}

/// A negated test passes exactly the values its plain form refuses, `Ignore` passes every
/// value, and an inclusive bound passes the values of its strict bound and the bound itself.
pub proof fn law_field_tests_complement<T: FieldValue>(x: T, xs: Seq<T>, v: T)
    ensures
        field_satisfied(FieldTest::NotExactly(x), v) == !field_satisfied(FieldTest::Exactly(x), v),
        field_satisfied(FieldTest::NotIn(xs), v) == !field_satisfied(FieldTest::In(xs), v),
        field_satisfied(FieldTest::Ignore, v),
        field_satisfied(FieldTest::GreaterThanOrEqual(x), v) == (field_satisfied(FieldTest::GreaterThan(x), v)
            || field_satisfied(FieldTest::Exactly(x), v)),
        field_satisfied(FieldTest::LessThanOrEqual(x), v) == (field_satisfied(FieldTest::LessThan(x), v)
            || field_satisfied(FieldTest::Exactly(x), v)),
{
}

fn vec_contains<T: FieldValue>(xs: &Vec<T>, v: &T) -> (r: bool)
    ensures
        r == xs@.contains(*v),
{
    let mut i: usize = 0;
    while i < xs.len()
        invariant
            i <= xs.len(),
            forall|j: int| 0 <= j < i ==> xs@[j] != *v,
        decreases xs.len() - i,
    {
        if xs[i].is_equal(v) {
            return true;
        }
        i = i + 1;
    }
    false
}

fn vec_copy<T: FieldValue>(xs: &Vec<T>) -> (r: Vec<T>)
    ensures
        r@ == xs@,
{
    let mut out: Vec<T> = Vec::new();
    let mut i: usize = 0;
    while i < xs.len()
        invariant
            i <= xs.len(),
            out@ == xs@.take(i as int),
        decreases xs.len() - i,
    {
        out.push(xs[i].copy_value());
        i = i + 1;
        assert(out@ =~= xs@.take(i as int));
    }
    assert(xs@.take(xs.len() as int) =~= xs@);
    out
}

impl<T: FieldValue> SatisfiableField<T> {
    /// Does the concrete value pass this test?
    pub fn satisfied_by(&self, value: &T) -> (r: bool)
        ensures
            r == field_satisfied(self@, *value),
    {
        match self {
            SatisfiableField::Ignore => true,
            SatisfiableField::Exactly(x) => x.is_equal(value),
            SatisfiableField::NotExactly(x) => !x.is_equal(value),
            SatisfiableField::In(xs) => vec_contains(xs, value),
            SatisfiableField::NotIn(xs) => !vec_contains(xs, value),
            SatisfiableField::GreaterThan(x) => x.is_less(value),
            SatisfiableField::GreaterThanOrEqual(x) => x.is_less(value) || x.is_equal(value),
            SatisfiableField::LessThan(x) => value.is_less(x),
            SatisfiableField::LessThanOrEqual(x) => value.is_less(x) || value.is_equal(x),
        }
    }

    /// A copy of this test.
    pub fn duplicate(&self) -> (r: Self)
        ensures
            r@ == self@,
    {
        match self {
            SatisfiableField::Ignore => SatisfiableField::Ignore,
            SatisfiableField::Exactly(x) => SatisfiableField::Exactly(x.copy_value()),
            SatisfiableField::NotExactly(x) => SatisfiableField::NotExactly(x.copy_value()),
            SatisfiableField::In(xs) => SatisfiableField::In(vec_copy(xs)),
            SatisfiableField::NotIn(xs) => SatisfiableField::NotIn(vec_copy(xs)),
            SatisfiableField::GreaterThan(x) => SatisfiableField::GreaterThan(x.copy_value()),
            SatisfiableField::GreaterThanOrEqual(x) => SatisfiableField::GreaterThanOrEqual(
                x.copy_value(),
            ),
            SatisfiableField::LessThan(x) => SatisfiableField::LessThan(x.copy_value()),
            SatisfiableField::LessThanOrEqual(x) => SatisfiableField::LessThanOrEqual(
                x.copy_value(),
            ),
        }
    }
}

impl<T: FieldValue> Default for SatisfiableField<T> {
    fn default() -> (r: Self)
        ensures
            r@ == FieldTest::<T>::Ignore,
    {
        SatisfiableField::Ignore
    }
}

/// A test that concrete values of a type may pass.
pub trait SatisfiabilityTest {
    type ConcreteT;

    /// Whether the concrete value has the variant this test is about.
    spec fn spec_is_same_variant(&self, concrete: &Self::ConcreteT) -> bool;

    /// Whether the concrete value passes this test.
    spec fn spec_satisfied_by(&self, concrete: &Self::ConcreteT) -> bool;

    /// Is this variant the same as the other variant?
    fn is_same_variant(&self, concrete: &Self::ConcreteT) -> (r: bool)
        ensures
            r == self.spec_is_same_variant(concrete),
    ;

    /// Can this test be satisfied by the concrete value?
    fn satisfied_by(&self, concrete: Self::ConcreteT) -> (r: bool)
        ensures
            r == self.spec_satisfied_by(&concrete),
    ;
}

/// Values that carry an identity: two values with the same unique key describe the same
/// thing, and a newer one replaces an older one. A value may carry no key; such a value is
/// the same as nothing, not even itself.
pub trait Uniqueness {
    type Key;

    /// The unique key of a value.
    spec fn spec_unique_key(&self) -> Self::Key;

    /// Whether the value carries a key.
    spec fn spec_has_key(&self) -> bool;

    fn unique_key(&self) -> (r: Self::Key)
        ensures
            r == self.spec_unique_key(),
    ;

    fn has_key(&self) -> (r: bool)
        ensures
            r == self.spec_has_key(),
    ;

    /// Do both values carry a key, and the same one?
    fn has_same_unique_key(&self, other: &Self) -> (r: bool)
        ensures
            r == (self.spec_has_key() && other.spec_has_key() && self.spec_unique_key() == other.spec_unique_key()),
    ;
}

} // verus!
