//! The "has many" relation: one model whose rows are referenced by many rows
//! of another model through a foreign key column.
use core::marker::PhantomData;
use vstd::prelude::*;
use vstd::std_specs::cmp::PartialEqSpec;

verus! {

/// A model type that has a single id column.
pub trait UniqueIdentifier {
    /// The name of the id column.
    spec fn spec_id_column_name() -> Seq<char>;

    /// The name of the id column.
    fn id_column_name() -> (r: String)
        ensures
            r@ == Self::spec_id_column_name(),
    ;
}

/// A model value whose primary key can be read.
pub trait PrimaryKeyValue {
    /// The type of the primary key.
    type PrimaryKeyType;

    /// The primary key of this value.
    spec fn spec_primary_key_value(&self) -> Self::PrimaryKeyType;

    /// The primary key of this value.
    fn primary_key_value(&self) -> (r: Self::PrimaryKeyType)
        ensures
            r == self.spec_primary_key_value(),
    ;
}

/// A model value that can compare one of its columns, named at run time, with
/// a key.
pub trait ForeignKeyPartialEq<T> {
    /// Whether the column named `foreign_key` of this value holds `other`.
    spec fn spec_foreign_key_eq(&self, foreign_key: Seq<char>, other: T) -> bool;

    /// Whether the column named `foreign_key` of this value holds `other`.
    fn eq(&self, foreign_key: &str, other: &T) -> (r: bool)
        ensures
            r == self.spec_foreign_key_eq(foreign_key@, *other),
    ;
}

/// The rows of model `T` that point at a row of this model through the
/// foreign key column named in the relation.
pub struct HasMany<T> {
    _t: PhantomData<T>,
    foreign_key: &'static str,
}

impl<T> View for HasMany<T> {
    /// The name of the foreign key column of `T`.
    type V = Seq<char>;

    closed spec fn view(&self) -> Seq<char> {
        self.foreign_key@
    }
}

impl<T> HasMany<T> {
    /// The relation whose rows of `T` point here through column `fk`.
    pub fn using(fk: &'static str) -> (r: HasMany<T>)
        ensures
            r@ == fk@,
    {
        HasMany { _t: PhantomData, foreign_key: fk }
    }

    /// The column on this side that the relation joins on: the id column of
    /// the model `THEM` that is referenced.
    pub fn my_key<ME, THEM: UniqueIdentifier>(&self) -> (r: String)
        ensures
            r@ == THEM::spec_id_column_name(),
    {
        THEM::id_column_name()
    }

    /// The column on the other side that the relation joins on: the foreign
    /// key column given to `using`.
    pub fn their_key<ME, THEM>(&self) -> (r: String)
        ensures
            r@ == self@,
    {
        self.foreign_key.to_owned()
    }

    /// Whether `other` is one of the rows related to `source`: whether the
    /// foreign key column of `other` holds the primary key of `source`.
    pub fn is_related<S: PrimaryKeyValue, R: ForeignKeyPartialEq<S::PrimaryKeyType>>(
        &self,
        source: &S,
        other: &R,
    ) -> (r: bool)
        ensures
            r == other.spec_foreign_key_eq(self@, source.spec_primary_key_value()),
    {
        let pk = source.primary_key_value();
        let fk_field: String = self.their_key::<R, S>();
        ForeignKeyPartialEq::eq(other, fk_field.as_str(), &pk)
    }
}

impl<T> PartialEq for HasMany<T> {
    fn eq(&self, other: &Self) -> (r: bool) {
        self.foreign_key.to_owned() == other.foreign_key.to_owned()
    }
}

impl<T> vstd::std_specs::cmp::PartialEqSpecImpl for HasMany<T> {
    /// Two relations are equal when they use the same foreign key column.
    open spec fn obeys_eq_spec() -> bool {
        true
    }

    open spec fn eq_spec(&self, other: &Self) -> bool {
        self@ == other@
    }
}

impl<T> Clone for HasMany<T> {
    fn clone(&self) -> (r: Self)
        ensures
            r@ == self@,
    {
        HasMany { _t: PhantomData, foreign_key: self.foreign_key }
    }
}

/// Equality of relations is an equivalence that compares the foreign key
/// column alone: two relations built with `using` on the same column are
/// equal, whatever else they were made from.
pub proof fn lemma_has_many_eq_equivalence<T>(a: HasMany<T>, b: HasMany<T>, c: HasMany<T>)
    ensures
        a.eq_spec(&b) <==> a@ == b@,
        a.eq_spec(&a),
        a.eq_spec(&b) ==> b.eq_spec(&a),
        a.eq_spec(&b) && b.eq_spec(&c) ==> a.eq_spec(&c),
{
}

} // verus!
