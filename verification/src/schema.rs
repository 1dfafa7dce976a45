//! Schemas: ordered lists of named, typed columns with distinct names.

use vstd::prelude::*;
use vstd::string::*;

verus! {

/// The type of a column. Only doubles are computed on; a column of any other
/// type is carried along untouched.
#[derive(Clone, Copy, Debug, PartialEq, Eq, Structural)]
pub enum DataType {
    /// 64-bit IEEE-754 floating point.
    Float64,
    /// Any other type.
    Other,
}

/// One column of a schema.
#[derive(Debug, PartialEq, Eq)]
pub struct Field {
    pub name: String,
    pub data_type: DataType,
    pub nullable: bool,
}

/// What a field is: its name as text, its type and whether it admits nulls.
pub struct FieldView {
    pub name: Seq<char>,
    pub data_type: DataType,
    pub nullable: bool,
}

impl View for Field {
    type V = FieldView;

    open spec fn view(&self) -> FieldView {
        FieldView { name: self.name@, data_type: self.data_type, nullable: self.nullable }
    }
}

/// The views of a list of fields, in order.
pub open spec fn field_views(fields: Seq<Field>) -> Seq<FieldView> {
    Seq::new(fields.len(), |i: int| fields[i]@)
}

/// No two fields share a name.
pub open spec fn distinct_names(fields: Seq<FieldView>) -> bool {
    forall|i: int, j: int| 0 <= i < j < fields.len() ==> fields[i].name != fields[j].name
}

/// Some field carries the name.
pub open spec fn has_name(fields: Seq<FieldView>, name: Seq<char>) -> bool {
    exists|i: int| 0 <= i < fields.len() && #[trigger] fields[i].name == name
}

/// The nullable double column that every operator appends.
pub open spec fn float_field(name: Seq<char>) -> FieldView {
    FieldView { name, data_type: DataType::Float64, nullable: true }
}

/// An ordered list of fields whose names are distinct.
#[derive(Debug, PartialEq, Eq)]
pub struct Schema {
    fields: Vec<Field>,
}

impl View for Schema {
    type V = Seq<FieldView>;

    closed spec fn view(&self) -> Seq<FieldView> {
        field_views(self.fields@)
    }
}

impl Clone for Field {
    fn clone(&self) -> (r: Field)
        ensures
            r == *self,
    {
        Field { name: self.name.clone(), data_type: self.data_type, nullable: self.nullable }
    }
}

impl Clone for Schema {
    fn clone(&self) -> (r: Schema)
        ensures
            r@ == self@,
    {
        proof {
            use_type_invariant(self);
        }
        Schema { fields: self.fields.clone() }
    }
}

impl Field {
    /// A nullable double column of the given name.
    pub fn float(name: String) -> (f: Field)
        ensures
            f@ == float_field(name@),
    {
        Field { name, data_type: DataType::Float64, nullable: true }
    }

    /// Whether two fields agree in name, type and nullability.
    pub fn same_as(&self, other: &Field) -> (r: bool)
        ensures
            r == (self@ == other@),
    {
        let same_type: bool = self.data_type == other.data_type;
        self.name == other.name && same_type && self.nullable == other.nullable
    }
}

impl Schema {
    /// The schema holds what its invariant promises: distinct names.
    #[verifier::type_invariant]
    pub closed spec fn wf(&self) -> bool {
        distinct_names(field_views(self.fields@))
    }

    /// The schema without columns.
    pub fn empty() -> (s: Schema)
        ensures
            s@ == Seq::<FieldView>::empty(),
    {
        Schema { fields: Vec::new() }
    }

    /// The schema of the given fields, or nothing if two of them share a name.
    pub fn try_new(fields: Vec<Field>) -> (r: Option<Schema>)
        ensures
            r is Some <==> distinct_names(field_views(fields@)),
            r matches Some(s) ==> s@ == field_views(fields@),
    {
        let ghost views = field_views(fields@);
        let mut j: usize = 0;
        while j < fields.len()
            invariant
                j <= fields.len(),
                views == field_views(fields@),
                forall|a: int, b: int| 0 <= a < b < j ==> views[a].name != views[b].name,
            decreases fields.len() - j,
        {
            let mut i: usize = 0;
            while i < j
                invariant
                    i <= j < fields.len(),
                    views == field_views(fields@),
                    forall|a: int| 0 <= a < i ==> views[a].name != views[j as int].name,
                decreases j - i,
            {
                if fields[i].name == fields[j].name {
                    assert(views[i as int].name == views[j as int].name);
                    return None;
                }
                i += 1;
            }
            j += 1;
        }
        Some(Schema { fields })
    }

    /// The schema with `field` added as its last column, or nothing if a
    /// column of that name is there already.
    pub fn with_field(self, field: Field) -> (r: Option<Schema>)
        ensures
            r is None <==> has_name(self@, field.name@),
            r matches Some(s) ==> s@ == self@.push(field@),
    {
        proof {
            use_type_invariant(&self);
        }
        if self.index_of(field.name.as_str()).is_some() {
            return None;
        }
        let ghost before = self@;
        let mut fields: Vec<Field> = self.fields;
        fields.push(field);
        proof {
            let after = field_views(fields@);
            assert(after =~= before.push(field@));
            assert forall|i: int, j: int| 0 <= i < j < after.len() implies after[i].name
                != after[j].name by {
                if j == before.len() {
                    assert(before[i].name != field.name@);
                }
            }
        }
        Some(Schema { fields })
    }

    /// Whether two schemas hold the same fields in the same order.
    pub fn same_as(&self, other: &Schema) -> (r: bool)
        ensures
            r == (self@ == other@),
    {
        if self.fields.len() != other.fields.len() {
            assert(self@.len() != other@.len());
            return false;
        }
        let mut i: usize = 0;
        while i < self.fields.len()
            invariant
                i <= self.fields.len(),
                self.fields.len() == other.fields.len(),
                forall|k: int| 0 <= k < i ==> self@[k] == other@[k],
            decreases self.fields.len() - i,
        {
            if !self.fields[i].same_as(&other.fields[i]) {
                assert(self@[i as int] != other@[i as int]);
                return false;
            }
            i += 1;
        }
        assert(self@ =~= other@);
        true
    }

    /// The number of columns.
    pub fn len(&self) -> (n: usize)
        ensures
            n == self@.len(),
            distinct_names(self@),
    {
        proof {
            use_type_invariant(self);
        }
        self.fields.len()
    }

    /// The field at position `i`.
    pub fn field(&self, i: usize) -> (f: &Field)
        requires
            i < self@.len(),
        ensures
            f@ == self@[i as int],
    {
        &self.fields[i]
    }

    /// The position of the column called `name`, if there is one.
    pub fn index_of(&self, name: &str) -> (r: Option<usize>)
        ensures
            match r {
                Some(i) => i < self@.len() && self@[i as int].name == name@,
                None => !has_name(self@, name@),
            },
            distinct_names(self@),
    {
        proof {
            use_type_invariant(self);
        }
        let key: String = String::from_str(name);
        let mut i: usize = 0;
        while i < self.fields.len()
            invariant
                i <= self.fields.len(),
                key@ == name@,
                distinct_names(self@),
                forall|k: int| 0 <= k < i ==> self@[k].name != name@,
            decreases self.fields.len() - i,
        {
            if self.fields[i].name == key {
                return Some(i);
            }
            i += 1;
        }
        None
    }
}

} // verus!
