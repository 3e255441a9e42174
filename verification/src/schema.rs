//! The columns of the penguin measurements: their names, their kinds and
//! their order, and which of them are features and which is the label.

use crate::table::{field_views, name_views, ColumnKind, Field, FieldView};
use vstd::prelude::*;

verus! {

/// The seven columns: the species, the island, four measurements and the
/// sex.
pub open spec fn penguin_fields() -> Seq<FieldView> {
    seq![
        FieldView { name: "species"@, kind: ColumnKind::Text },
        FieldView { name: "island"@, kind: ColumnKind::Text },
        FieldView { name: "culmen_length_mm"@, kind: ColumnKind::Number },
        FieldView { name: "culmen_depth_mm"@, kind: ColumnKind::Number },
        FieldView { name: "flipper_length_mm"@, kind: ColumnKind::Number },
        FieldView { name: "body_mass_g"@, kind: ColumnKind::Number },
        FieldView { name: "sex"@, kind: ColumnKind::Text },
    ]
}

/// The names of the four feature columns, in the order in which they
/// become the columns of the matrix.
pub open spec fn feature_names() -> Seq<Seq<char>> {
    seq!["culmen_length_mm"@, "culmen_depth_mm"@, "flipper_length_mm"@, "body_mass_g"@]
}

/// The name of the label column.
pub open spec fn target_names() -> Seq<Seq<char>> {
    seq!["species"@]
}

fn field(name: &str, kind: ColumnKind) -> (res: Field)
    ensures
        res@ == (FieldView { name: name@, kind }),
{
    Field { name: name.to_owned(), kind }
}

/// The schema of the penguin measurements, to hand to whatever loads them.
pub fn penguin_schema() -> (schema: Vec<Field>)
    ensures
        field_views(schema@) == penguin_fields(),
{
    let mut schema: Vec<Field> = Vec::new();
    schema.push(field("species", ColumnKind::Text));
    schema.push(field("island", ColumnKind::Text));
    schema.push(field("culmen_length_mm", ColumnKind::Number));
    schema.push(field("culmen_depth_mm", ColumnKind::Number));
    schema.push(field("flipper_length_mm", ColumnKind::Number));
    schema.push(field("body_mass_g", ColumnKind::Number));
    schema.push(field("sex", ColumnKind::Text));
    assert(field_views(schema@) =~= penguin_fields());
    schema
}

/// The names of the feature columns.
pub fn feature_columns() -> (names: Vec<String>)
    ensures
        name_views(names@) == feature_names(),
{
    let mut names: Vec<String> = Vec::new();
    names.push("culmen_length_mm".to_owned());
    names.push("culmen_depth_mm".to_owned());
    names.push("flipper_length_mm".to_owned());
    names.push("body_mass_g".to_owned());
    assert(name_views(names@) =~= feature_names());
    names
}

/// The name of the label column.
pub fn target_columns() -> (names: Vec<String>)
    ensures
        name_views(names@) == target_names(),
{
    let mut names: Vec<String> = Vec::new();
    names.push("species".to_owned());
    assert(name_views(names@) =~= target_names());
    names
}

} // verus!
