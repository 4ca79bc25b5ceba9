//! Building a table from column specifications, then appending a loaded
//! table and removing rows as a delete target asks.

use vstd::prelude::*;
use crate::delete::{delete_expr_spec, parse_delete_target, resolved};
use crate::error::DataError;
use crate::fake::{
    fake_country_code, fake_date, fake_date_time, fake_digit, fake_first_name, fake_int,
    fake_last_name, fake_lat, fake_lon, fake_lorem_paragraph, fake_lorem_sentence,
    fake_lorem_title, fake_lorem_word, fake_name, fake_phone, fake_ssn, fake_state_abbr,
    fake_state_name, fake_string, fake_time, fake_uuid, fake_zipcode, unknown_string,
    value_string,
};
use crate::registry::{tag_of, tag_spec, TypeTag};
use crate::schema::{default_schema, parse_schema, schema_spec, spec_views, ColumnSpec, Schema};
use crate::sequence::{build_incremental_int, parse_range_string, range_spec};
use crate::table::{append, appended, filter_by_index, filtered, names_view, Cell, Table};
use crate::text::is_digit;

verus! {

/// First value of an `INT_RNG` column: the lower bound of its modifier, or
/// zero when the modifier is missing or malformed.
pub open spec fn range_start(modifier: Option<Seq<char>>) -> int {
    match modifier {
        Some(m) => match range_spec(m) {
            Some((lo, _)) => lo as int,
            None => 0,
        },
        None => 0,
    }
}

/// The values of a column of `size` rows fit in an `i32`.
pub open spec fn fits(c: ColumnSpec, size: nat) -> bool {
    tag_spec(c.datatype) == TypeTag::IntRng ==> range_start(c.modifier) + size <= i32::MAX + 1
}

/// `n` integer cells counting up from `start`.
pub open spec fn int_cells(start: int, n: nat) -> Seq<Cell> {
    Seq::new(n, |k: int| Cell::Int((start + k) as i32))
}

/// A cell that a scalar generator of `tag` may produce.
pub open spec fn scalar_ok(tag: TypeTag, c: Cell) -> bool {
    match tag {
        TypeTag::Int => c is Int && 0 <= c->Int_0 < i32::MAX,
        TypeTag::Digit => c is Text && c->Text_0@.len() == 1 && is_digit(c->Text_0@[0]),
        TypeTag::Value => c is Text && c->Text_0@ == "value"@,
        TypeTag::Unknown => c is Text && c->Text_0@ == "unknown"@,
        _ => c is Text,
    }
}

/// The tags whose column is produced as a whole, with state shared across rows.
pub open spec fn is_bulk(tag: TypeTag) -> bool {
    tag == TypeTag::IntInc || tag == TypeTag::IntRng
}

/// `cells` is a column that `c` may produce for `size` rows.
pub open spec fn column_ok(c: ColumnSpec, size: nat, cells: Seq<Cell>) -> bool {
    let tag = tag_spec(c.datatype);
    &&& cells.len() == size
    &&& tag == TypeTag::IntInc ==> cells == int_cells(0, size)
    &&& tag == TypeTag::IntRng ==> cells == int_cells(range_start(c.modifier), size)
    &&& !is_bulk(tag) ==> forall|k: int| 0 <= k < size ==> scalar_ok(tag, #[trigger] cells[k])
}

/// `t` is a table that `specs` may produce for `size` rows: one column per
/// specification, in order, under its name.
pub open spec fn built_from(specs: Seq<ColumnSpec>, size: nat, t: &Table) -> bool {
    &&& t.wf()
    &&& names_view(t.names@) == specs.map_values(|c: ColumnSpec| c.name)
    &&& t.columns@.len() == specs.len()
    &&& forall|c: int| 0 <= c < specs.len() ==> column_ok(specs[c], size, #[trigger] t.column(c))
}

/// `size` values, each from its own call of `generator`.
pub fn build_data_vector<T, G: Fn() -> T>(size: usize, generator: G) -> (r: Vec<T>)
    requires
        generator.requires(()),
    ensures
        r@.len() == size,
        forall|k: int| 0 <= k < size ==> generator.ensures((), #[trigger] r@[k]),
{
    let mut r: Vec<T> = Vec::new();
    let mut i: usize = 0;
    while i < size
        invariant
            generator.requires(()),
            i <= size,
            r@.len() == i,
            forall|k: int| 0 <= k < i ==> generator.ensures((), #[trigger] r@[k]),
        decreases size - i,
    {
        r.push(generator());
        i += 1;
    }
    r
}

/// One value of a column of scalar type `tag`. The types whose values are
/// floating-point numbers (`DECIMAL`, `PRICE`) take their text from `float_text`.
pub fn generate_cell<F: Fn(TypeTag) -> String>(tag: TypeTag, float_text: &F) -> (r: Cell)
    requires
        !is_bulk(tag),
        forall|t: TypeTag| float_text.requires((t,)),
    ensures
        scalar_ok(tag, r),
{
    match tag {
        TypeTag::String => Cell::Text(fake_string()),
        TypeTag::Int => Cell::Int(fake_int()),
        TypeTag::Digit => Cell::Text(fake_digit()),
        TypeTag::Decimal => Cell::Text(float_text(tag)),
        TypeTag::Date => Cell::Text(fake_date()),
        TypeTag::Time => Cell::Text(fake_time()),
        TypeTag::DateTime => Cell::Text(fake_date_time()),
        TypeTag::Name => Cell::Text(fake_name()),
        TypeTag::FirstName => Cell::Text(fake_first_name()),
        TypeTag::LastName => Cell::Text(fake_last_name()),
        TypeTag::ZipCode => Cell::Text(fake_zipcode()),
        TypeTag::CountryCode => Cell::Text(fake_country_code()),
        TypeTag::StateName => Cell::Text(fake_state_name()),
        TypeTag::StateAbbr => Cell::Text(fake_state_abbr()),
        TypeTag::Lat => Cell::Text(fake_lat()),
        TypeTag::Lon => Cell::Text(fake_lon()),
        TypeTag::Phone => Cell::Text(fake_phone()),
        TypeTag::Price => Cell::Text(float_text(tag)),
        TypeTag::Ssn => Cell::Text(fake_ssn()),
        TypeTag::LoremWord => Cell::Text(fake_lorem_word()),
        TypeTag::LoremTitle => Cell::Text(fake_lorem_title()),
        TypeTag::LoremSentence => Cell::Text(fake_lorem_sentence()),
        TypeTag::LoremParagraph => Cell::Text(fake_lorem_paragraph()),
        TypeTag::Uuid => Cell::Text(fake_uuid()),
        TypeTag::Value => Cell::Text(value_string()),
        _ => Cell::Text(unknown_string()),
    }
}

/// Integer cells holding `v`, in order.
fn int_column(v: Vec<i32>) -> (r: Vec<Cell>)
    ensures
        r@ == v@.map_values(|x: i32| Cell::Int(x)),
{
    let mut r: Vec<Cell> = Vec::new();
    let mut i: usize = 0;
    while i < v.len()
        invariant
            i <= v@.len(),
            r@ == v@.subrange(0, i as int).map_values(|x: i32| Cell::Int(x)),
        decreases v@.len() - i,
    {
        r.push(Cell::Int(v[i]));
        assert(v@.subrange(0, i + 1).map_values(|x: i32| Cell::Int(x)) =~= v@.subrange(
            0,
            i as int,
        ).map_values(|x: i32| Cell::Int(x)).push(Cell::Int(v@[i as int])));
        i += 1;
    }
    assert(v@.subrange(0, i as int) =~= v@);
    r
}

/// The lower bound of an `INT_RNG` modifier, or zero when it is missing or
/// malformed.
pub fn rng_start(modifier: &Option<String>) -> (r: i32)
    ensures
        r == range_start(match modifier {
            Some(m) => Some(m@),
            None => None,
        }),
{
    match modifier {
        Some(m) => match parse_range_string(m.as_str()) {
            Ok((lower, _upper)) => lower,
            Err(_) => 0,
        },
        None => 0,
    }
}

/// The cells of one column of `size` rows: `INT_INC` counts from zero,
/// `INT_RNG` from the lower bound of its modifier (zero when that is missing
/// or malformed), and every other type calls its generator once per row.
pub fn create_column<F: Fn(TypeTag) -> String>(element: &Schema, size: usize, float_text: &F) -> (r: Vec<Cell>)
    requires
        size <= i32::MAX,
        fits(element@, size as nat),
        forall|t: TypeTag| float_text.requires((t,)),
    ensures
        column_ok(element@, size as nat, r@),
{
    let tag = tag_of(element.datatype.as_str());
    match tag {
        TypeTag::IntInc => {
            let v = build_incremental_int(size as i32, 0, size as i32);
            let r = int_column(v);
            assert(r@ =~= int_cells(0, size as nat));
            r
        },
        TypeTag::IntRng => {
            let lower = rng_start(&element.modifier);
            let v = build_incremental_int(size as i32, lower, size as i32);
            let r = int_column(v);
            assert(r@ =~= int_cells(lower as int, size as nat));
            r
        },
        _ => {
            let g = || -> (c: Cell)
                requires
                    !is_bulk(tag),
                    forall|t: TypeTag| float_text.requires((t,)),
                ensures
                    scalar_ok(tag, c),
                { generate_cell(tag, float_text) };
            build_data_vector(size, g)
        },
    }
}

/// A table with one column per specification, in order, each of `size` rows.
pub fn build_table<F: Fn(TypeTag) -> String>(schema: &Vec<Schema>, size: usize, float_text: &F) -> (r: Table)
    requires
        size <= i32::MAX,
        forall|c: int| 0 <= c < schema@.len() ==> fits(#[trigger] schema@[c]@, size as nat),
        forall|t: TypeTag| float_text.requires((t,)),
    ensures
        built_from(spec_views(schema@), size as nat, &r),
        schema@.len() > 0 ==> r.spec_height() == size,
{
    let ghost specs = spec_views(schema@);
    let mut t = Table::new();
    let mut i: usize = 0;
    assert(names_view(t.names@) =~= specs.subrange(0, 0).map_values(|c: ColumnSpec| c.name));
    while i < schema.len()
        invariant
            size <= i32::MAX,
            forall|c: int| 0 <= c < schema@.len() ==> fits(#[trigger] schema@[c]@, size as nat),
            forall|t: TypeTag| float_text.requires((t,)),
            specs == spec_views(schema@),
            i <= schema@.len(),
            built_from(specs.subrange(0, i as int), size as nat, &t),
            i > 0 ==> t.spec_height() == size,
        decreases schema@.len() - i,
    {
        let col = create_column(&schema[i], size, float_text);
        let name = schema[i].name.clone();
        let ghost before = t;
        t.push_column(name, col);
        proof {
            let sub = specs.subrange(0, i + 1);
            assert(specs.subrange(0, i as int).map_values(|c: ColumnSpec| c.name).push(specs[i as int].name)
                =~= sub.map_values(|c: ColumnSpec| c.name));
            assert(names_view(t.names@) =~= names_view(before.names@).push(name@));
            assert forall|c: int| 0 <= c < sub.len() implies column_ok(sub[c], size as nat, #[trigger] t.column(c)) by {
                if c < i {
                    assert(sub[c] == specs.subrange(0, i as int)[c]);
                    assert(t.column(c) == before.column(c));
                }
            }
        }
        i += 1;
    }
    assert(specs.subrange(0, i as int) =~= specs);
    t
}

/// True when every `INT_RNG` column of `schema` can count `size` rows from its
/// lower bound without leaving the `i32` range.
pub fn fits_rows(schema: &Vec<Schema>, size: usize) -> (r: bool)
    ensures
        r == forall|c: int| 0 <= c < schema@.len() ==> fits(#[trigger] schema@[c]@, size as nat),
{
    let mut i: usize = 0;
    while i < schema.len()
        invariant
            i <= schema@.len(),
            forall|c: int| 0 <= c < i ==> fits(#[trigger] schema@[c]@, size as nat),
        decreases schema@.len() - i,
    {
        if tag_of(schema[i].datatype.as_str()) == TypeTag::IntRng {
            let lower = rng_start(&schema[i].modifier);
            if lower as i128 + size as i128 > 2147483648 {
                assert(!fits(schema@[i as int]@, size as nat));
                return false;
            }
        }
        assert(fits(schema@[i as int]@, size as nat));
        i += 1;
    }
    true
}

/// `pre` is what generation gives before any row is deleted: the generated
/// table, after the rows of `target` when there is one.
pub open spec fn combined_from(specs: Seq<ColumnSpec>, size: nat, target: Option<Table>, pre: &Table) -> bool {
    match target {
        None => built_from(specs, size, pre),
        Some(a) => exists|g: Table| built_from(specs, size, &g) && #[trigger] appended(&a, &g, pre),
    }
}

/// The names of the columns that `specs` describe.
pub open spec fn spec_names(specs: Seq<ColumnSpec>) -> Seq<Seq<char>> {
    specs.map_values(|c: ColumnSpec| c.name)
}

/// `r` is a result that generation may give for `specs`, `size` rows, an
/// optional table to append to and an optional delete target.
pub open spec fn generation_result(
    specs: Seq<ColumnSpec>,
    size: nat,
    target: Option<Table>,
    delete: Option<String>,
    r: Result<Table, DataError>,
) -> bool {
    let mismatch = target is Some && names_view(target->0.names@) != spec_names(specs);
    let bad_delete = delete is Some && delete_expr_spec(delete->0@) is None;
    if mismatch {
        r == Err::<Table, DataError>(DataError::AppendSchemaMismatch)
    } else if bad_delete {
        r == Err::<Table, DataError>(DataError::DeleteTargetParse)
    } else {
        &&& r is Ok
        &&& delete is None ==> combined_from(specs, size, target, &r->Ok_0)
        &&& delete is Some ==> exists|pre: Table, v: Seq<i32>|
            combined_from(specs, size, target, &pre) && resolved(
                delete_expr_spec(delete->0@)->0,
                size,
                v,
            ) && #[trigger] filtered(&pre, v, &r->Ok_0)
    }
}

/// Generates `size` rows for `schema`, then puts them after the rows of
/// `append_target` when there is one (whose column names must match), then
/// removes the rows that `delete_target` names, resolved for `size` rows.
pub fn create_dataframe<F: Fn(TypeTag) -> String>(
    schema: Vec<Schema>,
    size: usize,
    append_target: Option<Table>,
    delete_target: Option<String>,
    float_text: &F,
) -> (r: Result<Table, DataError>)
    requires
        size <= i32::MAX,
        forall|c: int| 0 <= c < schema@.len() ==> fits(#[trigger] schema@[c]@, size as nat),
        forall|t: TypeTag| float_text.requires((t,)),
        append_target matches Some(a) ==> a.wf(),
    ensures
        generation_result(spec_views(schema@), size as nat, append_target, delete_target, r),
{
    let ghost specs = spec_views(schema@);
    let generated = build_table(&schema, size, float_text);
    assert(names_view(generated.names@) == spec_names(specs));
    let combined = match append_target {
        Some(target) => match append(&target, &generated) {
            Ok(t) => {
                assert(combined_from(specs, size as nat, append_target, &t));
                t
            },
            Err(e) => {
                assert(names_view(target.names@) != spec_names(specs));
                return Err(e);
            },
        },
        None => generated,
    };
    assert(combined_from(specs, size as nat, append_target, &combined));
    match delete_target {
        Some(text) => {
            match parse_delete_target(text.as_str(), size) {
                Ok(indices) => {
                    let t = filter_by_index(&combined, &indices);
                    let r: Result<Table, DataError> = Ok(t);
                    assert(filtered(&combined, indices@, &r->Ok_0));
                    assert(exists|pre: Table, v: Seq<i32>|
                        combined_from(specs, size as nat, append_target, &pre) && resolved(
                            delete_expr_spec(delete_target->0@)->0,
                            size as nat,
                            v,
                        ) && #[trigger] filtered(&pre, v, &r->Ok_0));
                    r
                },
                Err(e) => Err(e),
            }
        },
        None => Ok(combined),
    }
}

/// The columns of the default schema, as specifications.
pub open spec fn default_specs() -> Seq<ColumnSpec> {
    seq![
        ColumnSpec { name: "col1"@, datatype: "VALUE"@, modifier: None },
        ColumnSpec { name: "col2"@, datatype: "VALUE"@, modifier: None },
        ColumnSpec { name: "col3"@, datatype: "VALUE"@, modifier: None },
        ColumnSpec { name: "col4"@, datatype: "VALUE"@, modifier: None },
    ]
}

/// The specifications that a schema text gives, or the default ones without text.
pub open spec fn chosen_specs(schema: Option<String>) -> Seq<ColumnSpec> {
    match schema {
        Some(s) => schema_spec(s@),
        None => default_specs(),
    }
}

/// Generates a table from a schema text (the default schema without one):
/// a text that describes no column is a `Schema` error; otherwise as
/// `create_dataframe`.
pub fn generate_table<F: Fn(TypeTag) -> String>(
    schema: Option<String>,
    rows: usize,
    append_target: Option<Table>,
    delete_target: Option<String>,
    float_text: &F,
) -> (r: Result<Table, DataError>)
    requires
        rows <= i32::MAX,
        forall|c: int|
            0 <= c < chosen_specs(schema).len() ==> fits(#[trigger] chosen_specs(schema)[c], rows as nat),
        forall|t: TypeTag| float_text.requires((t,)),
        append_target matches Some(a) ==> a.wf(),
    ensures
        chosen_specs(schema).len() == 0 ==> r == Err::<Table, DataError>(DataError::Schema),
        chosen_specs(schema).len() > 0 ==> generation_result(
            chosen_specs(schema),
            rows as nat,
            append_target,
            delete_target,
            r,
        ),
{
    let specs = match &schema {
        Some(s) => parse_schema(s.as_str()),
        None => default_schema(),
    };
    assert(spec_views(specs@) == chosen_specs(schema));
    if specs.len() == 0 {
        return Err(DataError::Schema);
    }
    assert forall|c: int| 0 <= c < specs@.len() implies fits(#[trigger] specs@[c]@, rows as nat) by {
        assert(spec_views(specs@)[c] == specs@[c]@);
    }
    create_dataframe(specs, rows, append_target, delete_target, float_text)
}

/// A built table has one column per parsed segment of the schema text, in
/// the order of the text, under the parsed names.
pub proof fn law_build_follows_schema(text: Seq<char>, size: nat, t: &Table)
    requires
        schema_spec(text).len() >= 1,
        built_from(schema_spec(text), size, t),
    ensures
        t.columns@.len() == schema_spec(text).len(),
        t.names@.len() == schema_spec(text).len(),
        forall|i: int| 0 <= i < t.names@.len() ==> #[trigger] t.names@[i]@ == schema_spec(text)[i].name,
{
    assert forall|i: int| 0 <= i < t.names@.len() implies #[trigger] t.names@[i]@ == schema_spec(text)[i].name by {
        assert(names_view(t.names@)[i] == t.names@[i]@);
        assert(spec_names(schema_spec(text))[i] == schema_spec(text)[i].name);
    }
}

/// Every column of a built table has exactly as many cells as rows were
/// asked for, whatever its type tag, the fallback among them.
pub proof fn law_build_column_lengths(specs: Seq<ColumnSpec>, size: nat, t: &Table)
    requires
        built_from(specs, size, t),
    ensures
        forall|c: int| 0 <= c < t.columns@.len() ==> #[trigger] t.column(c).len() == size,
        specs.len() > 0 ==> t.spec_height() == size,
{
    if specs.len() > 0 {
        assert(column_ok(specs[0], size, t.column(0)));
    }
    assert forall|c: int| 0 <= c < t.columns@.len() implies #[trigger] t.column(c).len() == size by {
        assert(column_ok(specs[c], size, t.column(c)));
    }
}

} // verus!
