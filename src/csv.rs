//! Delimited text for a table: an optional header line of column names, then
//! one line per row, fields separated by a delimiter character.

use vstd::prelude::*;
use vstd::string::StringExecFns;
use crate::dataframe::{build_table, built_from, column_ok, fits, scalar_ok};
use crate::registry::{lemma_value_tag, tag_spec, TypeTag};
use crate::schema::{spec_views, ColumnSpec, Schema};
use crate::table::{names_view, Cell, Table};
use crate::text::{join_parts, joined, string_of};

verus! {

/// What to write: the columns, how many rows, the delimiter and whether the
/// header line is left out.
pub struct CSVContext {
    pub rows: usize,
    pub delimiter: char,
    pub remove_header: bool,
    pub columns: Vec<Schema>,
}

/// The decimal digits of `n`, most significant first.
pub open spec fn nat_text(n: nat) -> Seq<char>
    decreases n,
{
    if n < 10 {
        seq![(('0' as u32) + n) as char]
    } else {
        nat_text(n / 10).push((('0' as u32) + (n % 10)) as char)
    }
}

/// `v` in decimal, with a leading `-` when negative.
pub open spec fn int_text(v: int) -> Seq<char> {
    if v < 0 {
        seq!['-'] + nat_text((-v) as nat)
    } else {
        nat_text(v as nat)
    }
}

/// The text of one cell.
pub open spec fn cell_text(c: Cell) -> Seq<char> {
    match c {
        Cell::Int(v) => int_text(v as int),
        Cell::Text(s) => s@,
    }
}

/// One line: the fields joined by the delimiter, then a line feed.
pub open spec fn csv_line(fields: Seq<Seq<char>>, d: char) -> Seq<char> {
    joined(fields, seq![d]) + seq!['\n']
}

/// The fields of row `i` of `t`.
pub open spec fn row_fields(t: &Table, i: int) -> Seq<Seq<char>> {
    Seq::new(t.columns@.len(), |c: int| cell_text(t.column(c)[i]))
}

/// The lines of the first `n` rows of `t`.
pub open spec fn rows_text(t: &Table, d: char, n: nat) -> Seq<char>
    decreases n,
{
    if n == 0 {
        Seq::empty()
    } else {
        rows_text(t, d, (n - 1) as nat) + csv_line(row_fields(t, n - 1), d)
    }
}

/// The text of `t`: the header line when asked for, then every row.
pub open spec fn csv_text(t: &Table, d: char, header: bool) -> Seq<char> {
    (if header {
        csv_line(names_view(t.names@), d)
    } else {
        Seq::empty()
    }) + rows_text(t, d, t.spec_height())
}

fn digits_of(n: u32) -> (r: Vec<char>)
    ensures
        r@ == nat_text(n as nat),
    decreases n,
{
    if n < 10 {
        vec![(48u8 + n as u8) as char]
    } else {
        let mut r = digits_of(n / 10);
        r.push((48u8 + (n % 10) as u8) as char);
        r
    }
}

/// `v` in decimal.
pub fn int_to_text(v: i32) -> (r: String)
    ensures
        r@ == int_text(v as int),
{
    if v < 0 {
        let mut d: Vec<char> = vec!['-'];
        let mut digits = digits_of((0 - (v as i64)) as u32);
        d.append(&mut digits);
        string_of(&d, 0, d.len())
    } else {
        let d = digits_of(v as u32);
        string_of(&d, 0, d.len())
    }
}

/// The text of one cell.
pub fn cell_to_text(c: &Cell) -> (r: String)
    ensures
        r@ == cell_text(*c),
{
    match c {
        Cell::Int(v) => int_to_text(*v),
        Cell::Text(s) => s.clone(),
    }
}

/// Appends one line: `fields` joined by `d`, then a line feed.
fn push_line(out: &mut String, fields: &Vec<String>, d: char)
    ensures
        final(out)@ == old(out)@ + csv_line(fields@.map_values(|s: String| s@), d),
{
    let dv: Vec<char> = vec![d];
    let sep = string_of(&dv, 0, 1);
    let line = join_parts(fields, sep.as_str());
    out.append(line.as_str());
    out.append("\n");
    proof {
        reveal_strlit("\n");
        assert("\n"@ =~= seq!['\n']);
        assert(dv@.subrange(0, 1) =~= seq![d]);
    }
    assert(final(out)@ =~= old(out)@ + csv_line(fields@.map_values(|s: String| s@), d));
}

/// The text of `table`: the header line when `header` holds, then one line
/// per row, fields separated by `delimiter`.
pub fn format_csv(table: &Table, delimiter: char, header: bool) -> (r: String)
    requires
        table.wf(),
    ensures
        r@ == csv_text(table, delimiter, header),
{
    let mut out = String::new();
    if header {
        push_line(&mut out, &table.names, delimiter);
    }
    assert(out@ =~= (if header {
        csv_line(names_view(table.names@), delimiter)
    } else {
        Seq::empty()
    }));
    let ghost start = out@;
    let h = table.height();
    let w = table.width();
    let mut i: usize = 0;
    while i < h
        invariant
            table.wf(),
            h == table.spec_height(),
            w == table.columns@.len(),
            i <= h,
            out@ == start + rows_text(table, delimiter, i as nat),
        decreases h - i,
    {
        let mut fields: Vec<String> = Vec::new();
        let mut c: usize = 0;
        while c < w
            invariant
                table.wf(),
                h == table.spec_height(),
                w == table.columns@.len(),
                i < h,
                c <= w,
                fields@.len() == c,
                forall|k: int| 0 <= k < c ==> #[trigger] fields@[k]@ == cell_text(table.column(k)[i as int]),
            decreases w - c,
        {
            assert(table.columns@[c as int]@.len() == h);
            fields.push(cell_to_text(&table.columns[c][i]));
            c += 1;
        }
        assert(fields@.map_values(|s: String| s@) =~= row_fields(table, i as int));
        push_line(&mut out, &fields, delimiter);
        assert(out@ =~= start + rows_text(table, delimiter, (i + 1) as nat));
        i += 1;
    }
    out
}

/// A context for the given columns.
pub fn create_schema_csv_context(
    schema: Vec<Schema>,
    rows: usize,
    delimiter: char,
    remove_header: bool,
) -> (r: CSVContext)
    ensures
        r.rows == rows,
        r.delimiter == delimiter,
        r.remove_header == remove_header,
        r.columns@ == schema@,
{
    CSVContext { rows, delimiter, remove_header, columns: schema }
}

/// The default columns: `col0` to `col4`, each of type `VALUE`.
pub open spec fn default_csv_specs() -> Seq<ColumnSpec> {
    seq![
        ColumnSpec { name: "col0"@, datatype: "VALUE"@, modifier: None },
        ColumnSpec { name: "col1"@, datatype: "VALUE"@, modifier: None },
        ColumnSpec { name: "col2"@, datatype: "VALUE"@, modifier: None },
        ColumnSpec { name: "col3"@, datatype: "VALUE"@, modifier: None },
        ColumnSpec { name: "col4"@, datatype: "VALUE"@, modifier: None },
    ]
}

/// A context with the default columns.
pub fn create_default_csv_context(rows: usize, delimiter: char, remove_header: bool) -> (r: CSVContext)
    ensures
        r.rows == rows,
        r.delimiter == delimiter,
        r.remove_header == remove_header,
        spec_views(r.columns@) == default_csv_specs(),
{
    let columns = vec![
        Schema { name: String::from_str("col0"), datatype: String::from_str("VALUE"), modifier: None },
        Schema { name: String::from_str("col1"), datatype: String::from_str("VALUE"), modifier: None },
        Schema { name: String::from_str("col2"), datatype: String::from_str("VALUE"), modifier: None },
        Schema { name: String::from_str("col3"), datatype: String::from_str("VALUE"), modifier: None },
        Schema { name: String::from_str("col4"), datatype: String::from_str("VALUE"), modifier: None },
    ];
    assert(spec_views(columns@) =~= default_csv_specs());
    CSVContext { rows, delimiter, remove_header, columns }
}

/// The text that `ctx` describes, with freshly generated rows; floating-point
/// values take their text from `float_text`.
pub fn render_csv<F: Fn(TypeTag) -> String>(ctx: &CSVContext, float_text: &F) -> (r: String)
    requires
        ctx.rows <= i32::MAX,
        forall|c: int| 0 <= c < ctx.columns@.len() ==> fits(#[trigger] ctx.columns@[c]@, ctx.rows as nat),
        forall|t: TypeTag| float_text.requires((t,)),
    ensures
        exists|t: Table|
            #[trigger] built_from(spec_views(ctx.columns@), ctx.rows as nat, &t) && r@ == csv_text(
                &t,
                ctx.delimiter,
                !ctx.remove_header,
            ),
{
    let t = build_table(&ctx.columns, ctx.rows, float_text);
    let r = format_csv(&t, ctx.delimiter, !ctx.remove_header);
    assert(built_from(spec_views(ctx.columns@), ctx.rows as nat, &t));
    r
}

/// `n` copies of `line`, one after another.
pub open spec fn repeat_line(line: Seq<char>, n: nat) -> Seq<char>
    decreases n,
{
    if n == 0 {
        Seq::empty()
    } else {
        repeat_line(line, (n - 1) as nat) + line
    }
}

/// The text of `rows` rows of the default columns: the header `col0` to
/// `col4` when asked for, then `rows` lines of five `value` fields.
pub open spec fn default_csv_text(rows: nat, d: char, header: bool) -> Seq<char> {
    (if header {
        csv_line(seq!["col0"@, "col1"@, "col2"@, "col3"@, "col4"@], d)
    } else {
        Seq::empty()
    }) + repeat_line(csv_line(Seq::new(5, |c: int| "value"@), d), rows)
}

/// Rows whose fields are all the same give the same line each.
proof fn lemma_rows_repeat(t: &Table, d: char, n: nat, fields: Seq<Seq<char>>)
    requires
        forall|i: int| 0 <= i < n ==> #[trigger] row_fields(t, i) == fields,
    ensures
        rows_text(t, d, n) == repeat_line(csv_line(fields, d), n),
    decreases n,
{
    if n > 0 {
        lemma_rows_repeat(t, d, (n - 1) as nat, fields);
        assert(row_fields(t, n - 1) == fields);
    }
}

/// Any table of the default columns has the default text.
proof fn lemma_default_text(t: &Table, rows: nat, d: char, header: bool)
    requires
        built_from(default_csv_specs(), rows, t),
    ensures
        csv_text(t, d, header) == default_csv_text(rows, d, header),
{
    lemma_value_tag();
    let specs = default_csv_specs();
    let value_fields = Seq::new(5, |c: int| "value"@);
    assert forall|i: int| 0 <= i < rows implies #[trigger] row_fields(t, i) == value_fields by {
        assert forall|c: int| 0 <= c < 5 implies cell_text(t.column(c)[i]) == "value"@ by {
            assert(specs[c].datatype == "VALUE"@) by {
                if c == 0 {
                } else if c == 1 {
                } else if c == 2 {
                } else if c == 3 {
                } else {
                }
            }
            assert(column_ok(specs[c], rows, t.column(c)));
            assert(scalar_ok(TypeTag::Value, t.column(c)[i]));
        }
        assert(row_fields(t, i) =~= value_fields);
    }
    lemma_rows_repeat(t, d, rows, value_fields);
    assert(column_ok(specs[0], rows, t.column(0)));
    assert(names_view(t.names@) =~= seq!["col0"@, "col1"@, "col2"@, "col3"@, "col4"@]) by {
        assert(names_view(t.names@) == specs.map_values(|c: ColumnSpec| c.name));
    }
}

/// The text of `rows` rows of the default columns.
pub fn create_default_csv(rows: usize, delimiter: char, remove_header: bool) -> (r: String)
    requires
        rows <= i32::MAX,
    ensures
        r@ == default_csv_text(rows as nat, delimiter, !remove_header),
{
    let ctx = create_default_csv_context(rows, delimiter, remove_header);
    let no_floats = |_t: TypeTag| -> (s: String) { String::new() };
    assert forall|c: int| 0 <= c < ctx.columns@.len() implies fits(#[trigger] ctx.columns@[c]@, rows as nat) by {
        assert(spec_views(ctx.columns@)[c] == ctx.columns@[c]@);
        assert(spec_views(ctx.columns@).len() == ctx.columns@.len());
        assert(default_csv_specs().len() == 5);
        assert(0 <= c < 5);
        assert(default_csv_specs()[c].datatype == "VALUE"@) by {
            if c == 0 {
            } else if c == 1 {
            } else if c == 2 {
            } else if c == 3 {
            } else {
            }
        }
        lemma_value_tag();
    }
    let t = build_table(&ctx.columns, rows, &no_floats);
    let r = format_csv(&t, delimiter, !remove_header);
    proof {
        lemma_default_text(&t, rows as nat, delimiter, !remove_header);
    }
    r
}

} // verus!
