//! Column specifications and the schema grammar
//! `col ("," col)* [","]`, where `col := name ":" type [":" modifier]`.

use vstd::prelude::*;
use vstd::string::*;
use crate::text::{chars_of, split_chars, split_on, string_of, strip_spaces, strip_spaces_of};

verus! {

/// A column to generate: its name, its type tag and an optional modifier.
#[derive(Clone, Debug)]
pub struct Schema {
    pub name: String,
    pub datatype: String,
    pub modifier: Option<String>,
}

/// What a `Schema` holds, as character sequences.
pub struct ColumnSpec {
    pub name: Seq<char>,
    pub datatype: Seq<char>,
    pub modifier: Option<Seq<char>>,
}

impl View for Schema {
    type V = ColumnSpec;

    open spec fn view(&self) -> ColumnSpec {
        ColumnSpec {
            name: self.name@,
            datatype: self.datatype@,
            modifier: match self.modifier {
                Some(m) => Some(m@),
                None => None,
            },
        }
    }
}

pub open spec fn spec_views(v: Seq<Schema>) -> Seq<ColumnSpec> {
    v.map_values(|c: Schema| c@)
}

pub open spec fn option_view(o: Option<Schema>) -> Option<ColumnSpec> {
    match o {
        Some(c) => Some(c@),
        None => None,
    }
}

/// One segment of a schema: whitespace removed, then split on `:`; two parts
/// give a column without modifier, three a column with one, and any other
/// count gives nothing.
pub open spec fn segment_spec(seg: Seq<char>) -> Option<ColumnSpec> {
    let parts = split_on(strip_spaces(seg), ':');
    if parts.len() == 2 {
        Some(ColumnSpec { name: parts[0], datatype: parts[1], modifier: None })
    } else if parts.len() == 3 {
        Some(ColumnSpec { name: parts[0], datatype: parts[1], modifier: Some(parts[2]) })
    } else {
        None
    }
}

/// `s` without one trailing comma, if it ends in one.
pub open spec fn trim_one_comma(s: Seq<char>) -> Seq<char> {
    if s.len() > 0 && s.last() == ',' {
        s.drop_last()
    } else {
        s
    }
}

/// The columns that the segments describe, in order, malformed ones left out.
pub open spec fn keep_specs(segs: Seq<Seq<char>>) -> Seq<ColumnSpec>
    decreases segs.len(),
{
    if segs.len() == 0 {
        Seq::empty()
    } else {
        let prev = keep_specs(segs.drop_last());
        match segment_spec(segs.last()) {
            Some(c) => prev.push(c),
            None => prev,
        }
    }
}

/// The columns that a schema text describes.
pub open spec fn schema_spec(text: Seq<char>) -> Seq<ColumnSpec> {
    keep_specs(split_on(trim_one_comma(text), ','))
}

/// The column that one segment describes, if it is well formed.
fn column_of_chars(seg: &Vec<char>) -> (r: Option<Schema>)
    ensures
        option_view(r) == segment_spec(seg@),
{
    let stripped = strip_spaces_of(seg);
    let parts = split_chars(&stripped, stripped.len(), ':');
    assert(stripped@.subrange(0, stripped@.len() as int) =~= stripped@);
    if parts.len() == 2 || parts.len() == 3 {
        let name = string_of(&parts[0], 0, parts[0].len());
        let datatype = string_of(&parts[1], 0, parts[1].len());
        assert(parts[0]@.subrange(0, parts[0]@.len() as int) =~= parts[0]@);
        assert(parts[1]@.subrange(0, parts[1]@.len() as int) =~= parts[1]@);
        let modifier = if parts.len() == 3 {
            assert(parts[2]@.subrange(0, parts[2]@.len() as int) =~= parts[2]@);
            Some(string_of(&parts[2], 0, parts[2].len()))
        } else {
            None
        };
        Some(Schema { name, datatype, modifier })
    } else {
        None
    }
}

impl Schema {
    /// The column that one schema segment describes: `name:type` or
    /// `name:type:modifier`, whitespace ignored; `None` for any other shape.
    pub fn from_string(input: &str) -> (r: Option<Schema>)
        ensures
            option_view(r) == segment_spec(input@),
    {
        let v = chars_of(input);
        column_of_chars(&v)
    }
}

/// The columns that a schema text describes, in order. One trailing comma is
/// ignored; segments of the wrong shape are left out.
pub fn parse_schema(input: &str) -> (r: Vec<Schema>)
    ensures
        spec_views(r@) == schema_spec(input@),
{
    let v = chars_of(input);
    let n = v.len();
    let end = if n > 0 && v[n - 1] == ',' { n - 1 } else { n };
    assert(v@.subrange(0, end as int) =~= trim_one_comma(input@));
    let segs = split_chars(&v, end, ',');
    let ghost all = split_on(trim_one_comma(input@), ',');
    let mut r: Vec<Schema> = Vec::new();
    let mut i: usize = 0;
    while i < segs.len()
        invariant
            segs@.len() == all.len(),
            forall|k: int| 0 <= k < segs@.len() ==> #[trigger] segs@[k]@ == all[k],
            i <= segs@.len(),
            spec_views(r@) == keep_specs(all.subrange(0, i as int)),
        decreases segs@.len() - i,
    {
        let c = column_of_chars(&segs[i]);
        let ghost pre = all.subrange(0, i as int);
        assert(all.subrange(0, i + 1).drop_last() =~= pre);
        assert(all.subrange(0, i + 1).last() == all[i as int]);
        match c {
            Some(col) => {
                let ghost before = r@;
                r.push(col);
                assert(spec_views(r@) =~= spec_views(before).push(col@));
            },
            None => {},
        }
        i += 1;
    }
    assert(all.subrange(0, i as int) =~= all);
    r
}

/// Four columns `col1` to `col4`, each of type `VALUE`, without modifier.
pub fn default_schema() -> (r: Vec<Schema>)
    ensures
        spec_views(r@) == seq![
            ColumnSpec { name: "col1"@, datatype: "VALUE"@, modifier: None },
            ColumnSpec { name: "col2"@, datatype: "VALUE"@, modifier: None },
            ColumnSpec { name: "col3"@, datatype: "VALUE"@, modifier: None },
            ColumnSpec { name: "col4"@, datatype: "VALUE"@, modifier: None },
        ],
{
    let r = vec![
        Schema { name: String::from_str("col1"), datatype: String::from_str("VALUE"), modifier: None },
        Schema { name: String::from_str("col2"), datatype: String::from_str("VALUE"), modifier: None },
        Schema { name: String::from_str("col3"), datatype: String::from_str("VALUE"), modifier: None },
        Schema { name: String::from_str("col4"), datatype: String::from_str("VALUE"), modifier: None },
    ];
    assert(spec_views(r@) =~= seq![
        ColumnSpec { name: "col1"@, datatype: "VALUE"@, modifier: None },
        ColumnSpec { name: "col2"@, datatype: "VALUE"@, modifier: None },
        ColumnSpec { name: "col3"@, datatype: "VALUE"@, modifier: None },
        ColumnSpec { name: "col4"@, datatype: "VALUE"@, modifier: None },
    ]);
    r
}

} // verus!
