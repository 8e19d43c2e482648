//! Data-model declarations as text: rendering one from a table's columns, and
//! scanning one back into its list of fields.
use vstd::prelude::*;
use crate::casing::{pascal_of, pascal_scan, snake_of, snake_scan, to_pascal_case, to_snake_case};
use crate::error::SchemaError;
use crate::models::{fields_view, DeclaredField, FieldView, TableColumn};
use crate::text::{chars_of, is_space, is_space_char, push_char, same_text, string_of_range, trim};
use crate::types::{convert_data_type, lemma_declared_name_shape, native_kind, to_declared};

verus! {

/// The lines of `s`: the text between line breaks, the last one possibly empty.
pub open spec fn split_lines(s: Seq<char>) -> Seq<Seq<char>>
    decreases s.len(),
{
    if s.len() == 0 {
        seq![Seq::empty()]
    } else {
        let ls = split_lines(s.drop_last());
        if s.last() == '\n' {
            ls.push(Seq::empty())
        } else {
            ls.update(ls.len() - 1, ls.last().push(s.last()))
        }
    }
}

/// The position of the first `c` in `s`.
pub open spec fn first_index(s: Seq<char>, c: char) -> Option<int>
    decreases s.len(),
{
    if s.len() == 0 {
        None
    } else {
        match first_index(s.drop_last(), c) {
            Some(i) => Some(i),
            None => if s.last() == c {
                Some(s.len() - 1)
            } else {
                None
            },
        }
    }
}

pub open spec fn starts_with_pub(t: Seq<char>) -> bool {
    t.len() >= 3 && t[0] == 'p' && t[1] == 'u' && t[2] == 'b'
}

/// `t` has the shape `Option<...>`.
pub open spec fn is_option_wrapped(t: Seq<char>) -> bool {
    t.len() >= 8 && t.subrange(0, 7) == seq!['O', 'p', 't', 'i', 'o', 'n', '<'] && t.last() == '>'
}

/// `t` without one trailing comma.
pub open spec fn strip_comma(t: Seq<char>) -> Seq<char> {
    if t.len() > 0 && t.last() == ',' {
        t.drop_last()
    } else {
        t
    }
}

/// The field that one line declares: after trimming, the line starts with
/// `pub`; the name runs from there to the first colon, the type from the colon
/// to an optional trailing comma; a type `Option<T>` makes a nullable field of
/// type `T`.
pub open spec fn parse_field_line(l: Seq<char>) -> Option<FieldView> {
    let t = trim(l);
    if !starts_with_pub(t) {
        None
    } else {
        match first_index(t, ':') {
            None => None,
            Some(i) => {
                let name = trim(t.subrange(3, i));
                let ty = trim(strip_comma(trim(t.subrange(i + 1, t.len() as int))));
                if is_option_wrapped(ty) {
                    Some(
                        FieldView {
                            name,
                            declared_type: ty.subrange(7, ty.len() - 1),
                            is_nullable: true,
                        },
                    )
                } else {
                    Some(FieldView { name, declared_type: ty, is_nullable: false })
                }
            },
        }
    }
}

pub open spec fn fields_of_lines(ls: Seq<Seq<char>>) -> Seq<FieldView>
    decreases ls.len(),
{
    if ls.len() == 0 {
        Seq::empty()
    } else {
        fields_of_lines(ls.drop_last()) + match parse_field_line(ls.last()) {
            Some(f) => seq![f],
            None => Seq::empty(),
        }
    }
}

/// The fields that a declaration text declares, in order.
pub open spec fn parse_declaration(s: Seq<char>) -> Seq<FieldView> {
    fields_of_lines(split_lines(s))
}

pub proof fn lemma_first_index(s: Seq<char>, c: char)
    ensures
        match first_index(s, c) {
            Some(i) => 0 <= i < s.len() && s[i] == c && forall|j: int| 0 <= j < i ==> s[j] != c,
            None => forall|j: int| 0 <= j < s.len() ==> s[j] != c,
        },
    decreases s.len(),
{
    if s.len() > 0 {
        let p = s.drop_last();
        lemma_first_index(p, c);
        assert forall|j: int| 0 <= j < p.len() implies p[j] == s[j] by {}
    }
}

proof fn lemma_split_lines_nonempty(s: Seq<char>)
    ensures
        split_lines(s).len() >= 1,
    decreases s.len(),
{
    if s.len() > 0 {
        lemma_split_lines_nonempty(s.drop_last());
    }
}

/// Bounds of `v[lo..hi]` with whitespace trimmed at both ends.
fn trim_bounds(v: &Vec<char>, lo: usize, hi: usize) -> (r: (usize, usize))
    requires
        lo <= hi <= v@.len(),
    ensures
        lo <= r.0 <= r.1 <= hi,
        v@.subrange(r.0 as int, r.1 as int) == trim(v@.subrange(lo as int, hi as int)),
{
    let mut a = lo;
    while a < hi && is_space_char(v[a])
        invariant
            lo <= a <= hi <= v@.len(),
            crate::text::trim_start(v@.subrange(lo as int, hi as int))
                == crate::text::trim_start(v@.subrange(a as int, hi as int)),
        decreases hi - a,
    {
        assert(v@.subrange(a as int, hi as int).subrange(1, (hi - a) as int) =~= v@.subrange(
            a + 1,
            hi as int,
        ));
        a = a + 1;
    }
    let mut b = hi;
    while b > a && is_space_char(v[b - 1])
        invariant
            lo <= a <= b <= hi <= v@.len(),
            crate::text::trim_end(v@.subrange(a as int, hi as int))
                == crate::text::trim_end(v@.subrange(a as int, b as int)),
        decreases b - a,
    {
        assert(v@.subrange(a as int, b as int).drop_last() =~= v@.subrange(a as int, b - 1));
        b = b - 1;
    }
    (a, b)
}

/// The position of the first colon in `v[lo..hi]`, counted from `lo`.
fn find_colon(v: &Vec<char>, lo: usize, hi: usize) -> (r: Option<usize>)
    requires
        lo <= hi <= v@.len(),
    ensures
        match r {
            Some(i) => first_index(v@.subrange(lo as int, hi as int), ':') == Some(i as int),
            None => first_index(v@.subrange(lo as int, hi as int), ':') is None,
        },
{
    let mut found: Option<usize> = None;
    let mut j: usize = lo;
    while j < hi
        invariant
            lo <= j <= hi <= v@.len(),
            match found {
                Some(i) => first_index(v@.subrange(lo as int, j as int), ':') == Some(i as int),
                None => first_index(v@.subrange(lo as int, j as int), ':') is None,
            },
        decreases hi - j,
    {
        assert(v@.subrange(lo as int, j + 1).drop_last() =~= v@.subrange(lo as int, j as int));
        if found.is_none() && v[j] == ':' {
            found = Some(j - lo);
        }
        j = j + 1;
    }
    found
}

/// The field that the line `v[lo..hi]` declares, if any.
fn parse_line(v: &Vec<char>, lo: usize, hi: usize) -> (r: Option<DeclaredField>)
    requires
        lo <= hi <= v@.len(),
    ensures
        match r {
            Some(f) => parse_field_line(v@.subrange(lo as int, hi as int)) == Some(f@),
            None => parse_field_line(v@.subrange(lo as int, hi as int)) is None,
        },
{
    let ghost l = v@.subrange(lo as int, hi as int);
    let (a, b) = trim_bounds(v, lo, hi);
    let ghost t = v@.subrange(a as int, b as int);
    if !(b - a >= 3 && v[a] == 'p' && v[a + 1] == 'u' && v[a + 2] == 'b') {
        return None;
    }
    let colon = match find_colon(v, a, b) {
        Some(i) => i,
        None => {
            return None;
        },
    };
    proof {
        lemma_first_index(t, ':');
    }
    assert(colon >= 3);
    let (na, nb) = trim_bounds(v, a + 3, a + colon);
    assert(t.subrange(3, colon as int) =~= v@.subrange(a + 3, a + colon));
    assert(t.subrange(colon + 1, t.len() as int) =~= v@.subrange(a + colon + 1, b as int));
    let (c, mut d) = trim_bounds(v, a + colon + 1, b);
    if d > c && v[d - 1] == ',' {
        assert(v@.subrange(c as int, d as int).drop_last() =~= v@.subrange(c as int, d - 1));
        d = d - 1;
    }
    let (e, f) = trim_bounds(v, c, d);
    let ghost ty = v@.subrange(e as int, f as int);
    let name = string_of_range(v, na, nb);
    if f - e >= 8 && v[e] == 'O' && v[e + 1] == 'p' && v[e + 2] == 't' && v[e + 3] == 'i' && v[e
        + 4] == 'o' && v[e + 5] == 'n' && v[e + 6] == '<' && v[f - 1] == '>' {
        assert(ty.subrange(0, 7) =~= seq!['O', 'p', 't', 'i', 'o', 'n', '<']);
        assert(ty.subrange(7, ty.len() - 1) =~= v@.subrange(e + 7, f - 1));
        let declared_type = string_of_range(v, e + 7, f - 1);
        Some(DeclaredField { name, declared_type, is_nullable: true })
    } else {
        assert(!is_option_wrapped(ty)) by {
            if is_option_wrapped(ty) {
                assert(ty.subrange(0, 7)[0] == 'O');
                assert(ty.subrange(0, 7)[6] == '<');
                assert(ty.subrange(0, 7)[1] == 'p');
                assert(ty.subrange(0, 7)[2] == 't');
                assert(ty.subrange(0, 7)[3] == 'i');
                assert(ty.subrange(0, 7)[4] == 'o');
                assert(ty.subrange(0, 7)[5] == 'n');
            }
        }
        let declared_type = string_of_range(v, e, f);
        Some(DeclaredField { name, declared_type, is_nullable: false })
    }
}

/// Scans a declaration text for its field lines: each line that, trimmed,
/// starts with `pub` and holds a colon declares one field (see
/// [`parse_field_line`]); other lines are skipped.
pub fn parse_struct_fields(struct_code: &str) -> (r: Vec<DeclaredField>)
    ensures
        fields_view(r@) == parse_declaration(struct_code@),
{
    let v = chars_of(struct_code);
    let ghost s = struct_code@;
    let mut fields: Vec<DeclaredField> = Vec::new();
    let mut start: usize = 0;
    let mut i: usize = 0;
    proof {
        lemma_split_lines_nonempty(s.subrange(0, 0));
        assert(s.subrange(0, 0) =~= Seq::<char>::empty());
    }
    while i < v.len()
        invariant
            v@ == s,
            start <= i <= v@.len(),
            split_lines(s.subrange(0, i as int)).len() >= 1,
            fields_view(fields@) == fields_of_lines(split_lines(s.subrange(0, i as int)).drop_last()),
            split_lines(s.subrange(0, i as int)).last() == s.subrange(start as int, i as int),
        decreases v.len() - i,
    {
        let ghost ls = split_lines(s.subrange(0, i as int));
        assert(s.subrange(0, i + 1).drop_last() =~= s.subrange(0, i as int));
        if v[i] == '\n' {
            let parsed = parse_line(&v, start, i);
            let ghost before = fields_view(fields@);
            match parsed {
                Some(f) => {
                    fields.push(f);
                    assert(fields_view(fields@) =~= before + seq![f@]);
                },
                None => {
                    assert(fields_view(fields@) =~= before + Seq::<FieldView>::empty());
                },
            }
            assert(split_lines(s.subrange(0, i + 1)).drop_last() =~= ls);
            start = i + 1;
            assert(s.subrange(start as int, i + 1) =~= Seq::<char>::empty());
        } else {
            assert(split_lines(s.subrange(0, i + 1)).drop_last() =~= ls.drop_last());
            assert(s.subrange(start as int, i + 1) =~= s.subrange(start as int, i as int).push(v@[i as int]));
        }
        i = i + 1;
    }
    assert(s.subrange(0, i as int) =~= s);
    let ghost ls = split_lines(s);
    let parsed = parse_line(&v, start, i);
    let ghost before = fields_view(fields@);
    match parsed {
        Some(f) => {
            fields.push(f);
            assert(fields_view(fields@) =~= before + seq![f@]);
        },
        None => {
            assert(fields_view(fields@) =~= before + Seq::<FieldView>::empty());
        },
    }
    fields
}

/// How a field's type is written: `Option<T>` when nullable.
pub open spec fn type_text(declared: Seq<char>, nullable: bool) -> Seq<char> {
    if nullable {
        "Option<"@ + declared + ">"@
    } else {
        declared
    }
}

pub open spec fn field_line(name: Seq<char>, ty: Seq<char>) -> Seq<char> {
    " pub "@ + name + ": "@ + ty + ","@
}

/// The field line rendered for a column: only a column of `table` whose type
/// is supported gets one.
pub open spec fn column_line(table: Seq<char>, c: TableColumn) -> Option<Seq<char>> {
    if c.table_name@ == table && to_declared(c.udt_name@) is Some {
        Some(
            field_line(
                snake_of(c.column_name@),
                type_text(to_declared(c.udt_name@)->0, c.is_nullable),
            ),
        )
    } else {
        None
    }
}

pub open spec fn body_lines(table: Seq<char>, rows: Seq<TableColumn>) -> Seq<Seq<char>>
    decreases rows.len(),
{
    if rows.len() == 0 {
        Seq::empty()
    } else {
        body_lines(table, rows.drop_last()) + match column_line(table, rows.last()) {
            Some(l) => seq![l],
            None => Seq::empty(),
        }
    }
}

pub open spec fn header_lines(table: Seq<char>) -> Seq<Seq<char>> {
    seq!["#[derive(sqlx::FromRow)]"@, "pub struct "@ + pascal_of(table) + " {"@]
}

pub open spec fn declaration_lines(table: Seq<char>, rows: Seq<TableColumn>) -> Seq<Seq<char>> {
    header_lines(table) + body_lines(table, rows) + seq!["}"@]
}

/// Each line followed by a line break.
pub open spec fn join_lines(ls: Seq<Seq<char>>) -> Seq<char>
    decreases ls.len(),
{
    if ls.len() == 0 {
        Seq::empty()
    } else {
        join_lines(ls.drop_last()) + ls.last().push('\n')
    }
}

/// The declaration text rendered for `table` from the columns in `rows`.
pub open spec fn render_declaration(table: Seq<char>, rows: Seq<TableColumn>) -> Seq<char> {
    join_lines(declaration_lines(table, rows))
}

proof fn lemma_join_push(ls: Seq<Seq<char>>, l: Seq<char>)
    ensures
        join_lines(ls.push(l)) == join_lines(ls) + l.push('\n'),
{
    assert(ls.push(l).drop_last() =~= ls);
}

/// Appends `line` and a line break to `out`.
fn push_line(out: &mut String, line: &str)
    ensures
        final(out)@ == old(out)@ + line@.push('\n'),
{
    out.append(line);
    push_char(out, '\n');
    assert(final(out)@ =~= old(out)@ + line@.push('\n'));
}

/// The type names of the columns of `table` in `rows` whose type is
/// unsupported, in order.
pub open spec fn unsupported_types(table: Seq<char>, rows: Seq<TableColumn>) -> Seq<Seq<char>>
    decreases rows.len(),
{
    if rows.len() == 0 {
        Seq::empty()
    } else {
        unsupported_types(table, rows.drop_last()) + if rows.last().table_name@ == table
            && to_declared(rows.last().udt_name@) is None {
            seq![rows.last().udt_name@]
        } else {
            Seq::empty()
        }
    }
}

/// `errors` reports, one for one and in order, the unsupported type `names`.
pub open spec fn reports_unsupported(errors: Seq<SchemaError>, names: Seq<Seq<char>>) -> bool {
    errors.len() == names.len() && forall|k: int|
        0 <= k < errors.len() ==> (#[trigger] errors[k]).is_unsupported(names[k])
}

/// Renders the declaration of `table_name` from the columns in `rows` that
/// belong to it: one `pub` field per column whose type is supported, named in
/// snake_case, typed `Option<T>` where the column is nullable. A column of an
/// unsupported type is left out of the text, and its `UnsupportedType` error
/// is returned beside it.
pub fn generate_struct_code(table_name: &str, rows: &Vec<TableColumn>) -> (r: (
    String,
    Vec<SchemaError>,
))
    ensures
        r.0@ == render_declaration(table_name@, rows@),
        reports_unsupported(r.1@, unsupported_types(table_name@, rows@)),
{
    let mut skipped: Vec<SchemaError> = Vec::new();
    let ghost table = table_name@;
    let struct_name = to_pascal_case(table_name);
    let mut struct_code = String::new();
    push_line(&mut struct_code, "#[derive(sqlx::FromRow)]");
    let mut head = String::from_str("pub struct ");
    head.append(struct_name.as_str());
    head.append(" {");
    push_line(&mut struct_code, head.as_str());
    proof {
        lemma_join_push(Seq::empty(), "#[derive(sqlx::FromRow)]"@);
        lemma_join_push(seq!["#[derive(sqlx::FromRow)]"@], head@);
        assert(Seq::<Seq<char>>::empty().push("#[derive(sqlx::FromRow)]"@) =~= seq![
            "#[derive(sqlx::FromRow)]"@,
        ]);
        assert(seq!["#[derive(sqlx::FromRow)]"@].push(head@) =~= header_lines(table));
        assert(header_lines(table) + body_lines(table, rows@.subrange(0, 0)) =~= header_lines(
            table,
        ));
    }
    let mut i: usize = 0;
    while i < rows.len()
        invariant
            i <= rows@.len(),
            table == table_name@,
            struct_code@ == join_lines(header_lines(table) + body_lines(table, rows@.subrange(0, i as int))),
            reports_unsupported(skipped@, unsupported_types(table, rows@.subrange(0, i as int))),
        decreases rows.len() - i,
    {
        let ghost names = unsupported_types(table, rows@.subrange(0, i as int));
        let row = &rows[i];
        let ghost done = header_lines(table) + body_lines(table, rows@.subrange(0, i as int));
        assert(rows@.subrange(0, i + 1).drop_last() =~= rows@.subrange(0, i as int));
        if same_text(row.table_name.as_str(), table_name) {
            match convert_data_type(row.udt_name.as_str()) {
                Ok(data_type) => {
                    let column_name = to_snake_case(row.column_name.as_str());
                    let mut line = String::from_str(" pub ");
                    line.append(column_name.as_str());
                    line.append(": ");
                    if row.is_nullable {
                        line.append("Option<");
                        line.append(data_type);
                        line.append(">");
                    } else {
                        line.append(data_type);
                    }
                    line.append(",");
                    assert(line@ =~= field_line(
                        column_name@,
                        type_text(data_type@, row.is_nullable),
                    ));
                    push_line(&mut struct_code, line.as_str());
                    assert(unsupported_types(table, rows@.subrange(0, i + 1)) =~= names);
                    proof {
                        lemma_join_push(done, line@);
                        assert(done.push(line@) =~= header_lines(table) + body_lines(
                            table,
                            rows@.subrange(0, i + 1),
                        ));
                    }
                },
                Err(e) => {
                    assert(body_lines(table, rows@.subrange(0, i + 1)) =~= body_lines(
                        table,
                        rows@.subrange(0, i as int),
                    ));
                    skipped.push(e);
                    assert(unsupported_types(table, rows@.subrange(0, i + 1)) =~= names.push(
                        row.udt_name@,
                    ));
                    assert(skipped@[skipped@.len() - 1].is_unsupported(row.udt_name@));
                },
            }
        } else {
            assert(body_lines(table, rows@.subrange(0, i + 1)) =~= body_lines(
                table,
                rows@.subrange(0, i as int),
            ));
            assert(unsupported_types(table, rows@.subrange(0, i + 1)) =~= names);
        }
        i = i + 1;
    }
    assert(rows@.subrange(0, i as int) =~= rows@);
    let ghost done = header_lines(table) + body_lines(table, rows@);
    push_line(&mut struct_code, "}");
    proof {
        lemma_join_push(done, "}"@);
        assert(done.push("}"@) =~= declaration_lines(table, rows@));
    }
    (struct_code, skipped)
}

/// A name that holds no whitespace (line breaks included) and no colon.
pub open spec fn is_plain_name(s: Seq<char>) -> bool {
    forall|j: int| 0 <= j < s.len() ==> !is_space(#[trigger] s[j]) && s[j] != ':'
}

/// The field that the declaration of `table` gets for column `c`, if any.
pub open spec fn column_field(table: Seq<char>, c: TableColumn) -> Option<FieldView> {
    if c.table_name@ == table && to_declared(c.udt_name@) is Some {
        Some(
            FieldView {
                name: snake_of(c.column_name@),
                declared_type: to_declared(c.udt_name@)->0,
                is_nullable: c.is_nullable,
            },
        )
    } else {
        None
    }
}

/// The fields that the declaration of `table` gets from `rows`, in order.
pub open spec fn declared_fields(table: Seq<char>, rows: Seq<TableColumn>) -> Seq<FieldView>
    decreases rows.len(),
{
    if rows.len() == 0 {
        Seq::empty()
    } else {
        declared_fields(table, rows.drop_last()) + match column_field(table, rows.last()) {
            Some(f) => seq![f],
            None => Seq::empty(),
        }
    }
}

proof fn lemma_split_append(x: Seq<char>, l: Seq<char>)
    requires
        forall|j: int| 0 <= j < l.len() ==> l[j] != '\n',
    ensures
        split_lines(x).len() >= 1,
        split_lines(x + l) == split_lines(x).update(
            split_lines(x).len() - 1,
            split_lines(x).last() + l,
        ),
    decreases l.len(),
{
    lemma_split_lines_nonempty(x);
    if l.len() == 0 {
        assert(x + l =~= x);
        assert(split_lines(x).last() + l =~= split_lines(x).last());
        assert(split_lines(x).update(split_lines(x).len() - 1, split_lines(x).last())
            =~= split_lines(x));
    } else {
        let p = l.drop_last();
        lemma_split_append(x, p);
        assert((x + l).drop_last() =~= x + p);
        assert(split_lines(x).last() + p + seq![l.last()] =~= split_lines(x).last() + l);
        let ls = split_lines(x + p);
        assert(ls.last() == split_lines(x).last() + p);
        assert(ls.len() == split_lines(x).len());
        assert(ls.last().push(l.last()) =~= split_lines(x).last() + l);
        assert(ls.update(ls.len() - 1, ls.last().push(l.last())) =~= split_lines(x).update(
            split_lines(x).len() - 1,
            split_lines(x).last() + l,
        ));
    }
}

pub open spec fn no_line_breaks(ls: Seq<Seq<char>>) -> bool {
    forall|i: int, j: int| 0 <= i < ls.len() && 0 <= j < ls[i].len() ==> ls[i][j] != '\n'
}

proof fn lemma_split_join(ls: Seq<Seq<char>>)
    requires
        no_line_breaks(ls),
    ensures
        split_lines(join_lines(ls)) == ls.push(Seq::empty()),
    decreases ls.len(),
{
    if ls.len() == 0 {
        assert(join_lines(ls) =~= Seq::<char>::empty());
        assert(ls.push(Seq::empty()) =~= seq![Seq::<char>::empty()]);
    } else {
        let p = ls.drop_last();
        let l = ls.last();
        assert(no_line_breaks(p)) by {
            assert forall|i: int, j: int| 0 <= i < p.len() && 0 <= j < p[i].len() implies p[i][j]
                != '\n' by {
                assert(p[i] == ls[i]);
            }
        }
        lemma_split_join(p);
        assert(forall|j: int| 0 <= j < l.len() ==> l[j] != '\n') by {
            assert forall|j: int| 0 <= j < l.len() implies l[j] != '\n' by {
                assert(l == ls[ls.len() - 1]);
            }
        }
        lemma_split_append(join_lines(p), l);
        let text = join_lines(ls);
        assert(text =~= (join_lines(p) + l).push('\n'));
        assert(text.drop_last() =~= join_lines(p) + l);
        assert(Seq::<char>::empty() + l =~= l);
        assert(p.push(Seq::empty()).update(p.len() as int, l) =~= ls);
    }
}

proof fn lemma_fields_concat(a: Seq<Seq<char>>, b: Seq<Seq<char>>)
    ensures
        fields_of_lines(a + b) == fields_of_lines(a) + fields_of_lines(b),
    decreases b.len(),
{
    if b.len() == 0 {
        assert(a + b =~= a);
        assert(fields_of_lines(a) + fields_of_lines(b) =~= fields_of_lines(a));
    } else {
        lemma_fields_concat(a, b.drop_last());
        assert((a + b).drop_last() =~= a + b.drop_last());
        assert((a + b).last() == b.last());
        assert(fields_of_lines(a + b) =~= fields_of_lines(a) + fields_of_lines(b));
    }
}

proof fn lemma_fields_one(l: Seq<char>)
    ensures
        fields_of_lines(seq![l]) == match parse_field_line(l) {
            Some(f) => seq![f],
            None => Seq::<FieldView>::empty(),
        },
{
    assert(seq![l].drop_last() =~= Seq::<Seq<char>>::empty());
    assert(fields_of_lines(seq![l].drop_last()) == Seq::<FieldView>::empty());
    assert(seq![l].last() == l);
    assert(Seq::<FieldView>::empty() + fields_of_lines(seq![l]).subrange(0, 0) =~= Seq::<
        FieldView,
    >::empty());
    match parse_field_line(l) {
        Some(f) => {
            assert(Seq::<FieldView>::empty() + seq![f] =~= seq![f]);
        },
        None => {
            assert(Seq::<FieldView>::empty() + Seq::<FieldView>::empty() =~= Seq::<
                FieldView,
            >::empty());
        },
    }
}

/// A text without whitespace at its ends is its own trim.
proof fn lemma_trim_solid(s: Seq<char>)
    requires
        s.len() > 0 ==> !is_space(s[0]) && !is_space(s.last()),
    ensures
        trim(s) == s,
{
}

proof fn lemma_snake_plain(s: Seq<char>)
    requires
        is_plain_name(s),
    ensures
        is_plain_name(snake_of(s)),
        is_plain_name(snake_scan(s).0),
    decreases s.len(),
{
    if s.len() > 0 {
        let p = s.drop_last();
        assert(is_plain_name(p)) by {
            assert forall|j: int| 0 <= j < p.len() implies !is_space(#[trigger] p[j]) && p[j]
                != ':' by {
                assert(p[j] == s[j]);
            }
        }
        lemma_snake_plain(p);
        assert(!is_space(s[s.len() - 1]) && s[s.len() - 1] != ':');
    }
}

proof fn lemma_pascal_alnum(s: Seq<char>)
    ensures
        forall|j: int|
            0 <= j < pascal_scan(s).0.len() ==> crate::text::is_ascii_alnum(
                #[trigger] pascal_scan(s).0[j],
            ),
    decreases s.len(),
{
    if s.len() > 0 {
        lemma_pascal_alnum(s.drop_last());
        let c = s.last();
        if crate::text::is_ascii_lower(c) {
            assert(crate::text::is_ascii_upper(crate::text::to_ascii_upper(c)));
        }
        assert(crate::text::is_ascii_alnum(c) ==> crate::text::is_ascii_alnum(
            crate::text::to_ascii_upper(c),
        ));
        let o = pascal_scan(s.drop_last()).0;
        let out = pascal_scan(s).0;
        assert forall|j: int| 0 <= j < out.len() implies crate::text::is_ascii_alnum(
            #[trigger] out[j],
        ) by {
            if j < o.len() {
                assert(out[j] == o[j]);
            }
        }
    }
}

/// A field line with its leading blank trimmed.
spec fn trimmed_line(n: Seq<char>, ty: Seq<char>) -> Seq<char> {
    seq!['p', 'u', 'b', ' '] + n + seq![':', ' '] + ty + seq![',']
}

spec fn solid(ty: Seq<char>) -> bool {
    &&& ty.len() > 0
    &&& !is_space(ty[0])
    &&& !is_space(ty.last())
    &&& forall|j: int| 0 <= j < ty.len() ==> ty[j] != '\n'
}

proof fn lemma_line_trim(n: Seq<char>, ty: Seq<char>)
    requires
        is_plain_name(n),
        solid(ty),
    ensures
        trim(field_line(n, ty)) == trimmed_line(n, ty),
        forall|j: int| 0 <= j < field_line(n, ty).len() ==> field_line(n, ty)[j] != '\n',
{
    reveal_strlit(" pub ");
    reveal_strlit(": ");
    reveal_strlit(",");
    assert(" pub "@ =~= seq![' ', 'p', 'u', 'b', ' ']);
    assert(": "@ =~= seq![':', ' ']);
    assert(","@ =~= seq![',']);
    let line = field_line(n, ty);
    let t = trimmed_line(n, ty);
    assert(line =~= seq![' '] + t);
    assert(line.subrange(1, line.len() as int) =~= t);
    assert(!is_space(t[0]));
    lemma_trim_solid(t);
    assert forall|j: int| 0 <= j < line.len() implies line[j] != '\n' by {
        if 5 <= j < 5 + n.len() {
            assert(line[j] == n[j - 5]);
        } else if 7 + n.len() <= j < 7 + n.len() + ty.len() {
            assert(line[j] == ty[j - 7 - n.len()]);
        }
    }
}

proof fn lemma_line_parts(n: Seq<char>, ty: Seq<char>)
    requires
        is_plain_name(n),
        solid(ty),
    ensures
        first_index(trimmed_line(n, ty), ':') == Some(4 + n.len() as int),
        trim(trimmed_line(n, ty).subrange(3, 4 + n.len() as int)) == n,
        trim(
            strip_comma(
                trim(
                    trimmed_line(n, ty).subrange(
                        4 + n.len() as int + 1,
                        trimmed_line(n, ty).len() as int,
                    ),
                ),
            ),
        ) == ty,
{
    let t = trimmed_line(n, ty);
    let i: int = 4 + n.len() as int;
    assert(t[i] == ':');
    assert forall|j: int| 0 <= j < i implies t[j] != ':' by {
        if j >= 4 {
            assert(t[j] == n[j - 4]);
        }
    }
    lemma_first_index(t, ':');
    match first_index(t, ':') {
        Some(p) => {
            if p < i {
                assert(t[p] != ':');
            } else if p > i {
                assert(t[i] != ':');
            }
        },
        None => {
            assert(t[i] != ':');
        },
    }
    let namepart = t.subrange(3, i);
    assert(namepart.subrange(1, namepart.len() as int) =~= n);
    assert(namepart[0] == ' ');
    if n.len() > 0 {
        assert(!is_space(n[0]) && !is_space(n[n.len() - 1]));
    }
    lemma_trim_solid(n);
    let typart = t.subrange(i + 1, t.len() as int);
    let tc = ty + seq![','];
    assert(typart[0] == ' ');
    assert(typart.subrange(1, typart.len() as int) =~= tc);
    assert(tc[0] == ty[0]);
    lemma_trim_solid(tc);
    assert(strip_comma(tc) =~= ty);
    lemma_trim_solid(ty);
}

/// The rendered line of a field parses back to that field.
proof fn lemma_field_line_round_trip(n: Seq<char>, k: crate::types::ScalarKind, nullable: bool)
    requires
        is_plain_name(n),
    ensures
        parse_field_line(field_line(n, type_text(crate::types::declared_name(k), nullable)))
            == Some(
            FieldView {
                name: n,
                declared_type: crate::types::declared_name(k),
                is_nullable: nullable,
            },
        ),
        forall|j: int|
            0 <= j < field_line(n, type_text(crate::types::declared_name(k), nullable)).len()
                ==> field_line(n, type_text(crate::types::declared_name(k), nullable))[j] != '\n',
{
    reveal_strlit("Option<");
    reveal_strlit(">");
    assert("Option<"@ =~= seq!['O', 'p', 't', 'i', 'o', 'n', '<']);
    assert(">"@ =~= seq!['>']);
    let d = crate::types::declared_name(k);
    lemma_declared_name_shape(k);
    let ty = type_text(d, nullable);
    if nullable {
        assert(ty =~= seq!['O', 'p', 't', 'i', 'o', 'n', '<'] + d + seq!['>']);
        assert forall|j: int| 0 <= j < ty.len() implies ty[j] != '\n' by {
            if 7 <= j < 7 + d.len() {
                assert(ty[j] == d[j - 7]);
            }
        }
    }
    assert(solid(ty));
    lemma_line_trim(n, ty);
    lemma_line_parts(n, ty);
    if nullable {
        assert(ty.subrange(0, 7) =~= seq!['O', 'p', 't', 'i', 'o', 'n', '<']);
        assert(ty.subrange(7, ty.len() - 1) =~= d);
    } else {
        assert(!is_option_wrapped(ty)) by {
            if is_option_wrapped(ty) {
                assert(ty.subrange(0, 7)[0] == 'O');
            }
        }
    }
}

proof fn lemma_body_round_trip(table: Seq<char>, rows: Seq<TableColumn>)
    requires
        forall|i: int|
            0 <= i < rows.len() && (#[trigger] rows[i]).table_name@ == table ==> is_plain_name(
                rows[i].column_name@,
            ),
    ensures
        fields_of_lines(body_lines(table, rows)) == declared_fields(table, rows),
        no_line_breaks(body_lines(table, rows)),
    decreases rows.len(),
{
    if rows.len() > 0 {
        let p = rows.drop_last();
        let c = rows.last();
        assert forall|i: int|
            0 <= i < p.len() && (#[trigger] p[i]).table_name@ == table implies is_plain_name(
            p[i].column_name@,
        ) by {
            assert(p[i] == rows[i]);
        }
        lemma_body_round_trip(table, p);
        let lines = match column_line(table, c) {
            Some(l) => seq![l],
            None => Seq::<Seq<char>>::empty(),
        };
        lemma_fields_concat(body_lines(table, p), lines);
        match column_line(table, c) {
            Some(l) => {
                assert(rows[rows.len() - 1] == c);
                let k = native_kind(c.udt_name@)->0;
                lemma_snake_plain(c.column_name@);
                lemma_field_line_round_trip(snake_of(c.column_name@), k, c.is_nullable);
                lemma_fields_one(l);
            },
            None => {
                assert(fields_of_lines(lines) == Seq::<FieldView>::empty());
            },
        }
        let all = body_lines(table, rows);
        assert(all == body_lines(table, p) + lines);
        assert forall|i: int, j: int| 0 <= i < all.len() && 0 <= j < all[i].len() implies all[i][j]
            != '\n' by {
            if i < body_lines(table, p).len() {
                assert(all[i] == body_lines(table, p)[i]);
            } else {
                assert(all[i] == lines[0]);
            }
        }
    }
}

proof fn lemma_header_quiet(table: Seq<char>)
    ensures
        fields_of_lines(header_lines(table)) == Seq::<FieldView>::empty(),
        fields_of_lines(seq!["}"@]) == Seq::<FieldView>::empty(),
        no_line_breaks(header_lines(table)),
        no_line_breaks(seq!["}"@]),
{
    reveal_strlit("#[derive(sqlx::FromRow)]");
    reveal_strlit("pub struct ");
    reveal_strlit(" {");
    reveal_strlit("}");
    let derive = "#[derive(sqlx::FromRow)]"@;
    assert(derive =~= seq!['#', '[', 'd', 'e', 'r', 'i', 'v', 'e', '(', 's', 'q', 'l', 'x', ':', ':', 'F', 'r', 'o', 'm', 'R', 'o', 'w', ')', ']']);
    assert(" {"@ =~= seq![' ', '{']);
    assert("}"@ =~= seq!['}']);
    assert("pub struct "@ =~= seq!['p', 'u', 'b', ' ', 's', 't', 'r', 'u', 'c', 't', ' ']);
    let pascal = pascal_of(table);
    lemma_pascal_alnum(table);
    let head = "pub struct "@ + pascal + " {"@;
    lemma_trim_solid(derive);
    lemma_trim_solid(head);
    lemma_trim_solid("}"@);
    assert forall|j: int| 0 <= j < head.len() implies head[j] != ':' && head[j] != '\n' by {
        if 11 <= j < 11 + pascal.len() {
            assert(head[j] == pascal[j - 11]);
        }
    }
    lemma_first_index(head, ':');
    lemma_fields_one(derive);
    lemma_fields_one(head);
    lemma_fields_one("}"@);
    lemma_fields_concat(seq![derive], seq![head]);
    assert(seq![derive] + seq![head] =~= header_lines(table));
    let hl = header_lines(table);
    assert forall|i: int, j: int| 0 <= i < hl.len() && 0 <= j < hl[i].len() implies hl[i][j]
        != '\n' by {
        if i == 1 {
            assert(hl[i] == head);
        }
    }
}

/// Scanning the declaration rendered for `table` gives back, in order, the
/// field of each of its columns whose type is supported, with the column's
/// name in snake_case, its declared type and its nullability; column names
/// must hold no whitespace and no colon.
pub proof fn lemma_declaration_round_trip(table: Seq<char>, rows: Seq<TableColumn>)
    requires
        forall|i: int|
            0 <= i < rows.len() && (#[trigger] rows[i]).table_name@ == table ==> is_plain_name(
                rows[i].column_name@,
            ),
    ensures
        parse_declaration(render_declaration(table, rows)) == declared_fields(table, rows),
{
    let head = header_lines(table);
    let body = body_lines(table, rows);
    let tail = seq!["}"@];
    lemma_body_round_trip(table, rows);
    lemma_header_quiet(table);
    let lines = declaration_lines(table, rows);
    assert(lines == head + body + tail);
    assert forall|i: int, j: int| 0 <= i < lines.len() && 0 <= j < lines[i].len() implies lines[i][j]
        != '\n' by {
        if i < head.len() {
            assert(lines[i] == head[i]);
        } else if i < head.len() + body.len() {
            assert(lines[i] == body[i - head.len()]);
        } else {
            assert(lines[i] == tail[i - head.len() - body.len()]);
        }
    }
    lemma_split_join(lines);
    lemma_fields_concat(head, body);
    lemma_fields_concat(head + body, tail);
    lemma_fields_concat(lines, seq![Seq::<char>::empty()]);
    assert(lines.push(Seq::<char>::empty()) =~= lines + seq![Seq::<char>::empty()]);
    lemma_fields_one(Seq::<char>::empty());
    assert(trim(Seq::<char>::empty()) == Seq::<char>::empty());
    assert(Seq::<FieldView>::empty() + declared_fields(table, rows) + Seq::<FieldView>::empty()
        =~= declared_fields(table, rows));
}

} // verus!
