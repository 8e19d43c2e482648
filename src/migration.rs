//! Planning a migration: which live table a declaration describes, which
//! columns to add, alter or drop, and the SQL text for them.
use vstd::prelude::*;
use crate::casing::{pascal_of, to_pascal_case};
use crate::declaration::{parse_declaration, parse_struct_fields};
use crate::error::SchemaError;
use crate::models::{fields_view, DeclaredField, FieldView, TableColumn};
use crate::text::{lower_of, lowercase, same_text};
use crate::types::{convert_data_type_from_pg, to_native};

verus! {

/// The two table names that a declaration identifier may stand for.
#[derive(Clone, Debug)]
pub struct TableNameCandidates {
    /// The identifier lower-cased.
    pub lower: String,
    /// The identifier in PascalCase.
    pub pascal: String,
}

/// Which candidate table a declaration resolves to.
#[derive(Clone, Copy, Debug, PartialEq, Eq)]
pub enum TableResolution {
    ResolvedLower,
    ResolvedPascal,
    Ambiguous,
    NotFound,
}

/// A candidate resolves when it has live columns. The lower-case one is taken
/// when it alone does, or when both candidates are the same name; two
/// different names that both resolve are ambiguous.
pub open spec fn resolution(same_name: bool, lower_found: bool, pascal_found: bool) -> TableResolution {
    if lower_found && (same_name || !pascal_found) {
        TableResolution::ResolvedLower
    } else if lower_found {
        TableResolution::Ambiguous
    } else if pascal_found {
        TableResolution::ResolvedPascal
    } else {
        TableResolution::NotFound
    }
}

pub fn table_name_candidates(identifier: &str) -> (r: TableNameCandidates)
    ensures
        r.lower@ == lower_of(identifier@),
        r.pascal@ == pascal_of(identifier@),
{
    TableNameCandidates { lower: lowercase(identifier), pascal: to_pascal_case(identifier) }
}

/// Resolves a declaration's table from the live columns found under each
/// candidate name.
pub fn resolve_table(
    candidates: &TableNameCandidates,
    lower_columns: &Vec<TableColumn>,
    pascal_columns: &Vec<TableColumn>,
) -> (r: TableResolution)
    ensures
        r == resolution(
            candidates.lower@ == candidates.pascal@,
            lower_columns@.len() > 0,
            pascal_columns@.len() > 0,
        ),
{
    let same_name = candidates.lower == candidates.pascal;
    let lower_found = lower_columns.len() > 0;
    let pascal_found = pascal_columns.len() > 0;
    if lower_found && (same_name || !pascal_found) {
        TableResolution::ResolvedLower
    } else if lower_found {
        TableResolution::Ambiguous
    } else if pascal_found {
        TableResolution::ResolvedPascal
    } else {
        TableResolution::NotFound
    }
}

/// The first live column named `name`.
pub open spec fn find_column(live: Seq<TableColumn>, name: Seq<char>) -> Option<TableColumn>
    decreases live.len(),
{
    if live.len() == 0 {
        None
    } else {
        match find_column(live.drop_last(), name) {
            Some(c) => Some(c),
            None => if live.last().column_name@ == name {
                Some(live.last())
            } else {
                None
            },
        }
    }
}

pub open spec fn has_field(fields: Seq<FieldView>, name: Seq<char>) -> bool {
    exists|i: int| 0 <= i < fields.len() && #[trigger] fields[i].name == name
}

pub open spec fn statement(table: Seq<char>, clause: Seq<char>) -> Seq<char> {
    "ALTER TABLE "@ + table + " "@ + clause
}

pub open spec fn add_clause(f: FieldView, native: Seq<char>) -> Seq<char> {
    "ADD COLUMN "@ + f.name + " "@ + native + if f.is_nullable {
        " NULL"@
    } else {
        " NOT NULL"@
    }
}

pub open spec fn alter_clause(f: FieldView, native: Seq<char>) -> Seq<char> {
    "ALTER COLUMN "@ + f.name + " TYPE "@ + native + if f.is_nullable {
        ", DROP NOT NULL"@
    } else {
        ", SET NOT NULL"@
    }
}

pub open spec fn drop_clause(c: TableColumn) -> Seq<char> {
    "DROP COLUMN "@ + c.column_name@
}

/// The statement a declared field calls for: none where its type is
/// unsupported or the live column already has its type and nullability; an
/// addition where no live column has its name; an alteration otherwise.
pub open spec fn field_statement(table: Seq<char>, f: FieldView, live: Seq<TableColumn>) -> Option<
    Seq<char>,
> {
    match to_native(f.declared_type) {
        None => None,
        Some(native) => match find_column(live, f.name) {
            None => Some(statement(table, add_clause(f, native))),
            Some(c) => if c.udt_name@ == native && c.is_nullable == f.is_nullable {
                None
            } else {
                Some(statement(table, alter_clause(f, native)))
            },
        },
    }
}

pub open spec fn field_statements(table: Seq<char>, fields: Seq<FieldView>, live: Seq<TableColumn>) -> Seq<
    Seq<char>,
>
    decreases fields.len(),
{
    if fields.len() == 0 {
        Seq::empty()
    } else {
        field_statements(table, fields.drop_last(), live) + match field_statement(
            table,
            fields.last(),
            live,
        ) {
            Some(s) => seq![s],
            None => Seq::empty(),
        }
    }
}

/// A drop for each live column that no declared field names, in live order.
pub open spec fn removed_statements(table: Seq<char>, fields: Seq<FieldView>, live: Seq<TableColumn>) -> Seq<
    Seq<char>,
>
    decreases live.len(),
{
    if live.len() == 0 {
        Seq::empty()
    } else {
        removed_statements(table, fields, live.drop_last()) + if has_field(
            fields,
            live.last().column_name@,
        ) {
            Seq::empty()
        } else {
            seq![statement(table, drop_clause(live.last()))]
        }
    }
}

/// Additions and alterations in field order, then drops in live order.
pub open spec fn plan_statements(table: Seq<char>, fields: Seq<FieldView>, live: Seq<TableColumn>) -> Seq<
    Seq<char>,
> {
    field_statements(table, fields, live) + removed_statements(table, fields, live)
}

pub open spec fn strings_view(v: Seq<String>) -> Seq<Seq<char>> {
    v.map_values(|s: String| s@)
}

fn make_statement(table: &str, clause: &String) -> (r: String)
    ensures
        r@ == statement(table@, clause@),
{
    let mut s = String::from_str("ALTER TABLE ");
    s.append(table);
    s.append(" ");
    s.append(clause.as_str());
    assert(s@ =~= statement(table@, clause@));
    s
}

/// Index of the first column of `live` named `name`.
fn find_column_index(live: &Vec<TableColumn>, name: &String) -> (r: Option<usize>)
    ensures
        match r {
            Some(j) => j < live@.len() && find_column(live@, name@) == Some(live@[j as int]),
            None => find_column(live@, name@) is None,
        },
{
    let mut found: Option<usize> = None;
    let mut j: usize = 0;
    while j < live.len()
        invariant
            j <= live@.len(),
            match found {
                Some(k) => k < j && find_column(live@.subrange(0, j as int), name@) == Some(
                    live@[k as int],
                ),
                None => find_column(live@.subrange(0, j as int), name@) is None,
            },
        decreases live.len() - j,
    {
        assert(live@.subrange(0, j + 1).drop_last() =~= live@.subrange(0, j as int));
        if found.is_none() && live[j].column_name == *name {
            found = Some(j);
        }
        j = j + 1;
    }
    assert(live@.subrange(0, j as int) =~= live@);
    found
}

/// Whether some field of `fields` is named `name`.
fn declares(fields: &Vec<DeclaredField>, name: &String) -> (r: bool)
    ensures
        r == has_field(fields_view(fields@), name@),
{
    let ghost fv = fields_view(fields@);
    let mut i: usize = 0;
    while i < fields.len()
        invariant
            i <= fields@.len(),
            fv == fields_view(fields@),
            forall|k: int| 0 <= k < i ==> fv[k].name != name@,
        decreases fields.len() - i,
    {
        if fields[i].name == *name {
            assert(fv[i as int].name == name@);
            return true;
        }
        i = i + 1;
    }
    false
}

/// The `ALTER TABLE` statements that bring the live columns of `table_name`
/// to the declared fields: additions and alterations in field order, then
/// drops in live order (see [`field_statement`], [`removed_statements`]).
/// Fields of an unsupported type are skipped and keep their column.
pub fn migration_statements(
    table_name: &str,
    fields: &Vec<DeclaredField>,
    live: &Vec<TableColumn>,
) -> (r: Vec<String>)
    ensures
        strings_view(r@) == plan_statements(table_name@, fields_view(fields@), live@),
{
    let ghost table = table_name@;
    let ghost fv = fields_view(fields@);
    let mut out: Vec<String> = Vec::new();
    let mut i: usize = 0;
    while i < fields.len()
        invariant
            i <= fields@.len(),
            table == table_name@,
            fv == fields_view(fields@),
            strings_view(out@) == field_statements(table, fv.subrange(0, i as int), live@),
        decreases fields.len() - i,
    {
        let f = &fields[i];
        let ghost before = strings_view(out@);
        assert(fv.subrange(0, i + 1).drop_last() =~= fv.subrange(0, i as int));
        assert(fv.subrange(0, i + 1).last() == f@);
        match convert_data_type_from_pg(f.declared_type.as_str()) {
            Ok(native) => {
                match find_column_index(live, &f.name) {
                    None => {
                        let mut clause = String::from_str("ADD COLUMN ");
                        clause.append(f.name.as_str());
                        clause.append(" ");
                        clause.append(native);
                        if f.is_nullable {
                            clause.append(" NULL");
                        } else {
                            clause.append(" NOT NULL");
                        }
                        assert(clause@ =~= add_clause(f@, native@));
                        let s = make_statement(table_name, &clause);
                        out.push(s);
                        assert(strings_view(out@) =~= before + seq![s@]);
                    },
                    Some(j) => {
                        let c = &live[j];
                        if same_text(c.udt_name.as_str(), native) && c.is_nullable == f.is_nullable {
                            assert(strings_view(out@) =~= before + Seq::<Seq<char>>::empty());
                        } else {
                            let mut clause = String::from_str("ALTER COLUMN ");
                            clause.append(f.name.as_str());
                            clause.append(" TYPE ");
                            clause.append(native);
                            if f.is_nullable {
                                clause.append(", DROP NOT NULL");
                            } else {
                                clause.append(", SET NOT NULL");
                            }
                            assert(clause@ =~= alter_clause(f@, native@));
                            let s = make_statement(table_name, &clause);
                            out.push(s);
                            assert(strings_view(out@) =~= before + seq![s@]);
                        }
                    },
                }
            },
            Err(_) => {
                assert(strings_view(out@) =~= before + Seq::<Seq<char>>::empty());
            },
        }
        i = i + 1;
    }
    assert(fv.subrange(0, i as int) =~= fv);
    let ghost added = strings_view(out@);
    let mut j: usize = 0;
    while j < live.len()
        invariant
            j <= live@.len(),
            table == table_name@,
            fv == fields_view(fields@),
            strings_view(out@) == added + removed_statements(table, fv, live@.subrange(0, j as int)),
        decreases live.len() - j,
    {
        let c = &live[j];
        let ghost before = strings_view(out@);
        assert(live@.subrange(0, j + 1).drop_last() =~= live@.subrange(0, j as int));
        if !declares(fields, &c.column_name) {
            let mut clause = String::from_str("DROP COLUMN ");
            clause.append(c.column_name.as_str());
            assert(clause@ =~= drop_clause(*c));
            let s = make_statement(table_name, &clause);
            out.push(s);
            assert(strings_view(out@) =~= before + seq![s@]);
        } else {
            assert(strings_view(out@) =~= before + Seq::<Seq<char>>::empty());
        }
        j = j + 1;
    }
    assert(live@.subrange(0, j as int) =~= live@);
    out
}

/// The field declares the live column exactly: same name, a type that maps to
/// the column's type, same nullability.
pub open spec fn matches_live(f: FieldView, c: TableColumn) -> bool {
    f.name == c.column_name@ && to_native(f.declared_type) == Some(c.udt_name@) && f.is_nullable
        == c.is_nullable
}

pub open spec fn distinct_names(live: Seq<TableColumn>) -> bool {
    forall|i: int, j: int|
        0 <= i < j < live.len() ==> live[i].column_name@ != live[j].column_name@
}

/// Each field declares the live column at the same position exactly.
pub open spec fn mirrors(fields: Seq<FieldView>, live: Seq<TableColumn>) -> bool {
    fields.len() == live.len() && forall|i: int| 0 <= i < fields.len() ==> matches_live(fields[i], live[i])
}

proof fn lemma_find_none(live: Seq<TableColumn>, name: Seq<char>)
    requires
        forall|k: int| 0 <= k < live.len() ==> live[k].column_name@ != name,
    ensures
        find_column(live, name) is None,
    decreases live.len(),
{
    if live.len() > 0 {
        lemma_find_none(live.drop_last(), name);
    }
}

proof fn lemma_find_unique(live: Seq<TableColumn>, j: int)
    requires
        distinct_names(live),
        0 <= j < live.len(),
    ensures
        find_column(live, live[j].column_name@) == Some(live[j]),
    decreases live.len(),
{
    let name = live[j].column_name@;
    let p = live.drop_last();
    if j == live.len() - 1 {
        assert forall|k: int| 0 <= k < p.len() implies p[k].column_name@ != name by {
            assert(live[k].column_name@ != live[j].column_name@);
        }
        lemma_find_none(p, name);
    } else {
        lemma_find_unique(p, j);
        assert(p[j] == live[j]);
    }
}

proof fn lemma_field_statements_concat(
    table: Seq<char>,
    a: Seq<FieldView>,
    b: Seq<FieldView>,
    live: Seq<TableColumn>,
)
    ensures
        field_statements(table, a + b, live) == field_statements(table, a, live) + field_statements(
            table,
            b,
            live,
        ),
    decreases b.len(),
{
    if b.len() == 0 {
        assert(a + b =~= a);
    } else {
        lemma_field_statements_concat(table, a, b.drop_last(), live);
        assert((a + b).drop_last() =~= a + b.drop_last());
    }
}

proof fn lemma_field_statements_quiet(table: Seq<char>, fields: Seq<FieldView>, live: Seq<TableColumn>)
    requires
        forall|i: int| 0 <= i < fields.len() ==> field_statement(table, #[trigger] fields[i], live) is None,
    ensures
        field_statements(table, fields, live) == Seq::<Seq<char>>::empty(),
    decreases fields.len(),
{
    if fields.len() > 0 {
        lemma_field_statements_quiet(table, fields.drop_last(), live);
        assert(fields.last() == fields[fields.len() - 1]);
    }
}

proof fn lemma_field_statements_one(table: Seq<char>, f: FieldView, live: Seq<TableColumn>)
    ensures
        field_statements(table, seq![f], live) == match field_statement(table, f, live) {
            Some(s) => seq![s],
            None => Seq::empty(),
        },
{
    assert(seq![f].drop_last() =~= Seq::<FieldView>::empty());
    assert(seq![f].last() == f);
    assert(field_statements(table, seq![f].drop_last(), live) == Seq::<Seq<char>>::empty());
    match field_statement(table, f, live) {
        Some(s) => {
            assert(Seq::<Seq<char>>::empty() + seq![s] =~= seq![s]);
        },
        None => {
            assert(Seq::<Seq<char>>::empty() + Seq::<Seq<char>>::empty() =~= Seq::<Seq<char>>::empty());
        },
    }
}

proof fn lemma_removed_concat(
    table: Seq<char>,
    fields: Seq<FieldView>,
    a: Seq<TableColumn>,
    b: Seq<TableColumn>,
)
    ensures
        removed_statements(table, fields, a + b) == removed_statements(table, fields, a)
            + removed_statements(table, fields, b),
    decreases b.len(),
{
    if b.len() == 0 {
        assert(a + b =~= a);
    } else {
        lemma_removed_concat(table, fields, a, b.drop_last());
        assert((a + b).drop_last() =~= a + b.drop_last());
    }
}

proof fn lemma_removed_quiet(table: Seq<char>, fields: Seq<FieldView>, live: Seq<TableColumn>)
    requires
        forall|j: int| 0 <= j < live.len() ==> has_field(fields, #[trigger] live[j].column_name@),
    ensures
        removed_statements(table, fields, live) == Seq::<Seq<char>>::empty(),
    decreases live.len(),
{
    if live.len() > 0 {
        lemma_removed_quiet(table, fields, live.drop_last());
        assert(live.last() == live[live.len() - 1]);
    }
}

/// Fields that each declare the live column at their position exactly call
/// for no statement.
proof fn lemma_mirrored_fields_quiet(table: Seq<char>, fields: Seq<FieldView>, live: Seq<TableColumn>)
    requires
        mirrors(fields, live),
        distinct_names(live),
    ensures
        field_statements(table, fields, live) == Seq::<Seq<char>>::empty(),
        removed_statements(table, fields, live) == Seq::<Seq<char>>::empty(),
{
    assert forall|i: int| 0 <= i < fields.len() implies field_statement(table, #[trigger] fields[i], live) is None by {
        lemma_find_unique(live, i);
    }
    lemma_field_statements_quiet(table, fields, live);
    assert forall|j: int| 0 <= j < live.len() implies has_field(fields, #[trigger] live[j].column_name@) by {
        assert(fields[j].name == live[j].column_name@);
    }
    lemma_removed_quiet(table, fields, live);
}

/// A declaration whose fields declare the live columns exactly, one for one,
/// calls for no statement.
/// The live columns have distinct names, as the columns of one table do: a
/// field is compared with the first live column of its name alone.
pub proof fn lemma_identical_columns_no_statements(
    table: Seq<char>,
    fields: Seq<FieldView>,
    live: Seq<TableColumn>,
)
    requires
        mirrors(fields, live),
        distinct_names(live),
    ensures
        plan_statements(table, fields, live) == Seq::<Seq<char>>::empty(),
{
    lemma_mirrored_fields_quiet(table, fields, live);
}

/// One field more than the live columns, of a supported type and named like
/// no live column, gives exactly one statement: the addition of that field.
/// (A field of an unsupported type is skipped and gives none.)
/// The live columns have distinct names, as the columns of one table do: a
/// field is compared with the first live column of its name alone.
pub proof fn lemma_one_added_field(
    table: Seq<char>,
    fields: Seq<FieldView>,
    live: Seq<TableColumn>,
    k: int,
    f: FieldView,
)
    requires
        mirrors(fields, live),
        distinct_names(live),
        0 <= k <= fields.len(),
        to_native(f.declared_type) is Some,
        forall|j: int| 0 <= j < live.len() ==> live[j].column_name@ != f.name,
    ensures
        plan_statements(table, fields.subrange(0, k) + seq![f] + fields.subrange(k, fields.len() as int), live)
            == seq![statement(table, add_clause(f, to_native(f.declared_type)->0))],
{
    let a = fields.subrange(0, k);
    let b = fields.subrange(k, fields.len() as int);
    let all = a + seq![f] + b;
    assert forall|i: int| 0 <= i < a.len() implies field_statement(table, #[trigger] a[i], live) is None by {
        lemma_find_unique(live, i);
    }
    assert forall|i: int| 0 <= i < b.len() implies field_statement(table, #[trigger] b[i], live) is None by {
        lemma_find_unique(live, i + k);
        assert(b[i] == fields[i + k]);
    }
    lemma_field_statements_quiet(table, a, live);
    lemma_field_statements_quiet(table, b, live);
    lemma_find_none(live, f.name);
    lemma_field_statements_one(table, f, live);
    lemma_field_statements_concat(table, a, seq![f], live);
    lemma_field_statements_concat(table, a + seq![f], b, live);
    assert forall|j: int| 0 <= j < live.len() implies has_field(all, #[trigger] live[j].column_name@) by {
        if j < k {
            assert(all[j] == fields[j]);
        } else {
            assert(all[j + 1] == fields[j]);
        }
    }
    lemma_removed_quiet(table, all, live);
    assert(plan_statements(table, all, live) =~= seq![statement(table, add_clause(f, to_native(f.declared_type)->0))]);
}

/// One live column more than the fields, named like no field, gives exactly
/// one statement: the drop of that column.
/// The live columns have distinct names, as the columns of one table do: a
/// field is compared with the first live column of its name alone.
pub proof fn lemma_one_dropped_column(
    table: Seq<char>,
    fields: Seq<FieldView>,
    live: Seq<TableColumn>,
    k: int,
    c: TableColumn,
)
    requires
        mirrors(fields, live),
        0 <= k <= live.len(),
        distinct_names(live.subrange(0, k) + seq![c] + live.subrange(k, live.len() as int)),
        forall|i: int| 0 <= i < fields.len() ==> fields[i].name != c.column_name@,
    ensures
        plan_statements(table, fields, live.subrange(0, k) + seq![c] + live.subrange(k, live.len() as int))
            == seq![statement(table, drop_clause(c))],
{
    let a = live.subrange(0, k);
    let b = live.subrange(k, live.len() as int);
    let all = a + seq![c] + b;
    assert forall|i: int| 0 <= i < fields.len() implies field_statement(table, #[trigger] fields[i], all) is None by {
        if i < k {
            assert(all[i] == live[i]);
            lemma_find_unique(all, i);
        } else {
            assert(all[i + 1] == live[i]);
            lemma_find_unique(all, i + 1);
        }
    }
    lemma_field_statements_quiet(table, fields, all);
    assert forall|j: int| 0 <= j < a.len() implies has_field(fields, #[trigger] a[j].column_name@) by {
        assert(fields[j].name == live[j].column_name@);
    }
    assert forall|j: int| 0 <= j < b.len() implies has_field(fields, #[trigger] b[j].column_name@) by {
        assert(fields[j + k].name == live[j + k].column_name@);
    }
    lemma_removed_quiet(table, fields, a);
    lemma_removed_quiet(table, fields, b);
    lemma_removed_concat(table, fields, a, seq![c]);
    lemma_removed_concat(table, fields, a + seq![c], b);
    assert(seq![c].drop_last() =~= Seq::<TableColumn>::empty());
    assert(seq![c].last() == c);
    assert(removed_statements(table, fields, seq![c].drop_last()) == Seq::<Seq<char>>::empty());
    assert(!has_field(fields, c.column_name@));
    assert(removed_statements(table, fields, seq![c]) =~= seq![statement(table, drop_clause(c))]);
    assert(plan_statements(table, fields, all) =~= seq![statement(table, drop_clause(c))]);
}

/// Where the fields declare the live columns exactly but for one field that
/// is nullable while its column is not, the plan is exactly one alteration of
/// that column, which drops its `NOT NULL`.
/// The live columns have distinct names, as the columns of one table do: a
/// field is compared with the first live column of its name alone.
pub proof fn lemma_nullability_relaxed(
    table: Seq<char>,
    fields: Seq<FieldView>,
    live: Seq<TableColumn>,
    k: int,
)
    requires
        fields.len() == live.len(),
        distinct_names(live),
        0 <= k < fields.len(),
        forall|i: int| 0 <= i < fields.len() && i != k ==> matches_live(fields[i], live[i]),
        fields[k].name == live[k].column_name@,
        to_native(fields[k].declared_type) == Some(live[k].udt_name@),
        !live[k].is_nullable,
        fields[k].is_nullable,
    ensures
        plan_statements(table, fields, live) == seq![statement(table, alter_clause(fields[k], live[k].udt_name@))],
        alter_clause(fields[k], live[k].udt_name@) == "ALTER COLUMN "@ + fields[k].name + " TYPE "@
            + live[k].udt_name@ + ", DROP NOT NULL"@,
{
    let a = fields.subrange(0, k);
    let f = fields[k];
    let b = fields.subrange(k + 1, fields.len() as int);
    assert(fields =~= a + seq![f] + b);
    assert forall|i: int| 0 <= i < a.len() implies field_statement(table, #[trigger] a[i], live) is None by {
        lemma_find_unique(live, i);
    }
    assert forall|i: int| 0 <= i < b.len() implies field_statement(table, #[trigger] b[i], live) is None by {
        lemma_find_unique(live, i + k + 1);
        assert(b[i] == fields[i + k + 1]);
    }
    lemma_field_statements_quiet(table, a, live);
    lemma_field_statements_quiet(table, b, live);
    lemma_find_unique(live, k);
    lemma_field_statements_one(table, f, live);
    lemma_field_statements_concat(table, a, seq![f], live);
    lemma_field_statements_concat(table, a + seq![f], b, live);
    assert forall|j: int| 0 <= j < live.len() implies has_field(fields, #[trigger] live[j].column_name@) by {
        assert(fields[j].name == live[j].column_name@);
    }
    lemma_removed_quiet(table, fields, live);
    assert(plan_statements(table, fields, live) =~= seq![statement(table, alter_clause(f, live[k].udt_name@))]);
}

/// The statements joined by `;` and a line break.
pub open spec fn join_statements(stmts: Seq<Seq<char>>) -> Seq<char>
    decreases stmts.len(),
{
    if stmts.len() <= 1 {
        if stmts.len() == 1 {
            stmts[0]
        } else {
            Seq::empty()
        }
    } else {
        join_statements(stmts.drop_last()) + ";\n"@ + stmts.last()
    }
}

/// The migration file's text: empty when there is nothing to do, else a
/// comment naming the declaration and the joined statements.
pub open spec fn migration_text(struct_name: Seq<char>, stmts: Seq<Seq<char>>) -> Seq<char> {
    if stmts.len() == 0 {
        Seq::empty()
    } else {
        "-- Migration generated for struct: "@ + struct_name + "\n"@ + join_statements(stmts)
            + "\n"@
    }
}

pub fn render_migration(struct_name: &str, statements: &Vec<String>) -> (r: String)
    ensures
        r@ == migration_text(struct_name@, strings_view(statements@)),
{
    let ghost sv = strings_view(statements@);
    if statements.len() == 0 {
        return String::new();
    }
    let mut body = String::new();
    let mut i: usize = 0;
    while i < statements.len()
        invariant
            i <= statements@.len(),
            statements@.len() > 0,
            sv == strings_view(statements@),
            body@ == join_statements(sv.subrange(0, i as int)),
        decreases statements.len() - i,
    {
        assert(sv.subrange(0, i + 1).drop_last() =~= sv.subrange(0, i as int));
        if i > 0 {
            body.append(";\n");
        }
        body.append(statements[i].as_str());
        proof {
            if i == 0 {
                assert(body@ =~= sv.subrange(0, 1)[0]);
            } else {
                assert(body@ =~= join_statements(sv.subrange(0, i as int)) + ";\n"@ + sv[i as int]);
            }
        }
        i = i + 1;
    }
    assert(sv.subrange(0, i as int) =~= sv);
    let mut text = String::from_str("-- Migration generated for struct: ");
    text.append(struct_name);
    text.append("\n");
    text.append(body.as_str());
    text.append("\n");
    assert(text@ =~= migration_text(struct_name@, sv));
    text
}

/// The migration for one declaration: `struct_code` is the declaration's
/// text, and the two column lists are what the database holds under each of
/// the `candidates` names. The table is resolved first; a resolved table with
/// a declaration of no field is malformed.
pub open spec fn migration_outcome(
    struct_name: Seq<char>,
    struct_code: Seq<char>,
    candidates: TableNameCandidates,
    lower_columns: Seq<TableColumn>,
    pascal_columns: Seq<TableColumn>,
) -> Result<Seq<char>, SchemaError> {
    let fields = parse_declaration(struct_code);
    match resolution(
        candidates.lower@ == candidates.pascal@,
        lower_columns.len() > 0,
        pascal_columns.len() > 0,
    ) {
        TableResolution::ResolvedLower => if fields.len() == 0 {
            Err(SchemaError::MalformedDeclaration)
        } else {
            Ok(migration_text(struct_name, plan_statements(candidates.lower@, fields, lower_columns)))
        },
        TableResolution::ResolvedPascal => if fields.len() == 0 {
            Err(SchemaError::MalformedDeclaration)
        } else {
            Ok(
                migration_text(
                    struct_name,
                    plan_statements(candidates.pascal@, fields, pascal_columns),
                ),
            )
        },
        TableResolution::Ambiguous => Err(
            SchemaError::AmbiguousTableName(candidates.lower, candidates.pascal),
        ),
        TableResolution::NotFound => Err(SchemaError::TableNotFound(candidates.lower, candidates.pascal)),
    }
}

/// Plans and renders the migration for one declaration; see
/// [`migration_outcome`].
pub fn generate_migration_code(
    struct_name: &str,
    struct_code: &str,
    candidates: &TableNameCandidates,
    lower_columns: &Vec<TableColumn>,
    pascal_columns: &Vec<TableColumn>,
) -> (r: Result<String, SchemaError>)
    ensures
        match (r, migration_outcome(
            struct_name@,
            struct_code@,
            *candidates,
            lower_columns@,
            pascal_columns@,
        )) {
            (Ok(text), Ok(expected)) => text@ == expected,
            (Err(e), Err(expected)) => e == expected,
            _ => false,
        },
{
    let (table_name, columns) = match resolve_table(candidates, lower_columns, pascal_columns) {
        TableResolution::ResolvedLower => (candidates.lower.as_str(), lower_columns),
        TableResolution::ResolvedPascal => (candidates.pascal.as_str(), pascal_columns),
        TableResolution::Ambiguous => {
            return Err(
                SchemaError::AmbiguousTableName(candidates.lower.clone(), candidates.pascal.clone()),
            );
        },
        TableResolution::NotFound => {
            return Err(
                SchemaError::TableNotFound(candidates.lower.clone(), candidates.pascal.clone()),
            );
        },
    };
    let fields = parse_struct_fields(struct_code);
    if fields.len() == 0 {
        return Err(SchemaError::MalformedDeclaration);
    }
    let statements = migration_statements(table_name, &fields, columns);
    Ok(render_migration(struct_name, &statements))
}

} // verus!
