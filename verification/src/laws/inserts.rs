//! Rows that are written: upserts, rows that are left out where they are there already, and
//! updates.
use vstd::prelude::*;

use crate::direct::{
    conflict_column, conflict_target, identifier_token, identifier_tokens, is_plain_name,
    update_assignment, update_assignments, upsert, upsert_of, values_normalized,
};
use crate::error::Failure;
use crate::laws::records::changed_parts_are_read;
use crate::quoting::{literals_from, quoted_ident, string_literal, with_postgres_literals};
use crate::scan::{after_quote, csv, quoted_value};
use crate::statement::{bare_assignment, bare_update, insert_translation, source_fixed, written};
use crate::text::{
    joined, lacks, lemma_find_first, occurs_at, replaced_char, same_ignoring_case, trimmed,
    trimmed_end, trimmed_start,
};
use crate::tree::{field, items, part, payload, present, tagged, Tree};

verus! {

/// Whether a list of texts is made of the names of another list, each in double quotes.
pub open spec fn are_quoted(entries: Seq<Seq<char>>, names: Seq<Seq<char>>) -> bool {
    entries.len() == names.len() && forall|i: int| 0 <= i < names.len() ==> #[trigger] entries[i] == quoted_ident(names[i])
}

/// Whether a list of texts sets each column to its own value.
pub open spec fn set_each(entries: Seq<Seq<char>>, updates: Seq<(Seq<char>, Seq<char>)>) -> bool {
    entries.len() == updates.len() && forall|i: int|
        0 <= i < updates.len() ==> #[trigger] entries[i] == quoted_ident(updates[i].0) + " = "@ + updates[i].1
}

/// An upsert inserts every value under its own column, in order, and on a conflict sets every
/// assigned column to the value of its own assignment, in order.
pub proof fn upserts_keep_columns_and_values(
    table: Seq<char>,
    columns: Seq<Seq<char>>,
    values: Seq<Seq<char>>,
    updates: Seq<(Seq<char>, Seq<char>)>,
)
    ensures
        upsert(table, columns, values, updates) is Ok <==> (columns.len() > 0 && columns.len() == values.len()
            && updates.len() > 0),
        columns.len() > 0 && columns.len() == values.len() && updates.len() > 0 ==> exists|
            names: Seq<Seq<char>>,
            sets: Seq<Seq<char>>,
            target: Seq<char>,
        |
            #![trigger are_quoted(names, columns), set_each(sets, updates), quoted_ident(target)]
            {
                &&& are_quoted(names, columns)
                &&& set_each(sets, updates)
                &&& columns.contains(target)
                &&& upsert(table, columns, values, updates)->Ok_0 is Some
                &&& upsert(table, columns, values, updates)->Ok_0->Some_0.0 == "INSERT INTO "@ + quoted_ident(table) + " ("@
                    + joined(names, ", "@) + ") VALUES ("@ + joined(values, ", "@) + ") ON CONFLICT ("@ + quoted_ident(
                    target,
                ) + ") DO UPDATE SET "@ + joined(sets, ", "@)
            },
{
    if columns.len() > 0 {
        conflict_targets_are_left_alone(columns, updates);
    }
    if columns.len() > 0 && columns.len() == values.len() && updates.len() > 0 {
        let names = Seq::new(columns.len(), |i: int| quoted_ident(columns[i]));
        let sets = Seq::new(updates.len(), |i: int| quoted_ident(updates[i].0) + " = "@ + updates[i].1);
        let target = conflict_target(columns, updates)->Ok_0;
        assert(are_quoted(names, columns));
        assert(set_each(sets, updates));
        assert(names =~= crate::direct::all_quoted(columns));
        assert(sets =~= crate::direct::set_clauses(updates));
        assert(columns.contains(target));
        assert(quoted_ident(target) == quoted_ident(target));
    }
}

/// Whether one of the assignments sets a column.
pub open spec fn is_assigned(column: Seq<char>, updates: Seq<(Seq<char>, Seq<char>)>) -> bool {
    exists|j: int| 0 <= j < updates.len() && same_ignoring_case((#[trigger] updates[j]).0, column)
}

proof fn lemma_conflict_column(columns: Seq<Seq<char>>, updates: Seq<(Seq<char>, Seq<char>)>, i: int)
    requires
        0 <= i <= columns.len(),
        columns.len() > 0,
    ensures
        ({
            let c = conflict_column(columns, updates, i);
            ||| exists|k: int|
                i <= k < columns.len() && c == #[trigger] columns[k] && !is_assigned(columns[k], updates) && forall|j: int|
                    i <= j < k ==> is_assigned(#[trigger] columns[j], updates)
            ||| c == columns[0] && forall|j: int| i <= j < columns.len() ==> is_assigned(#[trigger] columns[j], updates)
        }),
    decreases columns.len() - i,
{
    if i < columns.len() {
        if crate::direct::untouched(columns[i], updates) {
            assert(!is_assigned(columns[i], updates));
            assert(conflict_column(columns, updates, i) == columns[i]);
        } else {
            assert(is_assigned(columns[i], updates));
            lemma_conflict_column(columns, updates, i + 1);
            let c = conflict_column(columns, updates, i + 1);
            if exists|k: int|
                i + 1 <= k < columns.len() && c == #[trigger] columns[k] && !is_assigned(columns[k], updates)
                    && forall|j: int| i + 1 <= j < k ==> is_assigned(#[trigger] columns[j], updates) {
                let k = choose|k: int|
                    i + 1 <= k < columns.len() && c == #[trigger] columns[k] && !is_assigned(columns[k], updates)
                        && forall|j: int| i + 1 <= j < k ==> is_assigned(#[trigger] columns[j], updates);
                assert(forall|j: int| i <= j < k ==> is_assigned(#[trigger] columns[j], updates));
            }
        }
    }
}

/// The column that an upsert conflicts on is the first that no assignment sets. Where every
/// column is set, or there is only one, it is the first.
pub proof fn conflict_targets_are_left_alone(columns: Seq<Seq<char>>, updates: Seq<(Seq<char>, Seq<char>)>)
    requires
        columns.len() > 0,
    ensures
        conflict_target(columns, updates) is Ok,
        columns.contains(conflict_target(columns, updates)->Ok_0),
        columns.len() > 1 ==> ({
            let c = conflict_target(columns, updates)->Ok_0;
            ||| exists|k: int|
                0 <= k < columns.len() && c == #[trigger] columns[k] && !is_assigned(columns[k], updates) && forall|j: int|
                    0 <= j < k ==> is_assigned(#[trigger] columns[j], updates)
            ||| c == columns[0] && forall|j: int| 0 <= j < columns.len() ==> is_assigned(#[trigger] columns[j], updates)
        }),
        columns.len() == 1 ==> conflict_target(columns, updates)->Ok_0 == columns[0],
{
    lemma_conflict_column(columns, updates, 0);
    assert(columns.contains(columns[0]));
}

proof fn lemma_plain_name_trimmed(name: Seq<char>, blank: Seq<char>)
    requires
        is_plain_name(name),
        blank == Seq::<char>::empty() || blank == seq![' '],
    ensures
        trimmed(name + blank) == name,
        identifier_token(name + blank) == Ok::<Seq<char>, Failure>(name),
{
    let s = name + blank;
    assert(s[0] == name[0]);
    assert(trimmed_start(s) == s);
    if blank.len() > 0 {
        assert(s.last() == ' ');
        assert(s.drop_last() =~= name);
    } else {
        assert(s =~= name);
    }
    assert(crate::text::is_word(name[name.len() - 1]));
    assert(trimmed_end(name) == name);
    assert(trimmed_end(s) == name);
}

/// A column that is set is read as it is written in front of the first equals sign, with or
/// without backticks, and its value as it is written behind it.
pub proof fn assignments_are_read_as_written(name: Seq<char>, value: Seq<char>)
    requires
        is_plain_name(name),
    ensures
        update_assignment(name + " = "@ + value) == Ok::<(Seq<char>, Seq<char>), Failure>(
            (name, with_postgres_literals(trimmed(value))),
        ),
        update_assignment("`"@ + name + "` = "@ + value) == Ok::<(Seq<char>, Seq<char>), Failure>(
            (name, with_postgres_literals(trimmed(value))),
        ),
{
    reveal_strlit(" = ");
    reveal_strlit("`");
    reveal_strlit("` = ");
    let blanked = seq![' '] + value;
    assert(blanked[0] == ' ');
    assert(blanked.skip(1) =~= value);
    assert(trimmed(blanked) == trimmed(value));
    let p = seq!['='];
    let s = name + " = "@ + value;
    let k = name.len() as int + 1;
    assert forall|i: int| 0 <= i < k implies !#[trigger] occurs_at(s, p, i) by {
        assert(s.subrange(i, i + 1)[0] == s[i]);
        if i < name.len() {
            assert(crate::text::is_word(name[i]));
        }
    }
    assert(s.subrange(k, k + 1) =~= p);
    lemma_find_first(s, p, 0, k);
    assert(s.take(k) =~= name + seq![' ']);
    lemma_plain_name_trimmed(name, seq![' ']);
    assert(s.skip(k + 1) =~= blanked);

    let t = "`"@ + name + "` = "@ + value;
    let m = name.len() as int + 3;
    assert forall|i: int| 0 <= i < m implies !#[trigger] occurs_at(t, p, i) by {
        assert(t.subrange(i, i + 1)[0] == t[i]);
        if 0 < i <= name.len() {
            assert(crate::text::is_word(name[i - 1]));
        }
    }
    assert(t.subrange(m, m + 1) =~= p);
    lemma_find_first(t, p, 0, m);
    let ticked = seq!['`'] + name + seq!['`'];
    let head = ticked + seq![' '];
    assert(t.take(m) =~= head);
    assert(trimmed_start(head) == head);
    assert(head.drop_last() =~= ticked);
    assert(trimmed_end(ticked) == ticked);
    assert(trimmed(head) == ticked);
    assert(ticked.subrange(1, ticked.len() - 1) =~= name);
    assert(t.skip(m + 1) =~= blanked);
}

/// As many assignments are read as are written, each of them from its own place.
pub proof fn assignments_keep_their_places(parts: Seq<Seq<char>>)
    ensures
        update_assignments(parts) matches Ok(v) ==> v.len() == parts.len() && forall|i: int|
            0 <= i < parts.len() ==> update_assignment(#[trigger] parts[i]) == Ok::<(Seq<char>, Seq<char>), Failure>(v[i]),
        update_assignments(parts) is Err ==> exists|i: int|
            0 <= i < parts.len() && update_assignment(#[trigger] parts[i]) is Err,
    decreases parts.len(),
{
    if parts.len() > 0 {
        let n = parts.len() - 1;
        assignments_keep_their_places(parts.drop_last());
        assert forall|i: int| 0 <= i < n implies #[trigger] parts.drop_last()[i] == parts[i] by {}
        assert(parts.last() == parts[n]);
        match update_assignments(parts) {
            Ok(v) => {
                let before = update_assignments(parts.drop_last())->Ok_0;
                assert forall|i: int| 0 <= i < parts.len() implies update_assignment(#[trigger] parts[i]) == Ok::<
                    (Seq<char>, Seq<char>),
                    Failure,
                >(v[i]) by {
                    if i < n {
                        assert(parts.drop_last()[i] == parts[i]);
                        assert(v[i] == before[i]);
                    }
                }
            },
            Err(_) => {
                if update_assignments(parts.drop_last()) is Err {
                    let i = choose|i: int|
                        0 <= i < n && update_assignment(#[trigger] parts.drop_last()[i]) is Err;
                    assert(update_assignment(parts[i]) is Err);
                } else {
                    assert(update_assignment(parts[n]) is Err);
                }
            },
        }
    }
}

/// As many names are read as are written, each of them from its own place.
pub proof fn names_keep_their_places(parts: Seq<Seq<char>>)
    ensures
        identifier_tokens(parts) matches Ok(v) ==> v.len() == parts.len() && forall|i: int|
            0 <= i < parts.len() ==> identifier_token(#[trigger] parts[i]) == Ok::<Seq<char>, Failure>(v[i]),
    decreases parts.len(),
{
    if parts.len() > 0 && identifier_tokens(parts) is Ok {
        let n = parts.len() - 1;
        names_keep_their_places(parts.drop_last());
        let v = identifier_tokens(parts)->Ok_0;
        let before = identifier_tokens(parts.drop_last())->Ok_0;
        assert forall|i: int| 0 <= i < parts.len() implies identifier_token(#[trigger] parts[i]) == Ok::<
            Seq<char>,
            Failure,
        >(v[i]) by {
            if i < n {
                assert(parts.drop_last()[i] == parts[i]);
                assert(v[i] == before[i]);
            } else {
                assert(parts.last() == parts[n]);
            }
        }
    }
}

/// A name is read without the quotes that it is written in, whatever it holds.
pub proof fn quoted_names_are_read(name: Seq<char>, q: char)
    requires
        q == '`' || q == '"',
    ensures
        identifier_token(seq![q] + name + seq![q]) == Ok::<Seq<char>, Failure>(name),
{
    let s = seq![q] + name + seq![q];
    assert(s[0] == q && s.last() == q);
    assert(trimmed_start(s) == s);
    assert(trimmed_end(s) == s);
    assert(s.subrange(1, s.len() - 1) =~= name);
}

/// The columns, values and assignments of an upsert come from the three lists of its text, in
/// that order.
pub proof fn upserts_take_their_lists(
    table: Seq<char>,
    columns: Seq<char>,
    values: Seq<char>,
    updates: Seq<char>,
)
    ensures
        upsert_of(table, columns, values, updates) is Ok ==> {
            &&& csv(columns) is Ok && csv(values) is Ok && csv(updates) is Ok
            &&& identifier_tokens(csv(columns)->Ok_0) is Ok
            &&& update_assignments(csv(updates)->Ok_0) is Ok
            &&& upsert_of(table, columns, values, updates) == upsert(
                table,
                identifier_tokens(csv(columns)->Ok_0)->Ok_0,
                values_normalized(csv(values)->Ok_0),
                update_assignments(csv(updates)->Ok_0)->Ok_0,
            )
        },
        csv(values) matches Ok(vs) ==> values_normalized(vs).len() == vs.len() && forall|i: int|
            0 <= i < vs.len() ==> #[trigger] values_normalized(vs)[i] == with_postgres_literals(vs[i]),
{
}

proof fn lemma_unquoted_kept(s: Seq<char>, i: int)
    requires
        0 <= i <= s.len(),
        lacks(s, '\''),
        lacks(s, '"'),
    ensures
        literals_from(s, i) == s.skip(i),
    decreases s.len() - i,
{
    if i < s.len() {
        lemma_unquoted_kept(s, i + 1);
        assert(seq![s[i]] + s.skip(i + 1) =~= s.skip(i));
    } else {
        assert(s.skip(i) =~= Seq::<char>::empty());
    }
}

proof fn lemma_plain_literal(s: Seq<char>, v: Seq<char>, i: int, q: char)
    requires
        s == seq![q] + v + seq![q],
        1 <= i <= v.len() + 1,
        lacks(v, q),
        lacks(v, '\\'),
        q != '\\',
    ensures
        after_quote(s, i, q) == s.len(),
        quoted_value(s, i, q) == v.skip(i - 1),
    decreases s.len() - i,
{
    if i <= v.len() {
        assert(s[i] == v[i - 1]);
        lemma_plain_literal(s, v, i + 1, q);
        assert(seq![v[i - 1]] + v.skip(i) =~= v.skip(i - 1));
    } else {
        assert(s[i] == q);
        assert(v.skip(i - 1) =~= Seq::<char>::empty());
    }
}

/// A value without quotes is passed on as it is, and a string, in either quotes, as the string
/// literal of the same text.
pub proof fn values_keep_their_text(v: Seq<char>, q: char)
    requires
        q == '\'' || q == '"',
    ensures
        lacks(v, '\'') && lacks(v, '"') ==> with_postgres_literals(v) == v,
        lacks(v, q) && lacks(v, '\\') ==> with_postgres_literals(seq![q] + v + seq![q]) == "'"@ + replaced_char(
            v,
            '\'',
            "''"@,
        ) + "'"@,
{
    if lacks(v, '\'') && lacks(v, '"') {
        lemma_unquoted_kept(v, 0);
        assert(v.skip(0) =~= v);
    }
    if lacks(v, q) && lacks(v, '\\') {
        let s = seq![q] + v + seq![q];
        assert(s[0] == q);
        lemma_plain_literal(s, v, 1, q);
        assert(v.skip(0) =~= v);
        assert(literals_from(s, s.len() as int) =~= Seq::<char>::empty());
        assert(with_postgres_literals(s) =~= string_literal(v));
    }
}

/// A row that MySQL would leave out on a conflict is inserted with ON CONFLICT DO NOTHING, and
/// everything else about the insert stays but for the query that it may take its rows from.
pub proof fn ignored_conflicts_do_nothing(insert: Tree)
    requires
        part(insert, "ignore"@) == Tree::Bool(true),
        field(insert, "on"@) is Some,
        !present(part(insert, "on"@)),
    ensures
        exists|u: Tree| #![trigger written(tagged("Insert"@, u))]
            {
                &&& insert_translation(insert) is Ok ==> written(tagged("Insert"@, u)) is Ok && insert_translation(
                    insert,
                )->Ok_0.0 == written(tagged("Insert"@, u))->Ok_0
                &&& written(tagged("Insert"@, u)) is Ok ==> insert_translation(insert) is Ok
                &&& part(u, "ignore"@) == Tree::Bool(false)
                &&& (payload(part(u, "on"@), "OnConflict"@) matches Some(c) && part(c, "action"@) == Tree::Text(
                    "DoNothing"@,
                ) && !present(part(c, "conflict_target"@)))
                &&& forall|key: Seq<char>|
                    key != "ignore"@ && key != "on"@ && key != "source"@ ==> #[trigger] field(u, key) == field(insert, key)
            },
{
    reveal_strlit("ignore");
    reveal_strlit("on");
    reveal_strlit("source");
    reveal_strlit("action");
    reveal_strlit("conflict_target");
    assert("ignore"@.len() != "on"@.len());
    assert("source"@.len() != "on"@.len());
    assert("source"@[0] != "ignore"@[0]);
    assert("action"@.len() != "conflict_target"@.len());
    let fixed = source_fixed(insert);
    let source = crate::query::compatible_query(part(insert, "source"@));
    changed_parts_are_read(insert, "source"@, source, "ignore"@);
    changed_parts_are_read(insert, "source"@, source, "on"@);
    let a = crate::tree::with_field(fixed, "ignore"@, Tree::Bool(false));
    changed_parts_are_read(fixed, "ignore"@, Tree::Bool(false), "on"@);
    let conflict = crate::statement::do_nothing();
    let u = crate::tree::with_field(a, "on"@, conflict);
    changed_parts_are_read(a, "on"@, conflict, "ignore"@);
    assert forall|key: Seq<char>| key != "ignore"@ && key != "on"@ && key != "source"@ implies #[trigger] field(u, key)
        == field(insert, key) by {
        changed_parts_are_read(insert, "source"@, source, key);
        changed_parts_are_read(fixed, "ignore"@, Tree::Bool(false), key);
        changed_parts_are_read(a, "on"@, conflict, key);
    }
    let c = payload(conflict, "OnConflict"@)->Some_0;
    reveal_with_fuel(crate::tree::first_field, 3);
    assert(part(c, "action"@) == Tree::Text("DoNothing"@));
    assert(!present(part(c, "conflict_target"@)));
    assert(field(insert, "ignore"@) is Some);
    assert(field(u, "ignore"@) == Some(Tree::Bool(false)));
    assert(field(u, "on"@) == Some(conflict));
    assert(insert_translation(insert) is Ok <==> written(tagged("Insert"@, u)) is Ok);
    assert(written(tagged("Insert"@, u)) == written(tagged("Insert"@, u)));
}

/// An insert without IGNORE stays as it is, but for the query that it may take its rows from.
pub proof fn plain_inserts_are_kept(insert: Tree, key: Seq<char>)
    requires
        part(insert, "ignore"@) != Tree::Bool(true),
        key != "source"@,
    ensures
        exists|u: Tree| #![trigger written(tagged("Insert"@, u))]
            {
                &&& insert_translation(insert) is Ok ==> written(tagged("Insert"@, u)) is Ok && insert_translation(
                    insert,
                )->Ok_0.0 == written(tagged("Insert"@, u))->Ok_0
                &&& written(tagged("Insert"@, u)) is Ok ==> insert_translation(insert) is Ok
                &&& field(u, key) == field(insert, key)
            },
        payload(part(part(insert, "source"@), "body"@), "Values"@) is Some ==> insert_translation(insert) is Ok ==> written(
            tagged("Insert"@, insert),
        ) is Ok && insert_translation(insert)->Ok_0.0 == written(tagged("Insert"@, insert))->Ok_0,
{
    let source = crate::query::compatible_query(part(insert, "source"@));
    changed_parts_are_read(insert, "source"@, source, key);
    let u = source_fixed(insert);
    assert(written(tagged("Insert"@, u)) == written(tagged("Insert"@, u)));
}

/// An update sets as many columns as are written, each to its own value, and the name of each
/// column stays, without the table in front of it.
pub proof fn updates_keep_their_assignments(update: Tree, i: int)
    requires
        field(update, "assignments"@) is Some,
        part(update, "assignments"@) is List,
        0 <= i < items(part(update, "assignments"@)).len(),
    ensures
        ({
            let before = items(part(update, "assignments"@));
            let after = items(part(bare_update(update), "assignments"@));
            &&& after.len() == before.len()
            &&& part(after[i], "value"@) == part(before[i], "value"@)
            &&& payload(part(before[i], "target"@), "ColumnName"@) is Some ==> {
                let name = items(payload(part(before[i], "target"@), "ColumnName"@)->Some_0);
                let kept = items(payload(part(after[i], "target"@), "ColumnName"@)->Some_0);
                &&& payload(part(after[i], "target"@), "ColumnName"@) is Some
                &&& name.len() > 0 ==> kept.len() == 1 && kept[0] == name.last()
            }
        }),
        forall|key: Seq<char>| key != "assignments"@ ==> #[trigger] part(bare_update(update), key) == part(update, key),
{
    reveal_strlit("value");
    reveal_strlit("target");
    assert("value"@.len() != "target"@.len());
    let list = part(update, "assignments"@);
    let new = crate::exprs::mapped_list(list, |t: Tree| bare_assignment(t));
    changed_parts_are_read(update, "assignments"@, new, "assignments"@);
    let before = items(list);
    let after = items(part(bare_update(update), "assignments"@));
    assert(after[i] == bare_assignment(before[i]));
    match payload(part(before[i], "target"@), "ColumnName"@) {
        Some(name) => {
            let target = tagged("ColumnName"@, crate::statement::unqualified(name));
            changed_parts_are_read(before[i], "target"@, target, "value"@);
            assert(field(before[i], "target"@) is Some);
        },
        None => {},
    }
    assert forall|key: Seq<char>| key != "assignments"@ implies #[trigger] part(bare_update(update), key) == part(
        update,
        key,
    ) by {
        changed_parts_are_read(update, "assignments"@, new, key);
    }
}

} // verus!
