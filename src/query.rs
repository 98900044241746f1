use vstd::prelude::*;
use vstd::string::StringExecFns;

use crate::error::SurrealError;
use crate::iter::SnapshotIter;

verus! {

/// `parts`, with `sep` between each two of them.
pub open spec fn join_spec(parts: Seq<Seq<char>>, sep: Seq<char>) -> Seq<char>
    decreases parts.len(),
{
    if parts.len() == 0 {
        Seq::empty()
    } else if parts.len() == 1 {
        parts[0]
    } else {
        join_spec(parts.drop_last(), sep) + sep + parts.last()
    }
}

/// The views of a vector of strings.
pub open spec fn texts(v: Seq<String>) -> Seq<Seq<char>> {
    v.map_values(|s: String| s@)
}

/// The character of decimal digit `d`.
pub open spec fn digit_char(d: nat) -> char {
    if d == 0 { '0' }
    else if d == 1 { '1' }
    else if d == 2 { '2' }
    else if d == 3 { '3' }
    else if d == 4 { '4' }
    else if d == 5 { '5' }
    else if d == 6 { '6' }
    else if d == 7 { '7' }
    else if d == 8 { '8' }
    else { '9' }
}

/// The decimal digits of `n`, most significant first, without leading zeros.
pub open spec fn digits(n: nat) -> Seq<char>
    decreases n,
{
    if n < 10 {
        seq![digit_char(n)]
    } else {
        digits(n / 10).push(digit_char(n % 10))
    }
}

/// The decimal text of `n`, with a leading `-` when it is negative.
pub open spec fn decimal_text(n: int) -> Seq<char> {
    if n < 0 {
        seq!['-'] + digits((-n) as nat)
    } else {
        digits(n as nat)
    }
}

/// The text of decimal digit `d`.
fn digit_text(d: u8) -> (r: &'static str)
    requires
        d < 10,
    ensures
        r@ == seq![digit_char(d as nat)],
{
    proof {
        reveal_strlit("0");
        reveal_strlit("1");
        reveal_strlit("2");
        reveal_strlit("3");
        reveal_strlit("4");
        reveal_strlit("5");
        reveal_strlit("6");
        reveal_strlit("7");
        reveal_strlit("8");
        reveal_strlit("9");
    }
    if d == 0 { "0" }
    else if d == 1 { "1" }
    else if d == 2 { "2" }
    else if d == 3 { "3" }
    else if d == 4 { "4" }
    else if d == 5 { "5" }
    else if d == 6 { "6" }
    else if d == 7 { "7" }
    else if d == 8 { "8" }
    else { "9" }
}

/// Appends the decimal digits of `n` to `s`.
fn push_digits(s: &mut String, n: u128)
    ensures
        final(s)@ == old(s)@ + digits(n as nat),
    decreases n,
{
    if n >= 10 {
        push_digits(s, n / 10);
    }
    s.append(digit_text((n % 10) as u8));
    proof {
        if n >= 10 {
            assert(final(s)@ =~= old(s)@ + digits(n as nat));
        } else {
            assert(digits(n as nat) == seq![digit_char(n as nat)]);
        }
    }
}

/// The decimal text of `n`, with a leading `-` when it is negative.
fn int_text(n: i128) -> (r: String)
    ensures
        r@ == decimal_text(n as int),
{
    proof {
        reveal_strlit("");
        reveal_strlit("-");
    }
    if n < 0 {
        let mut r = "-".to_owned();
        let magnitude: u128 = (-(n + 1)) as u128 + 1;
        push_digits(&mut r, magnitude);
        r
    } else {
        let mut r = "".to_owned();
        push_digits(&mut r, n as u128);
        assert(r@ =~= digits(n as nat));
        r
    }
}

/// The strings of `parts`, with `sep` between each two of them.
pub fn join(parts: &Vec<String>, sep: &str) -> (r: String)
    ensures
        r@ == join_spec(texts(parts@), sep@),
{
    let mut r = "".to_owned();
    proof {
        reveal_strlit("");
    }
    let mut i: usize = 0;
    while i < parts.len()
        invariant
            i <= parts@.len(),
            r@ == join_spec(texts(parts@).take(i as int), sep@),
        decreases parts@.len() - i,
    {
        let ghost all = texts(parts@);
        proof {
            assert(all.take(i as int + 1).drop_last() =~= all.take(i as int));
            assert(all.take(i as int + 1).last() == parts@[i as int]@);
        }
        if i > 0 {
            r.append(sep);
        } else {
            assert(all.take(0) =~= Seq::<Seq<char>>::empty());
            assert(r@ =~= Seq::<char>::empty());
        }
        r.append(parts[i].as_str());
        proof {
            if i == 0 {
                assert(r@ =~= all.take(1)[0]);
            }
        }
        i = i + 1;
    }
    proof {
        assert(texts(parts@).take(parts@.len() as int) =~= texts(parts@));
    }
    r
}

/// The clause keyword for an update kind: 1 is `CONTENT`, 2 is `MERGE`,
/// 3 is `PATCH`; any other kind is refused.
pub open spec fn up_keyword(up_type: int) -> Option<Seq<char>> {
    if up_type == 1 {
        Some("CONTENT"@)
    } else if up_type == 2 {
        Some("MERGE"@)
    } else if up_type == 3 {
        Some("PATCH"@)
    } else {
        None
    }
}

/// The clause keyword for the update kind `up_type`.
pub fn convert_up_type(up_type: i32) -> (r: Result<&'static str, SurrealError>)
    ensures
        match up_keyword(up_type as int) {
            Some(kw) => r matches Ok(s) && s@ == kw,
            None => r matches Err(SurrealError::SurrealDBJni(m))
                && m@ == "Unexpected up type: "@ + decimal_text(up_type as int),
        },
{
    if up_type == 1 {
        Ok("CONTENT")
    } else if up_type == 2 {
        Ok("MERGE")
    } else if up_type == 3 {
        Ok("PATCH")
    } else {
        let mut m = "Unexpected up type: ".to_owned();
        let n = int_text(up_type as i128);
        m.append(n.as_str());
        Err(SurrealError::SurrealDBJni(m))
    }
}

/// The failure raised when the engine answers with a shape the bridge did
/// not expect; `rendered` is the answer's query-language text.
pub fn unexpected_result(rendered: &str) -> (r: SurrealError)
    ensures
        r matches SurrealError::SurrealDBJni(m) && m@ == "Unexpected result: "@ + rendered@,
{
    let mut m = "Unexpected result: ".to_owned();
    m.append(rendered);
    SurrealError::SurrealDBJni(m)
}

/// The failure raised when a target expression does not name a table;
/// `rendered` is the expression's query-language text.
pub fn not_a_table(rendered: &str) -> (r: SurrealError)
    ensures
        r matches SurrealError::SurrealDBJni(m) && m@ == "The expression is not a table: "@ + rendered@,
{
    let mut m = "The expression is not a table: ".to_owned();
    m.append(rendered);
    SurrealError::SurrealDBJni(m)
}

/// The one row of a single-record statement: `rows` is the statement's
/// result when it is an array (`None` when it is not). Anything but exactly
/// one row is refused.
pub fn single_row<V>(rows: Option<Vec<V>>) -> (r: Option<V>)
    ensures
        match rows {
            Some(v) => if v@.len() == 1 { r == Some(v@[0]) } else { r is None },
            None => r is None,
        },
{
    match rows {
        Some(mut v) => {
            if v.len() == 1 {
                v.pop()
            } else {
                None
            }
        },
        None => None,
    }
}

/// `prefix` followed by the decimal text of `idx`: the name of the
/// `idx`-th bound parameter of a batch statement.
pub fn param_name(prefix: &str, idx: usize) -> (r: String)
    ensures
        r@ == prefix@ + decimal_text(idx as int),
{
    let mut r = prefix.to_owned();
    let n = int_text(idx as i128);
    r.append(n.as_str());
    r
}

/// The names `prefix + "0"`, `prefix + "1"`, ... of `n` bound parameters.
pub open spec fn param_names(prefix: Seq<char>, n: nat) -> Seq<Seq<char>> {
    Seq::new(n, |i: int| prefix + decimal_text(i))
}

/// The names of `n` bound parameters, in order.
pub fn param_names_of(prefix: &str, n: usize) -> (r: Vec<String>)
    ensures
        texts(r@) == param_names(prefix@, n as nat),
{
    let mut r: Vec<String> = Vec::new();
    let mut i: usize = 0;
    while i < n
        invariant
            i <= n,
            texts(r@) == param_names(prefix@, i as nat),
        decreases n - i,
    {
        let name = param_name(prefix, i);
        let ghost before = r@;
        r.push(name);
        proof {
            assert(r@ =~= before.push(name));
            assert(texts(r@) =~= texts(before).push(name@));
            assert(texts(r@) =~= param_names(prefix@, (i + 1) as nat));
        }
        i = i + 1;
    }
    r
}

/// `SELECT * FROM` over the targets, separated by commas.
pub fn select_query(targets: &Vec<String>) -> (r: String)
    ensures
        r@ == "SELECT * FROM "@ + join_spec(texts(targets@), ","@),
{
    let mut r = "SELECT * FROM ".to_owned();
    let list = join(targets, ",");
    r.append(list.as_str());
    r
}

/// Creates one record at `target` with the bound parameter `$val` as content.
pub fn create_query(target: &str) -> (r: String)
    ensures
        r@ == "CREATE "@ + target@ + " CONTENT $val"@,
{
    let mut r = "CREATE ".to_owned();
    r.append(target);
    r.append(" CONTENT $val");
    r
}

/// One `CREATE` statement per record into `table`, the i-th with the bound
/// parameter `$i<i>` as content, separated by `;` and a line break.
pub fn create_targets_query(table: &str, n: usize) -> (r: String)
    ensures
        r@ == join_spec(
            Seq::new(n as nat, |i: int| "CREATE "@ + table@ + " CONTENT "@ + "$i"@ + decimal_text(i)),
            ";\n"@,
        ),
{
    let mut stmts: Vec<String> = Vec::new();
    let mut i: usize = 0;
    while i < n
        invariant
            i <= n,
            texts(stmts@) == Seq::new(i as nat, |j: int| "CREATE "@ + table@ + " CONTENT "@ + "$i"@ + decimal_text(j)),
        decreases n - i,
    {
        let mut stmt = "CREATE ".to_owned();
        stmt.append(table);
        stmt.append(" CONTENT ");
        let name = param_name("$i", i);
        stmt.append(name.as_str());
        assert(stmt@ =~= "CREATE "@ + table@ + " CONTENT "@ + "$i"@ + decimal_text(i as int));
        let ghost before = stmts@;
        stmts.push(stmt);
        proof {
            assert(stmts@ =~= before.push(stmt));
            assert(texts(stmts@) =~= texts(before).push(stmt@));
            assert(texts(stmts@) =~= Seq::new((i + 1) as nat, |j: int| "CREATE "@ + table@ + " CONTENT "@ + "$i"@ + decimal_text(j)));
        }
        i = i + 1;
    }
    join(&stmts, ";\n")
}

/// `verb` (`update` or `upsert`) of `target` with the bound parameter
/// `$val`, under the clause `keyword`.
pub fn up_query(verb: &str, target: &str, keyword: &str) -> (r: String)
    ensures
        r@ == verb@ + " "@ + target@ + " "@ + keyword@ + " $val"@,
{
    let mut r = verb.to_owned();
    r.append(" ");
    r.append(target);
    r.append(" ");
    r.append(keyword);
    r.append(" $val");
    r
}

/// Inserts the rendered `records` into `table` in one statement.
pub fn insert_query(table: &str, records: &Vec<String>) -> (r: String)
    ensures
        r@ == "INSERT INTO "@ + table@ + " [ "@ + join_spec(texts(records@), " , "@) + " ]"@,
{
    let mut r = "INSERT INTO ".to_owned();
    r.append(table);
    r.append(" [ ");
    let list = join(records, " , ");
    r.append(list.as_str());
    r.append(" ]");
    r
}

/// Inserts the rendered relation `records` into `table` in one statement.
pub fn insert_relations_query(table: &str, records: &Vec<String>) -> (r: String)
    ensures
        r@ == "INSERT RELATION INTO "@ + table@ + " [ "@ + join_spec(texts(records@), " , "@) + " ]"@,
{
    let mut r = "INSERT RELATION INTO ".to_owned();
    r.append(table);
    r.append(" [ ");
    let list = join(records, " , ");
    r.append(list.as_str());
    r.append(" ]");
    r
}

/// Inserts the relation bound as `$val` into `table`.
pub fn insert_relation_query(table: &str) -> (r: String)
    ensures
        r@ == "INSERT RELATION INTO "@ + table@ + " $val"@,
{
    let mut r = "INSERT RELATION INTO ".to_owned();
    r.append(table);
    r.append(" $val");
    r
}

/// Relates the records bound as `$from` and `$to` through `table`.
pub fn relate_query(table: &str) -> (r: String)
    ensures
        r@ == "RELATE $from->"@ + table@ + "->$to"@,
{
    let mut r = "RELATE $from->".to_owned();
    r.append(table);
    r.append("->$to");
    r
}

/// Relates `$from` and `$to` through `table`, with the rendered `content`.
pub fn relate_content_query(table: &str, content: &str) -> (r: String)
    ensures
        r@ == "RELATE $from->"@ + table@ + "->$to"@ + " CONTENT "@ + content@,
{
    let mut r = relate_query(table);
    r.append(" CONTENT ");
    r.append(content);
    r
}

/// Deletes every record of `table`.
pub fn delete_target_query(table: &str) -> (r: String)
    ensures
        r@ == "DELETE FROM "@ + table@,
{
    let mut r = "DELETE FROM ".to_owned();
    r.append(table);
    r
}

/// Deletes the `n` records bound as `$t0`, `$t1`, ...
pub fn delete_things_query(n: usize) -> (r: String)
    ensures
        r@ == "DELETE "@ + join_spec(param_names("$t"@, n as nat), ","@),
{
    let names = param_names_of("$t", n);
    let mut r = "DELETE ".to_owned();
    let list = join(&names, ",");
    r.append(list.as_str());
    r
}

/// The rows of a batch of single-record statements: `results[i]` is the
/// i-th statement's result when it is an array (`None` when it is not,
/// which is passed over). Each array must hold exactly one row; the first
/// that does not is reported by its position.
pub open spec fn single_rows_spec<V>(results: Seq<Option<Vec<V>>>) -> Result<Seq<V>, int>
    decreases results.len(),
{
    if results.len() == 0 {
        Ok(Seq::empty())
    } else {
        match single_rows_spec(results.drop_last()) {
            Err(i) => Err(i),
            Ok(prev) => match results.last() {
                None => Ok(prev),
                Some(v) => if v@.len() == 1 {
                    Ok(prev.push(v@[0]))
                } else {
                    Err(results.len() - 1)
                },
            },
        }
    }
}

/// The rows of a batch of single-record statements, in statement order; on
/// failure, the position of the first offending statement and its rows.
pub fn collect_single_rows<V>(results: Vec<Option<Vec<V>>>) -> (r: Result<Vec<V>, (usize, Vec<V>)>)
    ensures
        match single_rows_spec(results@) {
            Ok(rows) => r matches Ok(v) && v@ == rows,
            Err(i) => r matches Err((j, v)) && j == i && results@[i] == Some(v),
        },
{
    let ghost all = results@;
    let n = results.len();
    let mut rest = SnapshotIter::new(results);
    let mut rows: Vec<V> = Vec::new();
    let mut i: usize = 0;
    while rest.has_next()
        invariant
            i + rest@.len() == all.len(),
            n == all.len(),
            all == results@,
            rest@ == all.skip(i as int),
            single_rows_spec(all.take(i as int)) == Ok::<Seq<V>, int>(rows@),
        decreases rest@.len(),
    {
        match rest.next() {
            Ok(item) => {
                proof {
                    assert(all.take(i as int + 1).drop_last() =~= all.take(i as int));
                    assert(item == all[i as int]);
                }
                match item {
                    None => {},
                    Some(mut v) => {
                        if v.len() == 1 {
                            let x = v.pop().unwrap();
                            rows.push(x);
                        } else {
                            proof {
                                assert(all.take(i as int + 1).last() == Some(v));
                                assert(single_rows_spec(all.take(i as int + 1)) == Err::<Seq<V>, int>(i as int));
                                lemma_single_rows_stops(all, i as int + 1);
                            }
                            return Err((i, v));
                        }
                    },
                }
                proof {
                    assert(rest@ =~= all.skip(i as int + 1));
                }
                i = i + 1;
            },
            Err(_) => {
                proof {
                    assert(false);
                }
            },
        }
    }
    proof {
        assert(all.take(i as int) =~= all);
    }
    Ok(rows)
}

proof fn lemma_single_rows_stops<V>(all: Seq<Option<Vec<V>>>, n: int)
    requires
        0 <= n <= all.len(),
        single_rows_spec(all.take(n)) is Err,
    ensures
        single_rows_spec(all) == single_rows_spec(all.take(n)),
    decreases all.len() - n,
{
    if n < all.len() {
        assert(all.take(n + 1).drop_last() =~= all.take(n));
        lemma_single_rows_stops(all, n + 1);
    } else {
        assert(all.take(n) =~= all);
    }
}

} // verus!
