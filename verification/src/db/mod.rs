//! Database layer: the statements the service builds itself, the column
//! types, and the repositories whose queries the application runs.

pub mod types;
pub mod projects;
pub mod records;
pub mod repositories;

use vstd::prelude::*;

verus! {

/// `s` with every `'` doubled, as `str::replace("'", "''")` gives it.
pub open spec fn double_quotes(s: Seq<char>) -> Seq<char>
    decreases s.len(),
{
    if s.len() == 0 {
        Seq::<char>::empty()
    } else if s[0] == '\'' {
        seq!['\'', '\''] + double_quotes(s.drop_first())
    } else {
        seq![s[0]] + double_quotes(s.drop_first())
    }
}

/// The statement that sets the password of the `electric_sync` role, with the
/// password embedded as a quoted SQL literal.
pub open spec fn electric_role_password_sql(password: Seq<char>) -> Seq<char> {
    "ALTER ROLE electric_sync WITH PASSWORD '"@ + double_quotes(password) + "'"@
}

/// Reads the rest of a SQL string literal whose opening quote has been read:
/// `''` stands for one quote and a lone `'` closes the literal. Gives the
/// literal's value and the text after its closing quote.
pub open spec fn read_quoted(t: Seq<char>) -> Option<(Seq<char>, Seq<char>)>
    decreases t.len(),
{
    if t.len() == 0 {
        None
    } else if t[0] == '\'' {
        if t.len() >= 2 && t[1] == '\'' {
            match read_quoted(t.subrange(2, t.len() as int)) {
                Some((v, rest)) => Some((seq!['\''] + v, rest)),
                None => None,
            }
        } else {
            Some((Seq::<char>::empty(), t.drop_first()))
        }
    } else {
        match read_quoted(t.drop_first()) {
            Some((v, rest)) => Some((seq![t[0]] + v, rest)),
            None => None,
        }
    }
}

/// Doubling quotes distributes over concatenation.
pub proof fn lemma_double_quotes_append(a: Seq<char>, b: Seq<char>)
    ensures
        double_quotes(a + b) == double_quotes(a) + double_quotes(b),
    decreases a.len(),
{
    if a.len() == 0 {
        assert(a + b =~= b);
        assert(double_quotes(a) =~= Seq::<char>::empty());
        assert(Seq::<char>::empty() + double_quotes(b) =~= double_quotes(b));
    } else {
        lemma_double_quotes_append(a.drop_first(), b);
        assert((a + b).drop_first() =~= a.drop_first() + b);
        assert((a + b)[0] == a[0]);
        if a[0] == '\'' {
            assert(seq!['\'', '\''] + (double_quotes(a.drop_first()) + double_quotes(b)) =~= (seq![
                '\'',
                '\'',
            ] + double_quotes(a.drop_first())) + double_quotes(b));
        } else {
            assert(seq![a[0]] + (double_quotes(a.drop_first()) + double_quotes(b)) =~= (seq![a[0]]
                + double_quotes(a.drop_first())) + double_quotes(b));
        }
    }
}

/// A quoted literal made by doubling the quotes of `p` reads back as `p`, and
/// closes where the text after it begins, unless that text starts with a quote.
pub proof fn lemma_read_quoted_double_quotes(p: Seq<char>, rest: Seq<char>)
    requires
        rest.len() == 0 || rest[0] != '\'',
    ensures
        read_quoted(double_quotes(p) + seq!['\''] + rest) == Some((p, rest)),
    decreases p.len(),
{
    let t = double_quotes(p) + seq!['\''] + rest;
    if p.len() == 0 {
        assert(double_quotes(p) =~= Seq::<char>::empty());
        assert(t =~= seq!['\''] + rest);
        assert(t.drop_first() =~= rest);
        assert(p =~= Seq::<char>::empty());
    } else {
        let q = p.drop_first();
        lemma_read_quoted_double_quotes(q, rest);
        let u = double_quotes(q) + seq!['\''] + rest;
        if p[0] == '\'' {
            assert(t =~= seq!['\'', '\''] + u);
            assert(t.subrange(2, t.len() as int) =~= u);
            assert(seq!['\''] + q =~= p);
        } else {
            assert(t =~= seq![p[0]] + u);
            assert(t.drop_first() =~= u);
            assert(seq![p[0]] + q =~= p);
        }
    }
}

/// The password set by the statement is exactly the value of its string
/// literal, and that literal closes at the very end of the statement: no part
/// of the password is read as SQL.
pub proof fn lemma_electric_role_password_literal(password: Seq<char>)
    ensures
        ({
            let prefix = "ALTER ROLE electric_sync WITH PASSWORD '"@;
            let sql = electric_role_password_sql(password);
            &&& sql.subrange(0, prefix.len() as int) == prefix
            &&& read_quoted(sql.subrange(prefix.len() as int, sql.len() as int)) == Some(
                (password, Seq::<char>::empty()),
            )
        }),
{
    let prefix = "ALTER ROLE electric_sync WITH PASSWORD '"@;
    let sql = electric_role_password_sql(password);
    reveal_strlit("'");
    lemma_read_quoted_double_quotes(password, Seq::<char>::empty());
    assert(sql.subrange(0, prefix.len() as int) =~= prefix);
    assert(sql.subrange(prefix.len() as int, sql.len() as int) =~= double_quotes(password)
        + seq!['\''] + Seq::<char>::empty());
}

/// Calls `String::push`, which appends one character to the end of the
/// string. Claimed: the string afterwards is the one before followed by `c`.
#[verifier::external_body]
fn push_char(s: &mut String, c: char)
    ensures
        final(s)@ == old(s)@.push(c),
{
    s.push(c);
}

/// The statement that sets the `electric_sync` role's password, or `None` when
/// the password is empty and nothing is to be set.
pub fn electric_role_password_statement(password: &str) -> (r: Option<String>)
    ensures
        match r {
            Some(sql) => password@.len() > 0 && sql@ == electric_role_password_sql(password@),
            None => password@.len() == 0,
        },
{
    if password.is_empty() {
        return None;
    }
    let mut sql = String::from_str("ALTER ROLE electric_sync WITH PASSWORD '");
    for c in it: password.chars()
        invariant
            it.seq() == password@,
            sql@ == "ALTER ROLE electric_sync WITH PASSWORD '"@ + double_quotes(
                password@.take(it.index() as int),
            ),
    {
        let ghost i = it.index();
        proof {
            let s = password@.take(i as int);
            assert(password@.take(i + 1) =~= s + seq![c]);
            lemma_double_quotes_append(s, seq![c]);
            assert(seq![c].drop_first() =~= Seq::<char>::empty());
            assert(double_quotes(Seq::<char>::empty()) =~= Seq::<char>::empty());
            assert(double_quotes(seq![c]) == if c == '\'' {
                seq!['\'', '\''] + double_quotes(Seq::<char>::empty())
            } else {
                seq![c] + double_quotes(Seq::<char>::empty())
            });
        }
        if c == '\'' {
            push_char(&mut sql, '\'');
            push_char(&mut sql, '\'');
            assert(double_quotes(seq![c]) =~= seq!['\'', '\''] + Seq::<char>::empty());
        } else {
            push_char(&mut sql, c);
            assert(double_quotes(seq![c]) =~= seq![c] + Seq::<char>::empty());
        }
    }
    sql.append("'");
    assert(password@.take(password@.len() as int) =~= password@);
    Some(sql)
}

} // verus!
