//! SQL statement generation for the database builder API: WHERE conditions
//! with numbered placeholders, and CREATE TABLE / INSERT / SELECT / UPDATE /
//! DELETE statements. Values are carried through untouched and come out in
//! the order their placeholders are numbered.
use vstd::prelude::*;

use crate::text::{push_decimal, push_str, decimal};

verus! {

/// Column type for DDL (drivers translate to their native SQL types).
#[derive(Debug, Clone, Copy, PartialEq, Eq)]
pub enum ColumnType {
    Integer,
    Real,
    Text,
    Blob,
    Boolean,
}

/// Result of an execute call.
#[derive(Debug, Clone)]
pub struct QueryResult {
    pub rows_affected: u64,
    pub last_insert_id: Option<i64>,
}

/// ORDER BY direction.
#[derive(Debug, Clone)]
pub enum Order {
    Asc(String),
    Desc(String),
}

/// WHERE clause condition over values of type `V`.
#[derive(Debug)]
pub enum Condition<V> {
    Eq(String, V),
    NotEq(String, V),
    Gt(String, V),
    Lt(String, V),
    Gte(String, V),
    Lte(String, V),
    Like(String, V),
    In(String, Vec<V>),
    IsNull(String),
    IsNotNull(String),
    And(Vec<Condition<V>>),
    Or(Vec<Condition<V>>),
}

/// The parts joined by `sep`.
pub open spec fn join(parts: Seq<Seq<char>>, sep: Seq<char>) -> Seq<char>
    decreases parts.len(),
{
    if parts.len() == 0 {
        Seq::empty()
    } else if parts.len() == 1 {
        parts[0]
    } else {
        join(parts.drop_last(), sep) + sep + parts.last()
    }
}

/// The operator a single-value comparison writes, if `c` is one.
pub open spec fn comparison_op<V>(c: Condition<V>) -> Seq<char> {
    match c {
        Condition::Eq(..) => " = "@,
        Condition::NotEq(..) => " != "@,
        Condition::Gt(..) => " > "@,
        Condition::Lt(..) => " < "@,
        Condition::Gte(..) => " >= "@,
        Condition::Lte(..) => " <= "@,
        Condition::Like(..) => " LIKE "@,
        _ => Seq::empty(),
    }
}

/// The values a condition binds, in placeholder order.
pub open spec fn cond_params<V>(c: Condition<V>) -> Seq<V>
    decreases c,
{
    match c {
        Condition::Eq(_, v) => seq![v],
        Condition::NotEq(_, v) => seq![v],
        Condition::Gt(_, v) => seq![v],
        Condition::Lt(_, v) => seq![v],
        Condition::Gte(_, v) => seq![v],
        Condition::Lte(_, v) => seq![v],
        Condition::Like(_, v) => seq![v],
        Condition::In(_, vs) => vs@,
        Condition::IsNull(_) => Seq::empty(),
        Condition::IsNotNull(_) => Seq::empty(),
        Condition::And(cs) => children_params(cs@),
        Condition::Or(cs) => children_params(cs@),
    }
}

/// The values a list of conditions binds, in order.
pub open spec fn children_params<V>(cs: Seq<Condition<V>>) -> Seq<V>
    decreases cs,
{
    if cs.len() == 0 {
        Seq::empty()
    } else {
        cond_params(cs[0]) + children_params(cs.subrange(1, cs.len() as int))
    }
}

/// The SQL text of a condition whose first value gets placeholder
/// `ph[start]` (placeholders are numbered from 1, so `ph[k]` is number `k+1`).
pub open spec fn cond_sql<V>(c: Condition<V>, ph: Seq<Seq<char>>, start: int) -> Seq<char>
    decreases c,
{
    match c {
        Condition::In(col, vs) => col@ + " IN ("@ + join(ph.subrange(start, start + vs@.len()), ", "@) + ")"@,
        Condition::IsNull(col) => col@ + " IS NULL"@,
        Condition::IsNotNull(col) => col@ + " IS NOT NULL"@,
        Condition::And(cs) => "("@ + join(children_sql(cs@, ph, start), " AND "@) + ")"@,
        Condition::Or(cs) => "("@ + join(children_sql(cs@, ph, start), " OR "@) + ")"@,
        Condition::Eq(col, _) => col@ + comparison_op(c) + ph[start],
        Condition::NotEq(col, _) => col@ + comparison_op(c) + ph[start],
        Condition::Gt(col, _) => col@ + comparison_op(c) + ph[start],
        Condition::Lt(col, _) => col@ + comparison_op(c) + ph[start],
        Condition::Gte(col, _) => col@ + comparison_op(c) + ph[start],
        Condition::Lte(col, _) => col@ + comparison_op(c) + ph[start],
        Condition::Like(col, _) => col@ + comparison_op(c) + ph[start],
    }
}

/// The SQL texts of a list of conditions, numbering placeholders on from `start`.
pub open spec fn children_sql<V>(cs: Seq<Condition<V>>, ph: Seq<Seq<char>>, start: int) -> Seq<Seq<char>>
    decreases cs,
{
    if cs.len() == 0 {
        Seq::empty()
    } else {
        seq![cond_sql(cs[0], ph, start)] + children_sql(
            cs.subrange(1, cs.len() as int),
            ph,
            start + cond_params(cs[0]).len(),
        )
    }
}

} // verus!

verus! {

/// The characters of each string.
pub open spec fn string_views(v: Seq<String>) -> Seq<Seq<char>> {
    v.map_values(|s: String| s@)
}

/// The values behind a list of references.
pub open spec fn derefs<V>(s: Seq<&V>) -> Seq<V> {
    s.map_values(|r: &V| *r)
}

/// Binding the values of two condition lists binds those of the first, then
/// those of the second.
pub proof fn lemma_children_params_concat<V>(a: Seq<Condition<V>>, b: Seq<Condition<V>>)
    ensures
        children_params(a + b) == children_params(a) + children_params(b),
    decreases a.len(),
{
    if a.len() == 0 {
        assert(a + b =~= b);
    } else {
        lemma_children_params_concat(a.subrange(1, a.len() as int), b);
        assert((a + b).subrange(1, (a + b).len() as int) =~= a.subrange(1, a.len() as int) + b);
        assert((a + b)[0] == a[0]);
    }
}

/// The texts of two condition lists are those of the first, then those of the
/// second numbered on from where the first stopped.
pub proof fn lemma_children_sql_concat<V>(a: Seq<Condition<V>>, b: Seq<Condition<V>>, ph: Seq<Seq<char>>, start: int)
    ensures
        children_sql(a + b, ph, start) == children_sql(a, ph, start) + children_sql(
            b,
            ph,
            start + children_params(a).len(),
        ),
    decreases a.len(),
{
    if a.len() == 0 {
        assert(a + b =~= b);
        assert(children_sql(a, ph, start) =~= Seq::<Seq<char>>::empty());
        assert(Seq::<Seq<char>>::empty() + children_sql(b, ph, start) =~= children_sql(b, ph, start));
    } else {
        let a1 = a.subrange(1, a.len() as int);
        lemma_children_sql_concat(a1, b, ph, start + cond_params(a[0]).len());
        assert((a + b).subrange(1, (a + b).len() as int) =~= a1 + b);
        assert((a + b)[0] == a[0]);
        assert(children_params(a) == cond_params(a[0]) + children_params(a1));
        assert(seq![cond_sql(a[0], ph, start)] + (children_sql(a1, ph, start + cond_params(a[0]).len()) + children_sql(
            b,
            ph,
            start + cond_params(a[0]).len() + children_params(a1).len(),
        )) =~= seq![cond_sql(a[0], ph, start)] + children_sql(a1, ph, start + cond_params(a[0]).len()) + children_sql(
            b,
            ph,
            start + children_params(a).len(),
        ));
    }
}

/// The text of a condition whose values take placeholders from `start` on
/// reads only the placeholders of its own values: two placeholder lists that
/// agree there give the same text.
pub proof fn lemma_cond_sql_own_placeholders<V>(c: Condition<V>, ph1: Seq<Seq<char>>, ph2: Seq<Seq<char>>, start: int)
    requires
        0 <= start,
        start + cond_params(c).len() <= ph1.len(),
        start + cond_params(c).len() <= ph2.len(),
        ph1.subrange(start, start + cond_params(c).len()) == ph2.subrange(start, start + cond_params(c).len()),
    ensures
        cond_sql(c, ph1, start) == cond_sql(c, ph2, start),
    decreases c, 1int,
{
    let n = cond_params(c).len() as int;
    match c {
        Condition::And(cs) => {
            lemma_children_sql_own_placeholders(cs@, ph1, ph2, start);
        },
        Condition::Or(cs) => {
            lemma_children_sql_own_placeholders(cs@, ph1, ph2, start);
        },
        Condition::In(_, vs) => {
            assert(ph1.subrange(start, start + vs@.len()) =~= ph2.subrange(start, start + vs@.len()));
        },
        Condition::IsNull(_) => {},
        Condition::IsNotNull(_) => {},
        _ => {
            assert(ph1[start] == ph1.subrange(start, start + n)[0]);
            assert(ph2[start] == ph2.subrange(start, start + n)[0]);
        },
    }
}

/// [`lemma_cond_sql_own_placeholders`] for a list of conditions.
pub proof fn lemma_children_sql_own_placeholders<V>(
    cs: Seq<Condition<V>>,
    ph1: Seq<Seq<char>>,
    ph2: Seq<Seq<char>>,
    start: int,
)
    requires
        0 <= start,
        start + children_params(cs).len() <= ph1.len(),
        start + children_params(cs).len() <= ph2.len(),
        ph1.subrange(start, start + children_params(cs).len()) == ph2.subrange(
            start,
            start + children_params(cs).len(),
        ),
    ensures
        children_sql(cs, ph1, start) == children_sql(cs, ph2, start),
    decreases cs, 0int,
{
    if cs.len() > 0 {
        let k = cond_params(cs[0]).len() as int;
        let rest = cs.subrange(1, cs.len() as int);
        let n = children_params(cs).len() as int;
        assert(children_params(cs) == cond_params(cs[0]) + children_params(rest));
        assert(ph1.subrange(start, start + k) =~= ph1.subrange(start, start + n).subrange(0, k));
        assert(ph2.subrange(start, start + k) =~= ph2.subrange(start, start + n).subrange(0, k));
        lemma_cond_sql_own_placeholders(cs[0], ph1, ph2, start);
        assert(ph1.subrange(start + k, start + n) =~= ph1.subrange(start, start + n).subrange(k, n));
        assert(ph2.subrange(start + k, start + n) =~= ph2.subrange(start, start + n).subrange(k, n));
        lemma_children_sql_own_placeholders(rest, ph1, ph2, start + k);
    }
}

proof fn lemma_single<V>(c: Condition<V>, ph: Seq<Seq<char>>, start: int)
    ensures
        children_params(seq![c]) == cond_params(c),
        children_sql(seq![c], ph, start) == seq![cond_sql(c, ph, start)],
{
    let e = seq![c].subrange(1, 1);
    assert(e =~= Seq::<Condition<V>>::empty());
    assert(seq![c][0] == c);
    assert(children_params(e) =~= Seq::<V>::empty());
    assert(children_sql(e, ph, start + cond_params(c).len()) =~= Seq::<Seq<char>>::empty());
    assert(cond_params(c) + Seq::<V>::empty() =~= cond_params(c));
    assert(seq![cond_sql(c, ph, start)] + Seq::<Seq<char>>::empty() =~= seq![cond_sql(c, ph, start)]);
}

/// Appends the parts joined by `sep` to `out`.
pub fn push_joined(out: &mut String, parts: &Vec<String>, sep: &str)
    ensures
        final(out)@ == old(out)@ + join(string_views(parts@), sep@),
{
    let ghost o = out@;
    let mut i: usize = 0;
    while i < parts.len()
        invariant
            i <= parts@.len(),
            out@ == o + join(string_views(parts@).take(i as int), sep@),
        decreases parts.len() - i,
    {
        let ghost pv = string_views(parts@);
        assert(pv.take(i as int + 1).drop_last() == pv.take(i as int));
        assert(pv.take(i as int + 1).last() == parts@[i as int]@);
        if i > 0 {
            push_str(out, sep);
        } else {
            assert(join(pv.take(1), sep@) == pv[0]);
            assert(join(pv.take(0), sep@) =~= Seq::<char>::empty());
        }
        push_str(out, parts[i].as_str());
        proof {
            if i > 0 {
                assert(out@ =~= o + join(pv.take(i as int + 1), sep@));
            } else {
                assert(out@ =~= o + join(pv.take(1), sep@));
            }
        }
        i = i + 1;
    }
    assert(string_views(parts@).take(i as int) =~= string_views(parts@));
}

/// Writes `col op placeholder`.
fn comparison(col: &String, op: &str, ph: &String) -> (s: String)
    ensures
        s@ == col@ + op@ + ph@,
{
    let mut s = String::new();
    push_str(&mut s, col.as_str());
    push_str(&mut s, op);
    push_str(&mut s, ph.as_str());
    assert(s@ =~= col@ + op@ + ph@);
    s
}

/// Copies of `v[a..b]`.
fn copy_range(v: &Vec<String>, a: usize, b: usize) -> (r: Vec<String>)
    requires
        a <= b <= v@.len(),
    ensures
        string_views(r@) == string_views(v@).subrange(a as int, b as int),
{
    let mut r: Vec<String> = Vec::new();
    let mut i = a;
    while i < b
        invariant
            a <= i <= b,
            b <= v@.len(),
            string_views(r@) == string_views(v@).subrange(a as int, i as int),
        decreases b - i,
    {
        let ghost r0 = r@;
        r.push(v[i].clone());
        assert(r@ == r0.push(v@[i as int]));
        assert(string_views(r@) =~= string_views(r0).push(v@[i as int]@));
        assert(string_views(r@) =~= string_views(v@).subrange(a as int, i as int + 1));
        i = i + 1;
    }
    r
}

/// The WHERE text of `c` with placeholders numbered on from the values already
/// in `params`, appending the values `c` binds to `params` in that order.
/// `ph[k]` is the driver's placeholder for parameter number `k + 1`.
pub fn build_condition_sql<'a, V>(c: &'a Condition<V>, ph: &Vec<String>, params: &mut Vec<&'a V>) -> (s: String)
    requires
        old(params)@.len() + cond_params(*c).len() <= ph@.len(),
    ensures
        derefs(final(params)@) == derefs(old(params)@) + cond_params(*c),
        s@ == cond_sql(*c, string_views(ph@), old(params)@.len() as int),
    decreases c,
{
    let ghost p0 = params@;
    let ghost phv = string_views(ph@);
    match c {
        Condition::Eq(col, v) => {
            params.push(v);
            assert(derefs(params@) =~= derefs(p0) + seq![*v]);
            comparison(col, " = ", &ph[params.len() - 1])
        },
        Condition::NotEq(col, v) => {
            params.push(v);
            assert(derefs(params@) =~= derefs(p0) + seq![*v]);
            comparison(col, " != ", &ph[params.len() - 1])
        },
        Condition::Gt(col, v) => {
            params.push(v);
            assert(derefs(params@) =~= derefs(p0) + seq![*v]);
            comparison(col, " > ", &ph[params.len() - 1])
        },
        Condition::Lt(col, v) => {
            params.push(v);
            assert(derefs(params@) =~= derefs(p0) + seq![*v]);
            comparison(col, " < ", &ph[params.len() - 1])
        },
        Condition::Gte(col, v) => {
            params.push(v);
            assert(derefs(params@) =~= derefs(p0) + seq![*v]);
            comparison(col, " >= ", &ph[params.len() - 1])
        },
        Condition::Lte(col, v) => {
            params.push(v);
            assert(derefs(params@) =~= derefs(p0) + seq![*v]);
            comparison(col, " <= ", &ph[params.len() - 1])
        },
        Condition::Like(col, v) => {
            params.push(v);
            assert(derefs(params@) =~= derefs(p0) + seq![*v]);
            comparison(col, " LIKE ", &ph[params.len() - 1])
        },
        Condition::In(col, vals) => {
            let start = params.len();
            let mut i: usize = 0;
            while i < vals.len()
                invariant
                    i <= vals@.len(),
                    params@.len() == start + i,
                    derefs(params@) == derefs(p0) + vals@.take(i as int),
                    start == p0.len(),
                decreases vals.len() - i,
            {
                let ghost q0 = params@;
                params.push(&vals[i]);
                assert(params@ == q0.push(&vals@[i as int]));
                assert(derefs(params@) =~= derefs(q0).push(vals@[i as int]));
                assert(vals@.take(i as int + 1) =~= vals@.take(i as int).push(vals@[i as int]));
                assert(derefs(params@) =~= derefs(p0) + vals@.take(i as int + 1));
                i = i + 1;
            }
            assert(vals@.take(i as int) == vals@);
            assert(start + vals.len() <= ph.len());
            let used = copy_range(ph, start, start + vals.len());
            let mut s = String::new();
            push_str(&mut s, col.as_str());
            push_str(&mut s, " IN (");
            push_joined(&mut s, &used, ", ");
            push_str(&mut s, ")");
            assert(s@ =~= cond_sql(*c, phv, p0.len() as int));
            s
        },
        Condition::IsNull(col) => {
            let mut s = String::new();
            push_str(&mut s, col.as_str());
            push_str(&mut s, " IS NULL");
            assert(derefs(params@) =~= derefs(p0) + Seq::<V>::empty());
            s
        },
        Condition::IsNotNull(col) => {
            let mut s = String::new();
            push_str(&mut s, col.as_str());
            push_str(&mut s, " IS NOT NULL");
            assert(derefs(params@) =~= derefs(p0) + Seq::<V>::empty());
            s
        },
        Condition::And(cs) => {
            let parts = build_children(cs, ph, params);
            let mut s = String::new();
            push_str(&mut s, "(");
            push_joined(&mut s, &parts, " AND ");
            push_str(&mut s, ")");
            assert(s@ =~= cond_sql(*c, phv, p0.len() as int));
            s
        },
        Condition::Or(cs) => {
            let parts = build_children(cs, ph, params);
            let mut s = String::new();
            push_str(&mut s, "(");
            push_joined(&mut s, &parts, " OR ");
            push_str(&mut s, ")");
            assert(s@ =~= cond_sql(*c, phv, p0.len() as int));
            s
        },
    }
}

/// The texts of a list of conditions, numbering placeholders on from the
/// values already in `params`.
fn build_children<'a, V>(cs: &'a Vec<Condition<V>>, ph: &Vec<String>, params: &mut Vec<&'a V>) -> (parts: Vec<String>)
    requires
        old(params)@.len() + children_params(cs@).len() <= ph@.len(),
    ensures
        derefs(final(params)@) == derefs(old(params)@) + children_params(cs@),
        string_views(parts@) == children_sql(cs@, string_views(ph@), old(params)@.len() as int),
    decreases cs,
{
    let ghost p0 = params@;
    let ghost phv = string_views(ph@);
    let mut parts: Vec<String> = Vec::new();
    let mut i: usize = 0;
    assert(cs@.take(0) =~= Seq::<Condition<V>>::empty());
    assert(derefs(p0) + children_params(cs@.take(0)) =~= derefs(p0));
    while i < cs.len()
        invariant
            i <= cs@.len(),
            p0.len() + children_params(cs@).len() <= ph@.len(),
            phv == string_views(ph@),
            derefs(params@) == derefs(p0) + children_params(cs@.take(i as int)),
            params@.len() == p0.len() + children_params(cs@.take(i as int)).len(),
            string_views(parts@) == children_sql(cs@.take(i as int), phv, p0.len() as int),
        decreases cs.len() - i,
    {
        proof {
            lemma_children_params_concat(cs@.take(i as int + 1), cs@.skip(i as int + 1));
            assert(cs@.take(i as int + 1) + cs@.skip(i as int + 1) =~= cs@);
            assert(cs@.take(i as int + 1) =~= cs@.take(i as int) + seq![cs@[i as int]]);
            lemma_children_params_concat(cs@.take(i as int), seq![cs@[i as int]]);
            lemma_children_sql_concat(cs@.take(i as int), seq![cs@[i as int]], phv, p0.len() as int);
            lemma_single(cs@[i as int], phv, (p0.len() + children_params(cs@.take(i as int)).len()) as int);
        }
        let part = build_condition_sql(&cs[i], ph, params);
        parts.push(part);
        assert(string_views(parts@) =~= children_sql(cs@.take(i as int + 1), phv, p0.len() as int));
        assert(derefs(params@) =~= derefs(p0) + children_params(cs@.take(i as int + 1)));
        i = i + 1;
    }
    assert(cs@.take(i as int) =~= cs@);
    parts
}

} // verus!

verus! {

/// The number of values a condition binds, capped at `usize::MAX`.
pub fn condition_param_count<V>(c: &Condition<V>) -> (n: usize)
    ensures
        n == if cond_params(*c).len() <= usize::MAX {
            cond_params(*c).len() as int
        } else {
            usize::MAX as int
        },
    decreases c,
{
    match c {
        Condition::In(_, vals) => vals.len(),
        Condition::IsNull(_) => 0,
        Condition::IsNotNull(_) => 0,
        Condition::And(cs) => children_param_count(cs),
        Condition::Or(cs) => children_param_count(cs),
        _ => 1,
    }
}

fn children_param_count<V>(cs: &Vec<Condition<V>>) -> (n: usize)
    ensures
        n == if children_params(cs@).len() <= usize::MAX {
            children_params(cs@).len() as int
        } else {
            usize::MAX as int
        },
    decreases cs,
{
    let mut total: usize = 0;
    let mut i: usize = 0;
    assert(cs@.take(0) =~= Seq::<Condition<V>>::empty());
    while i < cs.len()
        invariant
            i <= cs@.len(),
            total == if children_params(cs@.take(i as int)).len() <= usize::MAX {
                children_params(cs@.take(i as int)).len() as int
            } else {
                usize::MAX as int
            },
        decreases cs.len() - i,
    {
        proof {
            assert(cs@.take(i as int + 1) =~= cs@.take(i as int) + seq![cs@[i as int]]);
            lemma_children_params_concat(cs@.take(i as int), seq![cs@[i as int]]);
            lemma_single(cs@[i as int], Seq::empty(), 0);
        }
        let k = condition_param_count(&cs[i]);
        total = if total > usize::MAX - k { usize::MAX } else { total + k };
        i = i + 1;
    }
    assert(cs@.take(i as int) =~= cs@);
    total
}

/// The driver's SQL type name for each column type.
pub struct TypeNames {
    pub integer: String,
    pub real: String,
    pub text: String,
    pub blob: String,
    pub boolean: String,
}

/// The SQL type name `names` gives a column type.
pub open spec fn sql_type_name(names: TypeNames, ct: ColumnType) -> Seq<char> {
    match ct {
        ColumnType::Integer => names.integer@,
        ColumnType::Real => names.real@,
        ColumnType::Text => names.text@,
        ColumnType::Blob => names.blob@,
        ColumnType::Boolean => names.boolean@,
    }
}

impl TypeNames {
    /// The SQL type name for `ct`.
    pub fn name_for(&self, ct: ColumnType) -> (s: &String)
        ensures
            s@ == sql_type_name(*self, ct),
    {
        match ct {
            ColumnType::Integer => &self.integer,
            ColumnType::Real => &self.real,
            ColumnType::Text => &self.text,
            ColumnType::Blob => &self.blob,
            ColumnType::Boolean => &self.boolean,
        }
    }
}

/// A column of a CREATE TABLE statement; `default` is the SQL text of the
/// default value, if any.
pub struct ColumnDef {
    pub name: String,
    pub col_type: ColumnType,
    pub primary_key: bool,
    pub not_null: bool,
    pub auto_increment: bool,
    pub default: Option<String>,
}

/// `name` in double quotes.
pub open spec fn quoted(name: Seq<char>) -> Seq<char> {
    seq!['"'] + name + seq!['"']
}

/// The words of a column definition: quoted name, type, then `PRIMARY KEY`,
/// `AUTOINCREMENT`, `NOT NULL` (unless a primary key) and `DEFAULT d` as set.
pub open spec fn column_words(c: ColumnDef, names: TypeNames) -> Seq<Seq<char>> {
    let w0 = seq![quoted(c.name@), sql_type_name(names, c.col_type)];
    let w1 = if c.primary_key { w0.push("PRIMARY KEY"@) } else { w0 };
    let w2 = if c.auto_increment { w1.push("AUTOINCREMENT"@) } else { w1 };
    let w3 = if c.not_null && !c.primary_key { w2.push("NOT NULL"@) } else { w2 };
    match c.default {
        Some(d) => w3.push("DEFAULT "@ + d@),
        None => w3,
    }
}

/// The SQL text of a column definition.
pub open spec fn column_sql(c: ColumnDef, names: TypeNames) -> Seq<char> {
    join(column_words(c, names), " "@)
}

/// A CREATE TABLE statement under construction.
pub struct TableDef {
    pub name: String,
    pub columns: Vec<ColumnDef>,
    pub if_not_exists: bool,
}

/// The CREATE TABLE text for a table definition.
pub open spec fn create_table_sql(t: TableDef, names: TypeNames) -> Seq<char> {
    "CREATE TABLE "@ + (if t.if_not_exists { "IF NOT EXISTS "@ } else { Seq::empty() }) + quoted(t.name@) + " ("@
        + join(t.columns@.map_values(|c: ColumnDef| column_sql(c, names)), ", "@) + ")"@
}

/// Appends `name` in double quotes.
fn push_quoted(out: &mut String, name: &str)
    ensures
        final(out)@ == old(out)@ + quoted(name@),
{
    out.push('"');
    push_str(out, name);
    out.push('"');
    assert(out@ =~= old(out)@ + quoted(name@));
}

fn quoted_string(name: &str) -> (s: String)
    ensures
        s@ == quoted(name@),
{
    let mut s = String::new();
    push_quoted(&mut s, name);
    assert(s@ =~= quoted(name@));
    s
}

fn lit(s: &str) -> (r: String)
    ensures
        r@ == s@,
{
    crate::text::owned(s)
}

/// The SQL text of a column definition (see [`column_sql`]).
pub fn column_def_sql(c: &ColumnDef, names: &TypeNames) -> (s: String)
    ensures
        s@ == column_sql(*c, *names),
{
    let mut words: Vec<String> = Vec::new();
    words.push(quoted_string(c.name.as_str()));
    words.push(names.name_for(c.col_type).clone());
    if c.primary_key {
        words.push(lit("PRIMARY KEY"));
    }
    if c.auto_increment {
        words.push(lit("AUTOINCREMENT"));
    }
    if c.not_null && !c.primary_key {
        words.push(lit("NOT NULL"));
    }
    match &c.default {
        Some(d) => {
            let mut w = lit("DEFAULT ");
            push_str(&mut w, d.as_str());
            words.push(w);
        },
        None => {},
    }
    assert(string_views(words@) =~= column_words(*c, *names));
    let mut s = String::new();
    push_joined(&mut s, &words, " ");
    assert(s@ =~= column_sql(*c, *names));
    s
}

impl TableDef {
    /// A definition of table `name` with no columns.
    pub fn new(name: &str) -> (t: TableDef)
        ensures
            t.name@ == name@,
            t.columns@.len() == 0,
            !t.if_not_exists,
    {
        TableDef { name: lit(name), columns: Vec::new(), if_not_exists: false }
    }

    /// Adds a column; `default` is the SQL text of its default value, if any.
    pub fn column(
        self,
        name: &str,
        col_type: ColumnType,
        primary_key: bool,
        not_null: bool,
        auto_increment: bool,
        default: Option<String>,
    ) -> (t: TableDef)
        ensures
            t.name == self.name,
            t.if_not_exists == self.if_not_exists,
            t.columns@.len() == self.columns@.len() + 1,
            t.columns@.take(self.columns@.len() as int) == self.columns@,
            ({
                let c = t.columns@.last();
                &&& c.name@ == name@
                &&& c.col_type == col_type
                &&& c.primary_key == primary_key
                &&& c.not_null == not_null
                &&& c.auto_increment == auto_increment
                &&& c.default == default
            }),
    {
        let mut t = self;
        t.columns.push(ColumnDef { name: lit(name), col_type, primary_key, not_null, auto_increment, default });
        assert(t.columns@.take(self.columns@.len() as int) =~= self.columns@);
        t
    }

    /// Only create the table if it does not exist yet.
    pub fn if_not_exists(self) -> (t: TableDef)
        ensures
            t.name == self.name,
            t.columns == self.columns,
            t.if_not_exists,
    {
        let mut t = self;
        t.if_not_exists = true;
        t
    }

    /// The CREATE TABLE text (see [`create_table_sql`]).
    pub fn to_sql(&self, names: &TypeNames) -> (s: String)
        ensures
            s@ == create_table_sql(*self, *names),
    {
        let mut defs: Vec<String> = Vec::new();
        let mut i: usize = 0;
        while i < self.columns.len()
            invariant
                i <= self.columns@.len(),
                string_views(defs@) == self.columns@.take(i as int).map_values(|c: ColumnDef| column_sql(c, *names)),
            decreases self.columns.len() - i,
        {
            let d = column_def_sql(&self.columns[i], names);
            let ghost d0 = defs@;
            defs.push(d);
            assert(string_views(defs@) =~= string_views(d0).push(column_sql(self.columns@[i as int], *names)));
            assert(self.columns@.take(i as int + 1) =~= self.columns@.take(i as int).push(self.columns@[i as int]));
            assert(string_views(defs@) =~= self.columns@.take(i as int + 1).map_values(|c: ColumnDef| column_sql(c, *names)));
            i = i + 1;
        }
        assert(self.columns@.take(i as int) =~= self.columns@);
        let mut s = lit("CREATE TABLE ");
        if self.if_not_exists {
            push_str(&mut s, "IF NOT EXISTS ");
        }
        push_quoted(&mut s, self.name.as_str());
        push_str(&mut s, " (");
        push_joined(&mut s, &defs, ", ");
        push_str(&mut s, ")");
        assert(s@ =~= create_table_sql(*self, *names));
        s
    }
}

} // verus!

verus! {

/// Each name in double quotes.
pub open spec fn quoted_all(names: Seq<Seq<char>>) -> Seq<Seq<char>> {
    names.map_values(|n: Seq<char>| quoted(n))
}

/// The column names of a list of column/value pairs.
pub open spec fn pair_names<V>(pairs: Seq<(String, V)>) -> Seq<Seq<char>> {
    pairs.map_values(|p: (String, V)| p.0@)
}

/// The values of a list of column/value pairs, in order.
pub open spec fn pair_values<V>(pairs: Seq<(String, V)>) -> Seq<V> {
    pairs.map_values(|p: (String, V)| p.1)
}

/// ` WHERE <condition>` with placeholders numbered from `start`, or nothing.
pub open spec fn where_sql<V>(c: Option<Condition<V>>, ph: Seq<Seq<char>>, start: int) -> Seq<char> {
    match c {
        Some(c) => " WHERE "@ + cond_sql(c, ph, start),
        None => Seq::empty(),
    }
}

/// The values a condition that may be absent binds.
pub open spec fn opt_params<V>(c: Option<Condition<V>>) -> Seq<V> {
    match c {
        Some(c) => cond_params(c),
        None => Seq::empty(),
    }
}

/// An INSERT of one row.
pub struct InsertQuery<V> {
    pub table: String,
    pub pairs: Vec<(String, V)>,
}

/// `INSERT INTO "t" ("c1", ...) VALUES (p1, ...)`.
pub open spec fn insert_sql<V>(q: InsertQuery<V>, ph: Seq<Seq<char>>) -> Seq<char> {
    "INSERT INTO "@ + quoted(q.table@) + " ("@ + join(quoted_all(pair_names(q.pairs@)), ", "@) + ") VALUES ("@
        + join(ph.take(q.pairs@.len() as int), ", "@) + ")"@
}

/// An INSERT names its columns in the order they were set and gives the
/// k-th of them placeholder `ph[k]` (number k + 1), the one its value is
/// bound to (see [`InsertQuery::to_sql`], whose values come in the same order).
pub proof fn lemma_insert_values_in_column_order<V>(q: InsertQuery<V>, ph: Seq<Seq<char>>)
    requires
        q.pairs@.len() <= ph.len(),
    ensures
        insert_sql(q, ph) == "INSERT INTO "@ + quoted(q.table@) + " ("@ + join(
            Seq::new(q.pairs@.len(), |i: int| quoted(q.pairs@[i].0@)),
            ", "@,
        ) + ") VALUES ("@ + join(Seq::new(q.pairs@.len(), |i: int| ph[i]), ", "@) + ")"@,
{
    assert(quoted_all(pair_names(q.pairs@)) =~= Seq::new(q.pairs@.len(), |i: int| quoted(q.pairs@[i].0@)));
    assert(ph.take(q.pairs@.len() as int) =~= Seq::new(q.pairs@.len(), |i: int| ph[i]));
}

/// Copies of the first `n` strings.
fn copy_prefix(v: &Vec<String>, n: usize) -> (r: Vec<String>)
    requires
        n <= v@.len(),
    ensures
        string_views(r@) == string_views(v@).take(n as int),
{
    let r = copy_range(v, 0, n);
    assert(string_views(v@).subrange(0, n as int) =~= string_views(v@).take(n as int));
    r
}

/// The quoted column names of the pairs.
fn quoted_pair_names<V>(pairs: &Vec<(String, V)>) -> (r: Vec<String>)
    ensures
        string_views(r@) == quoted_all(pair_names(pairs@)),
{
    let mut r: Vec<String> = Vec::new();
    let mut i: usize = 0;
    while i < pairs.len()
        invariant
            i <= pairs@.len(),
            string_views(r@) == quoted_all(pair_names(pairs@.take(i as int))),
        decreases pairs.len() - i,
    {
        let ghost r0 = r@;
        r.push(quoted_string(pairs[i].0.as_str()));
        assert(string_views(r@) =~= string_views(r0).push(quoted(pairs@[i as int].0@)));
        assert(pairs@.take(i as int + 1) =~= pairs@.take(i as int).push(pairs@[i as int]));
        assert(quoted_all(pair_names(pairs@.take(i as int + 1))) =~= quoted_all(pair_names(pairs@.take(i as int))).push(
            quoted(pairs@[i as int].0@),
        ));
        i = i + 1;
    }
    assert(pairs@.take(i as int) =~= pairs@);
    r
}

/// References to the values of the pairs, in order.
fn pair_value_refs<'a, V>(pairs: &'a Vec<(String, V)>, params: &mut Vec<&'a V>)
    ensures
        derefs(final(params)@) == derefs(old(params)@) + pair_values(pairs@),
        final(params)@.len() == old(params)@.len() + pairs@.len(),
{
    let ghost p0 = params@;
    let mut i: usize = 0;
    while i < pairs.len()
        invariant
            i <= pairs@.len(),
            params@.len() == p0.len() + i,
            derefs(params@) == derefs(p0) + pair_values(pairs@.take(i as int)),
        decreases pairs.len() - i,
    {
        let ghost q0 = params@;
        params.push(&pairs[i].1);
        assert(derefs(params@) =~= derefs(q0).push(pairs@[i as int].1));
        assert(pairs@.take(i as int + 1) =~= pairs@.take(i as int).push(pairs@[i as int]));
        assert(pair_values(pairs@.take(i as int + 1)) =~= pair_values(pairs@.take(i as int)).push(pairs@[i as int].1));
        i = i + 1;
    }
    assert(pairs@.take(i as int) =~= pairs@);
}

impl<V> InsertQuery<V> {
    /// An INSERT into `table` with no columns set yet.
    pub fn new(table: &str) -> (q: Self)
        ensures
            q.table@ == table@,
            q.pairs@.len() == 0,
    {
        InsertQuery { table: lit(table), pairs: Vec::new() }
    }

    /// Sets `column` to `value`.
    pub fn set(self, column: &str, value: V) -> (q: Self)
        ensures
            q.table == self.table,
            q.pairs@.len() == self.pairs@.len() + 1,
            q.pairs@.take(self.pairs@.len() as int) == self.pairs@,
            q.pairs@.last().0@ == column@,
            q.pairs@.last().1 == value,
    {
        let mut q = self;
        q.pairs.push((lit(column), value));
        assert(q.pairs@.take(self.pairs@.len() as int) =~= self.pairs@);
        q
    }

    /// The statement text and its values in placeholder order; `ph[k]` is
    /// the placeholder for value number `k + 1`.
    pub fn to_sql<'a>(&'a self, ph: &Vec<String>) -> (r: (String, Vec<&'a V>))
        requires
            self.pairs@.len() <= ph@.len(),
        ensures
            r.0@ == insert_sql(*self, string_views(ph@)),
            derefs(r.1@) == pair_values(self.pairs@),
    {
        let cols = quoted_pair_names(&self.pairs);
        let used = copy_prefix(ph, self.pairs.len());
        let mut params: Vec<&'a V> = Vec::new();
        pair_value_refs(&self.pairs, &mut params);
        assert(derefs(Seq::<&V>::empty()) =~= Seq::<V>::empty());
        assert(Seq::<V>::empty() + pair_values(self.pairs@) =~= pair_values(self.pairs@));
        let mut s = lit("INSERT INTO ");
        push_quoted(&mut s, self.table.as_str());
        push_str(&mut s, " (");
        push_joined(&mut s, &cols, ", ");
        push_str(&mut s, ") VALUES (");
        push_joined(&mut s, &used, ", ");
        push_str(&mut s, ")");
        assert(s@ =~= insert_sql(*self, string_views(ph@)));
        (s, params)
    }
}

} // verus!

verus! {

/// `"col" ASC` or `"col" DESC`.
pub open spec fn order_sql(o: Order) -> Seq<char> {
    match o {
        Order::Asc(col) => quoted(col@) + " ASC"@,
        Order::Desc(col) => quoted(col@) + " DESC"@,
    }
}

/// A SELECT over one table.
pub struct SelectQuery<V> {
    pub table: String,
    pub columns: Vec<String>,
    pub condition: Option<Condition<V>>,
    pub orders: Vec<Order>,
    pub limit: Option<u64>,
    pub offset: Option<u64>,
}

/// `SELECT cols FROM "t"` followed, as set, by the WHERE, ORDER BY, LIMIT and
/// OFFSET clauses; `cols` is `*` when no column was named.
pub open spec fn select_sql<V>(q: SelectQuery<V>, ph: Seq<Seq<char>>) -> Seq<char> {
    let cols = if q.columns@.len() == 0 {
        "*"@
    } else {
        join(quoted_all(string_views(q.columns@)), ", "@)
    };
    let order = if q.orders@.len() == 0 {
        Seq::empty()
    } else {
        " ORDER BY "@ + join(q.orders@.map_values(|o: Order| order_sql(o)), ", "@)
    };
    let limit = match q.limit {
        Some(n) => " LIMIT "@ + decimal(n as nat),
        None => Seq::empty(),
    };
    let offset = match q.offset {
        Some(n) => " OFFSET "@ + decimal(n as nat),
        None => Seq::empty(),
    };
    "SELECT "@ + cols + " FROM "@ + quoted(q.table@) + where_sql(q.condition, ph, 0) + order + limit + offset
}

/// Each string in double quotes.
fn quoted_strings(names: &Vec<String>) -> (r: Vec<String>)
    ensures
        string_views(r@) == quoted_all(string_views(names@)),
{
    let mut r: Vec<String> = Vec::new();
    let mut i: usize = 0;
    while i < names.len()
        invariant
            i <= names@.len(),
            string_views(r@) == quoted_all(string_views(names@.take(i as int))),
        decreases names.len() - i,
    {
        let ghost r0 = r@;
        r.push(quoted_string(names[i].as_str()));
        assert(string_views(r@) =~= string_views(r0).push(quoted(names@[i as int]@)));
        assert(names@.take(i as int + 1) =~= names@.take(i as int).push(names@[i as int]));
        assert(quoted_all(string_views(names@.take(i as int + 1))) =~= quoted_all(
            string_views(names@.take(i as int)),
        ).push(quoted(names@[i as int]@)));
        i = i + 1;
    }
    assert(names@.take(i as int) =~= names@);
    r
}

fn order_text(o: &Order) -> (s: String)
    ensures
        s@ == order_sql(*o),
{
    let mut s = String::new();
    match o {
        Order::Asc(col) => {
            push_quoted(&mut s, col.as_str());
            push_str(&mut s, " ASC");
        },
        Order::Desc(col) => {
            push_quoted(&mut s, col.as_str());
            push_str(&mut s, " DESC");
        },
    }
    assert(s@ =~= order_sql(*o));
    s
}

fn order_texts(orders: &Vec<Order>) -> (r: Vec<String>)
    ensures
        string_views(r@) == orders@.map_values(|o: Order| order_sql(o)),
{
    let mut r: Vec<String> = Vec::new();
    let mut i: usize = 0;
    while i < orders.len()
        invariant
            i <= orders@.len(),
            string_views(r@) == orders@.take(i as int).map_values(|o: Order| order_sql(o)),
        decreases orders.len() - i,
    {
        let ghost r0 = r@;
        r.push(order_text(&orders[i]));
        assert(string_views(r@) =~= string_views(r0).push(order_sql(orders@[i as int])));
        assert(orders@.take(i as int + 1) =~= orders@.take(i as int).push(orders@[i as int]));
        assert(orders@.take(i as int + 1).map_values(|o: Order| order_sql(o)) =~= orders@.take(i as int).map_values(
            |o: Order| order_sql(o),
        ).push(order_sql(orders@[i as int])));
        i = i + 1;
    }
    assert(orders@.take(i as int) =~= orders@);
    r
}

/// Appends the WHERE clause, if any, numbering placeholders on from the
/// values already in `params`.
fn push_where<'a, V>(out: &mut String, c: &'a Option<Condition<V>>, ph: &Vec<String>, params: &mut Vec<&'a V>)
    requires
        old(params)@.len() + opt_params(*c).len() <= ph@.len(),
    ensures
        final(out)@ == old(out)@ + where_sql(*c, string_views(ph@), old(params)@.len() as int),
        derefs(final(params)@) == derefs(old(params)@) + opt_params(*c),
{
    match c {
        Some(cond) => {
            let w = build_condition_sql(cond, ph, params);
            push_str(out, " WHERE ");
            push_str(out, w.as_str());
            assert(final(out)@ =~= old(out)@ + where_sql(*c, string_views(ph@), old(params)@.len() as int));
        },
        None => {
            assert(derefs(params@) =~= derefs(old(params)@) + opt_params(*c));
            assert(out@ =~= old(out)@ + where_sql(*c, string_views(ph@), old(params)@.len() as int));
        },
    }
}

impl<V> SelectQuery<V> {
    /// A SELECT of all columns of `table`.
    pub fn new(table: &str) -> (q: Self)
        ensures
            q.table@ == table@,
            q.columns@.len() == 0,
            q.condition is None,
            q.orders@.len() == 0,
            q.limit is None,
            q.offset is None,
    {
        SelectQuery {
            table: lit(table),
            columns: Vec::new(),
            condition: None,
            orders: Vec::new(),
            limit: None,
            offset: None,
        }
    }

    /// Also selects column `name`.
    pub fn column(self, name: &str) -> (q: Self)
        ensures
            q == (SelectQuery { columns: q.columns, ..self }),
            q.columns@.len() == self.columns@.len() + 1,
            q.columns@.take(self.columns@.len() as int) == self.columns@,
            q.columns@.last()@ == name@,
    {
        let mut q = self;
        q.columns.push(lit(name));
        assert(q.columns@.take(self.columns@.len() as int) =~= self.columns@);
        q
    }

    /// Sets the WHERE condition (replacing any earlier one).
    pub fn where_(self, cond: Condition<V>) -> (q: Self)
        ensures
            q == (SelectQuery { condition: Some(cond), ..self }),
    {
        let mut q = self;
        q.condition = Some(cond);
        q
    }

    /// Adds an ORDER BY term after the earlier ones.
    pub fn order_by(self, order: Order) -> (q: Self)
        ensures
            q == (SelectQuery { orders: q.orders, ..self }),
            q.orders@ == self.orders@.push(order),
    {
        let mut q = self;
        q.orders.push(order);
        q
    }

    /// Sets the LIMIT.
    pub fn limit(self, n: u64) -> (q: Self)
        ensures
            q == (SelectQuery { limit: Some(n), ..self }),
    {
        let mut q = self;
        q.limit = Some(n);
        q
    }

    /// Sets the OFFSET.
    pub fn offset(self, n: u64) -> (q: Self)
        ensures
            q == (SelectQuery { offset: Some(n), ..self }),
    {
        let mut q = self;
        q.offset = Some(n);
        q
    }

    /// The statement text and its values in placeholder order; `ph[k]` is
    /// the placeholder for value number `k + 1`.
    pub fn to_sql<'a>(&'a self, ph: &Vec<String>) -> (r: (String, Vec<&'a V>))
        requires
            opt_params(self.condition).len() <= ph@.len(),
        ensures
            r.0@ == select_sql(*self, string_views(ph@)),
            derefs(r.1@) == opt_params(self.condition),
    {
        let ghost phv = string_views(ph@);
        let mut s = lit("SELECT ");
        if self.columns.len() == 0 {
            push_str(&mut s, "*");
        } else {
            let cols = quoted_strings(&self.columns);
            push_joined(&mut s, &cols, ", ");
        }
        push_str(&mut s, " FROM ");
        push_quoted(&mut s, self.table.as_str());
        let mut params: Vec<&'a V> = Vec::new();
        push_where(&mut s, &self.condition, ph, &mut params);
        assert(derefs(Seq::<&V>::empty()) =~= Seq::<V>::empty());
        assert(Seq::<V>::empty() + opt_params(self.condition) =~= opt_params(self.condition));
        let ghost upto_where = s@;
        if self.orders.len() > 0 {
            let parts = order_texts(&self.orders);
            push_str(&mut s, " ORDER BY ");
            push_joined(&mut s, &parts, ", ");
        }
        let ghost upto_order = s@;
        match self.limit {
            Some(n) => {
                push_str(&mut s, " LIMIT ");
                push_decimal(&mut s, n);
            },
            None => {},
        }
        let ghost upto_limit = s@;
        match self.offset {
            Some(n) => {
                push_str(&mut s, " OFFSET ");
                push_decimal(&mut s, n);
            },
            None => {},
        }
        assert(s@ =~= select_sql(*self, phv));
        (s, params)
    }
}

/// An UPDATE of one table.
pub struct UpdateQuery<V> {
    pub table: String,
    pub pairs: Vec<(String, V)>,
    pub condition: Option<Condition<V>>,
}

/// `"col" = placeholder` for each pair, the pairs' values taking the first
/// placeholders.
pub open spec fn assignments<V>(pairs: Seq<(String, V)>, ph: Seq<Seq<char>>) -> Seq<Seq<char>> {
    Seq::new(pairs.len(), |i: int| quoted(pairs[i].0@) + " = "@ + ph[i])
}

/// `UPDATE "t" SET "c1" = p1, ...` and the WHERE clause, if any, whose
/// placeholders are numbered after those of the new values.
pub open spec fn update_sql<V>(q: UpdateQuery<V>, ph: Seq<Seq<char>>) -> Seq<char> {
    "UPDATE "@ + quoted(q.table@) + " SET "@ + join(assignments(q.pairs@, ph), ", "@) + where_sql(
        q.condition,
        ph,
        q.pairs@.len() as int,
    )
}

/// An UPDATE sets its columns in the order they were set, the k-th to
/// placeholder `ph[k]` (number k + 1), and numbers the placeholders of its
/// WHERE condition after those.
pub proof fn lemma_update_assigns_in_column_order<V>(q: UpdateQuery<V>, ph: Seq<Seq<char>>)
    requires
        q.pairs@.len() <= ph.len(),
    ensures
        update_sql(q, ph) == "UPDATE "@ + quoted(q.table@) + " SET "@ + join(
            Seq::new(q.pairs@.len(), |i: int| seq!['"'] + q.pairs@[i].0@ + seq!['"'] + " = "@ + ph[i]),
            ", "@,
        ) + match q.condition {
            Some(c) => " WHERE "@ + cond_sql(c, ph, q.pairs@.len() as int),
            None => Seq::<char>::empty(),
        },
{
    assert(assignments(q.pairs@, ph) =~= Seq::new(
        q.pairs@.len(),
        |i: int| seq!['"'] + q.pairs@[i].0@ + seq!['"'] + " = "@ + ph[i],
    ));
}

/// A comparison binds one value and writes its placeholder `ph[start]` after
/// the column and operator; `IN` binds its values in order, the k-th to
/// `ph[start + k]`.
pub proof fn lemma_condition_placeholders<V>(c: Condition<V>, ph: Seq<Seq<char>>, start: int)
    requires
        0 <= start,
        start + cond_params(c).len() <= ph.len(),
    ensures
        c matches Condition::Eq(col, _) ==> cond_params(c).len() == 1 && cond_sql(c, ph, start) == col@ + " = "@ + ph[start],
        c matches Condition::NotEq(col, _) ==> cond_params(c).len() == 1 && cond_sql(c, ph, start) == col@ + " != "@ + ph[start],
        c matches Condition::Gt(col, _) ==> cond_params(c).len() == 1 && cond_sql(c, ph, start) == col@ + " > "@ + ph[start],
        c matches Condition::Lt(col, _) ==> cond_params(c).len() == 1 && cond_sql(c, ph, start) == col@ + " < "@ + ph[start],
        c matches Condition::Gte(col, _) ==> cond_params(c).len() == 1 && cond_sql(c, ph, start) == col@ + " >= "@ + ph[start],
        c matches Condition::Lte(col, _) ==> cond_params(c).len() == 1 && cond_sql(c, ph, start) == col@ + " <= "@ + ph[start],
        c matches Condition::Like(col, _) ==> cond_params(c).len() == 1 && cond_sql(c, ph, start) == col@ + " LIKE "@ + ph[start],
        c matches Condition::In(col, vs) ==> cond_params(c) == vs@ && cond_sql(c, ph, start) == col@
            + " IN ("@ + join(Seq::new(vs@.len(), |k: int| ph[start + k]), ", "@) + ")"@,
{
    if let Condition::In(col, vs) = c {
        assert(ph.subrange(start, start + vs@.len()) =~= Seq::new(vs@.len(), |k: int| ph[start + k]));
    }
}

fn assignment_texts<V>(pairs: &Vec<(String, V)>, ph: &Vec<String>) -> (r: Vec<String>)
    requires
        pairs@.len() <= ph@.len(),
    ensures
        string_views(r@) == assignments(pairs@, string_views(ph@)),
{
    let mut r: Vec<String> = Vec::new();
    let mut i: usize = 0;
    while i < pairs.len()
        invariant
            i <= pairs@.len(),
            pairs@.len() <= ph@.len(),
            string_views(r@) == assignments(pairs@, string_views(ph@)).take(i as int),
        decreases pairs.len() - i,
    {
        let ghost r0 = r@;
        let mut a = String::new();
        push_quoted(&mut a, pairs[i].0.as_str());
        push_str(&mut a, " = ");
        push_str(&mut a, ph[i].as_str());
        assert(a@ =~= quoted(pairs@[i as int].0@) + " = "@ + string_views(ph@)[i as int]);
        r.push(a);
        assert(string_views(r@) =~= string_views(r0).push(a@));
        assert(string_views(r@) =~= assignments(pairs@, string_views(ph@)).take(i as int + 1));
        i = i + 1;
    }
    assert(assignments(pairs@, string_views(ph@)).take(i as int) =~= assignments(pairs@, string_views(ph@)));
    r
}

impl<V> UpdateQuery<V> {
    /// An UPDATE of `table` with nothing set yet.
    pub fn new(table: &str) -> (q: Self)
        ensures
            q.table@ == table@,
            q.pairs@.len() == 0,
            q.condition is None,
    {
        UpdateQuery { table: lit(table), pairs: Vec::new(), condition: None }
    }

    /// Sets `column` to `value`.
    pub fn set(self, column: &str, value: V) -> (q: Self)
        ensures
            q.table == self.table,
            q.condition == self.condition,
            q.pairs@.len() == self.pairs@.len() + 1,
            q.pairs@.take(self.pairs@.len() as int) == self.pairs@,
            q.pairs@.last().0@ == column@,
            q.pairs@.last().1 == value,
    {
        let mut q = self;
        q.pairs.push((lit(column), value));
        assert(q.pairs@.take(self.pairs@.len() as int) =~= self.pairs@);
        q
    }

    /// Sets the WHERE condition (replacing any earlier one).
    pub fn where_(self, cond: Condition<V>) -> (q: Self)
        ensures
            q == (UpdateQuery { condition: Some(cond), ..self }),
    {
        let mut q = self;
        q.condition = Some(cond);
        q
    }

    /// The statement text and its values in placeholder order: the new
    /// values, then those of the condition.
    pub fn to_sql<'a>(&'a self, ph: &Vec<String>) -> (r: (String, Vec<&'a V>))
        requires
            self.pairs@.len() + opt_params(self.condition).len() <= ph@.len(),
        ensures
            r.0@ == update_sql(*self, string_views(ph@)),
            derefs(r.1@) == pair_values(self.pairs@) + opt_params(self.condition),
    {
        let sets = assignment_texts(&self.pairs, ph);
        let mut params: Vec<&'a V> = Vec::new();
        pair_value_refs(&self.pairs, &mut params);
        assert(derefs(Seq::<&V>::empty()) =~= Seq::<V>::empty());
        assert(Seq::<V>::empty() + pair_values(self.pairs@) =~= pair_values(self.pairs@));
        let mut s = lit("UPDATE ");
        push_quoted(&mut s, self.table.as_str());
        push_str(&mut s, " SET ");
        push_joined(&mut s, &sets, ", ");
        push_where(&mut s, &self.condition, ph, &mut params);
        assert(s@ =~= update_sql(*self, string_views(ph@)));
        (s, params)
    }
}

/// A DELETE from one table.
pub struct DeleteQuery<V> {
    pub table: String,
    pub condition: Option<Condition<V>>,
}

/// `DELETE FROM "t"` and the WHERE clause, if any.
pub open spec fn delete_sql<V>(q: DeleteQuery<V>, ph: Seq<Seq<char>>) -> Seq<char> {
    "DELETE FROM "@ + quoted(q.table@) + where_sql(q.condition, ph, 0)
}

impl<V> DeleteQuery<V> {
    /// A DELETE of every row of `table`.
    pub fn new(table: &str) -> (q: Self)
        ensures
            q.table@ == table@,
            q.condition is None,
    {
        DeleteQuery { table: lit(table), condition: None }
    }

    /// Sets the WHERE condition (replacing any earlier one).
    pub fn where_(self, cond: Condition<V>) -> (q: Self)
        ensures
            q == (DeleteQuery { condition: Some(cond), ..self }),
    {
        let mut q = self;
        q.condition = Some(cond);
        q
    }

    /// The statement text and the condition's values in placeholder order.
    pub fn to_sql<'a>(&'a self, ph: &Vec<String>) -> (r: (String, Vec<&'a V>))
        requires
            opt_params(self.condition).len() <= ph@.len(),
        ensures
            r.0@ == delete_sql(*self, string_views(ph@)),
            derefs(r.1@) == opt_params(self.condition),
    {
        let mut params: Vec<&'a V> = Vec::new();
        let mut s = lit("DELETE FROM ");
        push_quoted(&mut s, self.table.as_str());
        push_where(&mut s, &self.condition, ph, &mut params);
        assert(derefs(Seq::<&V>::empty()) =~= Seq::<V>::empty());
        assert(Seq::<V>::empty() + opt_params(self.condition) =~= opt_params(self.condition));
        assert(s@ =~= delete_sql(*self, string_views(ph@)));
        (s, params)
    }
}

} // verus!

verus! {

/// The position of the first column named `name`.
pub open spec fn column_position(cols: Seq<String>, name: Seq<char>) -> Option<int>
    decreases cols.len(),
{
    if cols.len() == 0 {
        None
    } else if cols[0]@ == name {
        Some(0)
    } else {
        match column_position(cols.drop_first(), name) {
            Some(i) => Some(i + 1),
            None => None,
        }
    }
}

/// A single row returned from a query: column names and the values in the
/// same order.
#[derive(Debug, Clone)]
pub struct Row<V> {
    pub columns: Vec<String>,
    pub values: Vec<V>,
}

impl<V> Row<V> {
    /// The value of the first column named `column`, if the row has one.
    pub fn get(&self, column: &str) -> (r: Option<&V>)
        ensures
            match column_position(self.columns@, column@) {
                Some(i) => if i < self.values@.len() {
                    r == Some(&self.values@[i])
                } else {
                    r is None
                },
                None => r is None,
            },
    {
        let mut i: usize = 0;
        assert(self.columns@.skip(0) =~= self.columns@);
        while i < self.columns.len()
            invariant
                i <= self.columns@.len(),
                column_position(self.columns@, column@) == match column_position(self.columns@.skip(i as int), column@) {
                    Some(j) => Some(j + i),
                    None => None,
                },
            decreases self.columns.len() - i,
        {
            assert(self.columns@.skip(i as int).drop_first() =~= self.columns@.skip(i as int + 1));
            assert(self.columns@.skip(i as int)[0] == self.columns@[i as int]);
            if crate::text::str_eq(self.columns[i].as_str(), column) {
                if i < self.values.len() {
                    return Some(&self.values[i]);
                } else {
                    return None;
                }
            }
            i = i + 1;
        }
        None
    }
}

} // verus!
