//! The SQL behind the `/dmail/user` routes.
//!
//! `GET /dmail/user/q` lists the users that are not deleted, filtered by the
//! fields that the request gives, one page at a time: from a keyset id when
//! the request gives one, else by page number. `POST /dmail/user/c` inserts
//! a user and returns the new row.
use vstd::prelude::*;
use crate::biz::{PaginatorWith, UserPayload};

verus! {

/// A value bound to a statement parameter.
#[derive(Clone, Debug, PartialEq, Eq)]
pub enum SqlValue {
    Null,
    Integer(i64),
    Text(String),
}

/// A statement whose parameters are bound by position, in order.
#[derive(Clone, Debug)]
pub struct SqlQuery {
    pub sql: String,
    pub params: Vec<SqlValue>,
}

/// A statement whose parameters are bound by name.
#[derive(Clone, Debug)]
pub struct NamedSqlStatement {
    pub sql: String,
    pub params: Vec<(&'static str, SqlValue)>,
}

pub open spec fn u8_param(v: Option<u8>) -> SqlValue {
    match v {
        Some(x) => SqlValue::Integer(x as i64),
        None => SqlValue::Null,
    }
}

pub open spec fn u16_param(v: Option<u16>) -> SqlValue {
    match v {
        Some(x) => SqlValue::Integer(x as i64),
        None => SqlValue::Null,
    }
}

pub open spec fn text_param(v: Option<String>) -> SqlValue {
    match v {
        Some(s) => SqlValue::Text(s),
        None => SqlValue::Null,
    }
}

/// The listing's base: every user that is not deleted.
pub open spec fn list_base_sql() -> Seq<char> {
    "SELECT * FROM user WHERE deleted_at IS NULL"@
}

pub open spec fn age_filter_sql() -> Seq<char> {
    " AND age = :age"@
}

pub open spec fn name_filter_sql() -> Seq<char> {
    " AND name = :name"@
}

/// A keyset page: the rows after the given id.
pub open spec fn keyset_page_sql() -> Seq<char> {
    " AND id > :id LIMIT :ps"@
}

/// A numbered page: `ps` rows after skipping `pn` pages of `ps` rows.
pub open spec fn offset_page_sql() -> Seq<char> {
    " LIMIT :ps OFFSET :pn * :ps"@
}

/// The text of the listing statement for request `p`.
pub open spec fn list_users_sql(p: PaginatorWith<UserPayload>) -> Seq<char> {
    list_base_sql() + (if p.custom.age is Some {
        age_filter_sql()
    } else {
        Seq::empty()
    }) + (if p.custom.name is Some {
        name_filter_sql()
    } else {
        Seq::empty()
    }) + (if p.id is Some {
        keyset_page_sql()
    } else {
        offset_page_sql()
    })
}

/// The values bound, in order, to the listing statement for request `p`.
pub open spec fn list_users_params(p: PaginatorWith<UserPayload>) -> Seq<SqlValue> {
    (match p.custom.age {
        Some(a) => seq![SqlValue::Integer(a as i64)],
        None => Seq::empty(),
    }) + (match p.custom.name {
        Some(n) => seq![SqlValue::Text(n)],
        None => Seq::empty(),
    }) + (match p.id {
        Some(i) => seq![SqlValue::Integer(i), u8_param(p.ps)],
        None => seq![u8_param(p.ps), u16_param(p.pn)],
    })
}

/// The statement that lists one page of users for request `payload`.
pub fn list_users_query(payload: PaginatorWith<UserPayload>) -> (r: SqlQuery)
    ensures
        r.sql@ == list_users_sql(payload),
        r.params@ == list_users_params(payload),
        payload.custom.age matches Some(a) ==> has_part(r.sql@, " AND age = :age"@)
            && r.params@[0] == SqlValue::Integer(a as i64),
        payload.custom.name matches Some(n) ==> has_part(r.sql@, " AND name = :name"@)
            && r.params@[if payload.custom.age is Some {
            1int
        } else {
            0int
        }] == SqlValue::Text(n),
        payload.id matches Some(i) ==> has_part(r.sql@, " AND id > :id LIMIT :ps"@),
        payload.id is None ==> has_part(r.sql@, " LIMIT :ps OFFSET :pn * :ps"@),
{
    let ghost p = payload;
    proof {
        lemma_list_filters_apply(p);
    }
    let mut params: Vec<SqlValue> = Vec::new();
    let mut sql = String::from_str("SELECT * FROM user WHERE deleted_at IS NULL");
    if let Some(age) = payload.custom.age {
        sql.append(" AND age = :age");
        params.push(SqlValue::Integer(age as i64));
    }
    if let Some(name) = payload.custom.name {
        sql.append(" AND name = :name");
        params.push(SqlValue::Text(name));
    }
    let ps = match payload.ps {
        Some(v) => SqlValue::Integer(v as i64),
        None => SqlValue::Null,
    };
    if let Some(id) = payload.id {
        sql.append(" AND id > :id LIMIT :ps");
        params.push(SqlValue::Integer(id));
        params.push(ps);
    } else {
        sql.append(" LIMIT :ps OFFSET :pn * :ps");
        params.push(ps);
        params.push(
            match payload.pn {
                Some(v) => SqlValue::Integer(v as i64),
                None => SqlValue::Null,
            },
        );
    }
    proof {
        assert(sql@ =~= list_users_sql(p));
        assert(params@ =~= list_users_params(p));
    }
    SqlQuery { sql, params }
}

/// The text of the statement that inserts a user and returns the new row.
pub open spec fn create_user_sql() -> Seq<char> {
    "INSERT INTO user (name, age) VALUES (:name, :age) RETURNING id, name, age, created_at;"@
}

/// The statement that inserts the user `payload`: `:name` and `:age` take
/// the payload's fields, `NULL` where a field is absent.
pub fn create_user_statement(payload: UserPayload) -> (r: NamedSqlStatement)
    ensures
        r.sql@ == create_user_sql(),
        r.params@.len() == 2,
        r.params@[0].0@ == ":name"@,
        r.params@[0].1 == text_param(payload.name),
        r.params@[1].0@ == ":age"@,
        r.params@[1].1 == u8_param(payload.age),
{
    let name = match payload.name {
        Some(s) => SqlValue::Text(s),
        None => SqlValue::Null,
    };
    let age = match payload.age {
        Some(v) => SqlValue::Integer(v as i64),
        None => SqlValue::Null,
    };
    let mut params: Vec<(&'static str, SqlValue)> = Vec::new();
    params.push((":name", name));
    params.push((":age", age));
    NamedSqlStatement {
        sql: String::from_str(
            "INSERT INTO user (name, age) VALUES (:name, :age) RETURNING id, name, age, created_at;",
        ),
        params,
    }
}

/// A character that may follow the `:` of a named parameter.
pub open spec fn is_name_char(c: char) -> bool {
    ('a' <= c && c <= 'z') || ('A' <= c && c <= 'Z') || ('0' <= c && c <= '9') || c == '_'
}

/// How many name characters `s` starts with.
pub open spec fn name_len(s: Seq<char>) -> nat
    decreases s.len(),
{
    if s.len() > 0 && is_name_char(s[0]) {
        1 + name_len(s.drop_first())
    } else {
        0
    }
}

/// A run of name characters is no longer than the text it starts.
pub proof fn lemma_name_len_bound(s: Seq<char>)
    ensures
        name_len(s) <= s.len(),
    decreases s.len(),
{
    if s.len() > 0 {
        lemma_name_len_bound(s.drop_first());
    }
}

/// The named parameters (`:name`) of a statement's text, in the order in
/// which they occur, repeats included, each without its `:`.
pub open spec fn placeholders(s: Seq<char>) -> Seq<Seq<char>>
    decreases s.len(),
{
    if s.len() == 0 {
        Seq::empty()
    } else if s[0] == ':' && name_len(s.drop_first()) > 0 {
        let n = name_len(s.drop_first());
        proof {
            lemma_name_len_bound(s.drop_first());
        }
        seq![s.subrange(1, n as int + 1)] + placeholders(s.skip(n as int + 1))
    } else {
        placeholders(s.drop_first())
    }
}

/// `names` with each name kept only where it first occurs: the order in
/// which SQLite numbers named parameters, a repeated name taking the number
/// of its first occurrence.
pub open spec fn distinct_in_order(names: Seq<Seq<char>>) -> Seq<Seq<char>>
    decreases names.len(),
{
    if names.len() == 0 {
        Seq::empty()
    } else {
        let rest = distinct_in_order(names.drop_last());
        if rest.contains(names.last()) {
            rest
        } else {
            rest.push(names.last())
        }
    }
}

/// The value of request `p`'s field that the parameter `name` stands for.
pub open spec fn list_field_value(p: PaginatorWith<UserPayload>, name: Seq<char>) -> SqlValue {
    if name == seq!['a', 'g', 'e'] {
        u8_param(p.custom.age)
    } else if name == seq!['n', 'a', 'm', 'e'] {
        text_param(p.custom.name)
    } else if name == seq!['i', 'd'] {
        match p.id {
            Some(i) => SqlValue::Integer(i),
            None => SqlValue::Null,
        }
    } else if name == seq!['p', 's'] {
        u8_param(p.ps)
    } else if name == seq!['p', 'n'] {
        u16_param(p.pn)
    } else {
        SqlValue::Null
    }
}

proof fn lemma_name_len_append(a: Seq<char>, b: Seq<char>)
    requires
        b.len() == 0 || !is_name_char(b[0]),
    ensures
        name_len(a + b) == name_len(a),
        name_len(a) <= a.len(),
    decreases a.len(),
{
    if a.len() == 0 {
        assert(a + b =~= b);
    } else {
        assert((a + b).drop_first() =~= a.drop_first() + b);
        lemma_name_len_append(a.drop_first(), b);
    }
}

/// Text that ends before a name character cannot run on into the next text.
proof fn lemma_placeholders_append(a: Seq<char>, b: Seq<char>)
    requires
        b.len() == 0 || !is_name_char(b[0]),
    ensures
        placeholders(a + b) == placeholders(a) + placeholders(b),
    decreases a.len(),
{
    if a.len() == 0 {
        assert(a + b =~= b);
        assert(placeholders(a) + placeholders(b) =~= placeholders(b));
    } else {
        lemma_name_len_append(a.drop_first(), b);
        assert((a + b).drop_first() =~= a.drop_first() + b);
        if a[0] == ':' && name_len(a.drop_first()) > 0 {
            let n = name_len(a.drop_first());
            assert((a + b).subrange(1, n as int + 1) =~= a.subrange(1, n as int + 1));
            assert((a + b).skip(n as int + 1) =~= a.skip(n as int + 1) + b);
            lemma_placeholders_append(a.skip(n as int + 1), b);
            assert(placeholders(a + b) =~= placeholders(a) + placeholders(b));
        } else {
            lemma_placeholders_append(a.drop_first(), b);
            assert(placeholders(a + b) =~= placeholders(a) + placeholders(b));
        }
    }
}

/// Text without a `:` has no named parameter.
proof fn lemma_placeholders_none(s: Seq<char>)
    requires
        !s.contains(':'),
    ensures
        placeholders(s) == Seq::<Seq<char>>::empty(),
    decreases s.len(),
{
    if s.len() > 0 {
        assert(s[0] != ':');
        assert(!s.drop_first().contains(':')) by {
            if s.drop_first().contains(':') {
                let j = choose|j: int| 0 <= j < s.drop_first().len() && s.drop_first()[j] == ':';
                assert(s[j + 1] == ':');
            }
        }
        lemma_placeholders_none(s.drop_first());
    }
}

proof fn lemma_name_len_all(t: Seq<char>)
    requires
        forall|j: int| 0 <= j < t.len() ==> is_name_char(#[trigger] t[j]),
    ensures
        name_len(t) == t.len(),
    decreases t.len(),
{
    if t.len() > 0 {
        assert(is_name_char(t[0]));
        lemma_name_len_all(t.drop_first());
    }
}

/// A parameter alone: `:` and a name.
proof fn lemma_placeholders_single(s: Seq<char>)
    requires
        2 <= s.len(),
        s[0] == ':',
        forall|j: int| 1 <= j < s.len() ==> is_name_char(#[trigger] s[j]),
    ensures
        placeholders(s) == seq![s.drop_first()],
{
    let t = s.drop_first();
    assert forall|j: int| 0 <= j < t.len() implies is_name_char(#[trigger] t[j]) by {
        assert(t[j] == s[j + 1]);
    }
    lemma_name_len_all(t);
    assert(s.subrange(1, t.len() as int + 1) =~= t);
    let rest = s.skip(t.len() as int + 1);
    assert(rest =~= Seq::<char>::empty());
    assert(placeholders(rest) =~= Seq::<Seq<char>>::empty());
    assert(placeholders(s) =~= seq![t]);
}

proof fn lemma_no_colon(s: Seq<char>)
    requires
        forall|j: int| 0 <= j < s.len() ==> #[trigger] s[j] != ':',
    ensures
        placeholders(s) == Seq::<Seq<char>>::empty(),
{
    lemma_placeholders_none(s);
}

/// The named parameters of each clause of the listing statement.
proof fn lemma_clause_names()
    ensures
        placeholders(list_base_sql()) == Seq::<Seq<char>>::empty(),
        placeholders(age_filter_sql()) == seq![seq!['a', 'g', 'e']],
        placeholders(name_filter_sql()) == seq![seq!['n', 'a', 'm', 'e']],
        placeholders(keyset_page_sql()) == seq![seq!['i', 'd'], seq!['p', 's']],
        placeholders(offset_page_sql()) == seq![
            seq!['p', 's'],
            seq!['p', 'n'],
            seq!['p', 's'],
        ],
        age_filter_sql()[0] == ' ',
        name_filter_sql()[0] == ' ',
        keyset_page_sql()[0] == ' ',
        offset_page_sql()[0] == ' ',
{
    reveal_strlit("SELECT * FROM user WHERE deleted_at IS NULL");
    reveal_strlit(" AND age = :age");
    reveal_strlit(" AND name = :name");
    reveal_strlit(" AND id > :id LIMIT :ps");
    reveal_strlit(" LIMIT :ps OFFSET :pn * :ps");
    lemma_no_colon(list_base_sql());

    let age = seq![':', 'a', 'g', 'e'];
    let name = seq![':', 'n', 'a', 'm', 'e'];
    let id = seq![':', 'i', 'd'];
    let ps = seq![':', 'p', 's'];
    let pn = seq![':', 'p', 'n'];
    lemma_placeholders_single(age);
    lemma_placeholders_single(name);
    lemma_placeholders_single(id);
    lemma_placeholders_single(ps);
    lemma_placeholders_single(pn);
    assert(age.drop_first() =~= seq!['a', 'g', 'e']);
    assert(name.drop_first() =~= seq!['n', 'a', 'm', 'e']);
    assert(id.drop_first() =~= seq!['i', 'd']);
    assert(ps.drop_first() =~= seq!['p', 's']);
    assert(pn.drop_first() =~= seq!['p', 'n']);

    let and_age = seq![' ', 'A', 'N', 'D', ' ', 'a', 'g', 'e', ' ', '=', ' '];
    lemma_no_colon(and_age);
    assert(age_filter_sql() =~= and_age + age);
    lemma_placeholders_append(and_age, age);
    assert(placeholders(age_filter_sql()) =~= seq![seq!['a', 'g', 'e']]);

    let and_name = seq![' ', 'A', 'N', 'D', ' ', 'n', 'a', 'm', 'e', ' ', '=', ' '];
    lemma_no_colon(and_name);
    assert(name_filter_sql() =~= and_name + name);
    lemma_placeholders_append(and_name, name);
    assert(placeholders(name_filter_sql()) =~= seq![seq!['n', 'a', 'm', 'e']]);

    let and_id = seq![' ', 'A', 'N', 'D', ' ', 'i', 'd', ' ', '>', ' '];
    let limit = seq![' ', 'L', 'I', 'M', 'I', 'T', ' '];
    lemma_no_colon(and_id);
    lemma_no_colon(limit);
    assert(keyset_page_sql() =~= and_id + (id + (limit + ps)));
    lemma_placeholders_append(limit, ps);
    lemma_placeholders_append(id, limit + ps);
    lemma_placeholders_append(and_id, id + (limit + ps));
    assert(placeholders(keyset_page_sql()) =~= seq![seq!['i', 'd'], seq!['p', 's']]);

    let offset = seq![' ', 'O', 'F', 'F', 'S', 'E', 'T', ' '];
    let times = seq![' ', '*', ' '];
    lemma_no_colon(offset);
    lemma_no_colon(times);
    assert(offset_page_sql() =~= limit + (ps + (offset + (pn + (times + ps)))));
    lemma_placeholders_append(times, ps);
    lemma_placeholders_append(pn, times + ps);
    lemma_placeholders_append(offset, pn + (times + ps));
    lemma_placeholders_append(ps, offset + (pn + (times + ps)));
    lemma_placeholders_append(limit, ps + (offset + (pn + (times + ps))));
    assert(placeholders(offset_page_sql()) =~= seq![
        seq!['p', 's'],
        seq!['p', 'n'],
        seq!['p', 's'],
    ]);
}

/// Names that are all different keep their order.
proof fn lemma_distinct_unchanged(names: Seq<Seq<char>>)
    requires
        forall|i: int, j: int| 0 <= i < j < names.len() ==> names[i] != names[j],
    ensures
        distinct_in_order(names) == names,
    decreases names.len(),
{
    if names.len() > 0 {
        let init = names.drop_last();
        lemma_distinct_unchanged(init);
        assert(!init.contains(names.last())) by {
            if init.contains(names.last()) {
                let k = choose|k: int| 0 <= k < init.len() && init[k] == names.last();
                assert(names[k] == names[names.len() - 1]);
            }
        }
        assert(init.push(names.last()) =~= names);
    }
}

/// The listing statement's distinct parameter names, in the order SQLite numbers them.
pub open spec fn list_users_names(p: PaginatorWith<UserPayload>) -> Seq<Seq<char>> {
    (if p.custom.age is Some {
        seq![seq!['a', 'g', 'e']]
    } else {
        Seq::empty()
    }) + (if p.custom.name is Some {
        seq![seq!['n', 'a', 'm', 'e']]
    } else {
        Seq::empty()
    }) + (if p.id is Some {
        seq![seq!['i', 'd'], seq!['p', 's']]
    } else {
        seq![seq!['p', 's'], seq!['p', 'n']]
    })
}

/// The listing statement's distinct parameter names are those of its
/// filters, in order, then the keyset id and page size, or the page size
/// and page number.
pub proof fn lemma_list_users_names(p: PaginatorWith<UserPayload>)
    ensures
        distinct_in_order(placeholders(list_users_sql(p))) == list_users_names(p),
{
    lemma_clause_names();
    let a = if p.custom.age is Some {
        age_filter_sql()
    } else {
        Seq::empty()
    };
    let n = if p.custom.name is Some {
        name_filter_sql()
    } else {
        Seq::empty()
    };
    let g = if p.id is Some {
        keyset_page_sql()
    } else {
        offset_page_sql()
    };
    assert(list_users_sql(p) =~= list_base_sql() + (a + (n + g)));
    lemma_placeholders_append(n, g);
    if n.len() > 0 {
        assert((n + g)[0] == ' ');
    } else {
        assert(n + g =~= g);
    }
    lemma_placeholders_append(a, n + g);
    if a.len() > 0 {
        assert((a + (n + g))[0] == ' ');
    } else {
        assert(a + (n + g) =~= n + g);
    }
    lemma_placeholders_append(list_base_sql(), a + (n + g));
    let all = placeholders(list_users_sql(p));
    let names = list_users_names(p);
    let age_names = if p.custom.age is Some {
        seq![seq!['a', 'g', 'e']]
    } else {
        Seq::<Seq<char>>::empty()
    };
    let name_names = if p.custom.name is Some {
        seq![seq!['n', 'a', 'm', 'e']]
    } else {
        Seq::<Seq<char>>::empty()
    };
    assert(placeholders(a) == age_names);
    assert(placeholders(n) == name_names);
    assert(forall|i: int, j: int|
        0 <= i < j < names.len() ==> names[i] != names[j]) by {
        assert forall|i: int, j: int| 0 <= i < j < names.len() implies names[i] != names[j] by {
            if names[i] == names[j] {
                assert(names[i].len() == names[j].len());
                assert(names[i][0] == names[j][0]);
                assert(names[i][1] == names[j][1]);
            }
        }
    }
    lemma_distinct_unchanged(names);
    if p.id is Some {
        assert(all =~= names);
    } else {
        assert(all =~= names.push(seq!['p', 's']));
        assert(all.drop_last() =~= names);
        assert(names[names.len() - 2] == seq!['p', 's']);
        assert(names.contains(seq!['p', 's']));
    }
}

/// The listing binds its values by position while its text names them: the
/// value in each position is that of the field which the parameter name
/// numbered there stands for, and there is one value for each name.
pub proof fn lemma_list_params_follow_names(p: PaginatorWith<UserPayload>)
    ensures
        distinct_in_order(placeholders(list_users_sql(p))).len() == list_users_params(p).len(),
        forall|i: int|
            0 <= i < list_users_params(p).len() ==> #[trigger] list_users_params(p)[i]
                == list_field_value(p, distinct_in_order(placeholders(list_users_sql(p)))[i]),
{
    lemma_list_users_names(p);
    let names = list_users_names(p);
    let params = list_users_params(p);
    assert forall|i: int| 0 <= i < params.len() implies #[trigger] params[i] == list_field_value(
        p,
        names[i],
    ) by {
        assert(names[i] == seq!['a', 'g', 'e'] ==> names[i] != seq!['n', 'a', 'm', 'e']);
    }
}

/// The insert statement names exactly the two parameters that
/// `create_user_statement` binds, `:name` then `:age`.
pub proof fn lemma_create_user_names()
    ensures
        placeholders(create_user_sql()).len() == 2,
        seq![':'] + placeholders(create_user_sql())[0] == ":name"@,
        seq![':'] + placeholders(create_user_sql())[1] == ":age"@,
{
    reveal_strlit(
        "INSERT INTO user (name, age) VALUES (:name, :age) RETURNING id, name, age, created_at;",
    );
    reveal_strlit(":name");
    reveal_strlit(":age");
    let head = seq![
        'I', 'N', 'S', 'E', 'R', 'T', ' ', 'I', 'N', 'T', 'O', ' ', 'u', 's', 'e', 'r', ' ', '(',
        'n', 'a', 'm', 'e', ',', ' ', 'a', 'g', 'e', ')', ' ', 'V', 'A', 'L', 'U', 'E', 'S', ' ',
        '(',
    ];
    let name = seq![':', 'n', 'a', 'm', 'e'];
    let comma = seq![',', ' '];
    let age = seq![':', 'a', 'g', 'e'];
    let tail = seq![
        ')', ' ', 'R', 'E', 'T', 'U', 'R', 'N', 'I', 'N', 'G', ' ', 'i', 'd', ',', ' ', 'n', 'a',
        'm', 'e', ',', ' ', 'a', 'g', 'e', ',', ' ', 'c', 'r', 'e', 'a', 't', 'e', 'd', '_', 'a',
        't', ';',
    ];
    lemma_no_colon(head);
    lemma_no_colon(comma);
    lemma_no_colon(tail);
    lemma_placeholders_single(name);
    lemma_placeholders_single(age);
    assert(create_user_sql() =~= head + (name + (comma + (age + tail))));
    lemma_placeholders_append(age, tail);
    lemma_placeholders_append(comma, age + tail);
    lemma_placeholders_append(name, comma + (age + tail));
    lemma_placeholders_append(head, name + (comma + (age + tail)));
    let names = placeholders(create_user_sql());
    assert(names =~= seq![name.drop_first(), age.drop_first()]);
    assert(seq![':'] + names[0] =~= name);
    assert(seq![':'] + names[1] =~= age);
}

/// Every listing starts from the users that are not deleted: its text begins
/// with the base selection, whatever the request.
pub proof fn lemma_list_excludes_deleted(p: PaginatorWith<UserPayload>)
    ensures
        list_users_sql(p).take(list_base_sql().len() as int) == list_base_sql(),
{
    assert(list_users_sql(p).take(list_base_sql().len() as int) =~= list_base_sql());
}


/// Whether `part` occurs in `s`.
pub open spec fn has_part(s: Seq<char>, part: Seq<char>) -> bool {
    exists|k: int|
        0 <= k && k + part.len() <= s.len() && #[trigger] s.subrange(k, k + part.len()) == part
}

/// Every filter that the request gives narrows the listing, in either
/// paging mode: the age filter binds the age first, the name filter binds
/// the name next; a keyset page starts after the given id, a numbered page
/// skips whole pages; and one value is bound per filter and two for paging.
pub proof fn lemma_list_filters_apply(p: PaginatorWith<UserPayload>)
    ensures
        p.custom.age matches Some(a) ==> has_part(list_users_sql(p), " AND age = :age"@)
            && list_users_params(p)[0] == SqlValue::Integer(a as i64),
        p.custom.name matches Some(n) ==> has_part(list_users_sql(p), " AND name = :name"@)
            && list_users_params(p)[if p.custom.age is Some {
            1int
        } else {
            0int
        }] == SqlValue::Text(n),
        p.id matches Some(i) ==> has_part(list_users_sql(p), " AND id > :id LIMIT :ps"@)
            && list_users_params(p)[list_users_params(p).len() - 2] == SqlValue::Integer(i)
            && list_users_params(p)[list_users_params(p).len() - 1] == match p.ps {
            Some(x) => SqlValue::Integer(x as i64),
            None => SqlValue::Null,
        },
        p.id is None ==> has_part(list_users_sql(p), " LIMIT :ps OFFSET :pn * :ps"@)
            && list_users_params(p)[list_users_params(p).len() - 2] == match p.ps {
            Some(x) => SqlValue::Integer(x as i64),
            None => SqlValue::Null,
        } && list_users_params(p)[list_users_params(p).len() - 1] == match p.pn {
            Some(x) => SqlValue::Integer(x as i64),
            None => SqlValue::Null,
        },
        list_users_params(p).len() == (if p.custom.age is Some {
            1int
        } else {
            0int
        }) + (if p.custom.name is Some {
            1int
        } else {
            0int
        }) + 2,
{
    let a = if p.custom.age is Some {
        age_filter_sql()
    } else {
        Seq::empty()
    };
    let n = if p.custom.name is Some {
        name_filter_sql()
    } else {
        Seq::empty()
    };
    let g = if p.id is Some {
        keyset_page_sql()
    } else {
        offset_page_sql()
    };
    let sql = list_users_sql(p);
    let b = list_base_sql();
    assert(sql =~= b + a + n + g);
    if p.custom.age is Some {
        let k = b.len() as int;
        assert(sql.subrange(k, k + a.len()) =~= a);
    }
    if p.custom.name is Some {
        let k = (b.len() + a.len()) as int;
        assert(sql.subrange(k, k + n.len()) =~= n);
    }
    let k = (b.len() + a.len() + n.len()) as int;
    assert(sql.subrange(k, k + g.len()) =~= g);
}

} // verus!
