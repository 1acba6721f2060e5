use rust_axum_server::api::dmail::user::{create_user_statement, list_users_query, SqlValue};
use rust_axum_server::biz::{default_0_u16, default_10_u8, PaginatorWith, UserPayload};

fn request(pn: Option<u16>, ps: Option<u8>, id: Option<i64>, name: Option<&str>, age: Option<u8>) -> PaginatorWith<UserPayload> {
    PaginatorWith { pn, ps, id, custom: UserPayload { name: name.map(|s| s.to_string()), age } }
}

#[test]
fn listing_by_page_number() {
    let q = list_users_query(request(Some(0), Some(10), None, None, None));
    assert_eq!(q.sql, "SELECT * FROM user WHERE deleted_at IS NULL LIMIT :ps OFFSET :pn * :ps");
    assert_eq!(q.params, vec![SqlValue::Integer(10), SqlValue::Integer(0)]);
}

#[test]
fn listing_from_a_keyset_id_with_filters() {
    // the request of the readme: name=2---&ps=10&id=354757&age=4
    let q = list_users_query(request(Some(0), Some(10), Some(354757), Some("2---"), Some(4)));
    assert_eq!(
        q.sql,
        "SELECT * FROM user WHERE deleted_at IS NULL AND age = :age AND name = :name AND id > :id LIMIT :ps"
    );
    assert_eq!(
        q.params,
        vec![
            SqlValue::Integer(4),
            SqlValue::Text("2---".to_string()),
            SqlValue::Integer(354757),
            SqlValue::Integer(10),
        ]
    );
}

#[test]
fn listing_with_missing_page_fields_binds_null() {
    let q = list_users_query(request(None, None, None, Some("ab"), None));
    assert_eq!(q.sql, "SELECT * FROM user WHERE deleted_at IS NULL AND name = :name LIMIT :ps OFFSET :pn * :ps");
    assert_eq!(q.params, vec![SqlValue::Text("ab".to_string()), SqlValue::Null, SqlValue::Null]);
}

#[test]
fn insert_binds_name_and_age() {
    let s = create_user_statement(UserPayload { name: Some("bob".to_string()), age: None });
    assert_eq!(
        s.sql,
        "INSERT INTO user (name, age) VALUES (:name, :age) RETURNING id, name, age, created_at;"
    );
    assert_eq!(
        s.params,
        vec![(":name", SqlValue::Text("bob".to_string())), (":age", SqlValue::Null)]
    );
}

#[test]
fn pagination_defaults() {
    assert_eq!(default_0_u16(), Some(0));
    assert_eq!(default_10_u8(), Some(10));
}

#[test]
fn name_length_rule() {
    let ok = |name: Option<&str>| UserPayload { name: name.map(|s| s.to_string()), age: Some(1) }.validate().is_ok();
    assert!(ok(None));
    assert!(ok(Some("abc")));
    assert!(ok(Some("abcdefghijklmnopqrst")));
    assert!(!ok(Some("ab")));
    assert!(!ok(Some("abcdefghijklmnopqrstu")));
    // characters, not bytes, are counted
    assert!(ok(Some("黑风雷")));
    let err = UserPayload { name: Some("x".to_string()), age: None }.validate().unwrap_err();
    assert_eq!(err.field, "name");
    assert_eq!((err.min, err.max), (3, 20));
    assert_eq!(err.message, "Username must be between 3 and 20 characters");
}

/// The distinct `:name` parameters of `sql`, in order of first occurrence.
fn distinct_names(sql: &str) -> Vec<String> {
    let chars: Vec<char> = sql.chars().collect();
    let mut names: Vec<String> = Vec::new();
    let mut i = 0;
    while i < chars.len() {
        if chars[i] == ':' {
            let mut j = i + 1;
            while j < chars.len() && (chars[j].is_ascii_alphanumeric() || chars[j] == '_') {
                j += 1;
            }
            let name: String = chars[i + 1..j].iter().collect();
            if !name.is_empty() && !names.contains(&name) {
                names.push(name);
            }
            i = j;
        } else {
            i += 1;
        }
    }
    names
}

#[test]
fn listing_binds_each_name_to_its_field() {
    for id in [None, Some(7)] {
        for name in [None, Some("carol")] {
            for age in [None, Some(30)] {
                let p = request(Some(2), Some(5), id, name, age);
                let q = list_users_query(p);
                let names = distinct_names(&q.sql);
                assert_eq!(names.len(), q.params.len());
                for (n, v) in names.iter().zip(q.params.iter()) {
                    let expected = match n.as_str() {
                        "age" => SqlValue::Integer(age.unwrap() as i64),
                        "name" => SqlValue::Text(name.unwrap().to_string()),
                        "id" => SqlValue::Integer(id.unwrap()),
                        "ps" => SqlValue::Integer(5),
                        "pn" => SqlValue::Integer(2),
                        other => panic!("unexpected parameter {other}"),
                    };
                    assert_eq!(v, &expected);
                }
            }
        }
    }
    let s = create_user_statement(UserPayload { name: None, age: Some(9) });
    let names: Vec<String> = s.params.iter().map(|(n, _)| n.trim_start_matches(':').to_string()).collect();
    assert_eq!(distinct_names(&s.sql), names);
}
