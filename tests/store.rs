use gpa_getter::college::{build_college_data, CollegeData, DataFile};
use gpa_getter::loader::batch_fact_rows;
use gpa_getter::query::build_gpa_query;
use gpa_getter::resolver::{DimensionResolver, ResolvedIds};
use gpa_getter::sql::{SqlValue, SCHEMA};
use sqlx::sqlite::{SqliteArguments, SqlitePoolOptions};
use sqlx::{Row, Sqlite, SqlitePool};

fn block_on<F: std::future::Future>(f: F) -> F::Output {
    tokio::runtime::Builder::new_current_thread().enable_all().build().unwrap().block_on(f)
}

fn bind_all<'q>(
    mut query: sqlx::query::Query<'q, Sqlite, SqliteArguments<'q>>,
    binds: &'q [SqlValue],
) -> sqlx::query::Query<'q, Sqlite, SqliteArguments<'q>> {
    for value in binds {
        query = match value {
            SqlValue::Int(i) => query.bind(*i),
            SqlValue::Text(s) => query.bind(s.as_str()),
            SqlValue::Real(s) => query.bind(s.parse::<f64>().ok()),
            SqlValue::Null => query.bind(None::<f64>),
        };
    }
    query
}

async fn open() -> SqlitePool {
    let pool = SqlitePoolOptions::new().max_connections(1).connect("sqlite::memory:").await.unwrap();
    sqlx::raw_sql(SCHEMA).execute(&pool).await.unwrap();
    pool
}

async fn ingest(pool: &SqlitePool, data: &Vec<CollegeData>) -> ResolvedIds {
    let mut conn = pool.acquire().await.unwrap();
    let mut resolver = DimensionResolver::new(data);
    while let Some(action) = resolver.next_action() {
        bind_all(sqlx::query(action.upsert.sql), &action.upsert.binds).execute(&mut *conn).await.unwrap();
        let row = bind_all(sqlx::query(action.lookup.sql), &action.lookup.binds)
            .fetch_one(&mut *conn)
            .await
            .unwrap();
        resolver.record_id(row.get::<i64, _>(0));
    }
    let ids = resolver.finish().unwrap();
    for (b, batch) in data.iter().enumerate() {
        for fact in batch_fact_rows(batch, ids.term_ids[b], &ids.class_ids[b]) {
            let up = fact.student_upsert();
            bind_all(sqlx::query(up.sql), &up.binds).execute(&mut *conn).await.unwrap();
            let look = fact.student_lookup();
            let row = bind_all(sqlx::query(look.sql), &look.binds).fetch_one(&mut *conn).await.unwrap();
            let insert = fact.record_insert(row.get::<i64, _>(0));
            bind_all(sqlx::query(insert.sql), &insert.binds).execute(&mut *conn).await.unwrap();
        }
    }
    ids
}

async fn count(pool: &SqlitePool, table: &str) -> i64 {
    let row = sqlx::query(&format!("SELECT COUNT(*) FROM {};", table)).fetch_one(pool).await.unwrap();
    row.get::<i64, _>(0)
}

async fn gpa_rows(pool: &SqlitePool, terms: &Vec<i64>, major_id: i64, grade: &str, class_id: Option<i64>) -> Vec<(String, String, Option<f64>)> {
    let query = build_gpa_query(terms, major_id, grade, class_id).unwrap();
    let rows = bind_all(sqlx::query(query.sql.as_str()), &query.binds).fetch_all(pool).await.unwrap();
    let mut out: Vec<(String, String, Option<f64>)> = rows
        .iter()
        .map(|r| (r.get::<String, _>(0), r.get::<String, _>(1), r.get::<Option<f64>, _>(3)))
        .collect();
    out.sort_by(|a, b| a.1.cmp(&b.1));
    out
}

/// A table file whose rows are (student number, name, GPA cell).
fn file(term: &str, college: &str, name: &str, rows: &[(&str, &str, &str)]) -> DataFile {
    let mut text = String::from("xh,xm,k101\n,,00101|3.5|2022-2023-1智育学分绩||\n");
    for (sid, sname, gpa) in rows {
        text.push_str(&format!("{},{},{}\n", sid, sname, gpa));
    }
    DataFile { path: format!("/data/{}学期智育学分绩/{}/{}", term, college, name), contents: text.into_bytes() }
}

fn batch(term: &str, college: &str, files: Vec<DataFile>) -> CollegeData {
    build_college_data(&format!("/data/{}学期智育学分绩/{}", term, college), &files).unwrap()
}

fn sample() -> Vec<CollegeData> {
    vec![
        batch(
            "2022-2023-1",
            "01农学",
            vec![
                file("2022-2023-1", "01农学", "b01农学1901hz.csv", &[("S1", "甲", "3.0"), ("S2", "乙", ""), ("S3", "丙", "2.5")]),
                file("2022-2023-1", "01农学", "b01农学1902hz.csv", &[("S4", "丁", "4.0")]),
                file("2022-2023-1", "01农学", "b01农学2001hz.csv", &[("S9", "戊", "3.9")]),
            ],
        ),
        batch(
            "2022-2023-2",
            "01农学",
            vec![
                file("2022-2023-2", "01农学", "b01农学1901hz.csv", &[("S1", "甲", "4.0"), ("S2", "乙", "3.5")]),
                file("2022-2023-2", "01农学", "b01农学1902hz.csv", &[("S4", "丁", "1.5")]),
            ],
        ),
    ]
}

#[test]
fn ingesting_twice_keeps_dimension_counts() {
    block_on(async {
        let pool = open().await;
        let data = sample();
        ingest(&pool, &data).await;
        let tables = ["terms", "colleges", "majors", "classes", "students"];
        let mut once = Vec::new();
        for t in tables {
            once.push(count(&pool, t).await);
        }
        assert_eq!(once, vec![2, 1, 1, 3, 5]);
        ingest(&pool, &data).await;
        let mut twice = Vec::new();
        for t in tables {
            twice.push(count(&pool, t).await);
        }
        assert_eq!(twice, once);
        assert_eq!(count(&pool, "academic_records").await, 16);
    });
}

#[test]
fn missing_gpa_is_stored_as_null() {
    block_on(async {
        let pool = open().await;
        ingest(&pool, &sample()).await;
        let row = sqlx::query(
            "SELECT academic_records.gpa FROM academic_records JOIN students ON students.student_id = academic_records.student_id WHERE students.student_number = 'S2' AND academic_records.term_id = 1;",
        )
        .fetch_one(&pool)
        .await
        .unwrap();
        assert_eq!(row.get::<Option<f64>, _>(0), None);
    });
}

#[test]
fn single_term_query_returns_the_cohort() {
    block_on(async {
        let pool = open().await;
        let data = sample();
        let ids = ingest(&pool, &data).await;
        let term1 = ids.term_ids[0];
        let rows = gpa_rows(&pool, &vec![term1], 1, "19", None).await;
        assert_eq!(
            rows,
            vec![
                ("农学1901".to_string(), "S1".to_string(), Some(3.0)),
                ("农学1901".to_string(), "S2".to_string(), None),
                ("农学1901".to_string(), "S3".to_string(), Some(2.5)),
                ("农学1902".to_string(), "S4".to_string(), Some(4.0)),
            ]
        );
        let class_1902 = ids.class_ids[0][1];
        let rows = gpa_rows(&pool, &vec![term1], 1, "19", Some(class_1902)).await;
        assert_eq!(rows, vec![("农学1902".to_string(), "S4".to_string(), Some(4.0))]);
        let rows = gpa_rows(&pool, &vec![term1], 1, "20", None).await;
        assert_eq!(rows, vec![("农学2001".to_string(), "S9".to_string(), Some(3.9))]);
    });
}

#[test]
fn multi_term_query_sums_over_the_last_terms_cohort() {
    block_on(async {
        let pool = open().await;
        let data = sample();
        let ids = ingest(&pool, &data).await;
        let terms = vec![ids.term_ids[0], ids.term_ids[1]];
        let rows = gpa_rows(&pool, &terms, 1, "19", None).await;
        assert_eq!(
            rows,
            vec![
                ("农学1901".to_string(), "S1".to_string(), Some(7.0)),
                ("农学1901".to_string(), "S2".to_string(), Some(3.5)),
                ("农学1902".to_string(), "S4".to_string(), Some(5.5)),
            ]
        );
    });
}
