use gpa_getter::college::{build_college_data, CollegeData, DataFile};
use gpa_getter::layout::{check_term_dir, collect_csv_files, judge_data_path, EntryInfo};
use gpa_getter::loader::{
    batch_fact_rows, is_lock_contention, partition_batches, summarize, AttemptOutcome,
    RetryDecision, RetryPolicy,
};
use gpa_getter::resolver::{DimensionResolver, DimensionStep};
use gpa_getter::sql::{SqlValue, CLASS_UPSERT, COLLEGE_UPSERT, MAJOR_UPSERT, RECORD_INSERT, TERM_UPSERT};

fn csv_with_rows(n: usize) -> Vec<u8> {
    let mut text = String::from("xh,xm,k101\n,,00101|3.5|2022-2023-1智育学分绩||\n");
    for i in 0..n {
        if i % 5 == 0 {
            text.push_str(&format!("A011900{:02},学生{},\n", i, i));
        } else {
            text.push_str(&format!("A011900{:02},学生{},3.{}\n", i, i, i % 10));
        }
    }
    text.into_bytes()
}

fn table_file(path: &str, rows: usize) -> DataFile {
    DataFile { path: path.to_string(), contents: csv_with_rows(rows) }
}

fn texts(binds: &[SqlValue]) -> Vec<String> {
    binds
        .iter()
        .map(|b| match b {
            SqlValue::Int(i) => format!("#{}", i),
            SqlValue::Text(s) => s.clone(),
            SqlValue::Real(s) => format!("r{}", s),
            SqlValue::Null => "null".to_string(),
        })
        .collect()
}

/// Runs the resolver with ids 100, 101, ... handed back for each step.
fn resolve(data: &Vec<CollegeData>) -> (Vec<Vec<String>>, gpa_getter::resolver::ResolvedIds) {
    let mut resolver = DimensionResolver::new(data);
    let mut upserts = Vec::new();
    let mut next_id = 100;
    while let Some(action) = resolver.next_action() {
        let mut line = vec![action.upsert.sql.to_string()];
        line.extend(texts(&action.upsert.binds));
        upserts.push(line);
        resolver.record_id(next_id);
        next_id += 1;
    }
    (upserts, resolver.finish().unwrap())
}

#[test]
fn end_to_end_single_file() {
    let root = "/data";
    let term_dir = "/data/2022-2023-1学期智育学分绩";
    let college_dir = "/data/2022-2023-1学期智育学分绩/01农学";
    let root_entries = vec![EntryInfo {
        name: "2022-2023-1学期智育学分绩".to_string(),
        path: term_dir.to_string(),
        is_dir: true,
    }];
    let term_entries = vec![EntryInfo { name: "01农学".to_string(), path: college_dir.to_string(), is_dir: true }];
    check_term_dir(&term_entries).unwrap();
    let terms = judge_data_path(root, true, &root_entries, &vec![term_entries]).unwrap();
    assert_eq!(terms, vec![term_dir.to_string()]);
    let file_path = format!("{}/b01农学1901hz.csv", college_dir);
    let college_entries = vec![EntryInfo { name: "b01农学1901hz.csv".to_string(), path: file_path.clone(), is_dir: false }];
    let files = collect_csv_files(&college_entries);
    assert_eq!(files, vec![file_path.clone()]);

    let batch = build_college_data(college_dir, &vec![table_file(&file_path, 29)]).unwrap();
    assert_eq!(batch.term_name, "2022-2023-1");
    assert_eq!(batch.college_number, "01");
    assert_eq!(batch.college_name, "农学");
    assert_eq!(batch.data.len(), 1);
    assert_eq!(batch.data[0].major_name, "农学");
    assert_eq!(batch.data[0].class_name, "农学1901");
    assert_eq!(batch.data[0].records.len(), 29);

    let data = vec![batch];
    let (upserts, ids) = resolve(&data);
    assert_eq!(upserts.len(), 4);
    assert_eq!(upserts[0], vec![TERM_UPSERT.to_string(), "2022-2023-1".to_string()]);
    assert_eq!(upserts[1], vec![COLLEGE_UPSERT.to_string(), "农学".to_string(), "01".to_string()]);
    assert_eq!(upserts[2], vec![MAJOR_UPSERT.to_string(), "农学".to_string(), "#101".to_string()]);
    assert_eq!(upserts[3], vec![CLASS_UPSERT.to_string(), "农学1901".to_string(), "#102".to_string()]);
    assert_eq!(ids.term_ids, vec![100]);
    assert_eq!(ids.class_ids, vec![vec![103]]);

    let facts = batch_fact_rows(&data[0], ids.term_ids[0], &ids.class_ids[0]);
    assert_eq!(facts.len(), 29);
    assert!(facts.iter().all(|f| f.term_id == 100 && f.class_id == 103));
    assert_eq!(facts[0].gpa, None);
    assert_eq!(facts[1].gpa, Some("3.1".to_string()));
    let insert = facts[1].record_insert(7);
    assert_eq!(insert.sql, RECORD_INSERT);
    assert_eq!(texts(&insert.binds), vec!["r3.1", "#100", "#103", "#7"]);
    assert_eq!(texts(&facts[0].record_insert(8).binds), vec!["null", "#100", "#103", "#8"]);
}

#[test]
fn repeated_keys_are_upserted_once() {
    let term = "/d/2022-2023-1学期智育学分绩";
    let a = build_college_data(
        &format!("{}/01农学", term),
        &vec![
            table_file(&format!("{}/01农学/b01农学1901hz.csv", term), 2),
            table_file(&format!("{}/01农学/b01农学1902hz.csv", term), 2),
        ],
    )
    .unwrap();
    let b = build_college_data(
        &format!("{}/01农学", term),
        &vec![table_file(&format!("{}/01农学/b01农学1901hz.csv", term), 1)],
    )
    .unwrap();
    let data = vec![a, b];
    let (upserts, ids) = resolve(&data);
    let kinds: Vec<&str> = upserts.iter().map(|u| u[0].as_str()).collect();
    assert_eq!(kinds, vec![TERM_UPSERT, COLLEGE_UPSERT, MAJOR_UPSERT, CLASS_UPSERT, CLASS_UPSERT]);
    assert_eq!(ids.term_ids, vec![100, 100]);
    assert_eq!(ids.class_ids, vec![vec![103, 104], vec![103]]);
    let steps_again = {
        let (again, _) = resolve(&data);
        again
    };
    assert_eq!(steps_again, upserts);
}

#[test]
fn majors_are_scoped_to_their_college() {
    let term = "/d/2022-2023-1学期智育学分绩";
    let a = build_college_data(
        &format!("{}/01农学", term),
        &vec![table_file(&format!("{}/01农学/b01共同1901hz.csv", term), 1)],
    )
    .unwrap();
    let b = build_college_data(
        &format!("{}/02林学", term),
        &vec![table_file(&format!("{}/02林学/b02共同1901hz.csv", term), 1)],
    )
    .unwrap();
    let (upserts, ids) = resolve(&vec![a, b]);
    assert_eq!(upserts.len(), 7);
    assert_eq!(upserts[5], vec![MAJOR_UPSERT.to_string(), "共同".to_string(), "#104".to_string()]);
    assert_eq!(ids.class_ids, vec![vec![103], vec![106]]);
}

#[test]
fn plan_steps_name_their_parents() {
    let term = "/d/2022-2023-1学期智育学分绩";
    let a = build_college_data(
        &format!("{}/01农学", term),
        &vec![table_file(&format!("{}/01农学/b01农学1901hz.csv", term), 1)],
    )
    .unwrap();
    let plan = gpa_getter::resolver::DimensionPlan::new(&vec![a]);
    assert_eq!(plan.steps.len(), 4);
    assert!(matches!(plan.steps[2], DimensionStep::Major { college: 1, .. }));
    assert!(matches!(plan.steps[3], DimensionStep::Class { major: 2, .. }));
    assert_eq!(plan.term_step, vec![0]);
    assert_eq!(plan.class_step, vec![vec![3]]);
}

#[test]
fn batches_are_grouped_by_table_count() {
    assert_eq!(partition_batches(&vec![], 400), vec![]);
    assert_eq!(partition_batches(&vec![10, 20], 400), vec![(0, 2)]);
    assert_eq!(partition_batches(&vec![300, 100, 50, 400, 1], 400), vec![(0, 2), (2, 4), (4, 5)]);
    assert_eq!(partition_batches(&vec![3, 4], 0), vec![(0, 1), (1, 2)]);
    assert_eq!(partition_batches(&vec![usize::MAX, 1], 5), vec![(0, 1), (1, 2)]);
}

#[test]
fn busy_store_is_retried_until_the_bound() {
    let policy = RetryPolicy::standard();
    assert_eq!(policy.max_attempts, 20);
    assert_eq!(policy.delay_ms, 100);
    assert_eq!(policy.decide(1, AttemptOutcome::Busy), RetryDecision::RetryAfter(100));
    assert_eq!(policy.decide(19, AttemptOutcome::Busy), RetryDecision::RetryAfter(100));
    assert_eq!(policy.decide(20, AttemptOutcome::Busy), RetryDecision::GiveUp);
    assert_eq!(policy.decide(3, AttemptOutcome::Succeeded), RetryDecision::Finish);
    assert_eq!(policy.decide(1, AttemptOutcome::Failed), RetryDecision::GiveUp);
    let fast = RetryPolicy::new(2, 5);
    assert_eq!(fast.decide(1, AttemptOutcome::Busy), RetryDecision::RetryAfter(5));
    assert_eq!(fast.decide(2, AttemptOutcome::Busy), RetryDecision::GiveUp);
}

#[test]
fn fake_store_that_is_busy_twice() {
    let policy = RetryPolicy::new(5, 0);
    let outcomes = [AttemptOutcome::Busy, AttemptOutcome::Busy, AttemptOutcome::Succeeded];
    let mut attempts = 0u32;
    let mut decision;
    loop {
        let outcome = outcomes[attempts as usize];
        attempts += 1;
        decision = policy.decide(attempts, outcome);
        if !matches!(decision, RetryDecision::RetryAfter(_)) {
            break;
        }
    }
    assert_eq!(attempts, 3);
    assert_eq!(decision, RetryDecision::Finish);
}

#[test]
fn lock_messages_are_recognised() {
    assert!(is_lock_contention("error returned from database: (code: 5) database is locked"));
    assert!(is_lock_contention("database is locked"));
    assert!(!is_lock_contention("database is lock"));
    assert!(!is_lock_contention("UNIQUE constraint failed"));
    assert!(!is_lock_contention(""));
}

#[test]
fn summary_counts_outcomes() {
    let s = summarize(&vec![true, false, true, true]);
    assert_eq!(s.succeeded, 3);
    assert_eq!(s.failed, 1);
    let empty = summarize(&vec![]);
    assert_eq!((empty.succeeded, empty.failed), (0, 0));
}
