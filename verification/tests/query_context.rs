use fuse_query::context::FuseQueryContext;
use fuse_query::context::Part;
use fuse_query::context::ProgressValues;
use fuse_query::context::Statistics;
use fuse_query::errors::ErrorKind;

fn context() -> FuseQueryContext {
    FuseQueryContext::from_identity("id-1".to_string(), 8, "default".to_string(), "abc")
}

fn part(n: u64) -> Part {
    Part { name: format!("part-{}", n), version: n }
}

#[test]
fn a_fresh_context() {
    let ctx = context();
    assert_eq!(ctx.get_id(), "id-1");
    assert_eq!(ctx.get_current_database(), "default");
    assert_eq!(ctx.get_max_threads().unwrap(), 8);
    assert_eq!(ctx.get_fuse_version(), "FuseQuery v-abc");
    assert_eq!(ctx.try_get_statistics().unwrap(), Statistics { read_rows: 0, read_bytes: 0 });
    assert_eq!(ctx.get_progress_value(), ProgressValues { read_rows: 0, read_bytes: 0, total_rows_to_read: 0 });
    let other = FuseQueryContext::from_settings(2, "db".to_string(), "x").unwrap();
    assert_eq!(other.get_current_database(), "db");
    assert_eq!(other.get_max_threads().unwrap(), 2);
    assert_eq!(other.get_fuse_version(), "FuseQuery v-x");
}

#[test]
fn a_fresh_context_has_a_fresh_random_identity() {
    let one = FuseQueryContext::try_create(4, "abc").unwrap();
    let other = FuseQueryContext::try_create(4, "abc").unwrap();
    assert_ne!(one.get_id(), other.get_id());
    assert_eq!(one.get_current_database(), "default");
    assert_eq!(one.get_max_threads().unwrap(), 4);
    for id in [one.get_id(), other.get_id()] {
        let chars: Vec<char> = id.chars().collect();
        assert_eq!(chars.len(), 36);
        for (i, c) in chars.iter().enumerate() {
            if i == 8 || i == 13 || i == 18 || i == 23 {
                assert_eq!(*c, '-');
            } else {
                assert!(matches!(c, '0'..='9' | 'a'..='f'));
            }
        }
        assert_eq!(chars[14], '4');
        assert!(matches!(chars[19], '8' | '9' | 'a' | 'b'));
    }
}

#[test]
fn partitions_are_taken_from_the_end() {
    let mut ctx = context();
    ctx.try_set_partitions(vec![part(1), part(2), part(3)]).unwrap();
    ctx.try_set_partitions(vec![part(4), part(5)]).unwrap();
    assert_eq!(ctx.try_get_partitions(2).unwrap(), vec![part(5), part(4)]);
    assert_eq!(ctx.try_get_partitions(0).unwrap(), vec![]);
    assert_eq!(ctx.try_get_partitions(7).unwrap(), vec![part(3), part(2), part(1)]);
    assert_eq!(ctx.try_get_partitions(1).unwrap(), vec![]);
    ctx.try_set_partitions(vec![]).unwrap();
    assert_eq!(ctx.try_get_partitions(1).unwrap(), vec![]);
}

#[test]
fn progress_is_added_up_and_wraps_around() {
    let mut ctx = context();
    ctx.progress_callback(&ProgressValues { read_rows: 3, read_bytes: 30, total_rows_to_read: 99 });
    ctx.progress_callback(&ProgressValues { read_rows: 4, read_bytes: 40, total_rows_to_read: 99 });
    ctx.add_total_rows_approx(1000);
    assert_eq!(ctx.get_progress_value(), ProgressValues { read_rows: 7, read_bytes: 70, total_rows_to_read: 1000 });
    ctx.progress_callback(&ProgressValues { read_rows: usize::MAX, read_bytes: usize::MAX - 69, total_rows_to_read: 0 });
    assert_eq!(ctx.get_progress_value(), ProgressValues { read_rows: 6, read_bytes: 0, total_rows_to_read: 1000 });
    ctx.add_total_rows_approx(usize::MAX);
    assert_eq!(ctx.get_progress_value().total_rows_to_read, 999);
    let taken = ctx.get_and_reset_progress_value();
    assert_eq!(taken, ProgressValues { read_rows: 6, read_bytes: 0, total_rows_to_read: 999 });
    assert_eq!(ctx.get_progress_value(), ProgressValues { read_rows: 0, read_bytes: 0, total_rows_to_read: 0 });
}

#[test]
fn statistics_are_replaced() {
    let mut ctx = context();
    ctx.try_set_statistics(&Statistics { read_rows: 5, read_bytes: 50 }).unwrap();
    assert_eq!(ctx.try_get_statistics().unwrap(), Statistics { read_rows: 5, read_bytes: 50 });
}

#[test]
fn reset_forgets_the_statement_before() {
    let mut ctx = context();
    ctx.try_set_partitions(vec![part(1)]).unwrap();
    ctx.try_set_statistics(&Statistics { read_rows: 5, read_bytes: 50 }).unwrap();
    ctx.progress_callback(&ProgressValues { read_rows: 3, read_bytes: 30, total_rows_to_read: 0 });
    ctx.add_total_rows_approx(10);
    ctx.set_max_threads(3).unwrap();
    ctx.reset().unwrap();
    assert_eq!(ctx.try_get_partitions(1).unwrap(), vec![]);
    assert_eq!(ctx.try_get_statistics().unwrap(), Statistics { read_rows: 0, read_bytes: 0 });
    assert_eq!(ctx.get_progress_value(), ProgressValues { read_rows: 0, read_bytes: 0, total_rows_to_read: 0 });
    assert_eq!(ctx.get_id(), "id-1");
    assert_eq!(ctx.get_max_threads().unwrap(), 3);
}

#[test]
fn the_current_database_has_to_exist() {
    let mut ctx = context();
    ctx.set_current_database("sales".to_string(), true).unwrap();
    assert_eq!(ctx.get_current_database(), "sales");
    let err = ctx.set_current_database("nowhere".to_string(), false).unwrap_err();
    assert_eq!(err.kind(), ErrorKind::UnknownDatabase);
    assert_eq!(err.message(), "Database nowhere  doesn't exist.");
    assert_eq!(ctx.get_current_database(), "sales");
}

#[test]
fn the_identity_can_be_given() {
    let mut ctx = context();
    ctx.with_id("id-9");
    assert_eq!(ctx.get_id(), "id-9");
    assert_eq!(ctx.get_current_database(), "default");
}
