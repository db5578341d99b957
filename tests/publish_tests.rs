use soyuz::publish::{Action, Event, PublishError, Publisher, Stage};

const HEADING: &str = "## Latest notes";

fn expect_abort(a: Action, e: PublishError) {
    match a {
        Action::Abort(got) => assert_eq!(got, e),
        _ => panic!("expected an abort"),
    }
}

#[test]
fn publish_end_to_end_from_empty_roots() {
    let mut p = Publisher::new("2024", HEADING);
    assert!(matches!(p.step(Event::Begin), Action::SyncDown));
    assert!(matches!(p.step(Event::Succeeded), Action::ListYearDir));
    // the year's directory does not exist yet
    assert!(matches!(p.step(Event::Failed), Action::CreateYearDir));
    assert!(matches!(p.step(Event::Succeeded), Action::ListYearDir));
    let listing = vec!["2024-06-01.gmi".to_string()];
    match p.step(Event::Listed(listing)) {
        Action::ReadPost(name) => assert_eq!(name, "2024-06-01.gmi"),
        _ => panic!("expected the post to be read"),
    }
    let post = "# My First Post\nHello.\n".to_string();
    assert!(matches!(p.step(Event::Loaded(Some(post))), Action::ReadArchive));
    let archive = match p.step(Event::Loaded(None)) {
        Action::WriteArchive(t) => t,
        _ => panic!("expected the archive to be written"),
    };
    assert!(archive.starts_with("# 2024\n\n"));
    assert_eq!(archive, "# 2024\n\n=> 2024-06-01.gmi 2024-06-01 (My First Post)");
    assert!(matches!(p.step(Event::Succeeded), Action::ReadHomepage));
    let home = match p.step(Event::Loaded(None)) {
        Action::WriteHomepage(t) => t,
        _ => panic!("expected the homepage to be written"),
    };
    assert!(home.contains("=> /2024/2024-06-01.gmi"));
    assert_eq!(home, "## Latest notes\n\n=> /2024/2024-06-01.gmi 2024-06-01 (My First Post)");
    assert!(matches!(p.step(Event::Succeeded), Action::SyncUp));
    assert!(matches!(p.step(Event::Succeeded), Action::Published));
    assert_eq!(p.stage, Stage::Finished);
}

#[test]
fn publish_again_writes_nothing() {
    let mut p = Publisher::new("2024", HEADING);
    p.step(Event::Begin);
    p.step(Event::Succeeded);
    p.step(Event::Listed(vec!["2024-06-01.gmi".to_string()]));
    p.step(Event::Loaded(Some("# T\n".to_string())));
    let archive = "# 2024\n\n=> 2024-06-01.gmi 2024-06-01 (T)".to_string();
    assert!(matches!(p.step(Event::Loaded(Some(archive))), Action::ReadHomepage));
    let home = "## Latest notes\n\n=> /2024/2024-06-01.gmi 2024-06-01 (T)".to_string();
    assert!(matches!(p.step(Event::Loaded(Some(home))), Action::SyncUp));
}

#[test]
fn publish_without_posts_only_syncs() {
    let mut p = Publisher::new("2024", HEADING);
    p.step(Event::Begin);
    p.step(Event::Succeeded);
    let listing = vec!["notes.txt".to_string(), "index.gmi".to_string()];
    assert!(matches!(p.step(Event::Listed(listing)), Action::SyncUp));
    assert!(matches!(p.step(Event::Succeeded), Action::Published));
}

#[test]
fn directory_is_created_only_once() {
    let mut p = Publisher::new("2024", HEADING);
    p.step(Event::Begin);
    p.step(Event::Succeeded);
    assert!(matches!(p.step(Event::Failed), Action::CreateYearDir));
    assert!(matches!(p.step(Event::Succeeded), Action::ListYearDir));
    expect_abort(p.step(Event::Failed), PublishError::DirectoryUnavailable);
}

#[test]
fn failed_directory_creation_is_fatal() {
    let mut p = Publisher::new("2024", HEADING);
    p.step(Event::Begin);
    p.step(Event::Succeeded);
    p.step(Event::Failed);
    expect_abort(p.step(Event::Failed), PublishError::DirectoryUnavailable);
}

#[test]
fn malformed_post_stops_the_run() {
    let mut p = Publisher::new("2024", HEADING);
    p.step(Event::Begin);
    p.step(Event::Succeeded);
    p.step(Event::Listed(vec!["2024-06-01.gmi".to_string()]));
    expect_abort(p.step(Event::Loaded(Some("no heading\n".to_string()))), PublishError::MalformedPost);
}

#[test]
fn unreadable_post_stops_the_run() {
    let mut p = Publisher::new("2024", HEADING);
    p.step(Event::Begin);
    p.step(Event::Succeeded);
    p.step(Event::Listed(vec!["2024-06-01.gmi".to_string()]));
    expect_abort(p.step(Event::Failed), PublishError::PostUnreadable);
}

#[test]
fn sync_failures_are_fatal() {
    let mut p = Publisher::new("2024", HEADING);
    p.step(Event::Begin);
    expect_abort(p.step(Event::Failed), PublishError::SyncFailed);
    let mut p = Publisher::new("2024", HEADING);
    p.step(Event::Begin);
    p.step(Event::Succeeded);
    p.step(Event::Listed(Vec::new()));
    expect_abort(p.step(Event::Failed), PublishError::SyncFailed);
}

#[test]
fn failed_write_is_fatal() {
    let mut p = Publisher::new("2024", HEADING);
    p.step(Event::Begin);
    p.step(Event::Succeeded);
    p.step(Event::Listed(vec!["2024-06-01.gmi".to_string()]));
    p.step(Event::Loaded(Some("# T".to_string())));
    p.step(Event::Loaded(None));
    expect_abort(p.step(Event::Failed), PublishError::WriteFailed);
}

#[test]
fn events_out_of_order_stop_the_run() {
    let mut p = Publisher::new("2024", HEADING);
    expect_abort(p.step(Event::Succeeded), PublishError::OutOfOrder);
    expect_abort(p.step(Event::Begin), PublishError::OutOfOrder);
}

#[test]
fn unreadable_index_stops_the_run() {
    let mut p = Publisher::new("2024", HEADING);
    p.step(Event::Begin);
    p.step(Event::Succeeded);
    p.step(Event::Listed(vec!["2024-06-01.gmi".to_string()]));
    p.step(Event::Loaded(Some("# T".to_string())));
    expect_abort(p.step(Event::Failed), PublishError::IndexUnreadable);

    let mut p = Publisher::new("2024", HEADING);
    p.step(Event::Begin);
    p.step(Event::Succeeded);
    p.step(Event::Listed(vec!["2024-06-01.gmi".to_string()]));
    p.step(Event::Loaded(Some("# T".to_string())));
    p.step(Event::Loaded(None));
    p.step(Event::Succeeded);
    expect_abort(p.step(Event::Failed), PublishError::IndexUnreadable);
}
