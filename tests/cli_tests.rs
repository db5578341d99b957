use soyuz::cli::{
    exists_test, normalize_dir, parse_command, post_path, remote_answer, split_remote, sync_args,
    Command, Direction, Policy, RemoteAnswer,
};
use soyuz::config::{editor_or_default, Config};

fn args(v: &[&str]) -> Vec<String> {
    v.iter().map(|s| s.to_string()).collect()
}

#[test]
fn commands_are_parsed() {
    assert_eq!(parse_command(&args(&["soyuz"])), Command::Help);
    assert_eq!(parse_command(&args(&["soyuz", "help"])), Command::Help);
    assert_eq!(parse_command(&args(&["soyuz", "write"])), Command::Write);
    assert_eq!(parse_command(&args(&["soyuz", "settings"])), Command::Settings);
    assert_eq!(parse_command(&args(&["soyuz", "publish"])), Command::Publish);
    assert_eq!(parse_command(&args(&["soyuz", "bogus"])), Command::Help);
}

#[test]
fn sync_commands_are_parsed() {
    let up = Command::Sync(Direction::Up, Policy::Update);
    assert_eq!(parse_command(&args(&["soyuz", "sync"])), up);
    assert_eq!(parse_command(&args(&["soyuz", "sync", "up"])), up);
    assert_eq!(
        parse_command(&args(&["soyuz", "sync", "down"])),
        Command::Sync(Direction::Down, Policy::Update)
    );
    assert_eq!(
        parse_command(&args(&["soyuz", "sync", "down", "--overwrite"])),
        Command::Sync(Direction::Down, Policy::Overwrite)
    );
    assert_eq!(
        parse_command(&args(&["soyuz", "sync", "up", "--delete"])),
        Command::Sync(Direction::Up, Policy::Delete)
    );
}

#[test]
fn malformed_sync_falls_back_to_help() {
    assert_eq!(parse_command(&args(&["soyuz", "sync", "sideways"])), Command::Help);
    assert_eq!(parse_command(&args(&["soyuz", "sync", "up", "--force"])), Command::Help);
    assert_eq!(parse_command(&args(&["soyuz", "other", "up"])), Command::Help);
    assert_eq!(parse_command(&args(&["soyuz", "sync", "up", "--delete", "x"])), Command::Help);
}

#[test]
fn sync_arguments_per_policy() {
    assert_eq!(
        sync_args(Direction::Up, Policy::Update, "/l/", "h:/r/"),
        args(&["-rtOq", "--update", "/l/", "h:/r/"])
    );
    assert_eq!(
        sync_args(Direction::Down, Policy::Update, "/l/", "h:/r/"),
        args(&["-rtOq", "--update", "h:/r/", "/l/"])
    );
    assert_eq!(
        sync_args(Direction::Down, Policy::Overwrite, "/l/", "h:/r/"),
        args(&["-rtO", "--quiet", "h:/r/", "/l/"])
    );
    assert_eq!(
        sync_args(Direction::Up, Policy::Delete, "/l/", "h:/r/"),
        args(&["-rtOq", "--delete", "/l/", "h:/r/"])
    );
}

#[test]
fn directories_end_in_one_slash() {
    assert_eq!(normalize_dir("/home/me/site"), "/home/me/site/");
    assert_eq!(normalize_dir("/home/me/site///"), "/home/me/site/");
    assert_eq!(normalize_dir(""), "/");
}

#[test]
fn config_normalizes_roots() {
    let c = Config::new("/l//", "host:/r", "vim", "## Latest notes");
    assert_eq!(c.local_dir, "/l/");
    assert_eq!(c.remote_dir, "host:/r/");
    assert_eq!(c.editor, "vim");
    assert_eq!(c.index_heading, "## Latest notes");
}

#[test]
fn editor_falls_back_to_nano() {
    assert_eq!(editor_or_default(None), "nano");
    assert_eq!(editor_or_default(Some("vim")), "vim");
}

#[test]
fn remote_answers_are_read() {
    assert_eq!(remote_answer("true\n"), RemoteAnswer::Exists);
    assert_eq!(remote_answer("  false \r\n"), RemoteAnswer::Missing);
    assert_eq!(remote_answer("bash: error"), RemoteAnswer::Unexpected);
    assert_eq!(remote_answer(""), RemoteAnswer::Unexpected);
    assert_eq!(remote_answer("\u{c}true\u{b}"), RemoteAnswer::Exists);
    assert_eq!(remote_answer("\u{a0}false\u{3000}\n"), RemoteAnswer::Missing);
    assert_eq!(remote_answer("\u{2003}true\u{85}"), RemoteAnswer::Exists);
    assert_eq!(remote_answer("tr ue"), RemoteAnswer::Unexpected);
}

#[test]
fn remote_root_is_split_at_the_colon() {
    assert_eq!(
        split_remote("me@host:/srv/gemini/"),
        Some(("me@host".to_string(), "/srv/gemini/".to_string()))
    );
    assert_eq!(split_remote("a:b:c"), Some(("a".to_string(), "b".to_string())));
    assert_eq!(split_remote("/no/colon/"), None);
}

#[test]
fn post_paths_and_remote_test() {
    assert_eq!(post_path("/srv/", "2024", "2024-06-01"), "/srv/2024/2024-06-01.gmi");
    assert_eq!(
        exists_test("/srv/2024/2024-06-01.gmi"),
        "[[ -f /srv/2024/2024-06-01.gmi ]] && echo 'true' || echo 'false';"
    );
}
