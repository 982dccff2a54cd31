use execution_domain::attempts::AttemptSet;
use execution_domain::bytes;
use execution_domain::clock;
use execution_domain::contracts::{AttemptIdentity, FailureCategory, Stage};
use execution_domain::environment::Environment;
use execution_domain::error::{
    ErrorSource, ExecutionDomainCleanupFatalError, ExecutionDomainError, IoFailure,
};
use execution_domain::filesystem::{
    attempt_entry_rule, descends, io_error, utf8_path, validate_bound_directory,
    validate_journal_entry, validate_owned_directory, validate_private_directory_metadata,
    validate_removal_tree, AttemptEntryRule, EntryFacts, FoundPath, OwnedPreparation,
    PreparationOutcome, PreparationTask, TreeEntry,
};
use execution_domain::host_path::parts_of;
use execution_domain::journal::DomainState;
use execution_domain::linux::reconcile::parse_component;
use execution_domain::text;
use uuid::Uuid;

fn chars(s: &str) -> Vec<char> {
    text::chars(s)
}

fn strings(list: Vec<Vec<char>>) -> Vec<String> {
    list.iter().map(|piece| text::string(piece)).collect()
}

#[test]
fn text_is_cut_the_usual_way() {
    let line = "  a\tbc  d ";
    assert_eq!(strings(text::fields(&chars(line))), ["a", "bc", "d"]);
    let lines = "one\r\ntwo\n\nthree";
    assert_eq!(
        strings(text::line_list(&chars(lines))),
        lines.lines().map(str::to_owned).collect::<Vec<_>>()
    );
    assert_eq!(text::string(&text::trim(&chars(" \n x y\t"))), "x y");
    let (before, after) = text::split_once(&chars("key = value = x"), &chars(" = ")).unwrap();
    assert_eq!((text::string(&before), text::string(&after)), ("key".into(), "value = x".into()));
    assert!(text::split_once(&chars("key"), &chars("=")).is_none());
    assert_eq!(strings(text::pattern_pieces(&chars("a--b--"), &chars("--"))), ["a", "b", ""]);
    assert_eq!(text::find(&chars("abcabc"), &chars("ca"), 0), Some(2));
}

#[test]
fn numbers_are_read_and_written_back() {
    for n in [0u64, 7, 10, 4_294_967_296, u64::MAX] {
        let digits = text::render(n);
        assert_eq!(text::string(&digits), n.to_string());
        assert_eq!(text::number(&digits, u64::MAX), Some(n));
    }
    assert_eq!(text::number(&chars("+5"), u64::MAX), "+5".parse::<u64>().ok());
    for bad in ["", "-1", "1x", "18446744073709551616"] {
        assert_eq!(text::number(&chars(bad), u64::MAX), None, "{bad:?}");
    }
    assert_eq!(text::number_u32(&chars("4294967296")), None);
    assert_eq!(text::string(&text::render_signed(-12)), "-12");
    assert_eq!(text::string(&text::render_signed(i32::MIN)), i32::MIN.to_string());
}

#[test]
fn bytes_are_compared_and_cut() {
    assert_eq!(bytes::of("päth"), "päth".as_bytes());
    assert!(bytes::are(b"a/b", "a/b"));
    assert_eq!(bytes::pieces(b"a::b", b':'), [b"a".to_vec(), b"".to_vec(), b"b".to_vec()]);
}

#[test]
fn only_the_plain_lower_case_form_names_an_id() {
    let id = Uuid::from_u128(0x0123_4567_89ab_cdef_0123_4567_89ab_cdef);
    assert_eq!(parse_component(&id.simple().to_string()).unwrap().uuid(), id.as_u128());
    assert!(parse_component(&id.to_string()).is_err());
    assert!(parse_component(&id.simple().to_string().to_uppercase()).is_err());
    assert!(parse_component("xyz").is_err());
}

#[test]
fn the_clock_has_a_last_moment() {
    assert_eq!(clock::after(5, 7), Some(12));
    assert_eq!(clock::after(clock::LAST_INSTANT - 7, 7), Some(clock::LAST_INSTANT));
    assert_eq!(clock::after(clock::LAST_INSTANT - 6, 7), None);
    assert_eq!(clock::after(1, u128::MAX), None);
}

#[test]
fn attempts_are_kept_in_order_without_repetition() {
    let id = |n| AttemptIdentity::from_uuid(n).unwrap();
    let mut set = AttemptSet::new();
    assert!(set.is_empty());
    for n in [5, 2, 9, 5, 2] {
        set.insert(id(n));
    }
    assert_eq!(*set.ids(), [id(2), id(5), id(9)]);
}

#[test]
fn host_paths_are_lists_of_components() {
    let path = parts_of(b"/srv//a/./b/");
    assert!(path.same(&parts_of(b"/srv/a/b")));
    assert!(path.starts_with(&parts_of(b"/srv/a")));
    assert!(!path.starts_with(&parts_of(b"/srv/ab")));
    assert!(path.parent().unwrap().same(&parts_of(b"/srv/a")));
    assert_eq!(path.file_name().unwrap(), b"b");
    assert!(path.is_below(&parts_of(b"/srv/a"), "b"));
    assert!(parts_of(b"/").parent().is_none());
    assert!(parts_of(b"/srv/../etc").file_name().is_some());
}

#[test]
fn environments_hold_one_value_for_each_name() {
    let mut environment = Environment::new();
    environment.insert("A".to_owned(), "1".to_owned());
    environment.insert("A".to_owned(), "2".to_owned());
    assert_eq!(environment.len(), 1);
    assert_eq!(environment.get("A").unwrap(), "2");
    assert!(environment.same(&environment.clone()));
    let mut other = environment.clone();
    other.insert("B".to_owned(), "1".to_owned());
    assert!(!environment.same(&other));
}

fn facts() -> EntryFacts {
    EntryFacts {
        is_symlink: false,
        is_directory: true,
        is_file: false,
        uid: 1000,
        mode: 0o40700,
        device: 4,
        inode: 5,
    }
}

#[test]
fn directories_are_accepted_only_as_they_were_bound() {
    let bound = facts().directory_identity();
    let check = |f: EntryFacts, canonical: &str| {
        validate_bound_directory(&found("/a"), bound, f, Ok(canonical.as_bytes().to_vec()))
    };
    assert!(check(facts(), "/a").is_ok());
    assert!(validate_bound_directory(&found("/a/"), bound, facts(), Ok(b"/a".to_vec())).is_ok());
    assert!(check(facts(), "/b").is_err());
    assert!(check(EntryFacts { inode: 6, ..facts() }, "/a").is_err());
    assert!(check(EntryFacts { is_symlink: true, ..facts() }, "/a").is_err());
    assert!(validate_private_directory_metadata("/a", facts(), 1000).is_ok());
    assert!(validate_private_directory_metadata("/a", facts(), 1001).is_err());
    let open = EntryFacts { mode: 0o40755, ..facts() };
    assert!(validate_private_directory_metadata("/a", open, 1000).is_err());
    assert!(validate_owned_directory("/a", facts(), 1000).is_ok());
    assert!(validate_owned_directory("/a", facts(), 7).is_err());
    assert!(descends(facts()));
    assert!(!descends(EntryFacts { is_symlink: true, ..facts() }));
}

#[test]
fn trees_hold_only_what_can_be_removed() {
    let file = EntryFacts { is_directory: false, is_file: true, ..facts() };
    let special = EntryFacts { is_directory: false, ..facts() };
    let tree = |leaf| TreeEntry {
        path: "/a".to_owned(),
        facts: facts(),
        children: vec![TreeEntry { path: "/a/x".to_owned(), facts: leaf, children: vec![] }],
    };
    assert!(validate_removal_tree(&tree(file)).is_ok());
    assert!(matches!(
        validate_removal_tree(&tree(special)),
        Err(ExecutionDomainError::UnsafeEntry { path }) if path == "/a/x"
    ));
    assert!(validate_journal_entry("/a/journal.json", file).is_ok());
    assert!(validate_journal_entry("/a/journal.json", facts()).is_err());
    let rule = |path: &str, name: &str| {
        attempt_entry_rule(path.as_bytes(), name.as_bytes(), b"/a//tmp/", b"/a/work")
    };
    assert_eq!(rule("/a/tmp", "tmp"), AttemptEntryRule::PrivateTmp);
    assert_eq!(rule("/a/work", "work"), AttemptEntryRule::Work);
    assert_eq!(rule("/a/journal.json", "journal.json"), AttemptEntryRule::Journal);
    assert_eq!(rule("/a/docker", "docker"), AttemptEntryRule::Tree);
}

fn found(path: &str) -> FoundPath {
    FoundPath { raw: path.as_bytes().to_vec(), shown: path.to_owned() }
}

fn task(preparation: &OwnedPreparation) -> (&'static str, String) {
    match preparation.next() {
        Some(PreparationTask::Restore { path }) => ("restore", path.shown.clone()),
        Some(PreparationTask::List { path }) => ("list", path.shown.clone()),
        Some(PreparationTask::Inspect { path }) => ("inspect", path.shown.clone()),
        Some(PreparationTask::Report { path, .. }) => ("report", path.shown.clone()),
        None => ("done", String::new()),
    }
}

#[test]
fn owned_directories_are_opened_before_they_are_entered_and_links_never_are() {
    let listed = |names: &[&str], broken| PreparationOutcome::Listed {
        entries: names.iter().map(|name| found(name)).collect(),
        broken,
    };
    let link = EntryFacts { is_symlink: true, ..facts() };
    let is = |p: &OwnedPreparation, kind: &'static str, path: &str| {
        assert_eq!(task(p), (kind, path.to_owned()));
    };
    let p = OwnedPreparation::start(found("/a"), facts(), 1000).unwrap();
    is(&p, "restore", "/a");
    let p = p.advance(PreparationOutcome::Done).unwrap();
    is(&p, "list", "/a");
    let p = p.advance(listed(&["/a/d", "/a/l"], None)).unwrap();
    is(&p, "inspect", "/a/d");
    let p = p.advance(PreparationOutcome::Facts(facts())).unwrap();
    is(&p, "restore", "/a/d");
    let p = p.advance(PreparationOutcome::Done).unwrap();
    let p = p.advance(listed(&[], None)).unwrap();
    is(&p, "inspect", "/a/l");
    let p = p.advance(PreparationOutcome::Facts(link)).unwrap();
    is(&p, "done", "");
}

#[test]
fn preparations_stop_at_what_is_not_owned_or_cannot_be_read() {
    let denied = || IoFailure { errno: Some(13), description: "denied".to_owned() };
    let listing = || {
        let p = OwnedPreparation::start(found("/a"), facts(), 1000).unwrap();
        p.advance(PreparationOutcome::Done).unwrap()
    };
    let entry = |broken| PreparationOutcome::Listed { entries: vec![found("/a/d")], broken };
    let foreign = EntryFacts { uid: 7, ..facts() };
    assert!(matches!(
        OwnedPreparation::start(found("/a"), foreign, 1000),
        Err(ExecutionDomainError::UnsafeEntry { path }) if path == "/a"
    ));
    let p = listing().advance(entry(None)).unwrap();
    assert!(matches!(
        p.advance(PreparationOutcome::Facts(foreign)),
        Err(ExecutionDomainError::UnsafeEntry { path }) if path == "/a/d"
    ));
    let p = OwnedPreparation::start(found("/a"), facts(), 1000).unwrap();
    assert!(matches!(
        p.advance(PreparationOutcome::Failed(denied())),
        Err(ExecutionDomainError::Io { operation: "restoring cleanup directory permissions", path, .. })
            if path == "/a"
    ));
    assert!(matches!(
        listing().advance(PreparationOutcome::Failed(denied())),
        Err(ExecutionDomainError::Io { operation: "reading private temp cleanup directory", path, .. })
            if path == "/a"
    ));
    let p = listing().advance(entry(Some(denied()))).unwrap();
    let file = EntryFacts { is_directory: false, is_file: true, ..facts() };
    let p = p.advance(PreparationOutcome::Facts(file)).unwrap();
    assert_eq!(task(&p), ("report", "/a".to_owned()));
    assert!(matches!(
        p.advance(PreparationOutcome::Done),
        Err(ExecutionDomainError::Io { operation: "reading private temp cleanup entry", path, .. })
            if path == "/a"
    ));
}

#[test]
fn paths_that_are_no_text_are_refused() {
    assert_eq!(utf8_path("/tmp/ä".as_bytes(), "shown").unwrap(), "/tmp/ä");
    assert!(utf8_path(b"/tmp/\xff", "shown").is_err());
}

#[test]
fn errors_say_what_happened_and_what_caused_it() {
    let io = || IoFailure { errno: Some(13), description: "Permission denied".to_owned() };
    let error = io_error("open", "/a", io());
    assert!(error.message().contains("/a"));
    assert!(matches!(error.source(), Some(ErrorSource::Io(cause)) if *cause == io()));
    let moved = ExecutionDomainError::InvalidTransition {
        from: DomainState::Ready,
        to: DomainState::Provisioning,
    };
    assert!(moved.source().is_none());
    assert!(!moved.message().is_empty());
    let both = ExecutionDomainError::LifecycleAndDestroyFailed {
        lifecycle: Box::new(moved),
        destroy: Box::new(error),
    };
    assert!(both.source().is_none());
    let rollback = ExecutionDomainError::CreationRollback {
        path: "/a".to_owned(),
        create: Box::new(ExecutionDomainError::InvalidDomainPath),
        cleanup: io(),
    };
    assert!(matches!(
        rollback.source(),
        Some(ErrorSource::Domain(ExecutionDomainError::InvalidDomainPath))
    ));
    let fatal = ExecutionDomainCleanupFatalError { source: both };
    assert!(!fatal.message().is_empty());
    assert!(matches!(
        fatal.cause(),
        ExecutionDomainError::LifecycleAndDestroyFailed { .. }
    ));
    let none = ExecutionDomainError::Backend {
        attempt: None,
        stage: Stage::State,
        category: FailureCategory::Io,
        errno: None,
    };
    assert!(none.message().contains("State") && none.message().contains("Io"));
}
