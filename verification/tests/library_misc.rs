use gleamler::subject::Subject;
use gleamler::tasks::{artifact_names, scaffold_cargo_toml, scaffold_lib_rs, should_rebuild, tests_to_run, watched_path, ChangeKind};
use gleamler::allocator::{AllocRoute, DeallocRoute, EnifAllocator, ReallocRoute};
use gleamler::env::{Env, OwnedEnv};
use gleamler::log::{format_log_line, Level};
use gleamler::map::MapIterator;
use gleamler::pid::LocalPid;
use gleamler::resource::{CancellationToken, ResourceArc};
use gleamler::term::Term;
use gleamler::text::{remove_white_space, str_contains, trim_start_char, usize_to_decimal};

#[test]
fn log_levels() {
    assert_eq!(Level::Debug.as_str(), "DEBUG");
    assert_eq!(Level::Error.to_string(), "ERROR");
    assert!(Level::Warn.at_least(&Level::Info));
    assert!(!Level::Debug.at_least(&Level::Info));
    assert_eq!(format_log_line(Level::Info, "app::worker", "started"), "[INFO] [app::worker] started");
}

#[test]
fn allocation_routes() {
    let a = EnifAllocator { max_align: 16 };
    assert!(matches!(a.alloc_route(0, 8), AllocRoute::Dangling));
    assert!(matches!(a.alloc_zeroed_route(24, 32), AllocRoute::System));
    assert!(matches!(a.dealloc_route(24, 16), DeallocRoute::Enif));
    assert!(matches!(a.alloc_route(24, 16), AllocRoute::Enif));
    assert!(matches!(a.alloc_route(24, 32), AllocRoute::System));
    assert!(matches!(a.dealloc_route(0, 64), DeallocRoute::Nothing));
    assert!(matches!(a.dealloc_route(8, 64), DeallocRoute::System));
    assert!(matches!(a.realloc_route(0, 8, 10), ReallocRoute::AllocNew));
    assert!(matches!(a.realloc_route(8, 8, 0), ReallocRoute::FreeAndDangle));
    assert!(matches!(a.realloc_route(8, 8, 16), ReallocRoute::Enif));
    assert!(matches!(a.dealloc_route(16, 8), DeallocRoute::Enif));
    assert!(matches!(a.realloc_route(8, 64, 4096), ReallocRoute::System));
    assert!(matches!(a.dealloc_route(4096, 64), DeallocRoute::System));
}

#[test]
fn saved_terms_load_until_cleared() {
    let mut owned = OwnedEnv::from_raw(7);
    let saved = owned.save(Term::Int(42));
    assert!(matches!(saved.try_load(owned.env()), Some(Term::Int(42))));
    owned.clear();
    assert!(saved.try_load(owned.env()).is_none());
}

#[test]
fn sending_needs_the_right_thread() {
    let env = Env::new(1);
    let pid = LocalPid::from_c_arg(9);
    let on_vm = env.send(&pid, 5i64, true).ok().unwrap();
    assert_eq!(on_vm.from_env, Some(1));
    assert!(matches!(on_vm.message, Term::Int(5)));
    let off_vm = env.send(&pid, 5i64, false).ok().unwrap();
    assert_eq!(off_vm.from_env, None);
    let owned = OwnedEnv::from_raw(2);
    assert!(owned.env().send(&pid, 5i64, true).is_err());
    assert!(owned.env().send(&pid, 5i64, false).is_ok());
}

#[test]
fn map_iteration_in_both_directions() {
    let m = Term::map_from_pairs(&[(1i64, 10i64), (2, 20), (3, 30)]).ok().unwrap();
    let mut it = MapIterator::new(&m).unwrap();
    assert!(matches!(it.next(), Some((Term::Int(1), Term::Int(10)))));
    assert!(matches!(it.next_back(), Some((Term::Int(3), Term::Int(30)))));
    assert!(matches!(it.next(), Some((Term::Int(2), Term::Int(20)))));
    assert!(it.next().is_none());
    assert!(Term::map_from_pairs(&[(1i64, 1i64), (1, 2)]).is_err());
}

#[test]
fn map_updates() {
    let m = Term::map_new();
    let m = m.map_put(1i64, 2i64).ok().unwrap();
    let m = m.map_put(1i64, 3i64).ok().unwrap();
    assert_eq!(m.map_size().ok(), Some(1));
    assert!(matches!(m.map_get(1i64).ok(), Some(Term::Int(3))));
    assert!(m.map_update(2i64, 0i64).is_err());
    let m = m.map_remove(1i64).ok().unwrap();
    assert_eq!(m.map_size().ok(), Some(0));
}

#[test]
fn resources_and_cancellation() {
    let r = ResourceArc::new(5, 11u32);
    assert_eq!(r.as_c_arg(), 5);
    assert_eq!(*r.inner(), 11);
    let token = CancellationToken::new(3);
    let other = token.duplicate();
    assert!(!other.is_cancelled());
    token.cancel();
    assert!(other.is_cancelled());
    assert_eq!(token.as_resource().as_c_arg(), 3);
}

#[test]
fn text_helpers() {
    assert_eq!(usize_to_decimal(0), "0");
    assert_eq!(usize_to_decimal(1209), "1209");
    assert!(str_contains("option.Option(Int)", "Option("));
    assert!(!str_contains("Opt", "Option"));
    assert_eq!(remove_white_space(" a \t b\n"), "ab");
    assert_eq!(trim_start_char("__a_", '_'), "a_");
}

#[test]
fn artifact_names_per_platform() {
    assert_eq!(artifact_names(Some("x86_64-pc-windows-msvc"), "demo", "linux"), ("demo.dll".to_string(), "demo.dll".to_string()));
    assert_eq!(artifact_names(Some("aarch64-apple-darwin"), "demo", "linux"), ("libdemo.dylib".to_string(), "demo.so".to_string()));
    assert_eq!(artifact_names(Some("x86_64-unknown-linux-gnu"), "demo", "macos"), ("libdemo.so".to_string(), "demo.so".to_string()));
    assert_eq!(artifact_names(None, "demo", "macos"), ("libdemo.dylib".to_string(), "demo.so".to_string()));
    let toml = scaffold_cargo_toml("my_nif");
    assert!(toml.starts_with("[package]\nname = \"my_nif\"\n"));
    assert!(toml.contains("crate-type = [\"cdylib\"]"));
    assert!(scaffold_lib_rs().ends_with("init_nifs!();\n"));
}

#[test]
fn watch_mode_decisions() {
    assert!(watched_path("src/lib.rs"));
    assert!(watched_path("test/app_test.gleam"));
    assert!(!watched_path("target/debug/x.rs"));
    assert!(!watched_path("src/notes.md"));
    let paths = vec!["README.md".to_string(), "src/a.gleam".to_string()];
    assert!(should_rebuild(ChangeKind::Modify, &paths, 300));
    assert!(!should_rebuild(ChangeKind::Modify, &paths, 299));
    assert!(!should_rebuild(ChangeKind::Other, &paths, 1000));
    assert!(!should_rebuild(ChangeKind::Create, &vec!["build/x.rs".to_string()], 1000));
    let t = tests_to_run(false, false, false, false, false);
    assert!(t.rust && t.gleam && t.leak && !t.valgrind);
    let t = tests_to_run(false, true, false, true, false);
    assert!(!t.rust && t.gleam && !t.leak && t.valgrind);
}

#[test]
fn saved_subject_sends_and_clears_the_message_environment() {
    let subject: Subject<i64> = Subject::new(LocalPid::from_c_arg(5), Term::Ref(11));
    let tag_env = OwnedEnv::from_raw(20);
    let saved = subject.save(&tag_env);
    let mut msg_env = OwnedEnv::from_raw(21);
    let earlier = msg_env.save(Term::Int(1));
    let e = saved.send_with(&tag_env, &mut msg_env, 9, false).ok().unwrap();
    assert_eq!(e.from_env, None);
    assert!(matches!(&e.message, Term::Tuple(v) if matches!(v[0], Term::Ref(11)) && matches!(v[1], Term::Int(9))));
    assert!(earlier.try_load(msg_env.env()).is_none());
    // the tag environment is untouched, so the subject can send again
    assert!(saved.send_with(&tag_env, &mut msg_env, 10, false).is_ok());
    // on a thread of the VM the send is refused and nothing is cleared
    let kept = msg_env.save(Term::Int(2));
    assert!(saved.send_with(&tag_env, &mut msg_env, 11, true).is_err());
    assert!(kept.try_load(msg_env.env()).is_some());
}

#[test]
fn subject_sender_sends_repeatedly() {
    let subject: Subject<i64> = Subject::new(LocalPid::from_c_arg(5), Term::Atom("t".into()));
    let mut sender = subject.to_sender(OwnedEnv::from_raw(30), OwnedEnv::from_raw(31));
    for i in 0..3i64 {
        let e = sender.send(i, false).ok().unwrap();
        assert!(matches!(&e.message, Term::Tuple(v) if matches!(v[1], Term::Int(n) if n == i as i128)));
    }
    assert!(sender.send(7, true).is_err());
}
