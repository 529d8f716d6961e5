use std::cell::{Cell, RefCell};

use opencl_loader::{is_opencl_runtime_available, load_library, Platform, RuntimeLoader, Step};

/// Runs the search to its end. `load` stands in for loading the library at a
/// path; the paths it was asked for are returned in the order of the attempts.
fn resolve<H, E>(
    loader: &mut RuntimeLoader<H, E>,
    mut load: impl FnMut(&str) -> Result<H, E>,
) -> Vec<String> {
    let mut attempted = Vec::new();
    loop {
        let path = match load_library(loader) {
            Step::Attempt(path) => path.to_owned(),
            Step::Ready(_) => return attempted,
        };
        let outcome = load(&path);
        attempted.push(path);
        loader.record_attempt(outcome);
    }
}

/// What a loader that found nothing at `path` would say.
fn missing(path: &str) -> String {
    format!("{path}: cannot open shared object file: No such file or directory")
}

fn cached<H, E>(loader: &RuntimeLoader<H, E>) -> &Result<H, E> {
    match load_library(loader) {
        Step::Ready(result) => result,
        Step::Attempt(path) => panic!("the search is still at {path}"),
    }
}

#[test]
fn a_fresh_loader_has_nothing_cached() {
    let loader: RuntimeLoader<u32, String> = RuntimeLoader::new(Some("a.so"), Platform::Unix);
    assert_eq!(loader.attempts(), 0);
    assert!(!is_opencl_runtime_available(&loader));
    assert!(matches!(load_library(&loader), Step::Attempt("a.so")));
}

#[test]
fn every_call_sees_the_same_success_and_loads_once() {
    let mut loader: RuntimeLoader<u32, String> = RuntimeLoader::new(None, Platform::Unix);
    let mut loads = 0;
    let attempted = resolve(&mut loader, |_| {
        loads += 1;
        Ok(41)
    });
    assert_eq!(attempted, vec!["libOpenCL.so"]);
    for _ in 0..5 {
        assert_eq!(cached(&loader), &Ok(41));
        assert!(is_opencl_runtime_available(&loader));
    }
    // Running the search again asks for no load at all.
    let again = resolve(&mut loader, |_| {
        loads += 1;
        Ok(42)
    });
    assert!(again.is_empty());
    assert_eq!(loads, 1);
    assert_eq!(loader.attempts(), 1);
    assert_eq!(cached(&loader), &Ok(41));
}

#[test]
fn a_cached_failure_is_never_retried() {
    let mut loader: RuntimeLoader<u32, String> = RuntimeLoader::new(None, Platform::Unix);
    let mut loads = 0;
    resolve(&mut loader, |path| {
        loads += 1;
        Err(missing(path))
    });
    let first = cached(&loader).clone();
    assert_eq!(first, Err(missing("libOpenCL.so")));
    let again = resolve(&mut loader, |_| {
        loads += 1;
        Ok(1)
    });
    assert!(again.is_empty());
    assert_eq!(loads, 1);
    assert_eq!(cached(&loader), &first);
    assert!(!is_opencl_runtime_available(&loader));
}

#[test]
fn a_report_after_the_end_changes_nothing() {
    let mut loader: RuntimeLoader<u32, String> = RuntimeLoader::new(Some("a;b"), Platform::Unix);
    loader.record_attempt(Ok(7));
    assert_eq!(loader.attempts(), 1);
    loader.record_attempt(Ok(8));
    loader.record_attempt(Err(String::from("late")));
    assert_eq!(loader.attempts(), 1);
    assert_eq!(cached(&loader), &Ok(7));

    let mut failed: RuntimeLoader<u32, String> = RuntimeLoader::new(None, Platform::Windows);
    failed.record_attempt(Err(String::from("first")));
    failed.record_attempt(Ok(8));
    assert_eq!(failed.attempts(), 1);
    assert_eq!(cached(&failed), &Err(String::from("first")));
    assert!(!is_opencl_runtime_available(&failed));
}

#[test]
fn the_first_success_wins_and_the_rest_is_not_attempted() {
    let mut loader: RuntimeLoader<String, String> =
        RuntimeLoader::new(Some("/opt/A.so;/opt/B.so;/opt/C.so"), Platform::Unix);
    let attempted = resolve(&mut loader, |path| {
        if path == "/opt/A.so" {
            Err(missing(path))
        } else {
            Ok(format!("handle of {path}"))
        }
    });
    assert_eq!(attempted, vec!["/opt/A.so", "/opt/B.so"]);
    assert_eq!(loader.attempts(), 2);
    assert_eq!(cached(&loader), &Ok(String::from("handle of /opt/B.so")));
    assert!(is_opencl_runtime_available(&loader));
}

#[test]
fn the_first_candidate_is_used_where_it_loads() {
    let mut loader: RuntimeLoader<String, String> =
        RuntimeLoader::new(Some("/opt/A.so;/opt/B.so"), Platform::MacOs);
    let attempted = resolve(&mut loader, |path| Ok::<String, String>(path.to_owned()));
    assert_eq!(attempted, vec!["/opt/A.so"]);
    assert_eq!(cached(&loader), &Ok(String::from("/opt/A.so")));
}

#[test]
fn exhausted_candidates_fall_back_to_the_default_once() {
    let mut loader: RuntimeLoader<String, String> =
        RuntimeLoader::new(Some("/opt/A.so;/opt/B.so;/opt/C.so"), Platform::Windows);
    let attempted = resolve(&mut loader, |path| {
        if path == "OpenCL.dll" {
            Ok(String::from("system runtime"))
        } else {
            Err(missing(path))
        }
    });
    assert_eq!(attempted, vec!["/opt/A.so", "/opt/B.so", "/opt/C.so", "OpenCL.dll"]);
    assert_eq!(loader.attempts(), 4);
    assert_eq!(cached(&loader), &Ok(String::from("system runtime")));
    assert!(is_opencl_runtime_available(&loader));
}

#[test]
fn without_an_override_only_the_default_is_attempted() {
    for (platform, default) in [
        (Platform::Windows, "OpenCL.dll"),
        (Platform::MacOs, "/System/Library/Frameworks/OpenCL.framework/OpenCL"),
        (Platform::Unix, "libOpenCL.so"),
    ] {
        let mut loader: RuntimeLoader<u32, String> = RuntimeLoader::new(None, platform);
        let attempted = resolve(&mut loader, |path| Err(missing(path)));
        assert_eq!(attempted, vec![default]);
        assert_eq!(loader.attempts(), 1);
        assert_eq!(cached(&loader), &Err(missing(default)));
    }
}

#[test]
fn an_empty_override_has_one_empty_candidate() {
    let mut loader: RuntimeLoader<u32, String> = RuntimeLoader::new(Some(""), Platform::Unix);
    let attempted = resolve(&mut loader, |path| Err(missing(path)));
    assert_eq!(attempted, vec!["", "libOpenCL.so"]);
    assert_eq!(cached(&loader), &Err(missing("libOpenCL.so")));
}

#[test]
fn availability_is_the_cached_success_in_every_state() {
    let mut loader: RuntimeLoader<u32, String> = RuntimeLoader::new(Some("a;b"), Platform::Unix);
    let outcomes = [Err(String::from("a")), Err(String::from("b")), Ok(3), Ok(4)];
    for outcome in outcomes {
        let expected = matches!(load_library(&loader), Step::Ready(Ok(_)));
        assert_eq!(is_opencl_runtime_available(&loader), expected);
        loader.record_attempt(outcome);
    }
    assert!(matches!(load_library(&loader), Step::Ready(Ok(3))));
    assert!(is_opencl_runtime_available(&loader));

    let mut failing: RuntimeLoader<u32, String> = RuntimeLoader::new(None, Platform::Unix);
    assert!(!is_opencl_runtime_available(&failing));
    failing.record_attempt(Err(String::from("gone")));
    assert!(matches!(load_library(&failing), Step::Ready(Err(_))));
    assert!(!is_opencl_runtime_available(&failing));
}

#[test]
fn a_failure_before_the_last_path_is_dropped() {
    let mut loader: RuntimeLoader<u32, String> = RuntimeLoader::new(Some("a"), Platform::Unix);
    loader.record_attempt(Err(String::from("a is missing")));
    assert_eq!(loader.attempts(), 1);
    assert!(matches!(load_library(&loader), Step::Attempt("libOpenCL.so")));
    loader.record_attempt(Err(String::from("the default is missing")));
    assert_eq!(loader.attempts(), 2);
    assert_eq!(cached(&loader), &Err(String::from("the default is missing")));
}

#[test]
fn nothing_loads_and_the_error_is_that_of_the_default_path() {
    let mut loader: RuntimeLoader<u32, String> = RuntimeLoader::new(
        Some("/nonexistent/libfoo.so;/nonexistent/libbar.so"),
        Platform::Unix,
    );
    let attempted = resolve(&mut loader, |path| Err(missing(path)));
    assert_eq!(
        attempted,
        vec!["/nonexistent/libfoo.so", "/nonexistent/libbar.so", "libOpenCL.so"]
    );
    assert!(!is_opencl_runtime_available(&loader));
    match cached(&loader) {
        Ok(handle) => panic!("nothing was there to load, but the result is {handle}"),
        Err(message) => {
            assert!(message.contains("libOpenCL.so"));
            assert!(!message.contains("/nonexistent/"));
            assert_eq!(message, &missing("libOpenCL.so"));
        }
    }
}

#[test]
fn the_default_path_loads_without_an_override() {
    let mut loader: RuntimeLoader<String, String> = RuntimeLoader::new(None, Platform::Unix);
    let attempted = resolve(&mut loader, |path| {
        if path == "libOpenCL.so" {
            Ok(String::from("function table"))
        } else {
            Err(missing(path))
        }
    });
    assert_eq!(attempted, vec!["libOpenCL.so"]);
    assert!(is_opencl_runtime_available(&loader));
    assert_eq!(cached(&loader), &Ok(String::from("function table")));
}

#[test]
fn missing_libraries_are_reported_by_the_dynamic_loader() {
    let mut loader: RuntimeLoader<dlopen2::raw::Library, dlopen2::Error> = RuntimeLoader::new(
        Some("/nonexistent/libfoo.so;/nonexistent/libbar.so"),
        Platform::from_target_os("the test's own"),
    );
    let attempted = RefCell::new(Vec::new());
    loader.resolve_with(|path: &str| {
        attempted.borrow_mut().push(path.to_owned());
        dlopen2::raw::Library::open(path)
    });
    assert_eq!(
        attempted.into_inner(),
        vec!["/nonexistent/libfoo.so", "/nonexistent/libbar.so", "libOpenCL.so"]
    );
    assert_eq!(loader.attempts(), 3);
    match cached(&loader) {
        // A machine that has the runtime installed loads it from the default path.
        Ok(_) => assert!(is_opencl_runtime_available(&loader)),
        Err(cause) => {
            assert!(!is_opencl_runtime_available(&loader));
            assert!(matches!(cause, dlopen2::Error::OpeningLibraryError(_)));
            assert!(format!("{cause}").contains("libOpenCL.so"));
        }
    }
}

#[test]
fn resolving_calls_the_load_for_each_path_in_order() {
    let mut loader: RuntimeLoader<String, String> =
        RuntimeLoader::new(Some("/opt/A.so;/opt/B.so;/opt/C.so"), Platform::Unix);
    let asked = RefCell::new(Vec::new());
    loader.resolve_with(|path: &str| {
        asked.borrow_mut().push(path.to_owned());
        if path == "/opt/B.so" {
            Ok(format!("handle of {path}"))
        } else {
            Err(missing(path))
        }
    });
    assert_eq!(asked.into_inner(), vec!["/opt/A.so", "/opt/B.so"]);
    assert_eq!(loader.attempts(), 2);
    assert_eq!(cached(&loader), &Ok(String::from("handle of /opt/B.so")));
    assert!(is_opencl_runtime_available(&loader));
}

#[test]
fn resolving_ends_with_the_failure_on_the_default_path() {
    let mut loader: RuntimeLoader<u32, String> = RuntimeLoader::new(
        Some("/nonexistent/libfoo.so;/nonexistent/libbar.so"),
        Platform::Unix,
    );
    let loads = Cell::new(0);
    loader.resolve_with(|path: &str| {
        loads.set(loads.get() + 1);
        Err(missing(path))
    });
    assert_eq!(loads.get(), 3);
    assert_eq!(loader.attempts(), 3);
    assert!(!is_opencl_runtime_available(&loader));
    assert_eq!(cached(&loader), &Err(missing("libOpenCL.so")));
}

#[test]
fn resolving_again_loads_nothing() {
    let mut loader: RuntimeLoader<u32, String> = RuntimeLoader::new(Some("a;b"), Platform::MacOs);
    let loads = Cell::new(0);
    let load = |path: &str| {
        loads.set(loads.get() + 1);
        if path == "b" {
            Ok(loads.get())
        } else {
            Err(missing(path))
        }
    };
    loader.resolve_with(&load);
    assert_eq!(loads.get(), 2);
    assert_eq!(cached(&loader), &Ok(2));
    for _ in 0..4 {
        loader.resolve_with(&load);
        assert_eq!(cached(&loader), &Ok(2));
    }
    assert_eq!(loads.get(), 2);
    assert_eq!(loader.attempts(), 2);
}

#[test]
fn resolving_takes_up_a_search_that_has_begun() {
    let mut loader: RuntimeLoader<u32, String> = RuntimeLoader::new(Some("a;b;c"), Platform::Unix);
    loader.record_attempt(Err(missing("a")));
    let asked = RefCell::new(Vec::new());
    loader.resolve_with(|path: &str| {
        asked.borrow_mut().push(path.to_owned());
        Err(missing(path))
    });
    assert_eq!(asked.into_inner(), vec!["b", "c", "libOpenCL.so"]);
    assert_eq!(loader.attempts(), 4);
    assert_eq!(cached(&loader), &Err(missing("libOpenCL.so")));
}
