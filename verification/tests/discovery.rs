use buzz_firstmate::cli::HerdrCliBroker;
use buzz_firstmate::discovery::{
    resolve_herdr_from_process_path, verified_executable, DiscoveryStep, ExecutableProbe,
    SearchStep,
};
use buzz_firstmate::path::FsPath;

fn path(text: &str) -> FsPath {
    FsPath::from_text(text)
}

fn probe(regular_file: bool, mode: u32) -> Option<ExecutableProbe> {
    Some(ExecutableProbe {
        canonical: path("/opt/herdr"),
        regular_file,
        mode: Some(mode),
    })
}

#[test]
fn executable_resolution_requires_a_real_executable_file() {
    assert!(verified_executable(probe(false, 0o040755)).is_none());
    assert_eq!(
        verified_executable(probe(true, 0o100755)),
        Some(path("/opt/herdr"))
    );
    assert!(verified_executable(probe(true, 0o100644)).is_none());
    assert!(verified_executable(probe(true, 0o100601)).is_some());
    assert!(verified_executable(None).is_none());
    let without_mode = |regular_file| {
        verified_executable(Some(ExecutableProbe {
            canonical: path("/opt/herdr"),
            regular_file,
            mode: None,
        }))
    };
    assert!(without_mode(true).is_some());
    assert!(without_mode(false).is_none());
}

fn found(step: DiscoveryStep) -> String {
    match step {
        DiscoveryStep::Done(Ok(broker)) => broker.executable().display(),
        other => panic!("{other:?}"),
    }
}

#[test]
fn companion_comes_before_login_shell_and_search_path() {
    assert!(matches!(
        HerdrCliBroker::discover(Some(path("/app/herdr")), None, None, None),
        DiscoveryStep::Verify(candidate) if candidate == path("/app/herdr")
    ));
    assert_eq!(
        found(HerdrCliBroker::discover(
            Some(path("/app/herdr")),
            None,
            Some(Some(path("/app/herdr"))),
            None
        )),
        "/app/herdr"
    );
    assert!(matches!(
        HerdrCliBroker::discover(None, None, None, None),
        DiscoveryStep::AskLoginShell
    ));
    assert!(matches!(
        HerdrCliBroker::discover(None, Some(Some(path("/usr/bin/herdr"))), None, None),
        DiscoveryStep::Verify(candidate) if candidate == path("/usr/bin/herdr")
    ));
    assert_eq!(
        found(HerdrCliBroker::discover(
            None,
            Some(Some(path("/usr/bin/herdr"))),
            Some(Some(path("/opt/herdr"))),
            None
        )),
        "/opt/herdr"
    );
}

#[test]
fn search_path_is_the_last_resort() {
    assert!(matches!(
        HerdrCliBroker::discover(None, Some(None), None, None),
        DiscoveryStep::SearchProcessPath
    ));
    assert!(matches!(
        HerdrCliBroker::discover(Some(path("/app/herdr")), None, Some(None), None),
        DiscoveryStep::SearchProcessPath
    ));
    assert_eq!(
        found(HerdrCliBroker::discover(
            None,
            Some(None),
            None,
            Some(Some(path("/bin/herdr")))
        )),
        "/bin/herdr"
    );
    match HerdrCliBroker::discover(None, Some(None), None, Some(None)) {
        DiscoveryStep::Done(Err(error)) => assert_eq!(
            error,
            "Herdr is unavailable: install it or add it to your login-shell PATH"
        ),
        other => panic!("{other:?}"),
    }
}

#[test]
fn search_takes_the_first_directory_with_the_program() {
    let directories = [path("/a"), path("/b/"), path("/c")];
    let step = |probes: &[Option<FsPath>]| resolve_herdr_from_process_path(&directories, probes);
    assert!(matches!(step(&[]), SearchStep::Probe(p) if p.display() == "/a/herdr"));
    assert!(matches!(step(&[None]), SearchStep::Probe(p) if p.display() == "/b/herdr"));
    assert!(matches!(
        step(&[None, Some(path("/real/herdr"))]),
        SearchStep::Done(Some(p)) if p.display() == "/real/herdr"
    ));
    assert!(matches!(
        step(&[None, None, None]),
        SearchStep::Done(None)
    ));
    assert!(matches!(
        resolve_herdr_from_process_path(&[], &[]),
        SearchStep::Done(None)
    ));
}
