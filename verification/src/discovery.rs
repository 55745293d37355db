//! Where the Herdr program is: a companion of this program before the user's login shell, and that
//! before the search path of this process.

use vstd::prelude::*;
use vstd::utf8::encode_utf8;

use crate::cli::HerdrCliBroker;
use crate::outcome::{held, outcome};
use crate::path::{joined_path, FsPath};

verus! {

/// The name of the program.
pub const HERDR_PROGRAM: &'static str = "herdr";

/// Whether anybody may run a file with this mode. Where files have no mode, every file may be run.
pub open spec fn runnable(mode: Option<u32>) -> bool {
    match mode {
        Some(bits) => bits & 0o111 != 0,
        None => true,
    }
}

/// Whether anybody may run a file with this mode.
pub fn is_runnable(mode: Option<u32>) -> (r: bool)
    ensures
        r == runnable(mode),
{
    match mode {
        Some(bits) => bits & 0o111 != 0,
        None => true,
    }
}

/// What a path resolved to.
#[derive(Debug)]
pub struct ExecutableProbe {
    pub canonical: FsPath,
    pub regular_file: bool,
    /// The mode of the file, on a platform where files have one.
    pub mode: Option<u32>,
}

/// The path of a program that can be run, if the probe found one.
pub open spec fn verified_program(probe: Option<ExecutableProbe>) -> Option<Seq<u8>> {
    match probe {
        Some(found) => if found.regular_file && runnable(found.mode) {
            Some(found.canonical@)
        } else {
            None
        },
        None => None,
    }
}

/// The canonical path of a regular file that can be run. There is no probe where the path did not
/// resolve or could not be inspected.
pub fn verified_executable(probe: Option<ExecutableProbe>) -> (r: Option<FsPath>)
    ensures
        held(r) == verified_program(probe),
{
    match probe {
        Some(found) => {
            if found.regular_file && is_runnable(found.mode) {
                Some(found.canonical)
            } else {
                None
            }
        },
        None => None,
    }
}

/// Model of [`SearchStep`].
#[verifier::ext_equal]
pub enum SearchModel {
    Probe(Seq<u8>),
    Done(Option<Seq<u8>>),
}

/// What to do next in a search.
#[derive(Debug)]
pub enum SearchStep {
    /// Probe this path.
    Probe(FsPath),
    /// The search is over.
    Done(Option<FsPath>),
}

impl View for SearchStep {
    type V = SearchModel;

    open spec fn view(&self) -> SearchModel {
        match self {
            SearchStep::Probe(path) => SearchModel::Probe(path@),
            SearchStep::Done(found) => SearchModel::Done(held(*found)),
        }
    }
}

/// The next step of a search through directories, in order, for the first that holds the program.
/// The probes are those of the candidates so far.
pub open spec fn search_step(
    directories: Seq<FsPath>,
    probes: Seq<Option<FsPath>>,
) -> SearchModel
    decreases directories.len(),
{
    if directories.len() == 0 {
        SearchModel::Done(None)
    } else if probes.len() == 0 {
        SearchModel::Probe(joined_path(directories[0]@, encode_utf8(HERDR_PROGRAM@)))
    } else if probes[0] is Some {
        SearchModel::Done(held(probes[0]))
    } else {
        search_step(directories.skip(1), probes.skip(1))
    }
}

/// Searches the directories of the process search path for the first that holds the program.
/// `probes` are what [`verified_executable`] made of the candidates so far.
pub fn resolve_herdr_from_process_path(
    directories: &[FsPath],
    probes: &[Option<FsPath>],
) -> (r: SearchStep)
    ensures
        r@ == search_step(directories@, probes@),
{
    let mut i: usize = 0;
    assert(directories@.skip(0) =~= directories@);
    assert(probes@.skip(0) =~= probes@);
    while i < directories.len()
        invariant
            i <= directories@.len(),
            i <= probes@.len(),
            search_step(directories@, probes@) == search_step(
                directories@.skip(i as int),
                probes@.skip(i as int),
            ),
        decreases directories@.len() - i,
    {
        assert(directories@.skip(i as int)[0] == directories@[i as int]);
        if i >= probes.len() {
            return SearchStep::Probe(directories[i].join(HERDR_PROGRAM));
        }
        assert(probes@.skip(i as int)[0] == probes@[i as int]);
        assert(directories@.skip(i as int).skip(1) =~= directories@.skip(i + 1));
        assert(probes@.skip(i as int).skip(1) =~= probes@.skip(i + 1));
        if let Some(path) = &probes[i] {
            return SearchStep::Done(Some(path.clone()));
        }
        i += 1;
    }
    SearchStep::Done(None)
}

/// Model of [`DiscoveryStep`].
#[verifier::ext_equal]
pub enum DiscoveryModel {
    AskLoginShell,
    Verify(Seq<u8>),
    SearchProcessPath,
    Done(Result<Seq<u8>, Seq<char>>),
}

/// What to do next to find the program.
#[derive(Debug)]
pub enum DiscoveryStep {
    /// Ask the user's login shell where the program is.
    AskLoginShell,
    /// Probe this path again.
    Verify(FsPath),
    /// Search the directories of the process search path.
    SearchProcessPath,
    /// The program is found, or there is none.
    Done(Result<HerdrCliBroker, String>),
}

impl View for DiscoveryStep {
    type V = DiscoveryModel;

    open spec fn view(&self) -> DiscoveryModel {
        match self {
            DiscoveryStep::AskLoginShell => DiscoveryModel::AskLoginShell,
            DiscoveryStep::Verify(path) => DiscoveryModel::Verify(path@),
            DiscoveryStep::SearchProcessPath => DiscoveryModel::SearchProcessPath,
            DiscoveryStep::Done(result) => DiscoveryModel::Done(outcome(*result)),
        }
    }
}

/// The next step once neither the companion nor the login shell gave a program that can be run.
pub open spec fn last_resort(searched: Option<Option<Seq<u8>>>) -> DiscoveryModel {
    match searched {
        None => DiscoveryModel::SearchProcessPath,
        Some(None) => DiscoveryModel::Done(
            Err("Herdr is unavailable: install it or add it to your login-shell PATH"@),
        ),
        Some(Some(path)) => DiscoveryModel::Done(Ok(path)),
    }
}

/// The next step to find the program, from what is known so far.
pub open spec fn discovery_step(
    bundled: Option<Seq<u8>>,
    login_shell: Option<Option<Seq<u8>>>,
    verified: Option<Option<Seq<u8>>>,
    searched: Option<Option<Seq<u8>>>,
) -> DiscoveryModel {
    if bundled is None && login_shell is None {
        DiscoveryModel::AskLoginShell
    } else {
        let candidate = if bundled is Some {
            bundled
        } else {
            login_shell->0
        };
        match (candidate, verified) {
            (None, _) => last_resort(searched),
            (Some(path), None) => DiscoveryModel::Verify(path),
            (Some(_), Some(None)) => last_resort(searched),
            (Some(_), Some(Some(path))) => DiscoveryModel::Done(Ok(path)),
        }
    }
}

/// What is known of an answer that may not be there yet.
pub open spec fn answer(o: Option<Option<FsPath>>) -> Option<Option<Seq<u8>>> {
    match o {
        Some(path) => Some(held(path)),
        None => None,
    }
}

/// The step once neither the companion nor the login shell gave a program that can be run.
fn resolve_last(searched: Option<Option<FsPath>>) -> (r: DiscoveryStep)
    ensures
        r@ == last_resort(answer(searched)),
{
    match searched {
        None => DiscoveryStep::SearchProcessPath,
        Some(None) => DiscoveryStep::Done(
            Err(
                "Herdr is unavailable: install it or add it to your login-shell PATH".to_owned(),
            ),
        ),
        Some(Some(path)) => DiscoveryStep::Done(Ok(HerdrCliBroker::from_executable(path))),
    }
}

impl HerdrCliBroker {
    /// Finds the program before the first operation. A process that was started from a desktop
    /// commonly has a minimal search path, so a companion beside this program is preferred, and the
    /// user's login shell is asked next.
    ///
    /// `bundled` is the companion if it can be run. The others are absent until the step that asks
    /// for them was done: what the login shell said, what the candidate verified to, and what the
    /// search of the process path found.
    pub fn discover(
        bundled: Option<FsPath>,
        login_shell: Option<Option<FsPath>>,
        verified: Option<Option<FsPath>>,
        searched: Option<Option<FsPath>>,
    ) -> (r: DiscoveryStep)
        ensures
            r@ == discovery_step(
                held(bundled),
                answer(login_shell),
                answer(verified),
                answer(searched),
            ),
    {
        let candidate = match bundled {
            Some(path) => Some(path),
            None => match login_shell {
                Some(said) => said,
                None => {
                    return DiscoveryStep::AskLoginShell;
                },
            },
        };
        match candidate {
            None => resolve_last(searched),
            Some(path) => match verified {
                None => DiscoveryStep::Verify(path),
                Some(None) => resolve_last(searched),
                Some(Some(program)) => DiscoveryStep::Done(
                    Ok(HerdrCliBroker::from_executable(program)),
                ),
            },
        }
    }
}

/// A companion that can be run is the program, whatever the login shell or the search path hold, and
/// the login shell is not even asked.
pub proof fn companion_is_preferred(
    companion: Seq<u8>,
    login_shell: Option<Option<Seq<u8>>>,
    searched: Option<Option<Seq<u8>>>,
)
    ensures
        discovery_step(Some(companion), login_shell, None, searched) == DiscoveryModel::Verify(
            companion,
        ),
        discovery_step(Some(companion), login_shell, Some(Some(companion)), searched)
            == DiscoveryModel::Done(Ok(companion)),
{
}

/// A search that ends well ends with a program that a probe verified, and no candidate before it was
/// one.
pub proof fn search_finds_the_first_program(
    directories: Seq<FsPath>,
    probes: Seq<Option<FsPath>>,
    path: Seq<u8>,
)
    requires
        search_step(directories, probes) == SearchModel::Done(Some(path)),
    ensures
        exists|i: int|
            0 <= i < probes.len() && i < directories.len() && held(#[trigger] probes[i]) == Some(
                path,
            ) && forall|j: int| 0 <= j < i ==> #[trigger] probes[j] is None,
    decreases directories.len(),
{
    if probes[0] is Some {
        assert(held(probes[0]) == Some(path));
    } else {
        let rest = probes.skip(1);
        search_finds_the_first_program(directories.skip(1), rest, path);
        let i = choose|i: int|
            0 <= i < rest.len() && i < directories.skip(1).len() && held(#[trigger] rest[i]) == Some(
                path,
            ) && forall|j: int| 0 <= j < i ==> #[trigger] rest[j] is None;
        assert(probes[i + 1] == rest[i]);
        assert forall|j: int| 0 <= j < i + 1 implies #[trigger] probes[j] is None by {
            if j > 0 {
                assert(probes[j] == rest[j - 1]);
            }
        }
    }
}

/// A path that was probed is the program exactly when it resolved to a regular file that its owner,
/// its group or anybody else may run, or to a regular file where files have no mode. The program is
/// then at the path that it resolved to.
pub proof fn executable_file_is_the_program(probe: ExecutableProbe, path: Seq<u8>)
    ensures
        verified_program(None) is None,
        verified_program(Some(probe)) == Some(path) <==> {
            &&& probe.regular_file
            &&& path == probe.canonical@
            &&& match probe.mode {
                Some(bits) => (bits / 64) % 2 == 1 || (bits / 8) % 2 == 1 || bits % 2 == 1,
                None => true,
            }
        },
{
    match probe.mode {
        Some(bits) => {
            assert(bits & 0o111 != 0 <==> ((bits / 64) % 2 == 1 || (bits / 8) % 2 == 1 || bits % 2
                == 1)) by (bit_vector);
        },
        None => {},
    }
}

/// A search goes through the directories in order. With no program in the first `k` of them, it
/// probes the program's name in the next one, ends with what was found there, or goes on; after the
/// last directory it ends with nothing.
pub proof fn search_goes_through_the_directories(
    directories: Seq<FsPath>,
    probes: Seq<Option<FsPath>>,
    k: int,
)
    requires
        0 <= k <= directories.len(),
        k <= probes.len(),
        forall|i: int| 0 <= i < k ==> (#[trigger] probes[i]) is None,
    ensures
        k == directories.len() ==> search_step(directories, probes) == SearchModel::Done(None),
        k < directories.len() && k == probes.len() ==> search_step(directories, probes)
            == SearchModel::Probe(joined_path(directories[k]@, encode_utf8("herdr"@))),
        k < directories.len() && k < probes.len() ==> (probes[k] matches Some(path) ==> search_step(
            directories,
            probes,
        ) == SearchModel::Done(Some(path@))),
    decreases k,
{
    if k > 0 {
        assert(probes[0] is None);
        let rest = probes.skip(1);
        assert forall|i: int| 0 <= i < k - 1 implies (#[trigger] rest[i]) is None by {
            assert(rest[i] == probes[i + 1]);
        }
        search_goes_through_the_directories(directories.skip(1), rest, k - 1);
        if k < directories.len() {
            assert(directories.skip(1)[k - 1] == directories[k]);
        }
        if k < probes.len() {
            assert(rest[k - 1] == probes[k]);
        }
    }
}

/// The login shell is asked only where there is no companion, and a candidate of either is probed
/// before it is used. The process search path is searched only where neither gave a program that can
/// be run, and what it holds decides then.
pub proof fn program_is_found_in_turn(
    bundled: Option<Seq<u8>>,
    login_shell: Option<Option<Seq<u8>>>,
    verified: Option<Option<Seq<u8>>>,
    searched: Option<Option<Seq<u8>>>,
    path: Seq<u8>,
)
    ensures
        ({
            let step = discovery_step(bundled, login_shell, verified, searched);
            let offered = bundled == Some(path) || bundled is None && login_shell == Some(
                Some(path),
            );
            let some_offered = bundled is Some || (login_shell matches Some(said) && said is Some);
            let none_runs = bundled is None && login_shell == Some(None::<Seq<u8>>)
                || some_offered && verified == Some(None::<Seq<u8>>);
            &&& step is AskLoginShell <==> bundled is None && login_shell is None
            &&& step == DiscoveryModel::Verify(path) <==> offered && verified is None
            &&& step is SearchProcessPath <==> none_runs && searched is None
            &&& step == DiscoveryModel::Done(Ok(path)) <==> some_offered && verified == Some(
                Some(path),
            ) || none_runs && searched == Some(Some(path))
            &&& (step matches DiscoveryModel::Done(result) && result is Err) == (none_runs
                && searched == Some(None::<Seq<u8>>))
        }),
{
}

} // verus!
