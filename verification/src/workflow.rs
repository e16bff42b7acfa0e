//! The sequence of a whole run: which remote call follows which answer.
//!
//! The caller performs each `Action` and hands its answer back as an
//! `Event`; `step` decides what comes next. The decisions are a function of
//! small enumerations (`next`), so that what a run can and cannot do is
//! stated and proved over every sequence of answers.

use vstd::prelude::*;
use crate::address::{resolve, resolved_text, ResolvedAddress};
use crate::cache::{cache_line, cache_line_of, should_skip, CacheRead};
use crate::records::{
    build_change, change_for_listing, clone_text, listed, opt_text, reconcile, texts,
    with_operation_id, Change, ChangeView, RecordSet,
};
use crate::session::{required_scope_texts, required_scopes, Command, Opt};
use crate::text::trim;

verus! {

/// Where a run stands: the call whose answer it waits for.
#[derive(Debug, Clone, Copy, PartialEq, Eq, Structural)]
pub enum Phase {
    Start,
    Session,
    Lookup,
    CacheRead,
    CacheWrite,
    Listing,
    Submit,
    Finished,
}

/// Why a run failed.
#[derive(Debug, Clone, Copy, PartialEq, Eq, Structural)]
pub enum Failure {
    /// Consent was needed and the run may not ask for it.
    NotAuthenticated,
    /// The address lookup failed or gave no IPv4 address.
    Resolution,
    /// The cache file could not be read or written.
    Cache,
    /// The zone's records could not be listed.
    Reconcile,
    /// The provider did not take the change.
    Submit,
    /// An answer arrived that the run was not waiting for.
    OutOfTurn,
}

/// How a run ended.
#[derive(Debug, Clone, Copy, PartialEq, Eq, Structural)]
pub enum Outcome {
    Authenticated,
    Printed,
    Skipped,
    Updated,
    Failed(Failure),
}

impl Outcome {
    /// Whether the run ended without a failure.
    pub open spec fn succeeded(self) -> bool {
        !(self is Failed)
    }

    /// The status with which the process exits: zero exactly for a run
    /// that ended without a failure.
    pub fn exit_code(&self) -> (code: i32)
        ensures
            code == if self.succeeded() {
                0i32
            } else {
                1i32
            },
    {
        match self {
            Outcome::Failed(_) => 1,
            _ => 0,
        }
    }
}

/// An answer, reduced to what the sequence of a run depends on.
#[derive(Debug, Clone, Copy, PartialEq, Eq, Structural)]
pub enum Signal {
    Begin,
    SessionGranted,
    SessionDenied,
    AddressValid,
    AddressInvalid,
    CacheSame,
    CacheOther,
    CacheMissing,
    CacheUnreadable,
    CacheStored,
    CacheStoreFailed,
    ListingReceived,
    ListingFailed,
    ChangeAccepted,
    ChangeRejected,
}

/// A call, reduced to its kind.
#[derive(Debug, Clone, Copy, PartialEq, Eq, Structural)]
pub enum Call {
    AcquireSession,
    Lookup,
    ReadCache,
    WriteCache,
    List,
    Submit,
    Stop(Outcome),
}

/// The phase that follows and the call to make when `signal` arrives in
/// `phase`.
pub open spec fn next(
    command: Command,
    cache_on: bool,
    force: bool,
    phase: Phase,
    signal: Signal,
) -> (Phase, Call) {
    if !cache_on && (phase == Phase::CacheRead || phase == Phase::CacheWrite) {
        (Phase::Finished, Call::Stop(Outcome::Failed(Failure::OutOfTurn)))
    } else {
        match (phase, signal) {
            (Phase::Start, Signal::Begin) => (Phase::Session, Call::AcquireSession),
            (Phase::Session, Signal::SessionGranted) => if command == Command::Authenticate {
                (Phase::Finished, Call::Stop(Outcome::Authenticated))
            } else {
                (Phase::Lookup, Call::Lookup)
            },
            (Phase::Session, Signal::SessionDenied) => (
                Phase::Finished,
                Call::Stop(Outcome::Failed(Failure::NotAuthenticated)),
            ),
            (Phase::Lookup, Signal::AddressValid) => match command {
                Command::IP => (Phase::Finished, Call::Stop(Outcome::Printed)),
                Command::SetRecord => if cache_on {
                    (Phase::CacheRead, Call::ReadCache)
                } else {
                    (Phase::Listing, Call::List)
                },
                Command::Authenticate => (
                    Phase::Finished,
                    Call::Stop(Outcome::Failed(Failure::OutOfTurn)),
                ),
            },
            (Phase::Lookup, Signal::AddressInvalid) => (
                Phase::Finished,
                Call::Stop(Outcome::Failed(Failure::Resolution)),
            ),
            (Phase::CacheRead, Signal::CacheSame) => if force {
                (Phase::CacheWrite, Call::WriteCache)
            } else {
                (Phase::Finished, Call::Stop(Outcome::Skipped))
            },
            (Phase::CacheRead, Signal::CacheOther) => (Phase::CacheWrite, Call::WriteCache),
            (Phase::CacheRead, Signal::CacheMissing) => (Phase::CacheWrite, Call::WriteCache),
            (Phase::CacheRead, Signal::CacheUnreadable) => (
                Phase::Finished,
                Call::Stop(Outcome::Failed(Failure::Cache)),
            ),
            (Phase::CacheWrite, Signal::CacheStored) => (Phase::Listing, Call::List),
            (Phase::CacheWrite, Signal::CacheStoreFailed) => (
                Phase::Finished,
                Call::Stop(Outcome::Failed(Failure::Cache)),
            ),
            (Phase::Listing, Signal::ListingReceived) => (Phase::Submit, Call::Submit),
            (Phase::Listing, Signal::ListingFailed) => (
                Phase::Finished,
                Call::Stop(Outcome::Failed(Failure::Reconcile)),
            ),
            (Phase::Submit, Signal::ChangeAccepted) => (Phase::Finished, Call::Stop(Outcome::Updated)),
            (Phase::Submit, Signal::ChangeRejected) => (
                Phase::Finished,
                Call::Stop(Outcome::Failed(Failure::Submit)),
            ),
            _ => (Phase::Finished, Call::Stop(Outcome::Failed(Failure::OutOfTurn))),
        }
    }
}

/// The answer to an action, with what it carries.
#[derive(Debug)]
pub enum Event {
    /// The run begins.
    Begin,
    SessionGranted,
    SessionDenied,
    /// The lookup service answered.
    AddressResponse { status: u16, body: Vec<u8> },
    /// The lookup service could not be reached or its answer not read.
    AddressUnavailable,
    /// The cache file was looked for.
    Cache(CacheRead),
    CacheStored,
    CacheStoreFailed,
    /// The provider listed the zone; a response may hold no record sets.
    Listed(Option<Vec<RecordSet>>),
    ListFailed,
    Submitted,
    SubmitFailed,
}

/// What the caller is to do next, with what it needs for it.
#[derive(Debug, PartialEq, Eq)]
pub enum Action {
    AcquireSession { interactive: bool, scopes: Vec<String> },
    Lookup,
    ReadCache { path: String },
    WriteCache { path: String, line: String },
    List { project_id: String, zone_name: String },
    Submit { change: Change, project_id: String, zone_name: String },
    /// End the run; `output` is the line to print, if any.
    Stop { outcome: Outcome, output: Option<String> },
}

/// The kind of an action.
pub open spec fn call_of(action: Action) -> Call {
    match action {
        Action::AcquireSession { .. } => Call::AcquireSession,
        Action::Lookup => Call::Lookup,
        Action::ReadCache { .. } => Call::ReadCache,
        Action::WriteCache { .. } => Call::WriteCache,
        Action::List { .. } => Call::List,
        Action::Submit { .. } => Call::Submit,
        Action::Stop { outcome, .. } => Call::Stop(outcome),
    }
}

/// What an event means to a run that holds `address`.
pub open spec fn signal_of(address: Option<Seq<char>>, event: Event) -> Signal {
    match event {
        Event::Begin => Signal::Begin,
        Event::SessionGranted => Signal::SessionGranted,
        Event::SessionDenied => Signal::SessionDenied,
        Event::AddressResponse { status, body } => if resolved_text(status, body@).is_ok() {
            Signal::AddressValid
        } else {
            Signal::AddressInvalid
        },
        Event::AddressUnavailable => Signal::AddressInvalid,
        Event::Cache(CacheRead::Contents(contents)) => if Some(trim(contents@)) == address {
            Signal::CacheSame
        } else {
            Signal::CacheOther
        },
        Event::Cache(CacheRead::Missing) => Signal::CacheMissing,
        Event::Cache(CacheRead::Unreadable) => Signal::CacheUnreadable,
        Event::CacheStored => Signal::CacheStored,
        Event::CacheStoreFailed => Signal::CacheStoreFailed,
        Event::Listed(_) => Signal::ListingReceived,
        Event::ListFailed => Signal::ListingFailed,
        Event::Submitted => Signal::ChangeAccepted,
        Event::SubmitFailed => Signal::ChangeRejected,
    }
}

/// The address that a run holds after `event`: the one that a lookup
/// response resolves to where the run waited for it, else the one it held
/// before.
pub open spec fn address_after(phase: Phase, address: Option<Seq<char>>, event: Event) -> Option<
    Seq<char>,
> {
    match event {
        Event::AddressResponse { status, body } => match resolved_text(status, body@) {
            Ok(found) if phase == Phase::Lookup => Some(found),
            _ => address,
        },
        _ => address,
    }
}

/// Whether `action` carries what the configuration, the address that the
/// run holds after the event, and the event call for.
pub open spec fn carries(opt: Opt, address: Option<Seq<char>>, event: Event, action: Action)
    -> bool {
    match action {
        Action::AcquireSession { interactive, scopes } => {
            &&& interactive == (opt.command == Command::Authenticate)
            &&& texts(scopes@) == required_scope_texts()
        },
        Action::Lookup => true,
        Action::ReadCache { path } => Some(path@) == opt_text(opt.cache),
        Action::WriteCache { path, line } => {
            &&& Some(path@) == opt_text(opt.cache)
            &&& address is Some
            &&& line@ == cache_line_of(address.unwrap())
        },
        Action::List { project_id, zone_name } => {
            &&& project_id@ == opt.project_id@
            &&& zone_name@ == opt.zone_name@
        },
        Action::Submit { change, project_id, zone_name } => {
            &&& project_id@ == opt.project_id@
            &&& zone_name@ == opt.zone_name@
            &&& address is Some
            &&& event matches Event::Listed(rrsets)
            &&& change@ == (ChangeView {
                client_operation_id: opt_text(opt.change_id),
                ..change_for_listing(
                    listed(rrsets),
                    opt.record_name@,
                    opt.record_type@,
                    opt.record_ttl,
                    address.unwrap(),
                )
            })
        },
        Action::Stop { outcome, output } => opt_text(output) == if outcome == Outcome::Printed {
            address
        } else {
            None
        },
    }
}

/// A run in progress.
#[derive(Debug)]
pub struct Run {
    phase: Phase,
    address: Option<ResolvedAddress>,
}

impl Run {
    #[verifier::type_invariant]
    spec fn well_formed(&self) -> bool {
        (self.phase == Phase::CacheRead || self.phase == Phase::CacheWrite || self.phase
            == Phase::Listing) ==> self.address is Some
    }

    /// The phase of the run.
    pub closed spec fn phase(&self) -> Phase {
        self.phase
    }

    /// The text of the address that the run holds, once it was resolved.
    pub closed spec fn address(&self) -> Option<Seq<char>> {
        match self.address {
            Some(a) => Some(a@),
            None => None,
        }
    }

    /// A run that has not begun.
    pub fn new() -> (r: Run)
        ensures
            r.phase() == Phase::Start,
            r.address() is None,
    {
        Run { phase: Phase::Start, address: None }
    }

    /// The phase of the run.
    pub fn current_phase(&self) -> (p: Phase)
        ensures
            p == self.phase(),
    {
        self.phase
    }

    /// Whether the run has ended.
    pub fn is_finished(&self) -> (r: bool)
        ensures
            r == (self.phase() == Phase::Finished),
    {
        match self.phase {
            Phase::Finished => true,
            _ => false,
        }
    }
}

fn stop(address: Option<ResolvedAddress>, outcome: Outcome) -> (r: (Run, Action))
    ensures
        r.0.phase() == Phase::Finished,
        r.0.address() == match address {
            Some(a) => Some(a@),
            None => None,
        },
        r.1 matches Action::Stop { outcome: o, output } && o == outcome && output is None,
{
    (Run { phase: Phase::Finished, address }, Action::Stop { outcome, output: None })
}

/// Takes the answer to the last action and decides the next one.
pub fn step(opt: &Opt, run: Run, event: Event) -> (r: (Run, Action))
    ensures
        (r.0.phase(), call_of(r.1)) == next(
            opt.command,
            opt.cache is Some,
            opt.cache_only_update,
            run.phase(),
            signal_of(run.address(), event),
        ),
        r.0.address() == address_after(run.phase(), run.address(), event),
        carries(*opt, r.0.address(), event, r.1),
{
    proof {
        use_type_invariant(&run);
    }
    let Run { phase, address } = run;
    match (phase, event) {
        (Phase::Start, Event::Begin) => {
            let interactive: bool = match opt.command {
                Command::Authenticate => true,
                _ => false,
            };
            (
                Run { phase: Phase::Session, address },
                Action::AcquireSession { interactive, scopes: required_scopes() },
            )
        },
        (Phase::Session, Event::SessionGranted) => match opt.command {
            Command::Authenticate => stop(address, Outcome::Authenticated),
            _ => (Run { phase: Phase::Lookup, address }, Action::Lookup),
        },
        (Phase::Session, Event::SessionDenied) => stop(
            address,
            Outcome::Failed(Failure::NotAuthenticated),
        ),
        (Phase::Lookup, Event::AddressResponse { status, body }) => match resolve(
            status,
            body.as_slice(),
        ) {
            Ok(found) => match opt.command {
                Command::IP => {
                    let output = Some(found.to_text());
                    (
                        Run { phase: Phase::Finished, address: Some(found) },
                        Action::Stop { outcome: Outcome::Printed, output },
                    )
                },
                Command::SetRecord => match &opt.cache {
                    Some(path) => (
                        Run { phase: Phase::CacheRead, address: Some(found) },
                        Action::ReadCache { path: path.clone() },
                    ),
                    None => (
                        Run { phase: Phase::Listing, address: Some(found) },
                        Action::List {
                            project_id: opt.project_id.clone(),
                            zone_name: opt.zone_name.clone(),
                        },
                    ),
                },
                Command::Authenticate => stop(Some(found), Outcome::Failed(Failure::OutOfTurn)),
            },
            Err(_) => stop(address, Outcome::Failed(Failure::Resolution)),
        },
        (Phase::Lookup, Event::AddressUnavailable) => stop(
            address,
            Outcome::Failed(Failure::Resolution),
        ),
        (Phase::CacheRead, Event::Cache(read)) => {
            let candidate = address.unwrap();
            let skip: bool = match &read {
                CacheRead::Contents(contents) => should_skip(
                    Some(contents.as_str()),
                    &candidate,
                    opt.cache_only_update,
                ),
                _ => false,
            };
            let unreadable: bool = match &read {
                CacheRead::Unreadable => true,
                _ => false,
            };
            if opt.cache.is_none() {
                stop(Some(candidate), Outcome::Failed(Failure::OutOfTurn))
            } else if skip {
                stop(Some(candidate), Outcome::Skipped)
            } else if unreadable {
                stop(Some(candidate), Outcome::Failed(Failure::Cache))
            } else {
                match &opt.cache {
                    Some(path) => {
                        let line = cache_line(&candidate);
                        (
                            Run { phase: Phase::CacheWrite, address: Some(candidate) },
                            Action::WriteCache { path: path.clone(), line },
                        )
                    },
                    None => stop(Some(candidate), Outcome::Failed(Failure::OutOfTurn)),
                }
            }
        },
        (Phase::CacheWrite, Event::CacheStored) => if opt.cache.is_some() {
            (
                Run { phase: Phase::Listing, address },
                Action::List {
                    project_id: opt.project_id.clone(),
                    zone_name: opt.zone_name.clone(),
                },
            )
        } else {
            stop(address, Outcome::Failed(Failure::OutOfTurn))
        },
        (Phase::CacheWrite, Event::CacheStoreFailed) => if opt.cache.is_some() {
            stop(address, Outcome::Failed(Failure::Cache))
        } else {
            stop(address, Outcome::Failed(Failure::OutOfTurn))
        },
        (Phase::Listing, Event::Listed(rrsets)) => {
            let candidate = address.unwrap();
            let existing = reconcile(&rrsets, opt.record_name.as_str(), opt.record_type.as_str());
            let built = build_change(
                existing,
                opt.record_name.as_str(),
                opt.record_type.as_str(),
                opt.record_ttl,
                &candidate,
            );
            let change = with_operation_id(built, clone_text(&opt.change_id));
            (
                Run { phase: Phase::Submit, address: Some(candidate) },
                Action::Submit {
                    change,
                    project_id: opt.project_id.clone(),
                    zone_name: opt.zone_name.clone(),
                },
            )
        },
        (Phase::Listing, Event::ListFailed) => stop(address, Outcome::Failed(Failure::Reconcile)),
        (Phase::Submit, Event::Submitted) => stop(address, Outcome::Updated),
        (Phase::Submit, Event::SubmitFailed) => stop(address, Outcome::Failed(Failure::Submit)),
        _ => stop(address, Outcome::Failed(Failure::OutOfTurn)),
    }
}

/// The calls that a run makes, one for each of `signals`, from `phase` on.
pub open spec fn calls(
    command: Command,
    cache_on: bool,
    force: bool,
    phase: Phase,
    signals: Seq<Signal>,
) -> Seq<Call>
    decreases signals.len(),
{
    if signals.len() == 0 {
        Seq::empty()
    } else {
        let step = next(command, cache_on, force, phase, signals[0]);
        seq![step.1] + calls(command, cache_on, force, step.0, signals.drop_first())
    }
}

/// How often `wanted` occurs among `made`.
pub open spec fn count(made: Seq<Call>, wanted: Call) -> nat
    decreases made.len(),
{
    if made.len() == 0 {
        0
    } else {
        count(made.drop_first(), wanted) + if made[0] == wanted {
            1nat
        } else {
            0nat
        }
    }
}

/// Whether a call goes to the DNS provider.
pub open spec fn reaches_provider(call: Call) -> bool {
    call == Call::List || call == Call::Submit
}

/// Whether a call reads or writes the cache file.
pub open spec fn touches_cache(call: Call) -> bool {
    call == Call::ReadCache || call == Call::WriteCache
}

/// The place of a phase in the order in which a run passes through them.
pub open spec fn rank(phase: Phase) -> nat {
    match phase {
        Phase::Start => 0,
        Phase::Session => 1,
        Phase::Lookup => 2,
        Phase::CacheRead => 3,
        Phase::CacheWrite => 4,
        Phase::Listing => 5,
        Phase::Submit => 6,
        Phase::Finished => 7,
    }
}

proof fn lemma_calls_unfold(
    command: Command,
    cache_on: bool,
    force: bool,
    phase: Phase,
    signals: Seq<Signal>,
)
    requires
        signals.len() > 0,
    ensures
        calls(command, cache_on, force, phase, signals).len() == signals.len(),
        calls(command, cache_on, force, phase, signals)[0] == next(
            command,
            cache_on,
            force,
            phase,
            signals[0],
        ).1,
        calls(command, cache_on, force, phase, signals).drop_first() == calls(
            command,
            cache_on,
            force,
            next(command, cache_on, force, phase, signals[0]).0,
            signals.drop_first(),
        ),
    decreases signals.len(),
{
    let step = next(command, cache_on, force, phase, signals[0]);
    let rest = calls(command, cache_on, force, step.0, signals.drop_first());
    if signals.len() > 1 {
        lemma_calls_unfold(command, cache_on, force, step.0, signals.drop_first());
    }
    assert((seq![step.1] + rest).drop_first() =~= rest);
}

/// A run that has ended makes no call any more, whatever arrives.
pub proof fn lemma_finished_run_stops(
    command: Command,
    cache_on: bool,
    force: bool,
    signals: Seq<Signal>,
)
    ensures
        forall|k: int|
            0 <= k < signals.len() ==> #[trigger] calls(
                command,
                cache_on,
                force,
                Phase::Finished,
                signals,
            )[k] == Call::Stop(Outcome::Failed(Failure::OutOfTurn)),
    decreases signals.len(),
{
    if signals.len() > 0 {
        lemma_calls_unfold(command, cache_on, force, Phase::Finished, signals);
        lemma_finished_run_stops(command, cache_on, force, signals.drop_first());
        let made = calls(command, cache_on, force, Phase::Finished, signals);
        assert forall|k: int| 0 <= k < signals.len() implies #[trigger] made[k] == Call::Stop(
            Outcome::Failed(Failure::OutOfTurn),
        ) by {
            if k > 0 {
                assert(made[k] == made.drop_first()[k - 1]);
            }
        }
    }
}

/// A run ends exactly when it is told to stop: every failure is final, and
/// nothing but a stop ends a run.
pub proof fn lemma_stop_is_final(
    command: Command,
    cache_on: bool,
    force: bool,
    phase: Phase,
    signal: Signal,
)
    ensures
        next(command, cache_on, force, phase, signal).1 is Stop <==> next(
            command,
            cache_on,
            force,
            phase,
            signal,
        ).0 == Phase::Finished,
{
}

/// With a cache path, the zone is listed only after the address was
/// stored; without one, only right after the address was resolved.
pub proof fn lemma_cache_is_stored_before_listing(
    command: Command,
    cache_on: bool,
    force: bool,
    phase: Phase,
    signal: Signal,
)
    requires
        next(command, cache_on, force, phase, signal).1 == Call::List,
    ensures
        cache_on ==> phase == Phase::CacheWrite && signal == Signal::CacheStored,
        !cache_on ==> phase == Phase::Lookup && signal == Signal::AddressValid && command
            == Command::SetRecord,
{
}

/// Where the cached text, trimmed, is the candidate address and no update
/// is forced, the run ends as skipped, and nothing that arrives later makes
/// it list the zone, submit a change or touch the cache.
pub proof fn lemma_cache_hit_skips(
    command: Command,
    address: Seq<char>,
    contents: String,
    later: Seq<Signal>,
)
    requires
        trim(contents@) == address,
    ensures
        ({
            let hit = signal_of(Some(address), Event::Cache(CacheRead::Contents(contents)));
            let made = calls(command, true, false, Phase::CacheRead, seq![hit] + later);
            &&& hit == Signal::CacheSame
            &&& made.len() == later.len() + 1
            &&& made[0] == Call::Stop(Outcome::Skipped)
            &&& Outcome::Skipped.succeeded()
            &&& forall|k: int|
                0 <= k < made.len() ==> !reaches_provider(#[trigger] made[k]) && !touches_cache(
                    made[k],
                )
        }),
{
    let signals = seq![Signal::CacheSame] + later;
    let made = calls(command, true, false, Phase::CacheRead, signals);
    lemma_calls_unfold(command, true, false, Phase::CacheRead, signals);
    assert(signals.drop_first() =~= later);
    lemma_finished_run_stops(command, true, false, later);
    assert forall|k: int| 0 <= k < made.len() implies !reaches_provider(#[trigger] made[k])
        && !touches_cache(made[k]) by {
        if k > 0 {
            assert(made[k] == made.drop_first()[k - 1]);
        }
    }
}

/// Where the cache file is missing, or its trimmed text is not the
/// candidate address, or the update is forced, a run that meets no failure
/// stores the address, lists the zone once and submits one change.
pub proof fn lemma_cache_miss_updates(force: bool, address: Seq<char>, read: CacheRead)
    requires
        match read {
            CacheRead::Contents(contents) => trim(contents@) != address || force,
            CacheRead::Missing => true,
            CacheRead::Unreadable => false,
        },
    ensures
        calls(
            Command::SetRecord,
            true,
            force,
            Phase::CacheRead,
            seq![
                signal_of(Some(address), Event::Cache(read)),
                Signal::CacheStored,
                Signal::ListingReceived,
                Signal::ChangeAccepted,
            ],
        ) == seq![Call::WriteCache, Call::List, Call::Submit, Call::Stop(Outcome::Updated)],
{
    let verdict = signal_of(Some(address), Event::Cache(read));
    let s0 = seq![verdict, Signal::CacheStored, Signal::ListingReceived, Signal::ChangeAccepted];
    let s1 = seq![Signal::CacheStored, Signal::ListingReceived, Signal::ChangeAccepted];
    let s2 = seq![Signal::ListingReceived, Signal::ChangeAccepted];
    let s3 = seq![Signal::ChangeAccepted];
    assert(s0.drop_first() =~= s1);
    assert(s1.drop_first() =~= s2);
    assert(s2.drop_first() =~= s3);
    assert(s3.drop_first() =~= Seq::<Signal>::empty());
    reveal_with_fuel(calls, 5);
    assert(calls(Command::SetRecord, true, force, Phase::CacheRead, s0) =~= seq![
        Call::WriteCache,
        Call::List,
        Call::Submit,
        Call::Stop(Outcome::Updated),
    ]);
}

/// Without a cache path, a run that meets no failure goes from the address
/// straight to listing the zone once and submitting one change, and never
/// touches a cache file.
pub proof fn lemma_no_cache_updates(force: bool)
    ensures
        calls(
            Command::SetRecord,
            false,
            force,
            Phase::Lookup,
            seq![Signal::AddressValid, Signal::ListingReceived, Signal::ChangeAccepted],
        ) == seq![Call::List, Call::Submit, Call::Stop(Outcome::Updated)],
{
    let s0 = seq![Signal::AddressValid, Signal::ListingReceived, Signal::ChangeAccepted];
    let s1 = seq![Signal::ListingReceived, Signal::ChangeAccepted];
    let s2 = seq![Signal::ChangeAccepted];
    assert(s0.drop_first() =~= s1);
    assert(s1.drop_first() =~= s2);
    assert(s2.drop_first() =~= Seq::<Signal>::empty());
    reveal_with_fuel(calls, 4);
    assert(calls(Command::SetRecord, false, force, Phase::Lookup, s0) =~= seq![
        Call::List,
        Call::Submit,
        Call::Stop(Outcome::Updated),
    ]);
}

/// Every answer moves a run forward, and a run lists the zone only on
/// entering the listing phase and submits only on entering the submit
/// phase.
proof fn lemma_next_advances(
    command: Command,
    cache_on: bool,
    force: bool,
    phase: Phase,
    signal: Signal,
)
    ensures
        ({
            let step = next(command, cache_on, force, phase, signal);
            &&& (rank(step.0) > rank(phase) || step.0 == Phase::Finished)
            &&& (step.1 == Call::List ==> step.0 == Phase::Listing && rank(phase) < 5)
            &&& (step.1 == Call::Submit ==> step.0 == Phase::Submit && rank(phase) < 6)
        }),
{
}

proof fn lemma_counts_bounded(
    command: Command,
    cache_on: bool,
    force: bool,
    phase: Phase,
    signals: Seq<Signal>,
)
    ensures
        count(calls(command, cache_on, force, phase, signals), Call::List) <= if rank(phase) < 5 {
            1nat
        } else {
            0nat
        },
        count(calls(command, cache_on, force, phase, signals), Call::Submit) <= if rank(phase)
            < 6 {
            1nat
        } else {
            0nat
        },
    decreases signals.len(),
{
    if signals.len() > 0 {
        let step = next(command, cache_on, force, phase, signals[0]);
        lemma_next_advances(command, cache_on, force, phase, signals[0]);
        lemma_calls_unfold(command, cache_on, force, phase, signals);
        lemma_counts_bounded(command, cache_on, force, step.0, signals.drop_first());
    }
}

/// Whatever arrives, and in whatever order, a run lists the zone at most
/// once and submits at most one change.
pub proof fn lemma_at_most_one_submission(
    command: Command,
    cache_on: bool,
    force: bool,
    phase: Phase,
    signals: Seq<Signal>,
)
    ensures
        count(calls(command, cache_on, force, phase, signals), Call::List) <= 1,
        count(calls(command, cache_on, force, phase, signals), Call::Submit) <= 1,
{
    lemma_counts_bounded(command, cache_on, force, phase, signals);
}

proof fn lemma_show_address_is_local(
    cache_on: bool,
    force: bool,
    phase: Phase,
    signals: Seq<Signal>,
)
    requires
        rank(phase) <= 2 || phase == Phase::Finished,
    ensures
        forall|k: int|
            0 <= k < signals.len() ==> !reaches_provider(
                #[trigger] calls(Command::IP, cache_on, force, phase, signals)[k],
            ) && !touches_cache(calls(Command::IP, cache_on, force, phase, signals)[k]),
    decreases signals.len(),
{
    if signals.len() > 0 {
        let step = next(Command::IP, cache_on, force, phase, signals[0]);
        lemma_calls_unfold(Command::IP, cache_on, force, phase, signals);
        lemma_show_address_is_local(cache_on, force, step.0, signals.drop_first());
        let made = calls(Command::IP, cache_on, force, phase, signals);
        assert forall|k: int| 0 <= k < signals.len() implies !reaches_provider(#[trigger] made[k])
            && !touches_cache(made[k]) by {
            if k > 0 {
                assert(made[k] == made.drop_first()[k - 1]);
            }
        }
    }
}

/// A run that was started to show the address never reads or writes the
/// cache, lists the zone or submits a change, whatever the other settings
/// are and whatever arrives.
pub proof fn lemma_show_address_stays_local(cache_on: bool, force: bool, signals: Seq<Signal>)
    ensures
        forall|k: int|
            0 <= k < signals.len() ==> !reaches_provider(
                #[trigger] calls(Command::IP, cache_on, force, Phase::Start, signals)[k],
            ) && !touches_cache(calls(Command::IP, cache_on, force, Phase::Start, signals)[k]),
{
    lemma_show_address_is_local(cache_on, force, Phase::Start, signals);
}

} // verus!
