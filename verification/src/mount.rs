//! The life of a driver session, from creation to destruction.
//!
//! A [`Mount`] never touches the driver. It names the call that is due
//! ([`Mount::pending`]), is told what the call handed back
//! ([`Mount::advance`]), and is told when its owner lets go of it
//! ([`Mount::release`]). Whoever holds it makes the named call and nothing
//! else, and reports back before asking again.

use vstd::prelude::*;

use crate::channel::Handle;
use crate::os::Completion;
use crate::os::OsError;

verus! {

/// Where a session stands.
#[derive(Clone, Copy, Debug, PartialEq, Eq, Structural)]
pub enum Phase {
    /// No session exists yet.
    Unmounted,
    /// The session exists and is not mounted.
    SessionCreated,
    /// The session is mounted; its handle is being obtained.
    MountedConnected,
    /// The handle has been handed out; the mount is in use.
    Active,
    /// The session is being taken down.
    Unmounting,
    /// Nothing is left: the session is gone, or never came to be.
    Destroyed,
}

/// One call into the driver or the platform, with what is handed to it.
#[derive(Debug, PartialEq, Eq)]
pub enum Call {
    /// Create a session from the mount arguments.
    CreateSession,
    /// Mount the session at `target`, the path that the mount was made
    /// for, given as its bytes.
    MountSession { session: isize, target: Vec<u8> },
    /// Ask the mounted session for its descriptor.
    ExtractHandle { session: isize },
    /// Duplicate the session's descriptor into one that the process owns.
    DuplicateHandle { descriptor: isize },
    /// Unmount the session.
    UnmountSession { session: isize },
    /// Destroy the session.
    DestroySession { session: isize },
}

/// A call as contracts see it: the path is the sequence of its bytes.
pub enum CallView {
    CreateSession,
    MountSession { session: isize, target: Seq<u8> },
    ExtractHandle { session: isize },
    DuplicateHandle { descriptor: isize },
    UnmountSession { session: isize },
    DestroySession { session: isize },
}

impl View for Call {
    type V = CallView;

    open spec fn view(&self) -> CallView {
        match *self {
            Call::CreateSession => CallView::CreateSession,
            Call::MountSession { session, target } => CallView::MountSession {
                session,
                target: target@,
            },
            Call::ExtractHandle { session } => CallView::ExtractHandle { session },
            Call::DuplicateHandle { descriptor } => CallView::DuplicateHandle { descriptor },
            Call::UnmountSession { session } => CallView::UnmountSession { session },
            Call::DestroySession { session } => CallView::DestroySession { session },
        }
    }
}

impl Clone for Call {
    /// The same call, with a copy of the path where it holds one.
    fn clone(&self) -> (copy: Call)
        ensures
            copy@ == self@,
    {
        match self {
            Call::CreateSession => Call::CreateSession,
            Call::MountSession { session, target } => Call::MountSession {
                session: *session,
                target: target.clone(),
            },
            Call::ExtractHandle { session } => Call::ExtractHandle { session: *session },
            Call::DuplicateHandle { descriptor } => Call::DuplicateHandle {
                descriptor: *descriptor,
            },
            Call::UnmountSession { session } => Call::UnmountSession { session: *session },
            Call::DestroySession { session } => Call::DestroySession { session: *session },
        }
    }
}

/// Something that happens to a mount: the call that was due has returned,
/// or the owner has let go.
pub enum Event {
    Completed(Completion),
    Released,
}

/// The state of a mount as contracts see it.
pub struct Lifecycle {
    /// The path at which the filesystem is to be mounted, as its bytes.
    pub target: Seq<u8>,
    /// Where the session stands now.
    pub phase: Phase,
    /// How far construction had come when it ended or was cut short; while
    /// construction is under way and while the mount is in use, the phase
    /// itself.
    pub reached: Phase,
    /// The session, once created.
    pub session: isize,
    /// Whether the session is mounted at this moment.
    pub mounted: bool,
    /// The descriptor that the session handed out, once it has.
    pub extracted: Option<isize>,
    /// The duplicate of that descriptor, once made: the handle.
    pub duplicate: Option<isize>,
    /// The error of the step of construction that failed, if one did.
    pub failure: Option<OsError>,
    /// Every call made so far, in order.
    pub calls: Seq<CallView>,
}

impl Lifecycle {
    /// A mount for `target` before anything has happened.
    pub open spec fn initial(target: Seq<u8>) -> Lifecycle {
        Lifecycle {
            target,
            phase: Phase::Unmounted,
            reached: Phase::Unmounted,
            session: 0,
            mounted: false,
            extracted: None,
            duplicate: None,
            failure: None,
            calls: Seq::empty(),
        }
    }

    /// The call that is due, if any.
    pub open spec fn pending(self) -> Option<CallView> {
        match self.phase {
            Phase::Unmounted => Some(CallView::CreateSession),
            Phase::SessionCreated => Some(CallView::MountSession { session: self.session, target: self.target }),
            Phase::MountedConnected => match self.extracted {
                None => Some(CallView::ExtractHandle { session: self.session }),
                Some(descriptor) => Some(CallView::DuplicateHandle { descriptor }),
            },
            Phase::Active => None,
            Phase::Unmounting => if self.mounted {
                Some(CallView::UnmountSession { session: self.session })
            } else {
                Some(CallView::DestroySession { session: self.session })
            },
            Phase::Destroyed => None,
        }
    }

    /// Whether `done` is the failure sentinel of `call`: no session for a
    /// creation, a status other than zero for a mount, a negative
    /// descriptor for an extraction or a duplication. The two calls of
    /// teardown hand nothing back and cannot fail.
    pub open spec fn failed(call: CallView, done: Completion) -> bool {
        match call {
            CallView::CreateSession => done.value == 0,
            CallView::MountSession { .. } => done.value != 0,
            CallView::ExtractHandle { .. } => done.value < 0,
            CallView::DuplicateHandle { .. } => done.value < 0,
            CallView::UnmountSession { .. } => false,
            CallView::DestroySession { .. } => false,
        }
    }

    /// The state once construction has been given up over the failure of
    /// the call that was due: whatever exists is to be taken down, and the
    /// platform's error is kept for the caller.
    pub open spec fn abandoned(self, done: Completion) -> Lifecycle {
        Lifecycle {
            phase: if self.phase == Phase::Unmounted {
                Phase::Destroyed
            } else {
                Phase::Unmounting
            },
            failure: Some(done.error()),
            ..self
        }
    }

    /// The state after the call that was due has returned `done`. Where no
    /// call was due, nothing changes.
    pub open spec fn step(self, done: Completion) -> Lifecycle {
        match self.pending() {
            None => self,
            Some(call) => {
                let made = Lifecycle { calls: self.calls.push(call), ..self };
                if Self::failed(call, done) {
                    made.abandoned(done)
                } else {
                    match call {
                        CallView::CreateSession => Lifecycle {
                            phase: Phase::SessionCreated,
                            reached: Phase::SessionCreated,
                            session: done.value,
                            ..made
                        },
                        CallView::MountSession { .. } => Lifecycle {
                            phase: Phase::MountedConnected,
                            reached: Phase::MountedConnected,
                            mounted: true,
                            ..made
                        },
                        CallView::ExtractHandle { .. } => Lifecycle {
                            extracted: Some(done.value),
                            ..made
                        },
                        CallView::DuplicateHandle { .. } => Lifecycle {
                            phase: Phase::Active,
                            reached: Phase::Active,
                            duplicate: Some(done.value),
                            ..made
                        },
                        CallView::UnmountSession { .. } => Lifecycle { mounted: false, ..made },
                        CallView::DestroySession { .. } => Lifecycle {
                            phase: Phase::Destroyed,
                            ..made
                        },
                    }
                }
            },
        }
    }

    /// The state after the owner has let go: teardown of whatever exists
    /// begins. Letting go a second time changes nothing.
    pub open spec fn release(self) -> Lifecycle {
        match self.phase {
            Phase::Unmounted => Lifecycle { phase: Phase::Destroyed, ..self },
            Phase::SessionCreated | Phase::MountedConnected | Phase::Active => Lifecycle {
                phase: Phase::Unmounting,
                ..self
            },
            Phase::Unmounting | Phase::Destroyed => self,
        }
    }

    /// The state after one event.
    pub open spec fn apply(self, event: Event) -> Lifecycle {
        match event {
            Event::Completed(done) => self.step(done),
            Event::Released => self.release(),
        }
    }

    /// The state after a sequence of events.
    pub open spec fn run(self, events: Seq<Event>) -> Lifecycle
        decreases events.len(),
    {
        if events.len() == 0 {
            self
        } else {
            self.run(events.drop_last()).apply(events.last())
        }
    }

    /// What construction has come to: the handle once the mount is in use,
    /// the error once a failed construction has been fully undone, and
    /// nothing before either.
    pub open spec fn outcome(self) -> Option<Result<Handle, OsError>> {
        match self.phase {
            Phase::Active => match self.duplicate {
                Some(raw) => Some(Ok(Handle { raw })),
                None => None,
            },
            Phase::Destroyed => match self.failure {
                Some(error) => Some(Err(error)),
                None => None,
            },
            _ => None,
        }
    }

    /// The calls of construction that the state accounts for.
    pub open spec fn construction(self) -> Seq<CallView> {
        let create = seq![CallView::CreateSession];
        let mount = seq![CallView::MountSession { session: self.session, target: self.target }];
        let extract = seq![CallView::ExtractHandle { session: self.session }];
        match self.reached {
            Phase::SessionCreated => if self.failure is Some {
                create + mount
            } else {
                create
            },
            Phase::MountedConnected => match self.extracted {
                None => if self.failure is Some {
                    create + mount + extract
                } else {
                    create + mount
                },
                Some(descriptor) => if self.failure is Some {
                    create + mount + extract + seq![CallView::DuplicateHandle { descriptor }]
                } else {
                    create + mount + extract
                },
            },
            Phase::Active => match self.extracted {
                Some(descriptor) => create + mount + extract + seq![
                    CallView::DuplicateHandle { descriptor },
                ],
                None => create + mount + extract,
            },
            _ => if self.failure is Some {
                create
            } else {
                Seq::empty()
            },
        }
    }

    /// The calls of teardown that the state accounts for.
    pub open spec fn teardown(self) -> Seq<CallView> {
        let unmount = seq![CallView::UnmountSession { session: self.session }];
        let destroy = seq![CallView::DestroySession { session: self.session }];
        let was_mounted = self.reached == Phase::MountedConnected || self.reached == Phase::Active;
        match self.phase {
            Phase::Unmounting => if was_mounted && !self.mounted {
                unmount
            } else {
                Seq::empty()
            },
            Phase::Destroyed => if was_mounted {
                unmount + destroy
            } else if self.reached == Phase::SessionCreated {
                destroy
            } else {
                Seq::empty()
            },
            _ => Seq::empty(),
        }
    }

    /// What holds of every state that a mount can be in.
    pub open spec fn inv(self) -> bool {
        let building = self.phase != Phase::Unmounting && self.phase != Phase::Destroyed;
        &&& self.calls == self.construction() + self.teardown()
        &&& building ==> self.reached == self.phase && self.failure is None
        &&& match self.reached {
            Phase::Unmounted => {
                &&& self.phase == Phase::Unmounted || self.phase == Phase::Destroyed
                &&& !self.mounted
                &&& self.extracted is None
                &&& self.duplicate is None
            },
            Phase::SessionCreated => {
                &&& self.session != 0
                &&& !self.mounted
                &&& self.extracted is None
                &&& self.duplicate is None
            },
            Phase::MountedConnected => {
                &&& self.session != 0
                &&& self.phase == Phase::MountedConnected ==> self.mounted
                &&& self.phase == Phase::Destroyed ==> !self.mounted
                &&& self.extracted matches Some(descriptor) ==> descriptor >= 0
                &&& self.duplicate is None
            },
            Phase::Active => {
                &&& self.session != 0
                &&& self.phase == Phase::Active ==> self.mounted
                &&& self.phase == Phase::Destroyed ==> !self.mounted
                &&& self.extracted matches Some(descriptor) && descriptor >= 0
                &&& self.duplicate matches Some(raw) && raw >= 0
                &&& self.failure is None
            },
            _ => false,
        }
    }
}

/// The lifecycle object of one mount: it owns the session and is alone
/// responsible for taking it down. It is neither copied nor shared.
#[derive(Debug)]
pub struct Mount {
    target: Vec<u8>,
    state: Progress,
}

/// What a mount holds besides its target.
#[derive(Clone, Copy, Debug)]
struct Progress {
    phase: Phase,
    reached: Phase,
    session: isize,
    mounted: bool,
    extracted: Option<isize>,
    duplicate: Option<isize>,
    failure: Option<OsError>,
}

impl View for Mount {
    type V = Lifecycle;

    /// The calls made so far are not kept: they are read off what is
    /// held, and [`Mount::advance`] shows that each step adds the one call
    /// that was due.
    closed spec fn view(&self) -> Lifecycle {
        let held = Lifecycle {
            target: self.target@,
            phase: self.state.phase,
            reached: self.state.reached,
            session: self.state.session,
            mounted: self.state.mounted,
            extracted: self.state.extracted,
            duplicate: self.state.duplicate,
            failure: self.state.failure,
            calls: Seq::empty(),
        };
        Lifecycle { calls: held.construction() + held.teardown(), ..held }
    }
}

/// Every event leaves a state that a mount can be in.
pub proof fn lemma_apply_preserves_inv(state: Lifecycle, event: Event)
    requires
        state.inv(),
    ensures
        state.apply(event).inv(),
{
    let next = state.apply(event);
    assert(next.calls =~= next.construction() + next.teardown());
}

/// No sequence of events leads a mount out of the states that it can be
/// in, and none changes the path that it was made for.
pub proof fn lemma_run_preserves_inv(state: Lifecycle, events: Seq<Event>)
    requires
        state.inv(),
    ensures
        state.run(events).inv(),
        state.run(events).target == state.target,
    decreases events.len(),
{
    if events.len() > 0 {
        lemma_run_preserves_inv(state, events.drop_last());
        lemma_apply_preserves_inv(state.run(events.drop_last()), events.last());
    }
}

/// Whatever happens to a mount from its beginning, it is in a state that a
/// mount can be in, and the only path at which it ever mounts is the one
/// that it was made for.
pub proof fn lemma_reachable_inv(target: Seq<u8>, events: Seq<Event>)
    ensures
        ({
            let end = Lifecycle::initial(target).run(events);
            &&& end.inv()
            &&& end.target == target
            &&& forall|i: int|
                0 <= i < end.calls.len() ==> (#[trigger] end.calls[i] matches CallView::MountSession {
                    target: at,
                    ..
                } ==> at == target)
        }),
{
    assert(Lifecycle::initial(target).calls =~= Lifecycle::initial(target).construction()
        + Lifecycle::initial(target).teardown());
    lemma_run_preserves_inv(Lifecycle::initial(target), events);
}

/// What holds of the session in every state. No call is ever made twice.
/// The session is destroyed exactly when the mount is gone, by the last
/// call, and a session that was mounted is unmounted by the call before
/// it. A mount that is neither in use nor gone has a call due, so that
/// no session is left behind.
pub proof fn lemma_session_torn_down_once(state: Lifecycle)
    requires
        state.inv(),
    ensures
        ({
            let unmount = CallView::UnmountSession { session: state.session };
            let destroy = CallView::DestroySession { session: state.session };
            let created = state.reached != Phase::Unmounted;
            let was_mounted = state.reached == Phase::MountedConnected || state.reached
                == Phase::Active;
            &&& state.calls.no_duplicates()
            &&& state.pending() is None <==> state.phase == Phase::Active || state.phase
                == Phase::Destroyed
            &&& state.calls.contains(destroy) <==> created && state.phase == Phase::Destroyed
            &&& state.calls.contains(destroy) ==> state.calls.last() == destroy
            &&& state.calls.contains(unmount) <==> was_mounted && !state.mounted
            &&& state.calls.contains(unmount) && state.calls.contains(destroy)
                ==> state.calls[state.calls.len() - 2] == unmount
            &&& state.calls.contains(destroy) && !state.calls.contains(unmount) ==> !was_mounted
        }),
{
    let unmount = CallView::UnmountSession { session: state.session };
    let destroy = CallView::DestroySession { session: state.session };
    let calls = state.construction() + state.teardown();
    assert(state.calls == calls);
    assert forall|i: int, j: int| 0 <= i < calls.len() && 0 <= j < calls.len() && i != j implies calls[i]
        != calls[j] by {}
    if state.calls.contains(destroy) {
        let i = choose|i: int| 0 <= i < calls.len() && calls[i] == destroy;
        assert(calls[i] == destroy);
    }
    if state.calls.contains(unmount) {
        let i = choose|i: int| 0 <= i < calls.len() && calls[i] == unmount;
        assert(calls[i] == unmount);
    }
    if state.reached != Phase::Unmounted && state.phase == Phase::Destroyed {
        assert(calls[calls.len() - 1] == destroy);
    }
    if (state.reached == Phase::MountedConnected || state.reached == Phase::Active)
        && !state.mounted {
        if state.phase == Phase::Destroyed {
            assert(calls[calls.len() - 2] == unmount);
        } else {
            assert(calls[calls.len() - 1] == unmount);
        }
    }
}

/// Once teardown has begun it only goes forward: whatever happens, the
/// mount stays in teardown or is gone, and what construction had come to
/// (the session, the descriptors, the error) stays as it was. A mount
/// that is gone does not change at all.
pub proof fn lemma_teardown_is_final(state: Lifecycle, events: Seq<Event>)
    requires
        state.inv(),
        state.phase == Phase::Unmounting || state.phase == Phase::Destroyed,
    ensures
        ({
            let end = state.run(events);
            &&& end.inv()
            &&& end.phase == Phase::Unmounting || end.phase == Phase::Destroyed
            &&& end.target == state.target
            &&& end.reached == state.reached
            &&& end.session == state.session
            &&& end.extracted == state.extracted
            &&& end.duplicate == state.duplicate
            &&& end.failure == state.failure
            &&& state.phase == Phase::Destroyed ==> end == state
        }),
    decreases events.len(),
{
    if events.len() > 0 {
        lemma_teardown_is_final(state, events.drop_last());
        lemma_apply_preserves_inv(state.run(events.drop_last()), events.last());
    }
}

/// Construction that meets no failure makes exactly one creation, one
/// mount, at the path that the mount was made for, one extraction and one
/// duplication, in this order, and hands out the duplicate as the handle. Nothing is due after that until the
/// owner lets go.
pub proof fn lemma_construction_succeeds(
    target: Seq<u8>,
    created: Completion,
    mounted: Completion,
    extracted: Completion,
    duplicated: Completion,
)
    requires
        created.value != 0,
        mounted.value == 0,
        extracted.value >= 0,
        duplicated.value >= 0,
    ensures
        ({
            let built = Lifecycle::initial(target).step(created).step(mounted).step(extracted).step(
                duplicated,
            );
            &&& built.inv()
            &&& built.phase == Phase::Active
            &&& built.pending() is None
            &&& built.outcome() == Some(
                Ok::<Handle, OsError>(Handle { raw: duplicated.value }),
            )
            &&& built.calls == seq![
                CallView::CreateSession,
                CallView::MountSession { session: created.value, target },
                CallView::ExtractHandle { session: created.value },
                CallView::DuplicateHandle { descriptor: extracted.value },
            ]
        }),
{
    let a = Lifecycle::initial(target).step(created);
    let b = a.step(mounted);
    let c = b.step(extracted);
    let d = c.step(duplicated);
    assert(a.calls =~= seq![CallView::CreateSession]);
    assert(b.calls =~= seq![CallView::CreateSession, CallView::MountSession { session: created.value, target }]);
    assert(c.calls =~= seq![
        CallView::CreateSession,
        CallView::MountSession { session: created.value, target },
        CallView::ExtractHandle { session: created.value },
    ]);
    assert(d.calls =~= seq![
        CallView::CreateSession,
        CallView::MountSession { session: created.value, target },
        CallView::ExtractHandle { session: created.value },
        CallView::DuplicateHandle { descriptor: extracted.value },
    ]);
    lemma_apply_preserves_inv(Lifecycle::initial(target), Event::Completed(created));
    lemma_apply_preserves_inv(a, Event::Completed(mounted));
    lemma_apply_preserves_inv(b, Event::Completed(extracted));
    lemma_apply_preserves_inv(c, Event::Completed(duplicated));
}

/// Of every mount that has handed out a handle, at any later time: its
/// calls are one creation, one mount, one extraction and one duplication,
/// then, once the owner has let go, one unmount and after it one
/// destruction, and no other call in between or after.
pub proof fn lemma_successful_mount_calls(state: Lifecycle)
    requires
        state.inv(),
        state.duplicate is Some,
    ensures
        ({
            let built = seq![
                CallView::CreateSession,
                CallView::MountSession { session: state.session, target: state.target },
                CallView::ExtractHandle { session: state.session },
                CallView::DuplicateHandle { descriptor: state.extracted->0 },
            ];
            let unmount = CallView::UnmountSession { session: state.session };
            let destroy = CallView::DestroySession { session: state.session };
            &&& state.extracted is Some
            &&& state.failure is None
            &&& state.phase == Phase::Active ==> state.calls == built
            &&& state.phase == Phase::Unmounting && state.mounted ==> state.calls == built
            &&& state.phase == Phase::Unmounting && !state.mounted ==> state.calls == built.push(
                unmount,
            )
            &&& state.phase == Phase::Destroyed ==> state.calls == built.push(unmount).push(
                destroy,
            )
            &&& state.phase == Phase::Active || state.phase == Phase::Unmounting || state.phase
                == Phase::Destroyed
        }),
{
    let built = seq![
        CallView::CreateSession,
        CallView::MountSession { session: state.session, target: state.target },
        CallView::ExtractHandle { session: state.session },
        CallView::DuplicateHandle { descriptor: state.extracted->0 },
    ];
    let unmount = CallView::UnmountSession { session: state.session };
    let destroy = CallView::DestroySession { session: state.session };
    assert(state.construction() =~= built);
    assert(state.construction() + Seq::<CallView>::empty() =~= built);
    assert(built + seq![unmount] =~= built.push(unmount));
    assert(built + (seq![unmount] + seq![destroy]) =~= built.push(unmount).push(destroy));
}

/// A mount in use whose owner lets go is taken down by exactly two calls,
/// the unmount and then the destruction, whatever they hand back; and a
/// mount that has handed out a handle keeps the record of it through
/// whatever happens afterwards.
pub proof fn lemma_release_tears_down(
    state: Lifecycle,
    unmounted: Completion,
    destroyed: Completion,
    events: Seq<Event>,
)
    requires
        state.inv(),
        state.phase == Phase::Active,
    ensures
        ({
            let leaving = state.release();
            let gone = leaving.step(unmounted).step(destroyed);
            &&& leaving.pending() == Some(CallView::UnmountSession { session: state.session })
            &&& leaving.step(unmounted).pending() == Some(
                CallView::DestroySession { session: state.session },
            )
            &&& gone.phase == Phase::Destroyed
            &&& gone.calls == state.calls.push(
                CallView::UnmountSession { session: state.session },
            ).push(CallView::DestroySession { session: state.session })
            &&& gone.run(events) == gone
            &&& leaving.run(events).duplicate == state.duplicate
        }),
{
    let leaving = state.release();
    let gone = leaving.step(unmounted).step(destroyed);
    lemma_apply_preserves_inv(state, Event::Released);
    lemma_apply_preserves_inv(leaving, Event::Completed(unmounted));
    lemma_apply_preserves_inv(leaving.step(unmounted), Event::Completed(destroyed));
    lemma_teardown_is_final(gone, events);
    lemma_teardown_is_final(leaving, events);
}

/// Where the creation of the session fails, the creation is the only call
/// that is ever made: no mount, no unmount, no destruction, whatever
/// happens afterwards. The error is that of the creation.
pub proof fn lemma_create_failure(target: Seq<u8>, created: Completion, events: Seq<Event>)
    requires
        created.value == 0,
    ensures
        ({
            let failed = Lifecycle::initial(target).step(created);
            let end = failed.run(events);
            &&& failed.pending() is None
            &&& end == failed
            &&& end.calls == seq![CallView::CreateSession]
            &&& end.duplicate is None
            &&& end.outcome() == Some(Err::<Handle, OsError>(created.error()))
        }),
{
    let failed = Lifecycle::initial(target).step(created);
    assert(failed.calls =~= seq![CallView::CreateSession]);
    lemma_apply_preserves_inv(Lifecycle::initial(target), Event::Completed(created));
    lemma_teardown_is_final(failed, events);
}

/// Where the mount fails after the session was created, the one call that
/// follows is the destruction of the session: there is no unmount and no
/// second destruction, whatever happens afterwards. No handle is ever
/// produced, and the error, that of the mount, is reported only once the
/// session is destroyed.
pub proof fn lemma_mount_failure(
    target: Seq<u8>,
    created: Completion,
    mounted: Completion,
    destroyed: Completion,
    events: Seq<Event>,
)
    requires
        created.value != 0,
        mounted.value != 0,
    ensures
        ({
            let failed = Lifecycle::initial(target).step(created).step(mounted);
            let end = failed.run(events);
            let attempted = seq![
                CallView::CreateSession,
                CallView::MountSession { session: created.value, target },
            ];
            let destroy = CallView::DestroySession { session: created.value };
            &&& failed.calls == attempted
            &&& failed.pending() == Some(destroy)
            &&& failed.outcome() is None
            &&& failed.step(destroyed).outcome() == Some(
                Err::<Handle, OsError>(mounted.error()),
            )
            &&& end.duplicate is None
            &&& end.outcome() matches Some(result) ==> result == Err::<Handle, OsError>(
                mounted.error(),
            )
            &&& if end.phase == Phase::Destroyed {
                end.calls == attempted.push(destroy)
            } else {
                end.calls == attempted && end.outcome() is None
            }
        }),
{
    let a = Lifecycle::initial(target).step(created);
    let failed = a.step(mounted);
    let end = failed.run(events);
    let attempted = seq![CallView::CreateSession, CallView::MountSession { session: created.value, target }];
    let destroy = CallView::DestroySession { session: created.value };
    lemma_apply_preserves_inv(Lifecycle::initial(target), Event::Completed(created));
    lemma_apply_preserves_inv(a, Event::Completed(mounted));
    lemma_teardown_is_final(failed, events);
    assert(a.calls =~= seq![CallView::CreateSession]);
    assert(failed.calls =~= attempted);
    assert(end.construction() =~= attempted);
    assert(attempted + Seq::<CallView>::empty() =~= attempted);
    assert(attempted + seq![destroy] =~= attempted.push(destroy));
}

/// Where the extraction of the descriptor fails after a successful mount,
/// the calls that follow are the unmount and then the destruction, each
/// once, whatever happens afterwards. No handle is ever produced, and the
/// error, that of the extraction, is reported only once both are done.
pub proof fn lemma_extract_failure(
    target: Seq<u8>,
    created: Completion,
    mounted: Completion,
    extracted: Completion,
    unmounted: Completion,
    destroyed: Completion,
    events: Seq<Event>,
)
    requires
        created.value != 0,
        mounted.value == 0,
        extracted.value < 0,
    ensures
        ({
            let failed = Lifecycle::initial(target).step(created).step(mounted).step(extracted);
            let end = failed.run(events);
            let attempted = seq![
                CallView::CreateSession,
                CallView::MountSession { session: created.value, target },
                CallView::ExtractHandle { session: created.value },
            ];
            let unmount = CallView::UnmountSession { session: created.value };
            let destroy = CallView::DestroySession { session: created.value };
            &&& failed.calls == attempted
            &&& failed.pending() == Some(unmount)
            &&& failed.outcome() is None
            &&& failed.step(unmounted).pending() == Some(destroy)
            &&& failed.step(unmounted).outcome() is None
            &&& failed.step(unmounted).step(destroyed).outcome() == Some(
                Err::<Handle, OsError>(extracted.error()),
            )
            &&& end.duplicate is None
            &&& end.outcome() matches Some(result) ==> result == Err::<Handle, OsError>(
                extracted.error(),
            )
            &&& if end.phase == Phase::Destroyed {
                end.calls == attempted.push(unmount).push(destroy)
            } else if end.mounted {
                end.calls == attempted && end.outcome() is None
            } else {
                end.calls == attempted.push(unmount) && end.outcome() is None
            }
        }),
{
    let a = Lifecycle::initial(target).step(created);
    let b = a.step(mounted);
    let failed = b.step(extracted);
    let end = failed.run(events);
    let attempted = seq![
        CallView::CreateSession,
        CallView::MountSession { session: created.value, target },
        CallView::ExtractHandle { session: created.value },
    ];
    let unmount = CallView::UnmountSession { session: created.value };
    let destroy = CallView::DestroySession { session: created.value };
    lemma_apply_preserves_inv(Lifecycle::initial(target), Event::Completed(created));
    lemma_apply_preserves_inv(a, Event::Completed(mounted));
    lemma_apply_preserves_inv(b, Event::Completed(extracted));
    lemma_teardown_is_final(failed, events);
    assert(a.calls =~= seq![CallView::CreateSession]);
    assert(b.calls =~= seq![CallView::CreateSession, CallView::MountSession { session: created.value, target }]);
    assert(failed.calls =~= attempted);
    assert(end.construction() =~= attempted);
    assert(attempted + Seq::<CallView>::empty() =~= attempted);
    assert(attempted + seq![unmount] =~= attempted.push(unmount));
    assert(attempted + (seq![unmount] + seq![destroy]) =~= attempted.push(unmount).push(destroy));
}

/// Where the duplication of the descriptor fails, the session is unmounted
/// and then destroyed, each once, as after a failed extraction. No handle
/// is ever produced, and the error is that of the duplication.
pub proof fn lemma_duplicate_failure(
    target: Seq<u8>,
    created: Completion,
    mounted: Completion,
    extracted: Completion,
    duplicated: Completion,
    unmounted: Completion,
    destroyed: Completion,
    events: Seq<Event>,
)
    requires
        created.value != 0,
        mounted.value == 0,
        extracted.value >= 0,
        duplicated.value < 0,
    ensures
        ({
            let failed = Lifecycle::initial(target).step(created).step(mounted).step(extracted).step(
                duplicated,
            );
            let end = failed.run(events);
            let attempted = seq![
                CallView::CreateSession,
                CallView::MountSession { session: created.value, target },
                CallView::ExtractHandle { session: created.value },
                CallView::DuplicateHandle { descriptor: extracted.value },
            ];
            let unmount = CallView::UnmountSession { session: created.value };
            let destroy = CallView::DestroySession { session: created.value };
            &&& failed.calls == attempted
            &&& failed.pending() == Some(unmount)
            &&& failed.step(unmounted).pending() == Some(destroy)
            &&& failed.step(unmounted).step(destroyed).outcome() == Some(
                Err::<Handle, OsError>(duplicated.error()),
            )
            &&& end.duplicate is None
            &&& end.outcome() matches Some(result) ==> result == Err::<Handle, OsError>(
                duplicated.error(),
            )
            &&& if end.phase == Phase::Destroyed {
                end.calls == attempted.push(unmount).push(destroy)
            } else if end.mounted {
                end.calls == attempted && end.outcome() is None
            } else {
                end.calls == attempted.push(unmount) && end.outcome() is None
            }
        }),
{
    let a = Lifecycle::initial(target).step(created);
    let b = a.step(mounted);
    let c = b.step(extracted);
    let failed = c.step(duplicated);
    let end = failed.run(events);
    let attempted = seq![
        CallView::CreateSession,
        CallView::MountSession { session: created.value, target },
        CallView::ExtractHandle { session: created.value },
        CallView::DuplicateHandle { descriptor: extracted.value },
    ];
    let unmount = CallView::UnmountSession { session: created.value };
    let destroy = CallView::DestroySession { session: created.value };
    lemma_apply_preserves_inv(Lifecycle::initial(target), Event::Completed(created));
    lemma_apply_preserves_inv(a, Event::Completed(mounted));
    lemma_apply_preserves_inv(b, Event::Completed(extracted));
    lemma_apply_preserves_inv(c, Event::Completed(duplicated));
    lemma_teardown_is_final(failed, events);
    assert(a.calls =~= seq![CallView::CreateSession]);
    assert(b.calls =~= seq![CallView::CreateSession, CallView::MountSession { session: created.value, target }]);
    assert(c.calls =~= seq![
        CallView::CreateSession,
        CallView::MountSession { session: created.value, target },
        CallView::ExtractHandle { session: created.value },
    ]);
    assert(failed.calls =~= attempted);
    assert(end.construction() =~= attempted);
    assert(attempted + Seq::<CallView>::empty() =~= attempted);
    assert(attempted + seq![unmount] =~= attempted.push(unmount));
    assert(attempted + (seq![unmount] + seq![destroy]) =~= attempted.push(unmount).push(destroy));
}

impl Mount {
    #[verifier::type_invariant]
    spec fn well_formed(self) -> bool {
        self@.inv()
    }

    /// A mount for the path `target`, given as its bytes, of which nothing
    /// exists yet. The first call is due at once.
    pub fn new(target: Vec<u8>) -> (mount: Mount)
        ensures
            mount@ == Lifecycle::initial(target@),
            mount@.inv(),
    {
        let mount = Mount {
            target,
            state: Progress {
                phase: Phase::Unmounted,
                reached: Phase::Unmounted,
                session: 0,
                mounted: false,
                extracted: None,
                duplicate: None,
                failure: None,
            },
        };
        proof {
            assert(mount@.calls =~= Lifecycle::initial(target@).calls);
        }
        mount
    }

    /// The path at which the session is mounted: the one that the mount
    /// was made for.
    pub fn target(&self) -> (path: &[u8])
        ensures
            path@ == self@.target,
    {
        self.target.as_slice()
    }

    /// Where the session stands.
    pub fn phase(&self) -> (phase: Phase)
        ensures
            phase == self@.phase,
    {
        self.state.phase
    }

    /// The call to make now, with what is to be handed to it, or `None`
    /// where there is nothing to do: while the mount is in use, and once
    /// everything is gone.
    pub fn pending(&self) -> (call: Option<Call>)
        ensures
            call matches Some(due) ==> self@.pending() == Some(due@),
            call is None ==> self@.pending() is None,
            self@.inv(),
    {
        proof {
            use_type_invariant(self);
        }
        let state = self.state;
        match state.phase {
            Phase::Unmounted => Some(Call::CreateSession),
            Phase::SessionCreated => Some(
                Call::MountSession { session: state.session, target: self.target.clone() },
            ),
            Phase::MountedConnected => match state.extracted {
                None => Some(Call::ExtractHandle { session: state.session }),
                Some(descriptor) => Some(Call::DuplicateHandle { descriptor }),
            },
            Phase::Active => None,
            Phase::Unmounting => if state.mounted {
                Some(Call::UnmountSession { session: state.session })
            } else {
                Some(Call::DestroySession { session: state.session })
            },
            Phase::Destroyed => None,
        }
    }

    /// Takes what the call that was due handed back, and moves on: to the
    /// next step where the call succeeded, to the undoing of the steps so
    /// far where it failed. Where no call was due, nothing changes.
    pub fn advance(&mut self, done: Completion)
        ensures
            final(self)@ == old(self)@.step(done),
            final(self)@.inv(),
    {
        proof {
            use_type_invariant(&*self);
            lemma_apply_preserves_inv(self@, Event::Completed(done));
        }
        let mut state = self.state;
        match state.phase {
            Phase::Unmounted => {
                if done.value == 0 {
                    state.phase = Phase::Destroyed;
                    state.failure = Some(done.into_error());
                } else {
                    state.phase = Phase::SessionCreated;
                    state.reached = Phase::SessionCreated;
                    state.session = done.value;
                }
            },
            Phase::SessionCreated => {
                if done.value != 0 {
                    state.phase = Phase::Unmounting;
                    state.failure = Some(done.into_error());
                } else {
                    state.phase = Phase::MountedConnected;
                    state.reached = Phase::MountedConnected;
                    state.mounted = true;
                }
            },
            Phase::MountedConnected => {
                if done.value < 0 {
                    state.phase = Phase::Unmounting;
                    state.failure = Some(done.into_error());
                } else if state.extracted.is_none() {
                    state.extracted = Some(done.value);
                } else {
                    state.phase = Phase::Active;
                    state.reached = Phase::Active;
                    state.duplicate = Some(done.value);
                }
            },
            Phase::Active => {},
            Phase::Unmounting => {
                if state.mounted {
                    state.mounted = false;
                } else {
                    state.phase = Phase::Destroyed;
                }
            },
            Phase::Destroyed => {},
        }
        proof {
            let next = old(self)@.step(done);
            let held = Lifecycle {
                target: self.target@,
                phase: state.phase,
                reached: state.reached,
                session: state.session,
                mounted: state.mounted,
                extracted: state.extracted,
                duplicate: state.duplicate,
                failure: state.failure,
                calls: Seq::empty(),
            };
            assert(next.inv());
            assert(next.calls =~= held.construction() + held.teardown());
        }
        self.state = state;
    }

    /// Begins the teardown of whatever exists: the owner has let go. To be
    /// called between two steps, never between a call and its return.
    /// Letting go a second time changes nothing.
    pub fn release(&mut self)
        ensures
            final(self)@ == old(self)@.release(),
            final(self)@.inv(),
    {
        proof {
            use_type_invariant(&*self);
            lemma_apply_preserves_inv(self@, Event::Released);
        }
        let mut state = self.state;
        state.phase = match state.phase {
            Phase::Unmounted => Phase::Destroyed,
            Phase::SessionCreated | Phase::MountedConnected | Phase::Active => Phase::Unmounting,
            Phase::Unmounting => Phase::Unmounting,
            Phase::Destroyed => Phase::Destroyed,
        };
        proof {
            let next = old(self)@.release();
            let held = Lifecycle {
                target: self.target@,
                phase: state.phase,
                reached: state.reached,
                session: state.session,
                mounted: state.mounted,
                extracted: state.extracted,
                duplicate: state.duplicate,
                failure: state.failure,
                calls: Seq::empty(),
            };
            assert(next.inv());
            assert(next.calls =~= held.construction() + held.teardown());
        }
        self.state = state;
    }

    /// What construction has come to: the handle while the mount is in
    /// use, the error once a failed construction has been undone to the
    /// end, `None` otherwise. No error is reported while anything that
    /// construction made still exists.
    pub fn outcome(&self) -> (outcome: Option<Result<Handle, OsError>>)
        ensures
            outcome == self@.outcome(),
            self@.inv(),
    {
        proof {
            use_type_invariant(self);
        }
        match self.state.phase {
            Phase::Active => match self.state.duplicate {
                Some(raw) => Some(Ok(Handle { raw })),
                None => None,
            },
            Phase::Destroyed => match self.state.failure {
                Some(error) => Some(Err(error)),
                None => None,
            },
            _ => None,
        }
    }
}

} // verus!
