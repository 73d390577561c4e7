use vstd::prelude::*;

use crate::apps::Application;
use crate::apps::TappableApplication;
use crate::capture::AudioCaptureSession;
use crate::capture::CaptureTarget;
use crate::capture::excluded_object_ids;
use crate::capture::object_ids_of;
use crate::errors::DiscoveryError;
use crate::ids::fresh_subscription_id;
use crate::process_registry::ProcessRegistry;
use crate::process_registry::outcome_model;
use crate::subscriptions::ListRegistry;
use crate::subscriptions::StateRegistry;
use crate::subscriptions::Subscriber;
use crate::subscriptions::has_id;
use crate::subscriptions::remove_id;
use crate::subscriptions::tokens_of;

verus! {

/// Host-resolved metadata for one discovered process handle: the process
/// id behind the audio object, its display name, and the bundle identifier
/// if one could be resolved (`None` when it could not).
#[derive(Debug)]
#[verifier::ext_equal]
pub struct ApplicationInfo {
    pub object_id: u32,
    pub process_id: i32,
    pub name: String,
    pub bundle_identifier: Option<String>,
}

/// Whether the host granted the recording permissions the capture plane
/// needs.
#[derive(Debug, Clone, Copy, PartialEq, Eq, Structural)]
pub struct RecordingPermissions {
    pub audio: bool,
    pub screen: bool,
}

impl Default for RecordingPermissions {
    /// Nothing is granted until the host says so.
    fn default() -> (r: Self)
        ensures
            !r.audio,
            !r.screen,
    {
        RecordingPermissions { audio: false, screen: false }
    }
}

/// Handle returned from subscribing to the list-changed event; carries the
/// subscription id that unsubscription forgets.
#[derive(Debug, Clone, Copy, PartialEq, Eq, Structural)]
pub struct ApplicationListChangedSubscriber {
    pub id: u128,
}

/// Handle returned from subscribing to one process's state-changed event.
#[derive(Debug, Clone, Copy, PartialEq, Eq, Structural)]
pub struct ApplicationStateChangedSubscriber {
    pub id: u128,
    pub object_id: u32,
}

/// The first metadata record for the handle, if the host resolved one.
pub open spec fn find_meta(meta: Seq<ApplicationInfo>, h: u32) -> Option<ApplicationInfo>
    decreases meta.len(),
{
    if meta.len() == 0 {
        None
    } else if meta[0].object_id == h {
        Some(meta[0])
    } else {
        find_meta(meta.drop_first(), h)
    }
}

/// The tappable applications derived from a snapshot: one per snapshot
/// handle whose metadata was resolved with a bundle identifier, in
/// snapshot order.
pub open spec fn selected_apps(snapshot: Seq<u32>, meta: Seq<ApplicationInfo>) -> Seq<
    TappableApplication,
>
    decreases snapshot.len(),
{
    if snapshot.len() == 0 {
        Seq::empty()
    } else {
        let rest = selected_apps(snapshot.drop_last(), meta);
        match find_meta(meta, snapshot.last()) {
            Some(info) => if info.bundle_identifier is Some {
                rest.push(
                    TappableApplication {
                        app: Application { process_id: info.process_id, name: info.name },
                        object_id: info.object_id,
                    },
                )
            } else {
                rest
            },
            None => rest,
        }
    }
}

/// The first application carrying the process id, if any.
pub open spec fn first_with_pid(apps: Seq<TappableApplication>, pid: i32) -> Option<
    TappableApplication,
>
    decreases apps.len(),
{
    if apps.len() == 0 {
        None
    } else if apps[0].app.process_id == pid {
        Some(apps[0])
    } else {
        first_with_pid(apps.drop_first(), pid)
    }
}

proof fn lemma_find_meta_at(meta: Seq<ApplicationInfo>, h: u32, k: int)
    requires
        0 <= k < meta.len(),
        meta[k].object_id == h,
        forall|j: int| 0 <= j < k ==> meta[j].object_id != h,
    ensures
        find_meta(meta, h) == Some(meta[k]),
    decreases k,
{
    if k == 0 {
    } else {
        assert(meta[0].object_id != h);
        let d = meta.drop_first();
        assert(d[k - 1] == meta[k]);
        assert forall|j: int| 0 <= j < k - 1 implies d[j].object_id != h by {
            assert(meta[j + 1].object_id != h);
        }
        lemma_find_meta_at(d, h, k - 1);
    }
}

proof fn lemma_find_meta_none(meta: Seq<ApplicationInfo>, h: u32)
    requires
        forall|j: int| 0 <= j < meta.len() ==> meta[j].object_id != h,
    ensures
        find_meta(meta, h) is None,
    decreases meta.len(),
{
    if meta.len() == 0 {
    } else {
        let d = meta.drop_first();
        assert forall|j: int| 0 <= j < d.len() implies d[j].object_id != h by {
            assert(meta[j + 1].object_id != h);
        }
        lemma_find_meta_none(d, h);
    }
}

proof fn lemma_first_with_pid_at(apps: Seq<TappableApplication>, pid: i32, k: int)
    requires
        0 <= k < apps.len(),
        apps[k].app.process_id == pid,
        forall|j: int| 0 <= j < k ==> apps[j].app.process_id != pid,
    ensures
        first_with_pid(apps, pid) == Some(apps[k]),
    decreases k,
{
    if k == 0 {
    } else {
        assert(apps[0].app.process_id != pid);
        let d = apps.drop_first();
        assert(d[k - 1] == apps[k]);
        assert forall|j: int| 0 <= j < k - 1 implies d[j].app.process_id != pid by {
            assert(apps[j + 1].app.process_id != pid);
        }
        lemma_first_with_pid_at(d, pid, k - 1);
    }
}

proof fn lemma_first_with_pid_none(apps: Seq<TappableApplication>, pid: i32)
    requires
        forall|j: int| 0 <= j < apps.len() ==> apps[j].app.process_id != pid,
    ensures
        first_with_pid(apps, pid) is None,
    decreases apps.len(),
{
    if apps.len() == 0 {
    } else {
        let d = apps.drop_first();
        assert forall|j: int| 0 <= j < d.len() implies d[j].app.process_id != pid by {
            assert(apps[j + 1].app.process_id != pid);
        }
        lemma_first_with_pid_none(d, pid);
    }
}

/// Scans the metadata for the first record of the handle.
fn find_info(meta: &Vec<ApplicationInfo>, h: u32) -> (r: Option<usize>)
    ensures
        match r {
            Some(k) => k < meta@.len() && find_meta(meta@, h) == Some(meta@[k as int]),
            None => find_meta(meta@, h) is None,
        },
{
    let mut i: usize = 0;
    while i < meta.len()
        invariant
            i <= meta@.len(),
            forall|j: int| 0 <= j < i ==> meta@[j].object_id != h,
        decreases meta@.len() - i,
    {
        if meta[i].object_id == h {
            proof {
                lemma_find_meta_at(meta@, h, i as int);
            }
            return Some(i);
        }
        i += 1;
    }
    proof {
        lemma_find_meta_none(meta@, h);
    }
    None
}

/// One record of the fan-out after a list-changed firing: the callback
/// token to invoke and the refresh outcome the call carries. A failed
/// refresh is data handed to the subscriber, not a broken channel: the
/// invocation itself never fails.
#[derive(Debug, Clone, Copy, PartialEq, Eq)]
pub struct ListNotification {
    pub token: u64,
    pub outcome: Result<(), DiscoveryError>,
}

/// What one list-changed fan-out call carries, given the refresh outcome.
pub open spec fn list_payload(q: Result<Seq<u32>, DiscoveryError>) -> Result<(), DiscoveryError> {
    match q {
        Ok(_) => Ok(()),
        Err(e) => Err(e),
    }
}

/// First step of a subscription whose operating-system listener may not be
/// installed yet.
#[derive(Debug, Clone, Copy, PartialEq, Eq, Structural)]
pub enum ListSubscribeStep {
    /// Nothing was registered: the host must install the listener, record
    /// it, and subscribe again.
    NeedsListener,
    Subscribed(ApplicationListChangedSubscriber),
}

/// First step of a keyed state-changed subscription.
#[derive(Debug, Clone, Copy, PartialEq, Eq, Structural)]
pub enum StateSubscribeStep {
    /// The handle has no listener yet: the host must install one scoped to
    /// it and commit the subscription with the resulting binding.
    NeedsListener,
    Subscribed(ApplicationStateChangedSubscriber),
}

/// The capture control plane: the cached process registry and the two
/// subscription registries, owned as explicit state (the host wraps one
/// value of this type in its reader/writer lock; reads take shared access,
/// subscribe/unsubscribe/refresh take exclusive access).
#[derive(Debug)]
pub struct ShareableContent {
    processes: ProcessRegistry,
    list: ListRegistry,
    state: StateRegistry,
}

impl ShareableContent {
    pub closed spec fn processes_reg(self) -> ProcessRegistry {
        self.processes
    }

    pub closed spec fn list_reg(self) -> ListRegistry {
        self.list
    }

    pub closed spec fn state_reg(self) -> StateRegistry {
        self.state
    }

    /// The stored discovery outcome.
    pub open spec fn processes_model(self) -> Result<Seq<u32>, DiscoveryError> {
        self.processes_reg().model()
    }

    /// The stored snapshot, or empty while the stored outcome is a failure.
    pub open spec fn snapshot_or_empty(self) -> Seq<u32> {
        match self.processes_model() {
            Ok(s) => s,
            Err(_) => Seq::empty(),
        }
    }

    pub open spec fn wf(self) -> bool {
        &&& self.list_reg().wf()
        &&& self.state_reg().wf()
    }

    /// Starts the control plane from the outcome of the host's initial
    /// discovery query, with no subscribers and no listeners installed.
    pub fn new(initial: Result<Vec<u32>, DiscoveryError>) -> (r: Self)
        ensures
            r.wf(),
            r.processes_model() == outcome_model(initial),
            !r.list_reg().installed(),
            r.list_reg().subs_seq() == Seq::<Subscriber>::empty(),
            r.state_reg().entries_seq().len() == 0,
    {
        ShareableContent {
            processes: ProcessRegistry::new(initial),
            list: ListRegistry::new(),
            state: StateRegistry::new(),
        }
    }

    /// The last stored discovery result, without triggering a new query.
    pub fn current_processes(&self) -> (r: &Result<Vec<u32>, DiscoveryError>)
        ensures
            outcome_model(*r) == self.processes_model(),
    {
        self.processes.current()
    }

    /// Registers a callback (by its host token) for the list-changed
    /// event. Until the process-wide listener is installed nothing is
    /// registered and `NeedsListener` is returned: the host installs the
    /// operating-system listener — surfacing a listener-install error to
    /// its caller if that fails — records it through
    /// [`ShareableContent::confirm_list_listener`], and subscribes again.
    pub fn on_application_list_changed(&mut self, token: u64) -> (r: ListSubscribeStep)
        requires
            old(self).wf(),
        ensures
            final (self).wf(),
            final (self).state_reg() == old(self).state_reg(),
            final (self).processes_model() == old(self).processes_model(),
            final (self).list_reg().installed() == old(self).list_reg().installed(),
            match r {
                ListSubscribeStep::NeedsListener => !old(self).list_reg().installed()
                    && final (self).list_reg().subs_seq() == old(self).list_reg().subs_seq(),
                ListSubscribeStep::Subscribed(sub) => old(self).list_reg().installed()
                    && final (self).list_reg().subs_seq() == remove_id(
                    old(self).list_reg().subs_seq(),
                    sub.id,
                ).push(Subscriber { id: sub.id, token }),
            },
    {
        if self.list.needs_listener() {
            ListSubscribeStep::NeedsListener
        } else {
            let id = fresh_subscription_id();
            self.list.subscribe(id, token);
            ListSubscribeStep::Subscribed(ApplicationListChangedSubscriber { id })
        }
    }

    /// Records that the host installed the process-wide list-changed
    /// listener. Installed once, it is never removed: unsubscription only
    /// forgets callbacks.
    pub fn confirm_list_listener(&mut self)
        requires
            old(self).wf(),
            !old(self).list_reg().installed(),
        ensures
            final (self).wf(),
            final (self).list_reg().installed(),
            final (self).list_reg().subs_seq() == old(self).list_reg().subs_seq(),
            final (self).state_reg() == old(self).state_reg(),
            final (self).processes_model() == old(self).processes_model(),
    {
        self.list.mark_listener_installed();
    }

    /// Registers a callback (by its host token) for one process's
    /// state-changed event. When the handle already has a listener the
    /// subscription commits at once; otherwise nothing changes and
    /// `NeedsListener` is returned: the host installs a listener scoped to
    /// the handle — surfacing a listener-install error to its caller if
    /// that fails — and commits through
    /// [`ShareableContent::confirm_state_listener`].
    pub fn on_app_state_changed(&mut self, app: &TappableApplication, token: u64) -> (r:
        StateSubscribeStep)
        requires
            old(self).wf(),
        ensures
            final (self).wf(),
            final (self).list_reg() == old(self).list_reg(),
            final (self).processes_model() == old(self).processes_model(),
            old(self).state_reg().unchanged_except(final (self).state_reg(), app.object_id),
            match r {
                StateSubscribeStep::NeedsListener => !old(self).state_reg().has_entry(
                    app.object_id,
                ) && old(self).state_reg().agrees_at(final (self).state_reg(), app.object_id),
                StateSubscribeStep::Subscribed(sub) => {
                    &&& sub.object_id == app.object_id
                    &&& old(self).state_reg().has_entry(app.object_id)
                    &&& final (self).state_reg().binding_of(app.object_id) == old(
                        self,
                    ).state_reg().binding_of(app.object_id)
                    &&& final (self).state_reg().subs_of(app.object_id) == remove_id(
                        old(self).state_reg().subs_of(app.object_id),
                        sub.id,
                    ).push(Subscriber { id: sub.id, token })
                },
            },
    {
        let id = fresh_subscription_id();
        let added = self.state.subscribe(app.object_id, id, token);
        if added {
            StateSubscribeStep::Subscribed(
                ApplicationStateChangedSubscriber { id, object_id: app.object_id },
            )
        } else {
            StateSubscribeStep::NeedsListener
        }
    }

    /// Commits the first subscription for a handle, recording the listener
    /// binding the host just installed for it. From here the binding lives
    /// exactly as long as the handle has subscribers.
    pub fn confirm_state_listener(&mut self, object_id: u32, binding: u64, token: u64) -> (sub:
        ApplicationStateChangedSubscriber)
        requires
            old(self).wf(),
            !old(self).state_reg().has_entry(object_id),
        ensures
            final (self).wf(),
            final (self).list_reg() == old(self).list_reg(),
            final (self).processes_model() == old(self).processes_model(),
            old(self).state_reg().unchanged_except(final (self).state_reg(), object_id),
            sub.object_id == object_id,
            final (self).state_reg().has_entry(object_id),
            final (self).state_reg().binding_of(object_id) == Some(binding),
            final (self).state_reg().subs_of(object_id) == seq![
                Subscriber { id: sub.id, token },
            ],
    {
        let id = fresh_subscription_id();
        self.state.install(object_id, binding, id, token);
        ApplicationStateChangedSubscriber { id, object_id }
    }

    /// Services one firing of the list-changed event: the host's fresh
    /// discovery outcome replaces the stored snapshot atomically, then the
    /// fan-out invokes every registered subscriber exactly once, each call
    /// carrying the outcome (success, or the wrapped discovery error).
    pub fn handle_process_list_event(&mut self, query: Result<Vec<u32>, DiscoveryError>) -> (r:
        Vec<ListNotification>)
        requires
            old(self).wf(),
        ensures
            final (self).wf(),
            final (self).list_reg() == old(self).list_reg(),
            final (self).state_reg() == old(self).state_reg(),
            final (self).processes_model() == outcome_model(query),
            r@.len() == old(self).list_reg().subscriber_count(),
            forall|k: int|
                0 <= k < r@.len() ==> (#[trigger] r@[k]).token == tokens_of(
                    old(self).list_reg().subs_seq(),
                )[k] && r@[k].outcome == list_payload(outcome_model(query)),
    {
        let payload: Result<(), DiscoveryError> = match &query {
            Ok(_) => Ok(()),
            Err(e) => Err(*e),
        };
        self.processes.record_refresh(query);
        let tokens = self.list.notification_tokens();
        let mut out: Vec<ListNotification> = Vec::new();
        let mut i: usize = 0;
        while i < tokens.len()
            invariant
                i <= tokens@.len(),
                out@.len() == i,
                forall|k: int|
                    0 <= k < i ==> (#[trigger] out@[k]).token == tokens@[k] && out@[k].outcome
                        == payload,
            decreases tokens@.len() - i,
        {
            out.push(ListNotification { token: tokens[i], outcome: payload });
            i += 1;
        }
        out
    }

    /// The fan-out for one firing of a process's state-changed event: the
    /// callback tokens of its current subscribers, each exactly once, in
    /// registry order — empty for a handle nobody subscribed to.
    pub fn handle_state_event(&self, object_id: u32) -> (r: Vec<u64>)
        requires
            self.wf(),
        ensures
            r@ == tokens_of(self.state_reg().subs_of(object_id)),
    {
        self.state.notification_tokens(object_id)
    }

    /// The applications of the current snapshot that the host could
    /// resolve to a bundle identifier, as tappable applications in
    /// snapshot order. A stored discovery failure reads as no
    /// applications; it is never an error here.
    pub fn applications(&self, meta: &Vec<ApplicationInfo>) -> (r: Vec<TappableApplication>)
        ensures
            r@ == selected_apps(self.snapshot_or_empty(), meta@),
    {
        let mut out: Vec<TappableApplication> = Vec::new();
        match self.processes.current() {
            Err(_) => {
                proof {
                    assert(out@ =~= selected_apps(self.snapshot_or_empty(), meta@));
                }
                out
            },
            Ok(snapshot) => {
                proof {
                    assert(self.snapshot_or_empty() == snapshot@);
                    assert(snapshot@.take(0) =~= Seq::<u32>::empty());
                    assert(out@ =~= selected_apps(snapshot@.take(0), meta@));
                }
                let mut i: usize = 0;
                while i < snapshot.len()
                    invariant
                        i <= snapshot@.len(),
                        out@ == selected_apps(snapshot@.take(i as int), meta@),
                    decreases snapshot@.len() - i,
                {
                    proof {
                        assert(snapshot@.take(i as int + 1).drop_last() =~= snapshot@.take(
                            i as int,
                        ));
                        assert(snapshot@.take(i as int + 1).last() == snapshot@[i as int]);
                    }
                    let h = snapshot[i];
                    match find_info(meta, h) {
                        Some(k) => {
                            if meta[k].bundle_identifier.is_some() {
                                let app = TappableApplication::new(
                                    meta[k].object_id,
                                    meta[k].process_id,
                                    meta[k].name.clone(),
                                );
                                proof {
                                    assert(app =~= TappableApplication {
                                        app: Application {
                                            process_id: meta@[k as int].process_id,
                                            name: meta@[k as int].name,
                                        },
                                        object_id: meta@[k as int].object_id,
                                    });
                                }
                                out.push(app);
                            }
                        },
                        None => {},
                    }
                    i += 1;
                }
                proof {
                    assert(snapshot@.take(snapshot@.len() as int) =~= snapshot@);
                }
                out
            },
        }
    }

    /// Looks one process up by pid through the host's metadata query: an
    /// unknown pid (the host's lookup missed, passed as `None`) yields
    /// absence — never an error.
    pub fn application_with_process_id(&self, process_id: u32, looked_up_name: Option<String>)
        -> (r: Option<Application>)
        ensures
            looked_up_name is None ==> r is None,
            looked_up_name is Some ==> r == Some(
                Application {
                    process_id: process_id as i32,
                    name: looked_up_name->Some_0,
                },
            ),
    {
        match looked_up_name {
            None => None,
            Some(name) => {
                let app = Application::new(process_id as i32, name);
                proof {
                    assert(app =~= Application {
                        process_id: process_id as i32,
                        name: looked_up_name->Some_0,
                    });
                }
                Some(app)
            },
        }
    }

    /// Finds the tappable application with the pid among the current
    /// snapshot's applications; a pid not in the snapshot falls back to a
    /// bare application around the host's metadata lookup, with object id
    /// zero (which cannot tap audio).
    pub fn tappable_application_with_process_id(
        &self,
        process_id: u32,
        meta: &Vec<ApplicationInfo>,
        fallback_name: String,
    ) -> (r: Option<TappableApplication>)
        ensures
            match first_with_pid(
                selected_apps(self.snapshot_or_empty(), meta@),
                process_id as i32,
            ) {
                Some(a) => r == Some(a),
                None => r is Some && r->Some_0.object_id == 0 && r->Some_0.app.process_id
                    == process_id as i32 && r->Some_0.app.name == fallback_name,
            },
    {
        let pid = process_id as i32;
        let mut apps = self.applications(meta);
        let ghost sel = selected_apps(self.snapshot_or_empty(), meta@);
        let mut i: usize = 0;
        while i < apps.len()
            invariant
                i <= apps@.len(),
                apps@ == sel,
                sel == selected_apps(self.snapshot_or_empty(), meta@),
                pid == process_id as i32,
                forall|j: int| 0 <= j < i ==> apps@[j].app.process_id != pid,
            decreases apps@.len() - i,
        {
            if apps[i].process_id() == pid {
                proof {
                    lemma_first_with_pid_at(sel, pid, i as int);
                }
                let found = apps.remove(i);
                return Some(found);
            }
            i += 1;
        }
        proof {
            lemma_first_with_pid_none(sel, pid);
        }
        Some(TappableApplication::new(0, pid, fallback_name))
    }

    /// Starts a capture of the system-wide mix minus the excluded
    /// applications. The host has already built the aggregate device for
    /// exactly this exclusion set and installed the default-output
    /// watcher; the session owns both.
    pub fn tap_global_audio(
        excluded_processes: Option<&Vec<TappableApplication>>,
        device_id: u64,
        watcher_id: u64,
    ) -> (s: AudioCaptureSession)
        ensures
            s.wf(),
            s.is_running_spec(),
            s.device_spec() == Some(device_id),
            s.watcher_spec() == Some(watcher_id),
            s.target_spec() is GlobalExcluding,
            s.target_spec()->GlobalExcluding_0@ == match excluded_processes {
                Some(v) => object_ids_of(v@),
                None => Seq::<u32>::empty(),
            },
    {
        let ids = excluded_object_ids(excluded_processes);
        AudioCaptureSession::new(CaptureTarget::GlobalExcluding(ids), device_id, watcher_id)
    }

    pub fn is_list_listener_installed(&self) -> (r: bool)
        ensures
            r == self.list_reg().installed(),
    {
        self.list.is_listener_installed()
    }

    pub fn list_subscriber_count(&self) -> (r: usize)
        ensures
            r == self.list_reg().subscriber_count(),
    {
        self.list.subscriber_total()
    }

    pub fn state_has_listener(&self, object_id: u32) -> (r: bool)
        requires
            self.wf(),
        ensures
            r == self.state_reg().has_entry(object_id),
    {
        self.state.has_listener(object_id)
    }

    pub fn state_subscriber_count(&self, object_id: u32) -> (r: usize)
        requires
            self.wf(),
        ensures
            r == self.state_reg().subscriber_count(object_id),
    {
        self.state.subscriber_total(object_id)
    }
}

impl ApplicationListChangedSubscriber {
    /// Forgets this subscription's callback. Idempotent: a second
    /// unsubscribe finds the id gone and changes nothing. By design the
    /// process-wide listener itself is never removed, so teardown has
    /// nothing that could fail and nothing is returned.
    pub fn unsubscribe(&self, content: &mut ShareableContent)
        requires
            old(content).wf(),
        ensures
            final (content).wf(),
            final (content).state_reg() == old(content).state_reg(),
            final (content).processes_model() == old(content).processes_model(),
            final (content).list_reg().installed() == old(content).list_reg().installed(),
            final (content).list_reg().subs_seq() == remove_id(
                old(content).list_reg().subs_seq(),
                self.id,
            ),
            !has_id(old(content).list_reg().subs_seq(), self.id)
                ==> final (content).list_reg().subs_seq() == old(content).list_reg().subs_seq(),
    {
        content.list.unsubscribe(self.id);
    }
}

impl ApplicationStateChangedSubscriber {
    /// Removes this subscription from its handle's callback set. When it
    /// was the last one, the handle's entry is removed first and the
    /// listener binding is returned for the host to tear down afterwards —
    /// in that order, so a concurrently serviced firing observes the
    /// callback set or no entry, never a freed listener. Idempotent: a
    /// second unsubscribe finds the id gone, changes nothing and returns
    /// nothing; teardown failures are the host's to absorb, never raised.
    pub fn unsubscribe(&self, content: &mut ShareableContent) -> (torn_down: Option<u64>)
        requires
            old(content).wf(),
        ensures
            final (content).wf(),
            final (content).list_reg() == old(content).list_reg(),
            final (content).processes_model() == old(content).processes_model(),
            old(content).state_reg().unchanged_except(
                final (content).state_reg(),
                self.object_id,
            ),
            !old(content).state_reg().has_entry(self.object_id) ==> old(
                content,
            ).state_reg().agrees_at(final (content).state_reg(), self.object_id) && torn_down
                is None,
            old(content).state_reg().has_entry(self.object_id) ==> {
                let remaining = remove_id(
                    old(content).state_reg().subs_of(self.object_id),
                    self.id,
                );
                if remaining.len() == 0 {
                    &&& !final (content).state_reg().has_entry(self.object_id)
                    &&& torn_down == old(content).state_reg().binding_of(self.object_id)
                } else {
                    &&& final (content).state_reg().has_entry(self.object_id)
                    &&& final (content).state_reg().subs_of(self.object_id) == remaining
                    &&& final (content).state_reg().binding_of(self.object_id) == old(
                        content,
                    ).state_reg().binding_of(self.object_id)
                    &&& torn_down is None
                }
            },
            !has_id(old(content).state_reg().subs_of(self.object_id), self.id) ==> old(
                content,
            ).state_reg().agrees_at(final (content).state_reg(), self.object_id) && torn_down
                is None,
    {
        content.state.unsubscribe(self.object_id, self.id)
    }
}

} // verus!
