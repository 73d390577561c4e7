use vstd::prelude::*;

use crate::apps::TappableApplication;

verus! {

/// What one capture session taps: a single process, or the system-wide
/// mix minus an excluded set of process handles.
#[derive(Debug, PartialEq, Eq)]
pub enum CaptureTarget {
    Process(u32),
    GlobalExcluding(Vec<u32>),
}

/// The native resources a running session owns, handed back exactly once
/// by [`AudioCaptureSession::stop`] for the host to release.
#[derive(Debug, Clone, Copy, PartialEq, Eq, Structural)]
pub struct SessionTeardown {
    pub device_id: u64,
    pub watcher_id: u64,
}

/// A live capture session: it owns the virtual aggregate device built for
/// its target and the default-output-device watcher that rebinds the
/// device when the host's default output changes mid-session. Stopping is
/// the only teardown path and is idempotent; the owned resources are
/// surrendered exactly once.
#[derive(Debug)]
pub struct AudioCaptureSession {
    target: CaptureTarget,
    device_id: Option<u64>,
    watcher_id: Option<u64>,
    running: bool,
}

impl AudioCaptureSession {
    pub closed spec fn target_spec(self) -> CaptureTarget {
        self.target
    }

    pub closed spec fn is_running_spec(self) -> bool {
        self.running
    }

    /// The aggregate device the session currently owns, if running.
    pub closed spec fn device_spec(self) -> Option<u64> {
        self.device_id
    }

    /// The default-output-device watcher the session currently owns.
    pub closed spec fn watcher_spec(self) -> Option<u64> {
        self.watcher_id
    }

    /// A session owns its device and its watcher exactly while it runs.
    pub open spec fn wf(self) -> bool {
        &&& self.is_running_spec() == (self.device_spec() is Some)
        &&& self.is_running_spec() == (self.watcher_spec() is Some)
    }

    /// Starts the session over a freshly built aggregate device and a
    /// freshly installed default-output watcher, both owned from here on.
    pub fn new(target: CaptureTarget, device_id: u64, watcher_id: u64) -> (s: Self)
        ensures
            s.wf(),
            s.is_running_spec(),
            s.target_spec() == target,
            s.device_spec() == Some(device_id),
            s.watcher_spec() == Some(watcher_id),
    {
        AudioCaptureSession {
            target,
            device_id: Some(device_id),
            watcher_id: Some(watcher_id),
            running: true,
        }
    }

    pub fn is_running(&self) -> (r: bool)
        ensures
            r == self.is_running_spec(),
    {
        self.running
    }

    /// Stops the session: the owned watcher and device are handed back for
    /// the host to uninstall and release — exactly once. A second stop
    /// finds nothing to tear down, changes nothing, and never raises.
    pub fn stop(&mut self) -> (torn_down: Option<SessionTeardown>)
        requires
            old(self).wf(),
        ensures
            final (self).wf(),
            !final (self).is_running_spec(),
            final (self).device_spec() is None,
            final (self).watcher_spec() is None,
            final (self).target_spec() == old(self).target_spec(),
            old(self).is_running_spec() ==> torn_down == Some(
                SessionTeardown {
                    device_id: old(self).device_spec()->Some_0,
                    watcher_id: old(self).watcher_spec()->Some_0,
                },
            ),
            !old(self).is_running_spec() ==> torn_down is None,
    {
        if self.running {
            self.running = false;
            let device_id = self.device_id.unwrap();
            self.device_id = None;
            let watcher_id = self.watcher_id.unwrap();
            self.watcher_id = None;
            Some(SessionTeardown { device_id, watcher_id })
        } else {
            None
        }
    }

    /// Adapts a running session to a change of the host's default output
    /// device: the session swaps in the aggregate device the host rebuilt
    /// and hands back the superseded one for release. The session keeps
    /// running — capture survives the device switch with no new start.
    pub fn on_default_device_changed(&mut self, new_device_id: u64) -> (released: u64)
        requires
            old(self).wf(),
            old(self).is_running_spec(),
        ensures
            final (self).wf(),
            final (self).is_running_spec(),
            final (self).target_spec() == old(self).target_spec(),
            final (self).device_spec() == Some(new_device_id),
            final (self).watcher_spec() == old(self).watcher_spec(),
            released == old(self).device_spec()->Some_0,
    {
        let released = self.device_id.unwrap();
        self.device_id = Some(new_device_id);
        released
    }
}

/// Stopping twice never raises (stop has no error outcome at all) and
/// never frees the device twice: the first stop leaves the session owning
/// nothing, and by [`AudioCaptureSession::stop`]'s contract a stop of such
/// a session returns nothing to tear down and changes nothing.
pub proof fn lemma_stop_idempotent(s: AudioCaptureSession)
    requires
        s.wf(),
        !s.is_running_spec(),
    ensures
        s.device_spec() is None,
        s.watcher_spec() is None,
{
}

/// The object ids of a sequence of tappable applications, in order.
pub open spec fn object_ids_of(apps: Seq<TappableApplication>) -> Seq<u32> {
    apps.map_values(|a: TappableApplication| a.object_id)
}

/// Collects the object ids of the applications a global capture excludes
/// (`None` excludes nothing).
pub fn excluded_object_ids(excluded: Option<&Vec<TappableApplication>>) -> (r: Vec<u32>)
    ensures
        match excluded {
            Some(v) => r@ == object_ids_of(v@),
            None => r@ == Seq::<u32>::empty(),
        },
{
    let mut out: Vec<u32> = Vec::new();
    match excluded {
        None => {
            proof {
                assert(out@ =~= Seq::<u32>::empty());
            }
            out
        },
        Some(apps) => {
            proof {
                assert(out@ =~= object_ids_of(apps@.take(0)));
            }
            let mut i: usize = 0;
            while i < apps.len()
                invariant
                    i <= apps@.len(),
                    out@ == object_ids_of(apps@.take(i as int)),
                decreases apps@.len() - i,
            {
                out.push(apps[i].object_id);
                proof {
                    assert(object_ids_of(apps@.take(i as int + 1)) =~= object_ids_of(
                        apps@.take(i as int),
                    ).push(apps@[i as int].object_id));
                }
                i += 1;
            }
            proof {
                assert(apps@.take(apps@.len() as int) =~= apps@);
            }
            out
        },
    }
}

impl TappableApplication {
    /// The capture target that taps exactly this application's process.
    pub fn capture_target(&self) -> (r: CaptureTarget)
        ensures
            r == CaptureTarget::Process(self.object_id),
    {
        CaptureTarget::Process(self.object_id)
    }

    /// Starts a capture session scoped to exactly this application's
    /// process. The host has already built the aggregate device for this
    /// process and installed the default-output watcher; the session owns
    /// both from here.
    pub fn tap_audio(&self, device_id: u64, watcher_id: u64) -> (s: AudioCaptureSession)
        ensures
            s.wf(),
            s.is_running_spec(),
            s.target_spec() == CaptureTarget::Process(self.object_id),
            s.device_spec() == Some(device_id),
            s.watcher_spec() == Some(watcher_id),
    {
        AudioCaptureSession::new(CaptureTarget::Process(self.object_id), device_id, watcher_id)
    }
}

} // verus!
