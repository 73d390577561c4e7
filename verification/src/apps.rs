use vstd::prelude::*;

verus! {

/// Read-only projection over operating-system process metadata: the process
/// id and the display name the host looked up for it. Immutable once
/// constructed; an empty name records that the lookup missed (absence is
/// the failure mode, never an error).
#[derive(Debug)]
#[verifier::ext_equal]
pub struct Application {
    pub process_id: i32,
    pub name: String,
}

/// The process-group id that the metadata layer reports, given the raw
/// group id the host queried for the process: a positive process id keeps
/// the queried group unless the query failed (reported as -1), in which
/// case the process id itself stands in; a non-positive process id has no
/// group.
pub open spec fn group_id_spec(process_id: i32, queried: i32) -> i32 {
    if process_id > 0 {
        if queried != -1i32 {
            queried
        } else {
            process_id
        }
    } else {
        -1i32
    }
}

impl Application {
    /// Builds the projection from a process id and the display name the
    /// host's metadata lookup produced (empty when the lookup missed).
    pub fn new(process_id: i32, name: String) -> (r: Self)
        ensures
            r.process_id == process_id,
            r.name == name,
    {
        Application { process_id, name }
    }

    pub fn process_id(&self) -> (r: i32)
        ensures
            r == self.process_id,
    {
        self.process_id
    }

    pub fn name(&self) -> (r: &str)
        ensures
            r@ == self.name@,
    {
        self.name.as_str()
    }

    /// Decides the process-group id from the group id the host queried
    /// (`queried` is -1 when the query failed).
    pub fn process_group_id(&self, queried: i32) -> (r: i32)
        ensures
            r == group_id_spec(self.process_id, queried),
    {
        if self.process_id > 0 {
            if queried != -1 {
                queried
            } else {
                self.process_id
            }
        } else {
            -1
        }
    }
}

/// An [`Application`] together with the opaque handle of the audio-capable
/// process object it was discovered as. One exists per process currently
/// present in the registry snapshot.
#[derive(Debug)]
#[verifier::ext_equal]
pub struct TappableApplication {
    pub app: Application,
    pub object_id: u32,
}

impl TappableApplication {
    /// Builds the projection from the audio object handle and the process
    /// metadata the host resolved for it (process id -1 and an empty name
    /// when the resolution missed).
    pub fn new(object_id: u32, process_id: i32, name: String) -> (r: Self)
        ensures
            r.object_id == object_id,
            r.app.process_id == process_id,
            r.app.name == name,
    {
        TappableApplication { app: Application { process_id, name }, object_id }
    }

    /// Pairs existing process metadata with an audio object handle.
    pub fn from_application(app: &Application, object_id: u32) -> (r: Self)
        ensures
            r.object_id == object_id,
            r.app.process_id == app.process_id,
            r.app.name == app.name,
    {
        TappableApplication {
            app: Application { process_id: app.process_id, name: app.name.clone() },
            object_id,
        }
    }

    pub fn process_id(&self) -> (r: i32)
        ensures
            r == self.app.process_id,
    {
        self.app.process_id
    }

    /// Decides the process-group id from the group id the host queried.
    pub fn process_group_id(&self, queried: i32) -> (r: i32)
        ensures
            r == group_id_spec(self.app.process_id, queried),
    {
        self.app.process_group_id(queried)
    }

    /// Resolves the bundle identifier from the two places the host can
    /// look: the process metadata itself, and the audio object's property.
    /// The first takes precedence; `None` stands for a lookup that missed
    /// or failed, and a fully unresolved identifier stays `None`.
    pub fn bundle_identifier(
        &self,
        from_app: Option<String>,
        from_audio_object: Option<String>,
    ) -> (r: Option<String>)
        ensures
            from_app is Some ==> r == from_app,
            from_app is None ==> r == from_audio_object,
    {
        match from_app {
            Some(s) => Some(s),
            None => from_audio_object,
        }
    }

    pub fn name(&self) -> (r: String)
        ensures
            r == self.app.name,
    {
        self.app.name.clone()
    }

    pub fn object_id(&self) -> (r: u32)
        ensures
            r == self.object_id,
    {
        self.object_id
    }

    /// Decides the running flag from the host's best-effort property query:
    /// a failed query (`None`) counts as not running, never as an error.
    pub fn get_is_running(&self, queried: Option<bool>) -> (r: bool)
        ensures
            r == (queried == Some(true)),
    {
        match queried {
            Some(b) => b,
            None => false,
        }
    }
}

} // verus!
