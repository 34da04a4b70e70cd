//! Transactional launches: the order of the steps, what a failure leaves to undo, and how it is
//! reported.
use vstd::prelude::*;
use crate::text;

verus! {

/// Workers that are launched together.
#[derive(Debug, Clone, Copy, PartialEq, Eq, Structural)]
pub enum Cohort {
    /// The selector of a resource generation, with the reader of its events.
    Selector,
    /// The encoder of a resource generation, with its relay.
    EncoderRelay,
    /// The capture worker, the encoder and the relay of a YouTube Music window.
    YoutubeMusic,
}

/// One step of a launch.
#[derive(Debug, Clone, Copy, PartialEq, Eq, Structural)]
pub enum LaunchStep {
    /// Create the shared texture.
    CreateMailbox,
    /// Make the texture's handle inheritable for the capture worker.
    InheritForCapture,
    /// Spawn the capture worker.
    SpawnCapture,
    /// Make the handle private again.
    RevokeAfterCapture,
    /// Take the pipe that the selector writes its events to.
    TakeSelectorOutput,
    /// Start the reader of the selector's events.
    StartReader,
    /// Make the texture's handle inheritable for the encoder.
    InheritForEncoder,
    /// Spawn the encoder.
    SpawnEncoder,
    /// Make the handle private again.
    RevokeAfterEncoder,
    /// Take the pipe that the encoder writes its stream to.
    TakeEncodedOutput,
    /// Spawn the relay on that pipe.
    SpawnRelay,
}

/// What is undone after a failed launch, in this order.
#[derive(Debug, Clone, Copy, PartialEq, Eq, Structural)]
pub struct Cleanup {
    /// Make the handle private again.
    pub revoke: bool,
    /// Stop the encoder.
    pub encoder: bool,
    /// Stop the capture worker.
    pub capture: bool,
}

impl Cohort {
    /// The steps of a launch, in order.
    pub open spec fn path(self) -> Seq<LaunchStep> {
        match self {
            Cohort::Selector => seq![
                LaunchStep::InheritForCapture,
                LaunchStep::SpawnCapture,
                LaunchStep::RevokeAfterCapture,
                LaunchStep::TakeSelectorOutput,
                LaunchStep::StartReader,
            ],
            Cohort::EncoderRelay => seq![
                LaunchStep::InheritForEncoder,
                LaunchStep::SpawnEncoder,
                LaunchStep::RevokeAfterEncoder,
                LaunchStep::TakeEncodedOutput,
                LaunchStep::SpawnRelay,
            ],
            Cohort::YoutubeMusic => seq![
                LaunchStep::CreateMailbox,
                LaunchStep::InheritForCapture,
                LaunchStep::SpawnCapture,
                LaunchStep::RevokeAfterCapture,
                LaunchStep::InheritForEncoder,
                LaunchStep::SpawnEncoder,
                LaunchStep::RevokeAfterEncoder,
                LaunchStep::TakeEncodedOutput,
                LaunchStep::SpawnRelay,
            ],
        }
    }
}

/// Whether a step was passed within the first `count` ones of a launch.
pub open spec fn passed(cohort: Cohort, count: int, step: LaunchStep) -> bool {
    exists|i: int| 0 <= i < count && #[trigger] cohort.path()[i] == step
}

/// Whether the texture's handle is inheritable behind the first `count` steps of a launch.
pub open spec fn inheritable(cohort: Cohort, count: int) -> bool {
    ||| passed(cohort, count, LaunchStep::InheritForCapture) && !passed(
        cohort,
        count,
        LaunchStep::RevokeAfterCapture,
    )
    ||| passed(cohort, count, LaunchStep::InheritForEncoder) && !passed(
        cohort,
        count,
        LaunchStep::RevokeAfterEncoder,
    )
}

/// A launch under way.
pub struct Launch {
    cohort: Cohort,
    step: Option<LaunchStep>,
    done: Ghost<int>,
}

/// A launch: its workers and how many of its steps are done.
pub struct LaunchModel {
    pub cohort: Cohort,
    pub done: int,
}

impl View for Launch {
    type V = LaunchModel;

    closed spec fn view(&self) -> LaunchModel {
        LaunchModel { cohort: self.cohort, done: self.done@ }
    }
}

impl LaunchModel {
    /// The step that comes next, if one is left.
    pub open spec fn next(self) -> Option<LaunchStep> {
        if self.done < self.cohort.path().len() {
            Some(self.cohort.path()[self.done])
        } else {
            None
        }
    }

    /// Whether the next step makes the handle private again.
    pub open spec fn revokes(self) -> bool {
        self.next() == Some(LaunchStep::RevokeAfterCapture) || self.next() == Some(
            LaunchStep::RevokeAfterEncoder,
        )
    }

    /// What is undone when the next step fails: the workers that run are stopped, and an
    /// inheritable handle is made private, unless doing so is what failed.
    pub open spec fn undone(self) -> Cleanup {
        Cleanup {
            revoke: inheritable(self.cohort, self.done) && !self.revokes(),
            encoder: passed(self.cohort, self.done, LaunchStep::SpawnEncoder),
            capture: passed(self.cohort, self.done, LaunchStep::SpawnCapture),
        }
    }
}

impl Launch {
    #[verifier::type_invariant]
    spec fn well_formed(&self) -> bool {
        &&& 0 <= self.done@ <= self.cohort.path().len()
        &&& self.step == self@.next()
    }

    /// Begins a launch.
    pub fn new(cohort: Cohort) -> (launch: Launch)
        ensures
            launch@ == (LaunchModel { cohort, done: 0 }),
    {
        let step = match cohort {
            Cohort::Selector => LaunchStep::InheritForCapture,
            Cohort::EncoderRelay => LaunchStep::InheritForEncoder,
            Cohort::YoutubeMusic => LaunchStep::CreateMailbox,
        };
        Launch { cohort, step: Some(step), done: Ghost(0) }
    }

    /// Returns the step to take, or nothing once all workers run.
    pub fn step(&self) -> (step: Option<LaunchStep>)
        ensures
            step == self@.next(),
    {
        proof {
            use_type_invariant(self);
        }
        self.step
    }

    /// Notes that the step succeeded.
    pub fn succeeded(&mut self)
        requires
            old(self)@.next() is Some,
        ensures
            final(self)@ == (LaunchModel { cohort: old(self)@.cohort, done: old(self)@.done + 1 }),
    {
        proof {
            use_type_invariant(&*self);
        }
        let following = match self.step {
            Some(LaunchStep::CreateMailbox) => Some(LaunchStep::InheritForCapture),
            Some(LaunchStep::InheritForCapture) => Some(LaunchStep::SpawnCapture),
            Some(LaunchStep::SpawnCapture) => Some(LaunchStep::RevokeAfterCapture),
            Some(LaunchStep::RevokeAfterCapture) => if self.cohort == Cohort::Selector {
                Some(LaunchStep::TakeSelectorOutput)
            } else {
                Some(LaunchStep::InheritForEncoder)
            },
            Some(LaunchStep::TakeSelectorOutput) => Some(LaunchStep::StartReader),
            Some(LaunchStep::StartReader) => None,
            Some(LaunchStep::InheritForEncoder) => Some(LaunchStep::SpawnEncoder),
            Some(LaunchStep::SpawnEncoder) => Some(LaunchStep::RevokeAfterEncoder),
            Some(LaunchStep::RevokeAfterEncoder) => Some(LaunchStep::TakeEncodedOutput),
            Some(LaunchStep::TakeEncodedOutput) => Some(LaunchStep::SpawnRelay),
            Some(LaunchStep::SpawnRelay) => None,
            None => None,
        };
        let done: Ghost<int> = Ghost(self.done@ + 1);
        *self = Launch { cohort: self.cohort, step: following, done };
    }

    /// Decides what is undone when the step failed: every worker that was started before it is
    /// stopped, and a handle that is still inheritable is made private, unless doing so is what
    /// failed.
    pub fn cleanup(&self) -> (cleanup: Cleanup)
        ensures
            cleanup == self@.undone(),
    {
        proof {
            use_type_invariant(self);
            lemma_passed(self@);
        }
        let youtube = self.cohort == Cohort::YoutubeMusic;
        match self.step {
            Some(LaunchStep::CreateMailbox) => Cleanup {
                revoke: false,
                encoder: false,
                capture: false,
            },
            Some(LaunchStep::InheritForCapture) => Cleanup {
                revoke: false,
                encoder: false,
                capture: false,
            },
            Some(LaunchStep::SpawnCapture) => Cleanup {
                revoke: true,
                encoder: false,
                capture: false,
            },
            Some(LaunchStep::RevokeAfterCapture) => Cleanup {
                revoke: false,
                encoder: false,
                capture: true,
            },
            Some(LaunchStep::TakeSelectorOutput) => Cleanup {
                revoke: false,
                encoder: false,
                capture: true,
            },
            Some(LaunchStep::StartReader) => Cleanup {
                revoke: false,
                encoder: false,
                capture: true,
            },
            Some(LaunchStep::InheritForEncoder) => Cleanup {
                revoke: false,
                encoder: false,
                capture: youtube,
            },
            Some(LaunchStep::SpawnEncoder) => Cleanup {
                revoke: true,
                encoder: false,
                capture: youtube,
            },
            Some(LaunchStep::RevokeAfterEncoder) => Cleanup {
                revoke: false,
                encoder: true,
                capture: youtube,
            },
            Some(LaunchStep::TakeEncodedOutput) => Cleanup {
                revoke: false,
                encoder: true,
                capture: youtube,
            },
            Some(LaunchStep::SpawnRelay) => Cleanup {
                revoke: false,
                encoder: true,
                capture: youtube,
            },
            None => Cleanup {
                revoke: false,
                encoder: self.cohort != Cohort::Selector,
                capture: self.cohort != Cohort::EncoderRelay,
            },
        }
    }
}

/// Which of the steps that matter were passed, position by position.
proof fn lemma_passed(launch: LaunchModel)
    requires
        0 <= launch.done <= launch.cohort.path().len(),
    ensures
        passed(launch.cohort, launch.done, LaunchStep::InheritForCapture) == match launch.cohort {
            Cohort::Selector => launch.done > 0,
            Cohort::EncoderRelay => false,
            Cohort::YoutubeMusic => launch.done > 1,
        },
        passed(launch.cohort, launch.done, LaunchStep::SpawnCapture) == match launch.cohort {
            Cohort::Selector => launch.done > 1,
            Cohort::EncoderRelay => false,
            Cohort::YoutubeMusic => launch.done > 2,
        },
        passed(launch.cohort, launch.done, LaunchStep::InheritForEncoder) == match launch.cohort {
            Cohort::Selector => false,
            Cohort::EncoderRelay => launch.done > 0,
            Cohort::YoutubeMusic => launch.done > 4,
        },
        passed(launch.cohort, launch.done, LaunchStep::SpawnEncoder) == match launch.cohort {
            Cohort::Selector => false,
            Cohort::EncoderRelay => launch.done > 1,
            Cohort::YoutubeMusic => launch.done > 5,
        },
        passed(launch.cohort, launch.done, LaunchStep::RevokeAfterCapture) == match launch.cohort {
            Cohort::Selector => launch.done > 2,
            Cohort::EncoderRelay => false,
            Cohort::YoutubeMusic => launch.done > 3,
        },
        passed(launch.cohort, launch.done, LaunchStep::RevokeAfterEncoder) == match launch.cohort {
            Cohort::Selector => false,
            Cohort::EncoderRelay => launch.done > 2,
            Cohort::YoutubeMusic => launch.done > 6,
        },
        passed(launch.cohort, launch.done, LaunchStep::SpawnRelay) == match launch.cohort {
            Cohort::Selector => false,
            Cohort::EncoderRelay => launch.done > 4,
            Cohort::YoutubeMusic => launch.done > 8,
        },
{
    let path = launch.cohort.path();
    match launch.cohort {
        Cohort::Selector => {
            assert(path[0] == LaunchStep::InheritForCapture);
            assert(path[1] == LaunchStep::SpawnCapture);
            assert(path[2] == LaunchStep::RevokeAfterCapture);
        },
        Cohort::EncoderRelay => {
            assert(path[0] == LaunchStep::InheritForEncoder);
            assert(path[1] == LaunchStep::SpawnEncoder);
            assert(path[2] == LaunchStep::RevokeAfterEncoder);
            assert(path[4] == LaunchStep::SpawnRelay);
        },
        Cohort::YoutubeMusic => {
            assert(path[1] == LaunchStep::InheritForCapture);
            assert(path[2] == LaunchStep::SpawnCapture);
            assert(path[3] == LaunchStep::RevokeAfterCapture);
            assert(path[4] == LaunchStep::InheritForEncoder);
            assert(path[5] == LaunchStep::SpawnEncoder);
            assert(path[6] == LaunchStep::RevokeAfterEncoder);
            assert(path[8] == LaunchStep::SpawnRelay);
        },
    }
}

/// What a failed step adds to the diagnostic, if it adds anything.
pub open spec fn failure_text(
    cohort: Cohort,
    step: LaunchStep,
    generation: u64,
    executable: Seq<char>,
) -> Option<Seq<char>> {
    let prefix = if cohort == Cohort::YoutubeMusic {
        Seq::empty()
    } else {
        "generation "@ + text::decimal(generation as nat) + ": "@
    };
    match step {
        LaunchStep::CreateMailbox => Some("failed to create YouTube Music shared mailbox"@),
        LaunchStep::InheritForCapture => None,
        LaunchStep::SpawnCapture => Some(prefix + "failed to launch "@ + executable),
        LaunchStep::RevokeAfterCapture => if cohort == Cohort::YoutubeMusic {
            Some("failed to revoke mailbox inheritance after capture spawn"@)
        } else {
            Some("failed to revoke mailbox inheritance after selector spawn"@)
        },
        LaunchStep::TakeSelectorOutput => Some(prefix + "selector stdout pipe was not created"@),
        LaunchStep::StartReader => None,
        LaunchStep::InheritForEncoder => if cohort == Cohort::YoutubeMusic {
            Some("failed to prepare mailbox inheritance for encoder"@)
        } else {
            None
        },
        LaunchStep::SpawnEncoder => Some(prefix + "failed to launch "@ + executable),
        LaunchStep::RevokeAfterEncoder => Some(
            "failed to revoke mailbox inheritance after encoder spawn"@,
        ),
        LaunchStep::TakeEncodedOutput => if cohort == Cohort::YoutubeMusic {
            Some("YouTube Music encoder stdout pipe was not created"@)
        } else {
            Some(prefix + "encoder stdout pipe was not created"@)
        },
        LaunchStep::SpawnRelay => Some(prefix + "failed to launch "@ + executable),
    }
}

fn labelled(cohort: Cohort, generation: u64, message: &str) -> (result: String)
    ensures
        result@ == if cohort == Cohort::YoutubeMusic {
            message@
        } else {
            "generation "@ + text::decimal(generation as nat) + ": "@ + message@
        },
{
    if cohort == Cohort::YoutubeMusic {
        return message.to_owned();
    }
    let mut result = "generation ".to_owned();
    text::push_decimal(&mut result, generation);
    text::push_text(&mut result, ": ");
    text::push_text(&mut result, message);
    result
}

/// Describes a failed step; `executable` is the worker that a spawning step launches.
pub fn failure(cohort: Cohort, step: LaunchStep, generation: u64, executable: &str) -> (message:
    Option<String>)
    ensures
        match message {
            Some(message) => failure_text(cohort, step, generation, executable@) == Some(message@),
            None => failure_text(cohort, step, generation, executable@) is None,
        },
{
    let youtube = cohort == Cohort::YoutubeMusic;
    let message = match step {
        LaunchStep::CreateMailbox => "failed to create YouTube Music shared mailbox".to_owned(),
        LaunchStep::InheritForCapture => {
            return None;
        },
        LaunchStep::StartReader => {
            return None;
        },
        LaunchStep::RevokeAfterCapture => if youtube {
            "failed to revoke mailbox inheritance after capture spawn".to_owned()
        } else {
            "failed to revoke mailbox inheritance after selector spawn".to_owned()
        },
        LaunchStep::TakeSelectorOutput => labelled(
            cohort,
            generation,
            "selector stdout pipe was not created",
        ),
        LaunchStep::InheritForEncoder => if youtube {
            "failed to prepare mailbox inheritance for encoder".to_owned()
        } else {
            return None;
        },
        LaunchStep::RevokeAfterEncoder =>
            "failed to revoke mailbox inheritance after encoder spawn".to_owned(),
        LaunchStep::TakeEncodedOutput => if youtube {
            "YouTube Music encoder stdout pipe was not created".to_owned()
        } else {
            labelled(cohort, generation, "encoder stdout pipe was not created")
        },
        LaunchStep::SpawnCapture | LaunchStep::SpawnEncoder | LaunchStep::SpawnRelay => {
            let mut message = labelled(cohort, generation, "failed to launch ");
            text::push_text(&mut message, executable);
            message
        },
    };
    proof {
        let stated = failure_text(cohort, step, generation, executable@)->Some_0;
        assert(message@ =~= stated);
    }
    Some(message)
}

/// Whatever step of a launch fails, exactly the workers that already run are stopped: the capture
/// worker and the encoder if they were spawned, and the relay never runs then. A handle that is
/// inheritable is made private, unless revoking it is the step that failed. A launch that
/// succeeds leaves no handle inheritable.
pub proof fn law_failed_launches_leave_nothing_behind(launch: LaunchModel)
    requires
        0 <= launch.done <= launch.cohort.path().len(),
    ensures
        launch.next() is Some ==> {
            let undone = launch.undone();
            &&& undone.capture <==> passed(launch.cohort, launch.done, LaunchStep::SpawnCapture)
            &&& undone.encoder <==> passed(launch.cohort, launch.done, LaunchStep::SpawnEncoder)
            &&& !passed(launch.cohort, launch.done, LaunchStep::SpawnRelay)
            &&& undone.revoke ==> inheritable(launch.cohort, launch.done)
            &&& inheritable(launch.cohort, launch.done) ==> undone.revoke || launch.revokes()
        },
        launch.next() is None ==> !inheritable(launch.cohort, launch.done),
{
    lemma_passed(launch);
}

/// The handle of the texture is inheritable only while the worker is spawned that inherits it, and
/// the relay is spawned last, on the pipe of the encoder.
pub proof fn law_launches_take_their_steps(launch: Launch, step: Option<LaunchStep>)
    requires
        launch@.done >= 0,
        call_ensures(Launch::step, (&launch,), step),
    ensures
        step == match launch@.cohort {
            Cohort::Selector => if launch@.done == 0 {
                Some(LaunchStep::InheritForCapture)
            } else if launch@.done == 1 {
                Some(LaunchStep::SpawnCapture)
            } else if launch@.done == 2 {
                Some(LaunchStep::RevokeAfterCapture)
            } else if launch@.done == 3 {
                Some(LaunchStep::TakeSelectorOutput)
            } else if launch@.done == 4 {
                Some(LaunchStep::StartReader)
            } else {
                None
            },
            Cohort::EncoderRelay => if launch@.done == 0 {
                Some(LaunchStep::InheritForEncoder)
            } else if launch@.done == 1 {
                Some(LaunchStep::SpawnEncoder)
            } else if launch@.done == 2 {
                Some(LaunchStep::RevokeAfterEncoder)
            } else if launch@.done == 3 {
                Some(LaunchStep::TakeEncodedOutput)
            } else if launch@.done == 4 {
                Some(LaunchStep::SpawnRelay)
            } else {
                None
            },
            Cohort::YoutubeMusic => if launch@.done == 0 {
                Some(LaunchStep::CreateMailbox)
            } else if launch@.done == 1 {
                Some(LaunchStep::InheritForCapture)
            } else if launch@.done == 2 {
                Some(LaunchStep::SpawnCapture)
            } else if launch@.done == 3 {
                Some(LaunchStep::RevokeAfterCapture)
            } else if launch@.done == 4 {
                Some(LaunchStep::InheritForEncoder)
            } else if launch@.done == 5 {
                Some(LaunchStep::SpawnEncoder)
            } else if launch@.done == 6 {
                Some(LaunchStep::RevokeAfterEncoder)
            } else if launch@.done == 7 {
                Some(LaunchStep::TakeEncodedOutput)
            } else if launch@.done == 8 {
                Some(LaunchStep::SpawnRelay)
            } else {
                None
            },
        },
{
}

/// A launch begins at its first step, and each success leads to the next one.
pub proof fn law_launches_go_on_step_by_step(cohort: Cohort, fresh: Launch, launch: &mut Launch)
    requires
        call_ensures(Launch::new, (cohort,), fresh),
        call_ensures(Launch::succeeded, (launch,), ()),
    ensures
        fresh@.cohort == cohort && fresh@.done == 0,
        final(launch)@.done == old(launch)@.done + 1,
        final(launch)@.cohort == old(launch)@.cohort,
{
}

/// A failed launch stops the workers that its earlier steps spawned, and makes the handle private
/// that an earlier step made inheritable, unless the failed step was to do so.
pub proof fn law_failures_undo_the_steps_before(
    launch: Launch,
    step: LaunchStep,
    cleanup: Cleanup,
)
    requires
        launch@.done >= 0,
        call_ensures(Launch::step, (&launch,), Some(step)),
        call_ensures(Launch::cleanup, (&launch,), cleanup),
    ensures
        cleanup.capture <==> match launch@.cohort {
            Cohort::Selector => launch@.done > 1,
            Cohort::EncoderRelay => false,
            Cohort::YoutubeMusic => launch@.done > 2,
        },
        cleanup.encoder <==> match launch@.cohort {
            Cohort::Selector => false,
            Cohort::EncoderRelay => launch@.done > 1,
            Cohort::YoutubeMusic => launch@.done > 5,
        },
        cleanup.revoke <==> step == LaunchStep::SpawnCapture || step == LaunchStep::SpawnEncoder,
{
    let cohort = launch@.cohort;
    let path = cohort.path();
    match cohort {
        Cohort::Selector => {
            assert(path[0] == LaunchStep::InheritForCapture);
            assert(path[1] == LaunchStep::SpawnCapture);
            assert(path[2] == LaunchStep::RevokeAfterCapture);
        },
        Cohort::EncoderRelay => {
            assert(path[0] == LaunchStep::InheritForEncoder);
            assert(path[1] == LaunchStep::SpawnEncoder);
            assert(path[2] == LaunchStep::RevokeAfterEncoder);
        },
        Cohort::YoutubeMusic => {
            assert(path[1] == LaunchStep::InheritForCapture);
            assert(path[2] == LaunchStep::SpawnCapture);
            assert(path[3] == LaunchStep::RevokeAfterCapture);
            assert(path[4] == LaunchStep::InheritForEncoder);
            assert(path[5] == LaunchStep::SpawnEncoder);
            assert(path[6] == LaunchStep::RevokeAfterEncoder);
        },
    }
}

/// Every spawning step names its executable where it fails, behind the generation where there is
/// one.
pub proof fn law_failed_spawns_name_their_executable(
    cohort: Cohort,
    step: LaunchStep,
    generation: u64,
    executable: &str,
    message: Option<String>,
)
    requires
        call_ensures(failure, (cohort, step, generation, executable), message),
        step == LaunchStep::SpawnCapture || step == LaunchStep::SpawnEncoder || step
            == LaunchStep::SpawnRelay,
    ensures
        message is Some,
        cohort == Cohort::YoutubeMusic ==> message->Some_0@ =~= "failed to launch "@ + executable@,
        cohort != Cohort::YoutubeMusic ==> message->Some_0@ =~= "generation "@ + text::decimal(
            generation as nat,
        ) + ": "@ + "failed to launch "@ + executable@,
{
}

} // verus!
