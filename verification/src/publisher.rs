//! Non-blocking publication of captured frames into a managed shared texture.
use vstd::prelude::*;
use crate::capture::SourceBox;
use crate::geometry::Size;
use crate::preview::FrameTransform;
use crate::shared_texture::{self, AcquireStatus};

verus! {

/// Interval of the aggregated publication diagnostics, in nanoseconds.
pub const METRICS_INTERVAL_NS: u64 = 5_000_000_000;

/// Exit code of the abandonment proof.
pub const FAULT_INJECTION_EXIT_CODE: i32 = 86;

/// One-shot counter used only by the explicit abandonment hardware proof.
#[derive(Debug, Clone, Copy, PartialEq, Eq, Structural)]
pub struct AbandonmentFault {
    /// Successful producer acquisitions required before forced termination.
    pub after: u64,
    /// Successful producer acquisitions observed so far.
    pub acquisitions: u64,
}

impl AbandonmentFault {
    /// Start a fault counter validated as non-zero by the command line.
    pub fn new(after: u64) -> (fault: AbandonmentFault)
        ensures
            fault == (AbandonmentFault { after, acquisitions: 0 }),
    {
        AbandonmentFault { after, acquisitions: 0 }
    }

    /// Return `true` exactly when this acquisition should abandon the mutex.
    pub fn record_acquisition(&mut self) -> (abandon: bool)
        requires
            old(self).acquisitions < u64::MAX,
        ensures
            *final(self) == (AbandonmentFault {
                acquisitions: (old(self).acquisitions + 1) as u64,
                ..*old(self)
            }),
            abandon == (old(self).acquisitions + 1 == old(self).after),
    {
        self.acquisitions = self.acquisitions + 1;
        self.acquisitions == self.after
    }
}

/// Why a publication fails.
#[derive(Debug, Clone, Copy, PartialEq, Eq, Structural)]
pub enum PublishError {
    /// The encoder exited without releasing the texture.
    Abandoned,
    /// A new texture was already abandoned.
    NewAbandoned,
    /// A new texture did not offer the producer's key.
    NewUnavailable,
    /// A captured frame has no pixels.
    EmptyFrame,
}

impl PublishError {
    /// The diagnostic text of this failure.
    pub open spec fn text(self) -> Seq<char> {
        match self {
            PublishError::Abandoned => "shared texture keyed mutex was abandoned by the encoder"@,
            PublishError::NewAbandoned => "new shared texture mutex was already abandoned"@,
            PublishError::NewUnavailable => "new shared texture did not expose producer key 0"@,
            PublishError::EmptyFrame => "captured frame dimensions must be non-zero"@,
        }
    }

    /// Describes this failure.
    pub fn message(&self) -> (message: &'static str)
        ensures
            message@ == self.text(),
    {
        match *self {
            PublishError::Abandoned => "shared texture keyed mutex was abandoned by the encoder",
            PublishError::NewAbandoned => "new shared texture mutex was already abandoned",
            PublishError::NewUnavailable => "new shared texture did not expose producer key 0",
            PublishError::EmptyFrame => "captured frame dimensions must be non-zero",
        }
    }

    /// Whether the shared resources have to be created anew.
    pub fn loses_generation(&self) -> (lost: bool)
        ensures
            lost == (self == PublishError::Abandoned || self == PublishError::NewAbandoned),
    {
        match *self {
            PublishError::Abandoned => true,
            PublishError::NewAbandoned => true,
            PublishError::NewUnavailable => false,
            PublishError::EmptyFrame => false,
        }
    }
}

/// What follows an attempt to acquire the producer's key.
#[derive(Debug, Clone, Copy, PartialEq, Eq, Structural)]
pub enum PublishStep {
    /// The consumer is busy: drop this frame.
    Skip,
    /// Draw and release.
    Draw,
    /// Exit while owning the key.
    AbandonDeliberately,
}

/// What is drawn over the clear color.
#[derive(Debug, Clone, Copy, PartialEq, Eq, Structural)]
pub enum PublishDraw {
    /// Scale the whole frame.
    Resample,
    /// Copy a region.
    Copy(SourceBox),
    /// Nothing: the crop lies outside the frame.
    Nothing,
}

/// Five-second aggregate that avoids per-frame logging.
#[derive(Debug, Clone, Copy, PartialEq, Eq, Structural)]
pub struct PublicationMetrics {
    /// Successfully published complete frames.
    pub published: u64,
    /// Frames dropped because the producer's key was busy.
    pub misses: u64,
    /// Nanoseconds spent submitting successful draws.
    pub submission_ns: u64,
}

impl PublicationMetrics {
    /// Start an empty reporting window.
    pub fn new() -> (metrics: PublicationMetrics)
        ensures
            metrics == (PublicationMetrics { published: 0, misses: 0, submission_ns: 0 }),
    {
        PublicationMetrics { published: 0, misses: 0, submission_ns: 0 }
    }

    /// Count one successful publication.
    pub fn record_publication(&mut self, submission_ns: u64)
        requires
            old(self).published < u64::MAX,
            old(self).submission_ns + submission_ns <= u64::MAX,
        ensures
            *final(self) == (PublicationMetrics {
                published: (old(self).published + 1) as u64,
                submission_ns: (old(self).submission_ns + submission_ns) as u64,
                ..*old(self)
            }),
    {
        self.published = self.published + 1;
        self.submission_ns = self.submission_ns + submission_ns;
    }

    /// Count one non-blocking miss.
    pub fn record_miss(&mut self)
        requires
            old(self).misses < u64::MAX,
        ensures
            *final(self) == (PublicationMetrics {
                misses: (old(self).misses + 1) as u64,
                ..*old(self)
            }),
    {
        self.misses = self.misses + 1;
    }

    /// Give the aggregate and start a new window, no more than once per interval.
    pub fn report_if_due(&mut self, elapsed_ns: u64) -> (report: Option<PublicationMetrics>)
        ensures
            if elapsed_ns < METRICS_INTERVAL_NS {
                report is None && *final(self) == *old(self)
            } else {
                report == Some(*old(self)) && *final(self) == (PublicationMetrics {
                    published: 0,
                    misses: 0,
                    submission_ns: 0,
                })
            },
    {
        if elapsed_ns < METRICS_INTERVAL_NS {
            return None;
        }
        let report = PublicationMetrics {
            published: self.published,
            misses: self.misses,
            submission_ns: self.submission_ns,
        };
        self.published = 0;
        self.misses = 0;
        self.submission_ns = 0;
        Some(report)
    }
}

/// Bookkeeping of one managed output.
#[derive(Debug, Clone, Copy, PartialEq, Eq, Structural)]
pub struct SharedPublisher {
    pub metrics: PublicationMetrics,
    pub abandonment_fault: Option<AbandonmentFault>,
}

impl SharedPublisher {
    /// Start without publications.
    pub fn new(debug_abandon_after_acquisitions: Option<u64>) -> (publisher: SharedPublisher)
        ensures
            publisher.metrics == (PublicationMetrics { published: 0, misses: 0, submission_ns: 0 }),
            match (debug_abandon_after_acquisitions, publisher.abandonment_fault) {
                (Some(after), Some(fault)) => fault == (AbandonmentFault {
                    after,
                    acquisitions: 0,
                }),
                (None, None) => true,
                _ => false,
            },
    {
        let abandonment_fault = match debug_abandon_after_acquisitions {
            Some(after) => Some(AbandonmentFault::new(after)),
            None => None,
        };
        SharedPublisher { metrics: PublicationMetrics::new(), abandonment_fault }
    }

    /// Decides how a publication goes on after the producer's key was asked for, without ever
    /// waiting for the encoder.
    ///
    /// A busy consumer causes this frame to be dropped and counted. An abandoned mutex is fatal
    /// because partially submitted work makes the resource generation untrustworthy.
    pub fn publish(&mut self, acquired: AcquireStatus) -> (result: Result<
        PublishStep,
        PublishError,
    >)
        requires
            old(self).metrics.misses < u64::MAX,
            old(self).abandonment_fault matches Some(fault) ==> fault.acquisitions < u64::MAX,
        ensures
            match acquired {
                AcquireStatus::Timeout => result == Ok::<PublishStep, PublishError>(
                    PublishStep::Skip,
                ) && *final(self) == (SharedPublisher {
                    metrics: PublicationMetrics {
                        misses: (old(self).metrics.misses + 1) as u64,
                        ..old(self).metrics
                    },
                    ..*old(self)
                }),
                AcquireStatus::Abandoned => result == Err::<PublishStep, PublishError>(
                    PublishError::Abandoned,
                ) && *final(self) == *old(self),
                AcquireStatus::Acquired => {
                    &&& final(self).metrics == old(self).metrics
                    &&& match old(self).abandonment_fault {
                        None => result == Ok::<PublishStep, PublishError>(PublishStep::Draw)
                            && final(self).abandonment_fault is None,
                        Some(fault) => {
                            &&& final(self).abandonment_fault == Some(
                                AbandonmentFault {
                                    acquisitions: (fault.acquisitions + 1) as u64,
                                    ..fault
                                },
                            )
                            &&& result == Ok::<PublishStep, PublishError>(
                                if fault.acquisitions + 1 == fault.after {
                                    PublishStep::AbandonDeliberately
                                } else {
                                    PublishStep::Draw
                                },
                            )
                        },
                    }
                },
            },
    {
        match acquired {
            AcquireStatus::Timeout => {
                self.metrics.record_miss();
                Ok(PublishStep::Skip)
            },
            AcquireStatus::Abandoned => Err(PublishError::Abandoned),
            AcquireStatus::Acquired => match self.abandonment_fault {
                None => Ok(PublishStep::Draw),
                Some(current) => {
                    let mut fault = current;
                    let abandon = fault.record_acquisition();
                    self.abandonment_fault = Some(fault);
                    if abandon {
                        Ok(PublishStep::AbandonDeliberately)
                    } else {
                        Ok(PublishStep::Draw)
                    }
                },
            },
        }
    }
}

/// Decides what is drawn of a frame over the clear color.
pub fn plan_draw(source: Size, transform: FrameTransform) -> (result: Result<
    PublishDraw,
    PublishError,
>)
    ensures
        result == if source.width == 0 || source.height == 0 {
            Err::<PublishDraw, PublishError>(PublishError::EmptyFrame)
        } else {
            match transform {
                FrameTransform::Resample => Ok(PublishDraw::Resample),
                FrameTransform::Crop(crop) => match crop.overlap(source) {
                    Some(region) => Ok(PublishDraw::Copy(region)),
                    None => Ok(PublishDraw::Nothing),
                },
            }
        },
{
    if source.width == 0 || source.height == 0 {
        return Err(PublishError::EmptyFrame);
    }
    match transform {
        FrameTransform::Resample => Ok(PublishDraw::Resample),
        FrameTransform::Crop(crop) => match crop.clamped_d3d11_box(source) {
            Some(region) => Ok(PublishDraw::Copy(region)),
            None => Ok(PublishDraw::Nothing),
        },
    }
}

/// The key released after a draw: a failed draw returns the producer's key, so that a partial
/// frame is never advertised.
pub fn next_key(drawn: bool) -> (key: u64)
    ensures
        key == if drawn {
            shared_texture::CONSUMER_KEY
        } else {
            shared_texture::PRODUCER_KEY
        },
{
    if drawn {
        shared_texture::CONSUMER_KEY
    } else {
        shared_texture::PRODUCER_KEY
    }
}

/// Decides whether a new texture can be seeded before the first target is selected.
pub fn seed(acquired: AcquireStatus) -> (result: Result<u64, PublishError>)
    ensures
        result == match acquired {
            AcquireStatus::Acquired => Ok::<u64, PublishError>(shared_texture::CONSUMER_KEY),
            AcquireStatus::Timeout => Err(PublishError::NewUnavailable),
            AcquireStatus::Abandoned => Err(PublishError::NewAbandoned),
        },
{
    match acquired {
        AcquireStatus::Acquired => Ok(shared_texture::CONSUMER_KEY),
        AcquireStatus::Timeout => Err(PublishError::NewUnavailable),
        AcquireStatus::Abandoned => Err(PublishError::NewAbandoned),
    }
}

/// The key is given up deliberately at exactly the acquisition that the fault was set to.
pub proof fn law_faults_strike_once(
    after: u64,
    fresh: AbandonmentFault,
    fault: &mut AbandonmentFault,
    abandon: bool,
)
    requires
        call_ensures(AbandonmentFault::new, (after,), fresh),
        old(fault).acquisitions < u64::MAX,
        call_ensures(AbandonmentFault::record_acquisition, (fault,), abandon),
    ensures
        fresh.after == after && fresh.acquisitions == 0,
        final(fault).acquisitions == old(fault).acquisitions + 1,
        final(fault).after == old(fault).after,
        abandon <==> final(fault).acquisitions == final(fault).after,
{
}

/// A busy consumer drops the frame and is counted, an abandoned key is an error that costs the
/// generation, and an acquired key draws, unless a fault strikes.
pub proof fn law_publications_never_wait(
    publisher: &mut SharedPublisher,
    acquired: AcquireStatus,
    result: Result<PublishStep, PublishError>,
)
    requires
        old(publisher).metrics.misses < u64::MAX,
        call_ensures(SharedPublisher::publish, (publisher, acquired), result),
    ensures
        acquired == AcquireStatus::Timeout <==> result == Ok::<_, PublishError>(PublishStep::Skip),
        acquired == AcquireStatus::Abandoned <==> result == Err::<PublishStep, _>(
            PublishError::Abandoned,
        ),
        acquired == AcquireStatus::Acquired && old(publisher).abandonment_fault is None ==> result
            == Ok::<_, PublishError>(PublishStep::Draw),
        final(publisher).metrics.misses == old(publisher).metrics.misses + if acquired
            == AcquireStatus::Timeout {
            1int
        } else {
            0
        },
        final(publisher).metrics.published == old(publisher).metrics.published,
{
}

/// The resources are lost exactly where their key was abandoned.
pub proof fn law_abandoned_keys_cost_the_generation(error: PublishError, lost: bool)
    requires
        call_ensures(PublishError::loses_generation, (&error,), lost),
    ensures
        lost <==> error == PublishError::Abandoned || error == PublishError::NewAbandoned,
{
}

/// Publications are counted with their time and given every five seconds, from zero each time.
pub proof fn law_publications_are_counted(
    metrics: &mut PublicationMetrics,
    missing: &mut PublicationMetrics,
    reporting: &mut PublicationMetrics,
    spent_ns: u64,
    elapsed_ns: u64,
    report: Option<PublicationMetrics>,
)
    requires
        old(metrics).published < u64::MAX && old(metrics).misses < u64::MAX,
        old(metrics).submission_ns + spent_ns <= u64::MAX,
        call_ensures(PublicationMetrics::record_publication, (metrics, spent_ns), ()),
        *old(missing) == *final(metrics),
        call_ensures(PublicationMetrics::record_miss, (missing,), ()),
        *old(reporting) == *final(missing),
        call_ensures(PublicationMetrics::report_if_due, (reporting, elapsed_ns), report),
    ensures
        final(missing).published == old(metrics).published + 1,
        final(missing).misses == old(metrics).misses + 1,
        final(missing).submission_ns == old(metrics).submission_ns + spent_ns,
        report is Some <==> elapsed_ns >= 5_000_000_000,
        report matches Some(given) ==> given == *final(missing) && final(reporting).published == 0
            && final(reporting).misses == 0 && final(reporting).submission_ns == 0,
        report is None ==> *final(reporting) == *final(missing),
{
}

/// A frame without pixels is refused; a crop copies what it shares with the frame, and any other
/// frame is scaled whole.
pub proof fn law_draws_are_planned_by_transform(
    source: Size,
    transform: FrameTransform,
    crop: crate::capture::CropBox,
    region: Option<SourceBox>,
    result: Result<PublishDraw, PublishError>,
)
    requires
        transform == FrameTransform::Crop(crop) || transform == FrameTransform::Resample,
        call_ensures(crate::capture::CropBox::clamped_d3d11_box, (crop, source), region),
        call_ensures(plan_draw, (source, transform), result),
    ensures
        result is Err <==> source.width == 0 || source.height == 0,
        result is Ok && transform == FrameTransform::Resample ==> result->Ok_0
            == PublishDraw::Resample,
        result is Ok && transform == FrameTransform::Crop(crop) ==> result->Ok_0 == match region {
            Some(region) => PublishDraw::Copy(region),
            None => PublishDraw::Nothing,
        },
{
}

/// Only a drawn frame is handed to the consumer, under key one; a failed draw returns key zero. A
/// new texture is handed on exactly if its key was acquired.
pub proof fn law_only_drawn_frames_are_handed_on(
    drawn: bool,
    key: u64,
    acquired: AcquireStatus,
    seeded: Result<u64, PublishError>,
)
    requires
        call_ensures(next_key, (drawn,), key),
        call_ensures(seed, (acquired,), seeded),
    ensures
        drawn ==> key == 1,
        !drawn ==> key == 0,
        seeded == Ok::<u64, PublishError>(1) <==> acquired == AcquireStatus::Acquired,
        seeded == Err::<u64, _>(PublishError::NewUnavailable) <==> acquired
            == AcquireStatus::Timeout,
        seeded == Err::<u64, _>(PublishError::NewAbandoned) <==> acquired
            == AcquireStatus::Abandoned,
{
}

} // verus!
