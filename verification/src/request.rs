//! The typed data model: notification requests, icon specifications,
//! timeout policies, and dispatch outcomes.
//!
//! All text is carried as UTF-8 byte vectors; the mathematical model of
//! each type replaces every `Vec<u8>` with a `Seq<u8>`.

use vstd::prelude::*;

verus! {

/// How the notification's icon is to be resolved.
#[derive(Debug)]
pub enum IconSpec {
    /// Impersonate a registered application of this name (platforms that
    /// require an identity binding before posting notifications).
    AppIdentity(Vec<u8>),
    /// Use the image file at this path, if it exists.
    FilePath(Vec<u8>),
    /// A name to be looked up in the icon theme of the platform, verbatim.
    ThemeName(Vec<u8>),
}

/// Mathematical model of an [`IconSpec`].
pub enum IconModel {
    AppIdentity(Seq<u8>),
    FilePath(Seq<u8>),
    ThemeName(Seq<u8>),
}

impl View for IconSpec {
    type V = IconModel;

    open spec fn view(&self) -> IconModel {
        match self {
            IconSpec::AppIdentity(n) => IconModel::AppIdentity(n@),
            IconSpec::FilePath(p) => IconModel::FilePath(p@),
            IconSpec::ThemeName(n) => IconModel::ThemeName(n@),
        }
    }
}

/// When a displayed notification auto-dismisses.
#[derive(Clone, Copy, PartialEq, Eq, Structural, Debug)]
pub enum TimeoutPolicy {
    /// Never expire; the user has to close the notification.
    Never,
    /// Expire after this many milliseconds.
    ExpireAfter(u32),
}

/// The stage of processing at which a failure arose.
#[derive(Clone, Copy, PartialEq, Eq, Structural, Debug)]
pub enum Stage {
    /// Decoding the raw input bytes.
    ParsingInput,
    /// Asking the platform facility to display the notification.
    SendingNotification,
}

/// A decoded notification request.  `title` is never empty: the decoder
/// rejects inputs without a non-empty title.
#[derive(Debug)]
pub struct NotificationRequest {
    pub title: Vec<u8>,
    pub subtitle: Option<Vec<u8>>,
    pub body: Option<Vec<u8>>,
    pub icon: Option<IconSpec>,
    pub sound: Option<Vec<u8>>,
    pub timeout: Option<TimeoutPolicy>,
}

/// Mathematical model of a [`NotificationRequest`].
pub struct RequestModel {
    pub title: Seq<u8>,
    pub subtitle: Option<Seq<u8>>,
    pub body: Option<Seq<u8>>,
    pub icon: Option<IconModel>,
    pub sound: Option<Seq<u8>>,
    pub timeout: Option<TimeoutPolicy>,
}

/// Model of an optional byte vector.
pub open spec fn opt_bytes_view(o: Option<Vec<u8>>) -> Option<Seq<u8>> {
    match o {
        Some(v) => Some(v@),
        None => None,
    }
}

/// Model of an optional icon specification.
pub open spec fn opt_icon_view(o: Option<IconSpec>) -> Option<IconModel> {
    match o {
        Some(i) => Some(i@),
        None => None,
    }
}

impl View for NotificationRequest {
    type V = RequestModel;

    open spec fn view(&self) -> RequestModel {
        RequestModel {
            title: self.title@,
            subtitle: opt_bytes_view(self.subtitle),
            body: opt_bytes_view(self.body),
            icon: opt_icon_view(self.icon),
            sound: opt_bytes_view(self.sound),
            timeout: self.timeout,
        }
    }
}

/// A request is well formed when its title is non-empty.
pub open spec fn request_wf(m: RequestModel) -> bool {
    m.title.len() > 0
}

/// A failure to decode the raw input; always tagged with stage
/// [`Stage::ParsingInput`] when it reaches the caller.
#[derive(Debug)]
pub struct ParseError {
    pub message: Vec<u8>,
}

impl View for ParseError {
    type V = Seq<u8>;

    open spec fn view(&self) -> Seq<u8> {
        self.message@
    }
}

/// The result of one dispatch attempt.  Produced exactly once per call
/// and carrying at most one error.
#[derive(Debug)]
pub enum Outcome {
    /// The platform facility accepted the display request.
    Success,
    /// Processing failed at `stage` with a diagnostic `message`.
    Failure { stage: Stage, message: Vec<u8> },
}

/// Mathematical model of an [`Outcome`].
pub enum OutcomeModel {
    Success,
    Failure { stage: Stage, message: Seq<u8> },
}

impl View for Outcome {
    type V = OutcomeModel;

    open spec fn view(&self) -> OutcomeModel {
        match self {
            Outcome::Success => OutcomeModel::Success,
            Outcome::Failure { stage, message } => OutcomeModel::Failure {
                stage: *stage,
                message: message@,
            },
        }
    }
}

/// Wraps a decoder failure as the outcome of the whole call, tagged with
/// the parsing stage.
pub fn outcome_from_parse_error(e: ParseError) -> (o: Outcome)
    ensures
        o@ == (OutcomeModel::Failure { stage: Stage::ParsingInput, message: e@ }),
{
    Outcome::Failure { stage: Stage::ParsingInput, message: e.message }
}

/// Maps the plain result of the platform display call to an outcome:
/// acceptance becomes success, and a textual failure reason is tagged
/// with the sending stage.
pub fn outcome_from_dispatch(result: Result<(), Vec<u8>>) -> (o: Outcome)
    ensures
        o@ == (match result {
            Ok(_) => OutcomeModel::Success,
            Err(m) => OutcomeModel::Failure { stage: Stage::SendingNotification, message: m@ },
        }),
{
    match result {
        Ok(_) => Outcome::Success,
        Err(m) => Outcome::Failure { stage: Stage::SendingNotification, message: m },
    }
}

} // verus!
