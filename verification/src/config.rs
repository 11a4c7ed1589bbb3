//! Assembly of the platform-facing notification configuration.
//!
//! The builder merges a decoded request with the resolved icon reference
//! into the configuration consumed by the dispatch step.  It is pure
//! assembly: no validation happens here beyond what the decoder already
//! guarantees.

use vstd::prelude::*;
use crate::request::{
    opt_bytes_view, NotificationRequest, RequestModel, TimeoutPolicy, request_wf,
};

verus! {

/// The configuration handed to the platform notification facility.
///
/// `sound` left as `None` means the empty sound selector, that is, no
/// sound; `timeout` left as `None` means the platform's default timeout.
pub struct NotificationConfig {
    pub summary: Vec<u8>,
    pub subtitle: Option<Vec<u8>>,
    pub body: Option<Vec<u8>>,
    pub icon: Vec<u8>,
    pub sound: Option<Vec<u8>>,
    pub timeout: Option<TimeoutPolicy>,
}

/// Mathematical model of a [`NotificationConfig`].
pub struct ConfigModel {
    pub summary: Seq<u8>,
    pub subtitle: Option<Seq<u8>>,
    pub body: Option<Seq<u8>>,
    pub icon: Seq<u8>,
    pub sound: Option<Seq<u8>>,
    pub timeout: Option<TimeoutPolicy>,
}

impl View for NotificationConfig {
    type V = ConfigModel;

    open spec fn view(&self) -> ConfigModel {
        ConfigModel {
            summary: self.summary@,
            subtitle: opt_bytes_view(self.subtitle),
            body: opt_bytes_view(self.body),
            icon: self.icon@,
            sound: opt_bytes_view(self.sound),
            timeout: self.timeout,
        }
    }
}

/// The configuration built from a request and a resolved icon
/// reference: the title becomes the summary, every optional field is
/// carried over unchanged, and the icon reference replaces the icon
/// specification.
pub open spec fn spec_build_config(m: RequestModel, icon: Seq<u8>) -> ConfigModel {
    ConfigModel {
        summary: m.title,
        subtitle: m.subtitle,
        body: m.body,
        icon: icon,
        sound: m.sound,
        timeout: m.timeout,
    }
}

/// Builds the platform-facing configuration from a decoded request and
/// the resolved icon reference.
pub fn build_config(req: NotificationRequest, icon_ref: Vec<u8>) -> (c: NotificationConfig)
    requires
        request_wf(req@),
        icon_ref@.len() > 0,
    ensures
        c@ == spec_build_config(req@, icon_ref@),
        c@.summary.len() > 0,
        c@.icon.len() > 0,
{
    NotificationConfig {
        summary: req.title,
        subtitle: req.subtitle,
        body: req.body,
        icon: icon_ref,
        sound: req.sound,
        timeout: req.timeout,
    }
}

} // verus!
