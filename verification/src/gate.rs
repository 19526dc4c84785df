//! The send session: at most one request is in flight at a time, enforced by
//! a busy flag that gates the send action. A send while busy is a no-op; the
//! flag clears only when the one completion is delivered, and each delivery
//! replaces the previous response wholesale.

use vstd::prelude::*;
use crate::response::{HttpResponse, ResponseModel, shape_error, spec_error_response};

verus! {

/// The UI-side view of the executor: the busy flag and the latest response.
pub struct SendSession {
    pub is_loading: bool,
    pub current_response: Option<HttpResponse>,
}

/// Model of a send session.
#[verifier::ext_equal]
pub struct SessionModel {
    pub busy: bool,
    pub response: Option<ResponseModel>,
}

impl DeepView for SendSession {
    type V = SessionModel;

    open spec fn deep_view(&self) -> SessionModel {
        SessionModel {
            busy: self.is_loading,
            response: match &self.current_response {
                Some(r) => Some(r.deep_view()),
                None => None,
            },
        }
    }
}

/// What a send attempt does to the session: nothing while busy; otherwise it
/// clears the response pane, raises the flag, and dispatches.
pub open spec fn begin_step(s: SessionModel) -> (SessionModel, bool) {
    if s.busy {
        (s, false)
    } else {
        (SessionModel { busy: true, response: None }, true)
    }
}

/// What a delivered completion does: clears the flag and replaces the
/// response — the shaped success, or the synthetic failure response.
pub open spec fn absorb_step(s: SessionModel, outcome: Result<ResponseModel, Seq<char>>) -> SessionModel {
    SessionModel {
        busy: false,
        response: Some(
            match outcome {
                Ok(r) => r,
                Err(desc) => spec_error_response(desc),
            },
        ),
    }
}

/// While a send is in flight, another send attempt dispatches nothing and
/// changes nothing — the busy flag stays set; only a delivered completion
/// clears it.
pub proof fn lemma_busy_gating(s: SessionModel, outcome: Result<ResponseModel, Seq<char>>)
    requires
        s.busy,
    ensures
        begin_step(s).0 == s,
        !begin_step(s).1,
        begin_step(s).0.busy,
        !absorb_step(s, outcome).busy,
{
}

impl SendSession {
    /// A fresh session: idle, nothing to show.
    pub fn new() -> (s: SendSession)
        ensures
            s.deep_view() == (SessionModel { busy: false, response: None::<ResponseModel> }),
    {
        SendSession { is_loading: false, current_response: None }
    }

    /// Attempt to start a send. Returns whether the caller should dispatch
    /// the request: `false` while a previous send's result is pending, and
    /// the session is then left untouched.
    pub fn try_begin_send(&mut self) -> (dispatch: bool)
        ensures
            (final(self).deep_view(), dispatch) == begin_step(old(self).deep_view()),
    {
        if self.is_loading {
            false
        } else {
            self.is_loading = true;
            self.current_response = None;
            true
        }
    }

    /// Deliver the one completion of the in-flight send: the busy flag
    /// clears and the outcome (shaped failure included) replaces the
    /// response.
    pub fn absorb_result(&mut self, outcome: Result<HttpResponse, String>)
        requires
            old(self).deep_view().busy,
        ensures
            final(self).deep_view() == absorb_step(
                old(self).deep_view(),
                match outcome {
                    Ok(r) => Ok(r.deep_view()),
                    Err(e) => Err(e@),
                },
            ),
    {
        let shaped = match outcome {
            Ok(r) => r,
            Err(desc) => shape_error(desc),
        };
        self.is_loading = false;
        self.current_response = Some(shaped);
    }
}

} // verus!
