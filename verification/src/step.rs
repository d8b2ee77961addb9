//! Tools that need several calls run as state machines: each step either asks for one
//! more call or ends with the tool's answer.
use vstd::prelude::*;
use crate::call::{Call, CallV};
use crate::error::{error_text, GlpiError};
use crate::json::{Json, JsonV};

verus! {

/// The next thing a tool needs: one more call (with the state to resume from), or its answer.
#[derive(Debug)]
pub enum Step<S, O> {
    Call(S, Call),
    Done(Result<O, String>),
}

/// The mathematical form of a step.
pub enum StepV<S, O> {
    Call(S, CallV),
    Done(Result<O, Seq<char>>),
}

/// The mathematical form of a reply to a call.
pub open spec fn reply_view(r: Result<Json, GlpiError>) -> Result<JsonV, Seq<char>> {
    match r {
        Ok(v) => Ok(v@),
        Err(e) => Err(error_text(e)),
    }
}

} // verus!
