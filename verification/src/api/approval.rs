//! Approving or rejecting a record: finding the pending approval of an
//! approver, and updating it.
//!
//! The exchange is a short sequence of requests. [`ApprovalBuilder`] decides
//! each step from the answer to the previous one; the caller sends the
//! requests and hands the answers back.

use vstd::prelude::*;
use crate::error::Error;
use crate::model::json::JsonValue;
use crate::model::record::Record;
use crate::model::value::{opt_view, DisplayValue};
use crate::query::batch::record_from;
use crate::query::params::{params_view, push_param};
use crate::text::{concat, owned, push_str};

verus! {

/// The target state of an approval.
#[derive(Debug, Clone, Copy, PartialEq, Eq, Structural)]
pub enum ApprovalAction {
    /// Set the approval state to "approved".
    Approve,
    /// Set the approval state to "rejected".
    Reject,
}

/// The state an action sets.
pub open spec fn spec_action_state(a: ApprovalAction) -> Seq<char> {
    match a {
        ApprovalAction::Approve => "approved"@,
        ApprovalAction::Reject => "rejected"@,
    }
}

impl ApprovalAction {
    /// The state this action sets: `approved` or `rejected`.
    pub fn as_state(&self) -> (r: &'static str)
        ensures
            r@ == spec_action_state(*self),
    {
        match self {
            ApprovalAction::Approve => "approved",
            ApprovalAction::Reject => "rejected",
        }
    }
}

/// An approval request as plain values: source table, record, approver,
/// action and comment.
pub type ApprovalView = (Seq<char>, Seq<char>, Seq<char>, ApprovalAction, Option<Seq<char>>);

/// Approving or rejecting the pending approval of one approver on one record.
///
/// The approver must be the approval's `approver`: when no pending approval of
/// that approver is found the request fails, so that nobody approves on
/// another user's behalf.
#[derive(Debug)]
pub struct ApprovalBuilder {
    source_table: String,
    record_sys_id: String,
    approver_sys_id: String,
    action: ApprovalAction,
    comment: Option<String>,
}

impl View for ApprovalBuilder {
    type V = ApprovalView;

    closed spec fn view(&self) -> ApprovalView {
        (self.source_table@, self.record_sys_id@, self.approver_sys_id@, self.action, opt_view(self.comment))
    }
}

/// The next request of an approval, or its failure.
#[derive(Debug)]
pub enum ApprovalStep {
    /// Look for the pending approval with a GET of these parameters.
    Lookup { path: String, params: Vec<(String, String)> },
    /// Update the approval found with a PATCH of this body and these parameters.
    Update { path: String, params: Vec<(String, String)>, body: JsonValue },
    /// No pending approval of the approver was found.
    Failed(Error),
}

/// The path of the approvals table.
pub open spec fn spec_approvals_path() -> Seq<char> {
    "/api/now/table/sysapproval_approver"@
}

/// The encoded query of the lookup: the approver's requested approval of the
/// record, found by `document_id` or, on older instances, by `sysapproval`,
/// in one query.
pub open spec fn spec_lookup_query(v: ApprovalView) -> Seq<char> {
    "(document_id="@ + v.1 + "^approver="@ + v.2 + "^state=requested)^OR(sysapproval="@ + v.1
        + "^approver="@ + v.2 + "^state=requested)"@
}

/// The parameters of the lookup.
pub open spec fn spec_lookup_params(v: ApprovalView) -> Seq<(Seq<char>, Seq<char>)> {
    seq![
        ("sysparm_query"@, spec_lookup_query(v)),
        ("sysparm_fields"@, "sys_id,document_id,sysapproval,approver,state,source_table,comments"@),
        ("sysparm_display_value"@, "false"@),
        ("sysparm_limit"@, "1"@),
    ]
}

/// The parameters of the update.
pub open spec fn spec_update_params() -> Seq<(Seq<char>, Seq<char>)> {
    seq![
        ("sysparm_display_value"@, "true"@),
        ("sysparm_fields"@, "sys_id,sysapproval,approver,state,source_table,comments,sys_updated_on"@),
    ]
}

/// The body of the update: the new state, and the comment when there is one.
pub open spec fn spec_update_body(v: ApprovalView, body: JsonValue) -> bool {
    match body {
        JsonValue::Object(m) => {
            &&& m@.len() == if v.4.is_some() { 2int } else { 1int }
            &&& m@[0].0@ == "state"@
            &&& m@[0].1 matches JsonValue::String(s) && s@ == spec_action_state(v.3)
            &&& v.4 matches Some(c) ==> m@[1].0@ == "comments"@ && (m@[1].1 matches JsonValue::String(s)
                && s@ == c)
        },
        _ => false,
    }
}

/// The sys_id of the first record of a lookup answer, when it has one.
pub open spec fn spec_first_sys_id(result: JsonValue) -> Option<Seq<char>> {
    match result {
        JsonValue::Array(items) => if items@.len() > 0 {
            match items@[0].spec_get("sys_id"@) {
                Some(JsonValue::String(s)) => Some(s@),
                _ => None,
            }
        } else {
            None
        },
        _ => None,
    }
}

/// The message of the error given when no pending approval is found.
pub open spec fn spec_not_found_message(v: ApprovalView) -> Seq<char> {
    "no pending approval found for "@ + v.0 + " "@ + v.1 + " with approver "@ + v.2
}

/// Whether `step` is the lookup request.
pub open spec fn is_lookup(v: ApprovalView, step: ApprovalStep) -> bool {
    step matches ApprovalStep::Lookup { path, params } && path@ == spec_approvals_path()
        && params_view(params@) == spec_lookup_params(v)
}

impl ApprovalBuilder {
    /// Approving or rejecting the pending approval of `approver_sys_id` on
    /// the record `record_sys_id` of `source_table`.
    pub fn new(source_table: &str, record_sys_id: &str, approver_sys_id: &str, action: ApprovalAction) -> (r: Self)
        ensures
            r@ == (source_table@, record_sys_id@, approver_sys_id@, action, None::<Seq<char>>),
    {
        ApprovalBuilder {
            source_table: owned(source_table),
            record_sys_id: owned(record_sys_id),
            approver_sys_id: owned(approver_sys_id),
            action,
            comment: None,
        }
    }

    /// Add a comment to the approval or rejection.
    pub fn comment(self, comment: &str) -> (r: Self)
        ensures
            r@ == (self@.0, self@.1, self@.2, self@.3, Some(comment@)),
    {
        let mut b = self;
        b.comment = Some(owned(comment));
        b
    }

    /// The first request: the lookup of the approver's pending approval.
    pub fn first_step(&self) -> (r: ApprovalStep)
        ensures
            is_lookup(self@, r),
    {
        let mut query = owned("(document_id=");
        push_str(&mut query, self.record_sys_id.as_str());
        push_str(&mut query, "^approver=");
        push_str(&mut query, self.approver_sys_id.as_str());
        push_str(&mut query, "^state=requested)^OR(sysapproval=");
        push_str(&mut query, self.record_sys_id.as_str());
        push_str(&mut query, "^approver=");
        push_str(&mut query, self.approver_sys_id.as_str());
        push_str(&mut query, "^state=requested)");
        let mut params: Vec<(String, String)> = Vec::new();
        push_param(&mut params, "sysparm_query", query);
        push_param(
            &mut params,
            "sysparm_fields",
            owned("sys_id,document_id,sysapproval,approver,state,source_table,comments"),
        );
        push_param(&mut params, "sysparm_display_value", owned("false"));
        push_param(&mut params, "sysparm_limit", owned("1"));
        assert(params_view(params@) =~= spec_lookup_params(self@));
        ApprovalStep::Lookup { path: owned("/api/now/table/sysapproval_approver"), params }
    }

    /// The step after the lookup was answered with `result`: a found
    /// approval is updated with the action's state and the comment; when none
    /// is found the approval fails with a 404 API error.
    pub fn after_lookup(&self, result: &JsonValue) -> (r: ApprovalStep)
        ensures
            match spec_first_sys_id(*result) {
                Some(id) => r matches ApprovalStep::Update { path, params, body } && path@
                    == spec_approvals_path() + "/"@ + id && params_view(params@) == spec_update_params()
                    && spec_update_body(self@, body),
                None => r matches ApprovalStep::Failed(Error::Api { status, message, detail }) && status == 404
                    && message@ == spec_not_found_message(self@) && opt_view(detail) == Some(
                    "verify the record has a pending approval assigned to this user"@,
                ),
            },
    {
        match first_sys_id(result) {
            Some(id) => {
                let mut path = owned("/api/now/table/sysapproval_approver");
                push_str(&mut path, "/");
                push_str(&mut path, id.as_str());
                let mut params: Vec<(String, String)> = Vec::new();
                push_param(&mut params, "sysparm_display_value", owned("true"));
                push_param(
                    &mut params,
                    "sysparm_fields",
                    owned("sys_id,sysapproval,approver,state,source_table,comments,sys_updated_on"),
                );
                assert(params_view(params@) =~= spec_update_params());
                let mut members: Vec<(String, JsonValue)> = Vec::new();
                members.push((owned("state"), JsonValue::String(owned(self.action.as_state()))));
                match &self.comment {
                    Some(c) => {
                        members.push((owned("comments"), JsonValue::String(c.clone())));
                    },
                    None => {},
                }
                ApprovalStep::Update { path, params, body: JsonValue::Object(members) }
            },
            None => {
                let mut message = owned("no pending approval found for ");
                push_str(&mut message, self.source_table.as_str());
                push_str(&mut message, " ");
                push_str(&mut message, self.record_sys_id.as_str());
                push_str(&mut message, " with approver ");
                push_str(&mut message, self.approver_sys_id.as_str());
                ApprovalStep::Failed(
                    Error::Api {
                        status: 404,
                        message,
                        detail: Some(owned("verify the record has a pending approval assigned to this user")),
                    },
                )
            },
        }
    }

    /// The updated approval record of the update's answer, read with display
    /// values; an API error when the answer is not a record.
    pub fn finish(&self, result: JsonValue) -> (r: Result<Record, Error>)
        ensures
            match result {
                JsonValue::Object(m) => r matches Ok(rec) && record_from(rec, "sysapproval_approver"@, m@, DisplayValue::Display),
                _ => r matches Err(Error::Api { status, message, detail }) && status == 200 && message@
                    == "failed to parse updated approval record from response"@ && detail.is_none(),
            },
    {
        match Record::from_json("sysapproval_approver", result, DisplayValue::Display) {
            Some(rec) => Ok(rec),
            None => Err(
                Error::Api {
                    status: 200,
                    message: owned("failed to parse updated approval record from response"),
                    detail: None,
                },
            ),
        }
    }
}

fn first_sys_id(result: &JsonValue) -> (r: Option<String>)
    ensures
        opt_view(r) == spec_first_sys_id(*result),
{
    match result {
        JsonValue::Array(items) => {
            if items.len() > 0 {
                match items[0].get("sys_id") {
                    Some(JsonValue::String(s)) => Some(s.clone()),
                    _ => None,
                }
            } else {
                None
            }
        },
        _ => None,
    }
}

} // verus!
