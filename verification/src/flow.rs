//! The order of a run: mint and post the assertion, read the bearer token
//! and ask for the sheet, filter the rows. The caller performs each action
//! and hands back what came of it.

use vstd::prelude::*;
use vstd::string::*;
use crate::invite::{
    first_fault, picked_mails, picked_numbers, row_ok, select_invites, sheet_cells, InviteLists,
    RowError,
};
use crate::sheet::{form_responses_range, sheet_values_url, values_url};
use crate::text::views;
use crate::token::{
    bearer_of, bearer_token, mint_assertion, minted, readonly_scope, token_request,
    ServiceAccountCredential, TokenError, TokenRequest,
};

verus! {

/// The two lists that rows are matched against.
#[derive(Debug, Clone, PartialEq, Eq)]
pub struct FilterLists {
    pub phones: Vec<String>,
    pub mails: Vec<String>,
}

/// How far a run has come.
#[derive(Debug, Clone, Copy, PartialEq, Eq)]
pub enum Stage {
    Start,
    TokenRequested,
    RowsRequested,
    Finished,
}

/// What the caller hands in.
#[derive(Debug, Clone, PartialEq, Eq)]
pub enum Event {
    /// The key file was read, at `now` seconds since the epoch.
    Begin { credential: ServiceAccountCredential, now: u64 },
    /// The token endpoint answered with `body`; the sheet to read is
    /// `spreadsheet_id`.
    TokenAnswer { body: Vec<u8>, spreadsheet_id: String },
    /// The sheet's values arrived.
    SheetAnswer { rows: Vec<Vec<String>> },
}

/// The authorised request for the sheet's values.
#[derive(Debug, Clone, PartialEq, Eq)]
pub struct SheetRequest {
    pub url: String,
    pub bearer: String,
}

/// Why a run ended without lists.
#[derive(Debug, Clone, Copy, PartialEq, Eq)]
pub enum RunError {
    Token(TokenError),
    Row(RowError),
    /// The event does not belong to the stage.
    OutOfTurn,
}

/// What the caller does next.
#[derive(Debug, Clone, PartialEq, Eq)]
pub enum Action {
    PostToken(TokenRequest),
    GetSheet(SheetRequest),
    Report(InviteLists),
    Abort(RunError),
}

/// The action that begins a run: post the minted assertion, or abort with
/// the reason for which none was minted.
pub open spec fn begins(credential: ServiceAccountCredential, now: u64, action: Action) -> bool {
    match minted(credential, "https://www.googleapis.com/auth/spreadsheets.readonly"@, now) {
        Ok(t) => action matches Action::PostToken(req) && req.url@
            == credential.token_endpoint_url@ && req.grant_type@
            == "urn:ietf:params:oauth:grant-type:jwt-bearer"@ && req.assertion@ == t,
        Err(e) => action == Action::Abort(RunError::Token(e)),
    }
}

/// The action that follows the token endpoint's answer: ask for the sheet
/// with the bearer token, or abort where the answer holds none.
pub open spec fn follows_token(body: Seq<u8>, spreadsheet_id: Seq<char>, action: Action) -> bool {
    match bearer_of(body) {
        Ok(t) => action matches Action::GetSheet(req) && req.url@ == values_url(
            spreadsheet_id,
            "Form Responses 1!A1:Z600"@,
        ) && req.bearer@ == t,
        Err(e) => action == Action::Abort(RunError::Token(e)),
    }
}

/// The action that follows the sheet's values: report the picks where every
/// row is in order, else abort with the first fault.
pub open spec fn follows_rows(rows: Seq<Seq<Seq<char>>>, lists: FilterLists, action: Action) -> bool {
    if forall|i: int| 0 <= i < rows.len() ==> row_ok(#[trigger] rows[i]) {
        action matches Action::Report(found) && views(found.numbers@) == picked_numbers(
            rows,
            views(lists.phones@),
        ) && views(found.mails@) == picked_mails(rows, views(lists.mails@))
    } else {
        action matches Action::Abort(RunError::Row(e)) && first_fault(rows, e)
    }
}

/// The stage after `action`.
pub open spec fn stage_after(action: Action) -> Stage {
    match action {
        Action::PostToken(_) => Stage::TokenRequested,
        Action::GetSheet(_) => Stage::RowsRequested,
        Action::Report(_) => Stage::Finished,
        Action::Abort(_) => Stage::Finished,
    }
}

/// Takes one step of a run. Each stage accepts one kind of event; any other
/// ends the run with `OutOfTurn`. No error is retried: the first one ends
/// the run.
pub fn advance(stage: Stage, event: Event, lists: &FilterLists) -> (out: (Stage, Action))
    ensures
        out.0 == stage_after(out.1),
        match (stage, event) {
            (Stage::Start, Event::Begin { credential, now }) => begins(credential, now, out.1),
            (Stage::TokenRequested, Event::TokenAnswer { body, spreadsheet_id }) => follows_token(
                body@,
                spreadsheet_id@,
                out.1,
            ),
            (Stage::RowsRequested, Event::SheetAnswer { rows }) => follows_rows(
                sheet_cells(rows@),
                *lists,
                out.1,
            ),
            _ => out.1 == Action::Abort(RunError::OutOfTurn),
        },
{
    match (stage, event) {
        (Stage::Start, Event::Begin { credential, now }) => {
            match mint_assertion(&credential, readonly_scope(), now) {
                Ok(assertion) => (
                    Stage::TokenRequested,
                    Action::PostToken(token_request(&credential, assertion)),
                ),
                Err(e) => (Stage::Finished, Action::Abort(RunError::Token(e))),
            }
        },
        (Stage::TokenRequested, Event::TokenAnswer { body, spreadsheet_id }) => {
            match bearer_token(body.as_slice()) {
                Ok(bearer) => {
                    let url = sheet_values_url(spreadsheet_id.as_str(), form_responses_range());
                    (Stage::RowsRequested, Action::GetSheet(SheetRequest { url, bearer }))
                },
                Err(e) => (Stage::Finished, Action::Abort(RunError::Token(e))),
            }
        },
        (Stage::RowsRequested, Event::SheetAnswer { rows }) => {
            match select_invites(&rows, &lists.phones, &lists.mails) {
                Ok(found) => (Stage::Finished, Action::Report(found)),
                Err(e) => (Stage::Finished, Action::Abort(RunError::Row(e))),
            }
        },
        _ => (Stage::Finished, Action::Abort(RunError::OutOfTurn)),
    }
}

} // verus!
