use sheet_invite::flow::{advance, Action, Event, FilterLists, RunError, SheetRequest, Stage};
use sheet_invite::invite::{InviteLists, RowError};
use sheet_invite::text::{join_commas, split_commas};
use sheet_invite::token::{ServiceAccountCredential, TokenError};

fn list(items: &[&str]) -> Vec<String> {
    items.iter().map(|s| s.to_string()).collect()
}

fn lists(phones: &[&str], mails: &[&str]) -> FilterLists {
    FilterLists { phones: list(phones), mails: list(mails) }
}

fn account(pem: &str) -> ServiceAccountCredential {
    ServiceAccountCredential {
        private_key_pem: pem.to_string(),
        client_email: "robot@project.iam.gserviceaccount.com".to_string(),
        token_endpoint_url: "https://oauth2.googleapis.com/token".to_string(),
    }
}

#[test]
fn commas_cut_a_list() {
    assert_eq!(split_commas("1,2"), list(&["1", "2"]));
    assert_eq!(split_commas("a@hanyang.ac.kr"), list(&["a@hanyang.ac.kr"]));
    assert_eq!(split_commas(" a , b "), list(&[" a ", " b "]));
}

#[test]
fn empty_pieces_are_kept() {
    assert_eq!(split_commas(""), list(&[""]));
    assert_eq!(split_commas(","), list(&["", ""]));
    assert_eq!(split_commas(",a,,b,"), list(&["", "a", "", "b", ""]));
}

#[test]
fn wide_characters_are_cut_whole() {
    assert_eq!(split_commas("가,나다,라"), list(&["가", "나다", "라"]));
}

#[test]
fn joining_puts_commas_between() {
    assert_eq!(join_commas(&list(&[])), "");
    assert_eq!(join_commas(&list(&["a"])), "a");
    assert_eq!(join_commas(&list(&["a", "b", "c"])), "a,b,c");
    assert_eq!(join_commas(&list(&["", ""])), ",");
    assert_eq!(join_commas(&list(&["010-1112-222", "전화번호"])), "010-1112-222,전화번호");
}

#[test]
fn joining_undoes_splitting() {
    for s in ["", ",", "a,b", ",,x,", "no comma", "가,나"] {
        assert_eq!(join_commas(&split_commas(s)), s);
    }
}

#[test]
fn a_bad_key_ends_the_run_at_once() {
    let (stage, action) = advance(
        Stage::Start,
        Event::Begin { credential: account("not a key"), now: 1_700_000_000 },
        &lists(&[], &[]),
    );
    assert_eq!(stage, Stage::Finished);
    assert_eq!(action, Action::Abort(RunError::Token(TokenError::Signing)));
}

#[test]
fn a_clock_at_the_end_of_time_ends_the_run() {
    let (stage, action) = advance(
        Stage::Start,
        Event::Begin { credential: account("not a key"), now: u64::MAX - 3599 },
        &lists(&[], &[]),
    );
    assert_eq!(stage, Stage::Finished);
    assert_eq!(action, Action::Abort(RunError::Token(TokenError::ClockOutOfRange)));
}

#[test]
fn the_token_answer_leads_to_the_sheet_request() {
    let (stage, action) = advance(
        Stage::TokenRequested,
        Event::TokenAnswer {
            body: br#"{"access_token":"tok-x","token_type":"Bearer"}"#.to_vec(),
            spreadsheet_id: "sheet-1".to_string(),
        },
        &lists(&[], &[]),
    );
    assert_eq!(stage, Stage::RowsRequested);
    assert_eq!(
        action,
        Action::GetSheet(SheetRequest {
            url: "https://sheets.googleapis.com/v4/spreadsheets/sheet-1/values/Form%20Responses%201%21A1%3AZ600"
                .to_string(),
            bearer: "tok-x".to_string(),
        })
    );
}

#[test]
fn a_token_answer_without_token_ends_the_run() {
    let (stage, action) = advance(
        Stage::TokenRequested,
        Event::TokenAnswer { body: b"{}".to_vec(), spreadsheet_id: "s".to_string() },
        &lists(&[], &[]),
    );
    assert_eq!(stage, Stage::Finished);
    assert_eq!(action, Action::Abort(RunError::Token(TokenError::MissingAccessToken)));
    let (_, action) = advance(
        Stage::TokenRequested,
        Event::TokenAnswer { body: b"oops".to_vec(), spreadsheet_id: "s".to_string() },
        &lists(&[], &[]),
    );
    assert_eq!(action, Action::Abort(RunError::Token(TokenError::MalformedResponse)));
}

#[test]
fn the_rows_lead_to_the_report() {
    let rows = vec![
        list(&["", "x@hanyang.ac.kr", "2", "", "", "0101112222"]),
        list(&["", "y@other.com", "9", "", "", "010-3334444"]),
    ];
    let (stage, action) =
        advance(Stage::RowsRequested, Event::SheetAnswer { rows }, &lists(&["2"], &[]));
    assert_eq!(stage, Stage::Finished);
    assert_eq!(
        action,
        Action::Report(InviteLists {
            numbers: list(&["010-1112-222"]),
            mails: list(&["x@hanyang.ac.kr"]),
        })
    );
}

#[test]
fn a_short_row_ends_the_run() {
    let rows = vec![list(&["", "x@hanyang.ac.kr", "2"])];
    let (stage, action) =
        advance(Stage::RowsRequested, Event::SheetAnswer { rows }, &lists(&["2"], &[]));
    assert_eq!(stage, Stage::Finished);
    assert_eq!(action, Action::Abort(RunError::Row(RowError::ShortRow { row: 0 })));
}

#[test]
fn an_event_out_of_turn_ends_the_run() {
    let none = lists(&[], &[]);
    let (stage, action) = advance(Stage::Start, Event::SheetAnswer { rows: vec![] }, &none);
    assert_eq!(stage, Stage::Finished);
    assert_eq!(action, Action::Abort(RunError::OutOfTurn));
    let (_, action) = advance(Stage::Finished, Event::SheetAnswer { rows: vec![] }, &none);
    assert_eq!(action, Action::Abort(RunError::OutOfTurn));
    let (_, action) = advance(
        Stage::RowsRequested,
        Event::TokenAnswer { body: b"{}".to_vec(), spreadsheet_id: String::new() },
        &none,
    );
    assert_eq!(action, Action::Abort(RunError::OutOfTurn));
    let (_, action) = advance(
        Stage::TokenRequested,
        Event::Begin { credential: account(""), now: 0 },
        &none,
    );
    assert_eq!(action, Action::Abort(RunError::OutOfTurn));
}
