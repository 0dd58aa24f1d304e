use sheet_invite::invite::{pick_from_row, select_invites, InviteLists, RowError};
use sheet_invite::phone::format_phone;
use sheet_invite::text::{contains_text, is_listed, same_text};

fn list(items: &[&str]) -> Vec<String> {
    items.iter().map(|s| s.to_string()).collect()
}

#[test]
fn ten_digits_are_cut_three_four_rest() {
    assert_eq!(format_phone("0101234567"), Some("010-1234-567".to_string()));
}

#[test]
fn eleven_digits_are_cut_three_four_four() {
    assert_eq!(format_phone("01012345678"), Some("010-1234-5678".to_string()));
}

#[test]
fn seven_bytes_leave_an_empty_tail() {
    assert_eq!(format_phone("0101234"), Some("010-1234-".to_string()));
}

#[test]
fn letters_are_cut_like_digits() {
    assert_eq!(format_phone("abcdefgh"), Some("abc-defg-h".to_string()));
}

#[test]
fn a_cell_with_a_dash_is_kept() {
    assert_eq!(format_phone("010-3334444"), Some("010-3334444".to_string()));
    assert_eq!(format_phone("-"), Some("-".to_string()));
    assert_eq!(format_phone("010-1234-5678"), Some("010-1234-5678".to_string()));
}

#[test]
fn the_header_word_is_kept() {
    assert_eq!(format_phone("전화번호"), Some("전화번호".to_string()));
    assert_eq!(format_phone("내 전화번호는"), Some("내 전화번호는".to_string()));
}

#[test]
fn a_short_cell_cannot_be_cut() {
    assert_eq!(format_phone(""), None);
    assert_eq!(format_phone("010123"), None);
}

#[test]
fn a_cut_inside_a_character_is_refused() {
    // three bytes each: offsets 3, 6 and 9 are boundaries, 7 is not
    assert_eq!(format_phone("가나다라"), None);
    // offset 3 falls inside the second character
    assert_eq!(format_phone("ab가cdefgh"), None);
}

#[test]
fn a_cut_between_wide_characters_is_made() {
    assert_eq!(format_phone("가abcdxyz"), Some("가-abcd-xyz".to_string()));
}

#[test]
fn substring_search() {
    assert!(contains_text("x@hanyang.ac.kr", "hanyang"));
    assert!(contains_text("hanyang", "hanyang"));
    assert!(!contains_text("hanyan", "hanyang"));
    assert!(!contains_text("hany-ang", "hanyang"));
    assert!(contains_text("anything", ""));
    assert!(contains_text("", ""));
    assert!(!contains_text("", "a"));
    assert!(contains_text("aab", "ab"));
}

#[test]
fn list_membership_is_exact_match() {
    let l = list(&["1", "2"]);
    assert!(is_listed(&l, "2"));
    assert!(!is_listed(&l, "3"));
    assert!(!is_listed(&l, "12"));
    assert!(!is_listed(&list(&[]), ""));
    assert!(same_text("가나", "가나"));
    assert!(!same_text("가나", "가다"));
}

#[test]
fn membership_filter_correctness() {
    let phones = list(&["1", "2"]);
    let mails = list(&[]);
    let rows = vec![
        list(&["t", "p@other.com", "2", "", "", "0101234567"]),
        list(&["t", "q@other.com", "3", "", "", "0109999999"]),
    ];
    let out = select_invites(&rows, &phones, &mails).unwrap();
    assert_eq!(out.numbers, list(&["010-1234-567"]));
    assert_eq!(out.mails, list(&[]));
}

#[test]
fn email_filter_correctness() {
    let phones = list(&[]);
    let mails = list(&["a@hanyang.ac.kr", "c@other.com"]);
    let rows = vec![
        list(&["t", "a@hanyang.ac.kr", "1", "", "", "0101234567"]),
        list(&["t", "b@hanyang.ac.kr", "1", "", "", "0101234567"]),
        list(&["t", "c@other.com", "1", "", "", "0101234567"]),
        list(&["t", "d@other.com", "1", "", "", "0101234567"]),
    ];
    let out = select_invites(&rows, &phones, &mails).unwrap();
    assert_eq!(out.mails, list(&["b@hanyang.ac.kr"]));
    assert_eq!(out.numbers, list(&[]));
}

#[test]
fn end_to_end_scenario() {
    let rows = vec![
        list(&["", "x@hanyang.ac.kr", "2", "", "", "0101112222"]),
        list(&["", "y@other.com", "9", "", "", "010-3334444"]),
    ];
    let out = select_invites(&rows, &list(&["2"]), &list(&[])).unwrap();
    assert_eq!(
        out,
        InviteLists { numbers: list(&["010-1112-222"]), mails: list(&["x@hanyang.ac.kr"]) }
    );
}

#[test]
fn order_and_duplicates_are_kept() {
    let rows = vec![
        list(&["", "b@hanyang.ac.kr", "7", "", "", "01022223333"]),
        list(&["", "a@hanyang.ac.kr", "7", "", "", "010-1"]),
        list(&["", "b@hanyang.ac.kr", "7", "", "", "01022223333"]),
    ];
    let out = select_invites(&rows, &list(&["7"]), &list(&[])).unwrap();
    assert_eq!(out.numbers, list(&["010-2222-3333", "010-1", "010-2222-3333"]));
    assert_eq!(out.mails, list(&["b@hanyang.ac.kr", "a@hanyang.ac.kr", "b@hanyang.ac.kr"]));
}

#[test]
fn a_header_row_passes_through() {
    let rows = vec![list(&["Timestamp", "Email", "학번", "이름", "학과", "전화번호"])];
    let out = select_invites(&rows, &list(&["학번"]), &list(&[])).unwrap();
    assert_eq!(out.numbers, list(&["전화번호"]));
    assert_eq!(out.mails, list(&[]));
}

#[test]
fn no_rows_give_empty_lists() {
    let out = select_invites(&vec![], &list(&["1"]), &list(&[])).unwrap();
    assert_eq!(out, InviteLists { numbers: vec![], mails: vec![] });
}

#[test]
fn a_short_row_aborts_the_pass() {
    let rows = vec![
        list(&["", "x@hanyang.ac.kr", "2", "", "", "0101112222"]),
        list(&["", "y@hanyang.ac.kr", "2", "", ""]),
        list(&["", "z@hanyang.ac.kr", "2", "", "", "0101112222"]),
    ];
    assert_eq!(
        select_invites(&rows, &list(&["2"]), &list(&[])),
        Err(RowError::ShortRow { row: 1 })
    );
    assert_eq!(
        select_invites(&vec![vec![]], &list(&[]), &list(&[])),
        Err(RowError::ShortRow { row: 0 })
    );
}

#[test]
fn a_bad_phone_aborts_even_where_the_row_is_not_picked() {
    let rows = vec![
        list(&["", "x@other.com", "2", "", "", "0101112222"]),
        list(&["", "y@other.com", "9", "", "", "01011"]),
    ];
    assert_eq!(
        select_invites(&rows, &list(&["2"]), &list(&[])),
        Err(RowError::BadPhone { row: 1 })
    );
}

#[test]
fn the_first_fault_is_reported() {
    let rows = vec![
        list(&["", "", "", "", "", "123"]),
        list(&["", "", ""]),
    ];
    assert_eq!(
        select_invites(&rows, &list(&[]), &list(&[])),
        Err(RowError::BadPhone { row: 0 })
    );
}

#[test]
fn one_row_gives_both_picks() {
    let row = list(&["", "x@hanyang.ac.kr", "2", "", "", "0101112222", "extra"]);
    let pick = pick_from_row(&row, &list(&["2"]), &list(&[]), 4).unwrap();
    assert_eq!(pick.number, Some("010-1112-222".to_string()));
    assert_eq!(pick.mail, Some("x@hanyang.ac.kr".to_string()));
    let none = pick_from_row(&row, &list(&["3"]), &list(&["x@hanyang.ac.kr"]), 4).unwrap();
    assert_eq!(none.number, None);
    assert_eq!(none.mail, None);
    assert_eq!(
        pick_from_row(&list(&["a"]), &list(&[]), &list(&[]), 4),
        Err(RowError::ShortRow { row: 4 })
    );
}
