//! One pass over the sheet's rows that collects whom to invite.

use vstd::prelude::*;
use vstd::string::*;
use crate::phone::{format_phone, formatted};
use crate::text::{contains_text, has_substring, is_listed, views};

verus! {

/// Column of the e-mail address.
pub const MAIL_COLUMN: usize = 1;

/// Column of the identifier that the phone list is matched against.
pub const ID_COLUMN: usize = 2;

/// Column of the phone cell.
pub const PHONE_COLUMN: usize = 5;

/// Number of cells that a row must hold.
pub const ROW_WIDTH: usize = 6;

/// Why a sheet could not be processed. `row` counts from zero.
#[derive(Debug, Clone, Copy, PartialEq, Eq)]
pub enum RowError {
    /// The row holds fewer than six cells.
    ShortRow { row: usize },
    /// The phone cell holds neither a dash nor the header word, and cannot
    /// be cut after its third and seventh byte.
    BadPhone { row: usize },
}

/// The two lists that a pass over the sheet yields, in row order.
#[derive(Debug, Clone, PartialEq, Eq)]
pub struct InviteLists {
    pub numbers: Vec<String>,
    pub mails: Vec<String>,
}

/// What one row contributes: a phone number, an e-mail address, both or
/// neither.
#[derive(Debug, Clone, PartialEq, Eq)]
pub struct RowPick {
    pub number: Option<String>,
    pub mail: Option<String>,
}

/// The cells of each row, as text.
pub open spec fn sheet_cells(rows: Seq<Vec<String>>) -> Seq<Seq<Seq<char>>> {
    rows.map_values(|r: Vec<String>| views(r@))
}

/// The row is wide enough and its phone cell can be formatted.
pub open spec fn row_ok(row: Seq<Seq<char>>) -> bool {
    row.len() >= ROW_WIDTH && formatted(row[PHONE_COLUMN as int]).is_some()
}

/// The formatted phone number of a row whose identifier is on the phone list.
pub open spec fn number_pick(row: Seq<Seq<char>>, phones: Seq<Seq<char>>) -> Option<Seq<char>> {
    if phones.contains(row[ID_COLUMN as int]) {
        formatted(row[PHONE_COLUMN as int])
    } else {
        None
    }
}

/// The address of a row that carries the domain marker and is not on the
/// mail list.
pub open spec fn mail_pick(row: Seq<Seq<char>>, mails: Seq<Seq<char>>) -> Option<Seq<char>> {
    if !mails.contains(row[MAIL_COLUMN as int]) && has_substring(
        row[MAIL_COLUMN as int],
        "hanyang"@,
    ) {
        Some(row[MAIL_COLUMN as int])
    } else {
        None
    }
}

/// `list` with `pick` behind it, where there is one.
pub open spec fn with_pick(list: Seq<Seq<char>>, pick: Option<Seq<char>>) -> Seq<Seq<char>> {
    match pick {
        Some(p) => list.push(p),
        None => list,
    }
}

/// The phone numbers picked from `rows`, in row order, duplicates kept.
pub open spec fn picked_numbers(rows: Seq<Seq<Seq<char>>>, phones: Seq<Seq<char>>) -> Seq<
    Seq<char>,
>
    decreases rows.len(),
{
    if rows.len() == 0 {
        Seq::empty()
    } else {
        with_pick(picked_numbers(rows.drop_last(), phones), number_pick(rows.last(), phones))
    }
}

/// The addresses picked from `rows`, in row order, duplicates kept.
pub open spec fn picked_mails(rows: Seq<Seq<Seq<char>>>, mails: Seq<Seq<char>>) -> Seq<Seq<char>>
    decreases rows.len(),
{
    if rows.len() == 0 {
        Seq::empty()
    } else {
        with_pick(picked_mails(rows.drop_last(), mails), mail_pick(rows.last(), mails))
    }
}

/// The view of an optional string.
pub open spec fn pick_view(pick: Option<String>) -> Option<Seq<char>> {
    match pick {
        Some(s) => Some(s@),
        None => None,
    }
}

/// Judges one row. `at` is the row's position, reported in the error.
pub fn pick_from_row(row: &Vec<String>, phones: &Vec<String>, mails: &Vec<String>, at: usize) -> (out:
    Result<RowPick, RowError>)
    ensures
        out.is_ok() == row_ok(views(row@)),
        out matches Ok(p) ==> pick_view(p.number) == number_pick(views(row@), views(phones@))
            && pick_view(p.mail) == mail_pick(views(row@), views(mails@)),
        out matches Err(e) ==> e == (if row.len() < ROW_WIDTH {
            RowError::ShortRow { row: at }
        } else {
            RowError::BadPhone { row: at }
        }),
{
    if row.len() < ROW_WIDTH {
        return Err(RowError::ShortRow { row: at });
    }
    let ghost cells = views(row@);
    assert(cells[PHONE_COLUMN as int] == row@[PHONE_COLUMN as int]@);
    assert(cells[ID_COLUMN as int] == row@[ID_COLUMN as int]@);
    assert(cells[MAIL_COLUMN as int] == row@[MAIL_COLUMN as int]@);
    let phone = match format_phone(row[PHONE_COLUMN].as_str()) {
        Some(p) => p,
        None => {
            return Err(RowError::BadPhone { row: at });
        },
    };
    let number = if is_listed(phones, row[ID_COLUMN].as_str()) {
        Some(phone)
    } else {
        None
    };
    let address = row[MAIL_COLUMN].as_str();
    let mail = if !is_listed(mails, address) && contains_text(address, "hanyang") {
        Some(String::from_str(address))
    } else {
        None
    };
    Ok(RowPick { number, mail })
}

/// Walks the rows once, in order. A row whose identifier (third cell) is on
/// `phones` gives its formatted phone cell (sixth cell); a row whose address
/// (second cell) holds the domain marker and is not on `mails` gives that
/// address. The first row that is too short, or whose phone cell cannot be
/// formatted, ends the pass with an error and no lists.
pub fn select_invites(rows: &Vec<Vec<String>>, phones: &Vec<String>, mails: &Vec<String>) -> (out:
    Result<InviteLists, RowError>)
    ensures
        out.is_ok() == (forall|i: int| 0 <= i < rows.len() ==> row_ok(#[trigger] sheet_cells(rows@)[i])),
        out matches Ok(lists) ==> views(lists.numbers@) == picked_numbers(
            sheet_cells(rows@),
            views(phones@),
        ) && views(lists.mails@) == picked_mails(sheet_cells(rows@), views(mails@)),
        out matches Err(e) ==> first_fault(sheet_cells(rows@), e),
        (exists|i: int| 0 <= i < rows.len() && (#[trigger] rows@[i]).len() < ROW_WIDTH)
            ==> out.is_err(),
{
    proof {
        if exists|i: int| 0 <= i < rows.len() && (#[trigger] rows@[i]).len() < ROW_WIDTH {
            let i = choose|i: int| 0 <= i < rows.len() && (#[trigger] rows@[i]).len() < ROW_WIDTH;
            assert(!row_ok(sheet_cells(rows@)[i]));
        }
    }
    let mut numbers: Vec<String> = Vec::new();
    let mut found: Vec<String> = Vec::new();
    let ghost cells = sheet_cells(rows@);
    let mut i: usize = 0;
    assert(cells.subrange(0, 0) =~= Seq::empty());
    assert(views(numbers@) =~= Seq::empty());
    assert(views(found@) =~= Seq::empty());
    while i < rows.len()
        invariant
            i <= rows.len(),
            cells == sheet_cells(rows@),
            forall|k: int| 0 <= k < i ==> row_ok(#[trigger] cells[k]),
            views(numbers@) == picked_numbers(cells.subrange(0, i as int), views(phones@)),
            views(found@) == picked_mails(cells.subrange(0, i as int), views(mails@)),
        decreases rows.len() - i,
    {
        assert(cells[i as int] == views(rows@[i as int]@));
        let ghost before_numbers = views(numbers@);
        let ghost before_mails = views(found@);
        match pick_from_row(&rows[i], phones, mails, i) {
            Err(e) => {
                return Err(e);
            },
            Ok(pick) => {
                if let Some(n) = pick.number {
                    numbers.push(n);
                    assert(views(numbers@) =~= before_numbers.push(n@));
                }
                if let Some(m) = pick.mail {
                    found.push(m);
                    assert(views(found@) =~= before_mails.push(m@));
                }
            },
        }
        proof {
            let next = cells.subrange(0, i + 1);
            assert(next.drop_last() =~= cells.subrange(0, i as int));
            assert(next.last() == cells[i as int]);
        }
        i += 1;
    }
    assert(cells.subrange(0, i as int) =~= cells);
    Ok(InviteLists { numbers, mails: found })
}

/// `e` names the first row of `rows` that is not in order, and says what is
/// wrong with it.
pub open spec fn first_fault(rows: Seq<Seq<Seq<char>>>, e: RowError) -> bool {
    match e {
        RowError::ShortRow { row } => {
            &&& row < rows.len()
            &&& forall|k: int| 0 <= k < row ==> row_ok(#[trigger] rows[k])
            &&& rows[row as int].len() < ROW_WIDTH
        },
        RowError::BadPhone { row } => {
            &&& row < rows.len()
            &&& forall|k: int| 0 <= k < row ==> row_ok(#[trigger] rows[k])
            &&& rows[row as int].len() >= ROW_WIDTH
            &&& formatted(rows[row as int][PHONE_COLUMN as int]).is_none()
        },
    }
}

/// A number is among the picked numbers exactly where some row gives it.
pub proof fn lemma_numbers_come_from_rows(
    rows: Seq<Seq<Seq<char>>>,
    phones: Seq<Seq<char>>,
    n: Seq<char>,
)
    ensures
        picked_numbers(rows, phones).contains(n) <==> exists|k: int|
            0 <= k < rows.len() && number_pick(#[trigger] rows[k], phones) == Some(n),
    decreases rows.len(),
{
    if rows.len() > 0 {
        let head = rows.drop_last();
        let before = picked_numbers(head, phones);
        let all = picked_numbers(rows, phones);
        let last = rows.len() - 1;
        lemma_numbers_come_from_rows(head, phones, n);
        if all.contains(n) {
            let j = choose|j: int| 0 <= j < all.len() && all[j] == n;
            if j < before.len() {
                assert(before[j] == n);
                assert(before.contains(n));
                let k = choose|k: int|
                    0 <= k < head.len() && number_pick(#[trigger] head[k], phones) == Some(n);
                assert(number_pick(rows[k], phones) == Some(n));
            } else {
                assert(number_pick(rows[last], phones) == Some(n));
            }
        }
        if exists|k: int|
            0 <= k < rows.len() && number_pick(#[trigger] rows[k], phones) == Some(n) {
            let k = choose|k: int|
                0 <= k < rows.len() && number_pick(#[trigger] rows[k], phones) == Some(n);
            if k == last {
                assert(all == before.push(n));
                assert(all[before.len() as int] == n);
            } else {
                assert(number_pick(head[k], phones) == Some(n));
                assert(before.contains(n));
                let j = choose|j: int| 0 <= j < before.len() && before[j] == n;
                assert(all[j] == n);
            }
        }
    }
}

/// An address is among the picked addresses exactly where some row gives it.
pub proof fn lemma_mails_come_from_rows(
    rows: Seq<Seq<Seq<char>>>,
    mails: Seq<Seq<char>>,
    m: Seq<char>,
)
    ensures
        picked_mails(rows, mails).contains(m) <==> exists|k: int|
            0 <= k < rows.len() && mail_pick(#[trigger] rows[k], mails) == Some(m),
    decreases rows.len(),
{
    if rows.len() > 0 {
        let head = rows.drop_last();
        let before = picked_mails(head, mails);
        let all = picked_mails(rows, mails);
        let last = rows.len() - 1;
        lemma_mails_come_from_rows(head, mails, m);
        if all.contains(m) {
            let j = choose|j: int| 0 <= j < all.len() && all[j] == m;
            if j < before.len() {
                assert(before[j] == m);
                assert(before.contains(m));
                let k = choose|k: int|
                    0 <= k < head.len() && mail_pick(#[trigger] head[k], mails) == Some(m);
                assert(mail_pick(rows[k], mails) == Some(m));
            } else {
                assert(mail_pick(rows[last], mails) == Some(m));
            }
        }
        if exists|k: int| 0 <= k < rows.len() && mail_pick(#[trigger] rows[k], mails) == Some(m) {
            let k = choose|k: int|
                0 <= k < rows.len() && mail_pick(#[trigger] rows[k], mails) == Some(m);
            if k == last {
                assert(all == before.push(m));
                assert(all[before.len() as int] == m);
            } else {
                assert(mail_pick(head[k], mails) == Some(m));
                assert(before.contains(m));
                let j = choose|j: int| 0 <= j < before.len() && before[j] == m;
                assert(all[j] == m);
            }
        }
    }
}

/// Every picked address holds the domain marker and is not on the mail
/// list.
pub proof fn lemma_picked_mails_are_wanted(
    rows: Seq<Seq<Seq<char>>>,
    mails: Seq<Seq<char>>,
    m: Seq<char>,
)
    requires
        picked_mails(rows, mails).contains(m),
    ensures
        has_substring(m, "hanyang"@),
        !mails.contains(m),
{
    lemma_mails_come_from_rows(rows, mails, m);
}

/// Neither list is longer than the sheet.
pub proof fn lemma_picks_are_bounded(
    rows: Seq<Seq<Seq<char>>>,
    phones: Seq<Seq<char>>,
    mails: Seq<Seq<char>>,
)
    ensures
        picked_numbers(rows, phones).len() <= rows.len(),
        picked_mails(rows, mails).len() <= rows.len(),
    decreases rows.len(),
{
    if rows.len() > 0 {
        lemma_picks_are_bounded(rows.drop_last(), phones, mails);
    }
}

} // verus!
