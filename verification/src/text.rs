//! Substring search, list membership and comma-separated lists over text.

use vstd::prelude::*;
use vstd::string::*;

verus! {

/// `needle` stands in `hay` at offset `i`.
pub open spec fn occurs_at(hay: Seq<char>, needle: Seq<char>, i: int) -> bool {
    0 <= i && i + needle.len() <= hay.len() && hay.subrange(i, i + needle.len()) == needle
}

/// `needle` stands somewhere in `hay`.
pub open spec fn has_substring(hay: Seq<char>, needle: Seq<char>) -> bool {
    exists|i: int| occurs_at(hay, needle, i)
}

/// Whether `needle` occurs in `hay` as a contiguous run of characters.
pub fn contains_text(hay: &str, needle: &str) -> (found: bool)
    ensures
        found == has_substring(hay@, needle@),
{
    let n: usize = hay.unicode_len();
    let m: usize = needle.unicode_len();
    if m > n {
        return false;
    }
    let mut i: usize = 0;
    while i <= n - m
        invariant
            m <= n,
            n == hay@.len(),
            m == needle@.len(),
            i <= n - m + 1,
            forall|k: int| 0 <= k < i ==> !occurs_at(hay@, needle@, k),
        decreases n - m + 1 - i,
    {
        let mut j: usize = 0;
        while j < m && hay.get_char(i + j) == needle.get_char(j)
            invariant
                j <= m,
                i + m <= n,
                n == hay@.len(),
                m == needle@.len(),
                forall|k: int| 0 <= k < j ==> hay@[i + k] == needle@[k],
            decreases m - j,
        {
            j += 1;
        }
        if j == m {
            assert(hay@.subrange(i as int, i + m) =~= needle@);
            assert(occurs_at(hay@, needle@, i as int));
            return true;
        }
        assert(hay@.subrange(i as int, i + m)[j as int] != needle@[j as int]);
        i += 1;
    }
    false
}

/// The views of a list of strings, item by item.
pub open spec fn views(items: Seq<String>) -> Seq<Seq<char>> {
    items.map_values(|s: String| s@)
}

/// Whether `item` equals one of the entries of `list`.
pub fn is_listed(list: &Vec<String>, item: &str) -> (found: bool)
    ensures
        found == views(list@).contains(item@),
{
    let mut i: usize = 0;
    while i < list.len()
        invariant
            i <= list.len(),
            forall|k: int| 0 <= k < i ==> list@[k]@ != item@,
        decreases list.len() - i,
    {
        if same_text(list[i].as_str(), item) {
            assert(views(list@)[i as int] == item@);
            return true;
        }
        i += 1;
    }
    assert forall|k: int| 0 <= k < views(list@).len() implies views(list@)[k] != item@ by {
        assert(views(list@)[k] == list@[k]@);
    }
    false
}

/// Whether two strings hold the same characters.
pub fn same_text(a: &str, b: &str) -> (same: bool)
    ensures
        same == (a@ == b@),
{
    let n: usize = a.unicode_len();
    if n != b.unicode_len() {
        return false;
    }
    let mut i: usize = 0;
    while i < n
        invariant
            i <= n,
            n == a@.len(),
            n == b@.len(),
            forall|k: int| 0 <= k < i ==> a@[k] == b@[k],
        decreases n - i,
    {
        if a.get_char(i) != b.get_char(i) {
            return false;
        }
        i += 1;
    }
    assert(a@ =~= b@);
    true
}

/// The pieces of `s` between its commas: one more than it has commas, the
/// empty text giving one empty piece.
pub open spec fn comma_split(s: Seq<char>) -> Seq<Seq<char>>
    decreases s.len(),
{
    if s.len() == 0 {
        seq![Seq::empty()]
    } else {
        let head = comma_split(s.drop_last());
        if s.last() == ',' {
            head.push(Seq::empty())
        } else {
            head.update(head.len() - 1, head.last().push(s.last()))
        }
    }
}

/// The items of `items` in a row, with a comma between neighbours.
pub open spec fn comma_joined(items: Seq<Seq<char>>) -> Seq<char>
    decreases items.len(),
{
    if items.len() == 0 {
        Seq::empty()
    } else if items.len() == 1 {
        items[0]
    } else {
        comma_joined(items.drop_last()) + seq![','] + items.last()
    }
}

/// Every text splits into at least one piece.
pub proof fn lemma_split_is_not_empty(s: Seq<char>)
    ensures
        comma_split(s).len() >= 1,
    decreases s.len(),
{
    if s.len() > 0 {
        lemma_split_is_not_empty(s.drop_last());
    }
}

/// No piece of a split holds a comma.
pub proof fn lemma_pieces_hold_no_comma(s: Seq<char>, k: int)
    requires
        0 <= k < comma_split(s).len(),
    ensures
        !comma_split(s)[k].contains(','),
    decreases s.len(),
{
    if s.len() > 0 {
        let head = comma_split(s.drop_last());
        lemma_split_is_not_empty(s.drop_last());
        if s.last() == ',' {
            if k < head.len() {
                lemma_pieces_hold_no_comma(s.drop_last(), k);
            }
        } else {
            lemma_pieces_hold_no_comma(s.drop_last(), k);
            if k == head.len() - 1 {
                let grown = head.last().push(s.last());
                assert forall|j: int| 0 <= j < grown.len() implies grown[j] != ',' by {
                    if j < head.last().len() {
                        assert(head.last().contains(head.last()[j]));
                    }
                }
            }
        }
    }
}

/// Joining the pieces of a text with commas gives the text back.
pub proof fn lemma_join_undoes_split(s: Seq<char>)
    ensures
        comma_joined(comma_split(s)) == s,
    decreases s.len(),
{
    if s.len() == 0 {
        assert(comma_joined(comma_split(s)) =~= s);
    } else {
        let before = s.drop_last();
        let head = comma_split(before);
        lemma_split_is_not_empty(before);
        lemma_join_undoes_split(before);
        assert(s =~= before.push(s.last()));
        if s.last() == ',' {
            let all = head.push(Seq::empty());
            assert(all.drop_last() =~= head);
            assert(comma_joined(all) =~= before + seq![',']);
        } else {
            let all = head.update(head.len() - 1, head.last().push(s.last()));
            if head.len() > 1 {
                assert(all.drop_last() =~= head.drop_last());
                assert(comma_joined(all) =~= comma_joined(head).push(s.last()));
            }
        }
    }
}

/// Cuts `s` at its commas. The pieces come in order; an empty piece stands
/// where two commas meet and where `s` begins or ends with one.
pub fn split_commas(s: &str) -> (parts: Vec<String>)
    ensures
        views(parts@) == comma_split(s@),
{
    let n: usize = s.unicode_len();
    let mut parts: Vec<String> = Vec::new();
    let mut start: usize = 0;
    let mut i: usize = 0;
    assert(s@.subrange(0, 0) =~= Seq::<char>::empty());
    assert(views(parts@).push(Seq::<char>::empty()) =~= seq![Seq::<char>::empty()]);
    while i < n
        invariant
            start <= i <= n,
            n == s@.len(),
            comma_split(s@.subrange(0, i as int)) == views(parts@).push(
                s@.subrange(start as int, i as int),
            ),
        decreases n - i,
    {
        let ghost done = views(parts@);
        let ghost piece = s@.subrange(start as int, i as int);
        proof {
            let next = s@.subrange(0, i + 1);
            assert(next.drop_last() =~= s@.subrange(0, i as int));
            assert(next.last() == s@[i as int]);
        }
        if s.get_char(i) == ',' {
            parts.push(String::from_str(s.substring_char(start, i)));
            start = i + 1;
            assert(views(parts@) =~= done.push(piece));
            assert(s@.subrange(start as int, i + 1) =~= Seq::<char>::empty());
        } else {
            assert(piece.push(s@[i as int]) =~= s@.subrange(start as int, i + 1));
            assert(done.push(piece).update(done.len() as int, piece.push(s@[i as int]))
                =~= done.push(piece.push(s@[i as int])));
        }
        i += 1;
    }
    let ghost done = views(parts@);
    parts.push(String::from_str(s.substring_char(start, n)));
    assert(views(parts@) =~= done.push(s@.subrange(start as int, n as int)));
    assert(s@.subrange(0, n as int) =~= s@);
    parts
}

/// Writes the items in a row, with a comma between neighbours.
pub fn join_commas(items: &Vec<String>) -> (line: String)
    ensures
        line@ == comma_joined(views(items@)),
{
    let mut line = String::new();
    let mut i: usize = 0;
    assert(views(items@).subrange(0, 0) =~= Seq::empty());
    while i < items.len()
        invariant
            i <= items.len(),
            line@ == comma_joined(views(items@).subrange(0, i as int)),
        decreases items.len() - i,
    {
        proof {
            let next = views(items@).subrange(0, i + 1);
            assert(next.drop_last() =~= views(items@).subrange(0, i as int));
            assert(next.last() == items@[i as int]@);
            reveal_strlit(",");
            assert(","@ =~= seq![',']);
        }
        if i > 0 {
            line.append(",");
        }
        line.append(items[i].as_str());
        assert(line@ =~= comma_joined(views(items@).subrange(0, i + 1)));
        i += 1;
    }
    assert(views(items@).subrange(0, i as int) =~= views(items@));
    line
}

} // verus!
