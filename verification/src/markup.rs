//! The markup of the numbered list, and what holds of its entries.

use crate::text::{decimal, is_digit, lemma_decimal_is_digits};
use vstd::prelude::*;

verus! {

/// One entry of the numbered list, with its indentation and line end.
pub open spec fn list_item(i: nat) -> Seq<char> {
    "  <li>Item number: "@ + decimal(i) + "</li>\n"@
}

/// The entries `1` to `n` of the numbered list, in ascending order.
pub open spec fn list_items(n: nat) -> Seq<char>
    decreases n,
{
    if n == 0 {
        Seq::empty()
    } else {
        list_items((n - 1) as nat) + list_item(n)
    }
}

/// The ordered list of `n` entries.
pub open spec fn list_markup(n: nat) -> Seq<char> {
    "<ol>\n"@ + list_items(n) + "</ol>"@
}

/// Whether `needle` stands in `hay` at position `at`.
pub open spec fn occurs_at(hay: Seq<char>, needle: Seq<char>, at: int) -> bool {
    &&& 0 <= at
    &&& at + needle.len() <= hay.len()
    &&& hay.subrange(at, at + needle.len()) == needle
}

/// Where the entry for `i` starts in a list that holds it.
pub open spec fn entry_start(i: nat) -> int {
    ("<ol>\n"@.len() + list_items((i - 1) as nat).len()) as int
}

/// Whether `"<li>"` stands in `s` at position `at`, character by character.
spec fn opens_at(s: Seq<char>, at: int) -> bool {
    &&& 0 <= at
    &&& at + 4 <= s.len()
    &&& s[at] == '<'
    &&& s[at + 1] == 'l'
    &&& s[at + 2] == 'i'
    &&& s[at + 3] == '>'
}

proof fn lemma_opens_at(s: Seq<char>, at: int)
    ensures
        occurs_at(s, "<li>"@, at) <==> opens_at(s, at),
{
    reveal_strlit("<li>");
    let li = "<li>"@;
    if occurs_at(s, li, at) {
        let sub = s.subrange(at, at + 4);
        assert(sub[0] == li[0] && sub[1] == li[1] && sub[2] == li[2] && sub[3] == li[3]);
    }
    if opens_at(s, at) {
        assert(s.subrange(at, at + 4) =~= li);
    }
}

/// Across a seam before a character that `"<li>"` does not hold past its
/// first, the tag opens where it opens in either part.
proof fn lemma_opens_in_concat(a: Seq<char>, b: Seq<char>, at: int)
    requires
        b.len() > 0,
        b[0] != 'l' && b[0] != 'i' && b[0] != '>',
    ensures
        opens_at(a + b, at) <==> opens_at(a, at) || opens_at(b, at - a.len()),
{
    let s = a + b;
    if opens_at(s, at) {
        if at + 4 <= a.len() {
            assert(opens_at(a, at));
        } else if at >= a.len() {
            assert(opens_at(b, at - a.len()));
        } else {
            assert(s[a.len() as int] == b[0]);
        }
    }
}

/// In one entry the tag opens once, behind the indentation.
proof fn lemma_opens_in_item(i: nat, at: int)
    ensures
        opens_at(list_item(i), at) <==> at == 2,
        list_item(i).len() == 25 + decimal(i).len(),
        list_item(i)[0] == ' ',
{
    reveal_strlit("  <li>Item number: ");
    reveal_strlit("</li>\n");
    lemma_decimal_is_digits(i);
    let head = "  <li>Item number: "@;
    let digits = decimal(i);
    let tail = "</li>\n"@;
    let item = list_item(i);
    assert(head.len() == 19 && tail.len() == 6);
    assert(item.len() == 25 + digits.len());
    assert forall|k: int| 0 <= k < 19 implies item[k] == head[k] by {}
    assert forall|k: int| 19 <= k < 19 + digits.len() implies is_digit(#[trigger] item[k]) by {
        assert(item[k] == digits[k - 19]);
    }
    assert forall|k: int| 0 <= k < 6 implies item[19 + digits.len() + k] == tail[k] by {}
    if at == 2 {
        assert(item[2] == head[2] && item[3] == head[3] && item[4] == head[4] && item[5]
            == head[5]);
    } else if opens_at(item, at) {
        if at < 19 {
            assert(item[at] == head[at]);
        } else if at < 19 + digits.len() {
            assert(is_digit(item[at]));
        } else {
            let k = at - 19 - digits.len();
            assert(item[at] == tail[k]);
            assert(k == 0);
            assert(item[at + 1] == tail[1]);
        }
    }
}

/// In the opening line and the entries `1` to `n` the tag opens at the
/// entries, and nowhere else.
proof fn lemma_opens_in_items(n: nat, at: int)
    ensures
        opens_at("<ol>\n"@ + list_items(n), at) <==> exists|i: nat|
            1 <= i <= n && at == #[trigger] entry_start(i) + 2,
    decreases n,
{
    reveal_strlit("<ol>\n");
    let head = "<ol>\n"@;
    if n == 0 {
        assert(head + list_items(0) =~= head);
    } else {
        let before = head + list_items((n - 1) as nat);
        lemma_opens_in_items((n - 1) as nat, at);
        lemma_opens_in_item(n, at - before.len());
        lemma_opens_in_concat(before, list_item(n), at);
        assert(before + list_item(n) =~= head + list_items(n));
        assert(before.len() == entry_start(n));
        if opens_at(head + list_items(n), at) {
            if opens_at(before, at) {
                let i = choose|i: nat| 1 <= i <= n - 1 && at == #[trigger] entry_start(i) + 2;
                assert(1 <= i <= n && at == entry_start(i) + 2);
            } else {
                assert(1 <= n <= n && at == entry_start(n) + 2);
            }
        }
        if exists|i: nat| 1 <= i <= n && at == #[trigger] entry_start(i) + 2 {
            let i = choose|i: nat| 1 <= i <= n && at == #[trigger] entry_start(i) + 2;
            if i < n {
                assert(1 <= i <= n - 1 && at == entry_start(i) + 2);
            }
        }
    }
}

/// The entries of a list start one behind the other.
pub proof fn lemma_entries_ascend(i: nat, j: nat)
    requires
        1 <= i < j,
    ensures
        entry_start(i) + list_item(i).len() <= entry_start(j),
    decreases j,
{
    lemma_opens_in_item(i, 0);
    if i + 1 < j {
        lemma_entries_ascend(i, (j - 1) as nat);
        lemma_opens_in_item((j - 1) as nat, 0);
    }
}

/// The entry for `i` stands in a list of `n` entries where `entry_start`
/// says, for `1 <= i <= n`.
pub proof fn lemma_entry_stands(n: nat, i: nat)
    requires
        1 <= i <= n,
    ensures
        occurs_at(list_markup(n), list_item(i), entry_start(i)),
    decreases n,
{
    let head = "<ol>\n"@;
    let tail = "</ol>"@;
    let start = entry_start(i);
    let end = start + list_item(i).len();
    if i == n {
        assert(list_markup(n).subrange(start, end) =~= list_item(i));
    } else {
        lemma_entry_stands((n - 1) as nat, i);
        lemma_entries_ascend(i, n);
        let shorter = list_markup((n - 1) as nat);
        assert(shorter.subrange(start, end) =~= list_markup(n).subrange(start, end));
    }
}

/// A list of `n` entries holds exactly `n` list elements, in ascending
/// order from 1: the tag `<li>` opens at the entries for 1 to `n` and
/// nowhere else, each entry stands where `entry_start` says, and the entries
/// follow one another as their numbers do.
pub proof fn lemma_list_has_n_entries(n: nat)
    ensures
        forall|at: int| #[trigger]
            occurs_at(list_markup(n), "<li>"@, at) <==> exists|i: nat|
                1 <= i <= n && at == #[trigger] entry_start(i) + 2,
        forall|i: nat|
            1 <= i <= n ==> occurs_at(list_markup(n), list_item(i), #[trigger] entry_start(i)),
        forall|i: nat, j: nat|
            1 <= i < j <= n ==> #[trigger] entry_start(i) + list_item(i).len()
                <= #[trigger] entry_start(j),
{
    reveal_strlit("</ol>");
    let tail = "</ol>"@;
    let body = "<ol>\n"@ + list_items(n);
    assert forall|at: int| #[trigger]
        occurs_at(list_markup(n), "<li>"@, at) <==> exists|i: nat|
            1 <= i <= n && at == #[trigger] entry_start(i) + 2 by {
        lemma_opens_at(list_markup(n), at);
        lemma_opens_in_concat(body, tail, at);
        lemma_opens_in_items(n, at);
        assert(!opens_at(tail, at - body.len()));
    }
    assert forall|i: nat| 1 <= i <= n implies occurs_at(
        list_markup(n),
        list_item(i),
        #[trigger] entry_start(i),
    ) by {
        lemma_entry_stands(n, i);
    }
    assert forall|i: nat, j: nat| 1 <= i < j <= n implies #[trigger] entry_start(i) + list_item(
        i,
    ).len() <= #[trigger] entry_start(j) by {
        lemma_entries_ascend(i, j);
    }
}

} // verus!
