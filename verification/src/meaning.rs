//! What is shown, held against what it stands for.
//!
//! A reader of the screen has only its text. What is proved here is that the
//! text is enough: read for what it says, it gives back what was to be shown.

use crate::intent::{Action, ActionView, IntentView};
use crate::model::{OverBudget, QueryView, Snapshot};
use crate::reading::{
    a_count_says_itself, a_number_says_itself, a_text_stops_at_a_mark, all_digits, count_in,
    is_digit, leading_digits, past, unit_in, until,
};
use crate::search::{first, first_is_the_first};
use crate::state::{byte_words, cost_question, in_units, UiView};
use crate::text::decimal;
use vstd::prelude::*;

verus! {

// ── amounts of data ────────────────────────────────────────────────────────

/// The bytes that a word for a unit stands for, and none for any other word.
pub open spec fn bytes_per(word: Seq<char>) -> int {
    if word == "B"@ {
        1
    } else if word == "kB"@ {
        1_000
    } else if word == "MB"@ {
        1_000_000
    } else if word == "GB"@ {
        1_000_000_000
    } else if word == "TB"@ {
        1_000_000_000_000
    } else {
        0
    }
}

/// The tenths that a text says behind the point after its number, if it has one.
pub open spec fn tenths_in(text: Seq<char>) -> int {
    let rest = unit_in(text);
    if rest.len() > 0 && rest[0] == '.' {
        count_in(rest.drop_first())
    } else {
        0
    }
}

/// Whether a text such as `20.4 GB` is what a reader takes for `n` bytes: in the
/// largest unit there is one of, the whole units and tenths it says are there,
/// and a tenth more is not.
pub open spec fn stands_for(text: Seq<char>, n: int) -> bool {
    let scale = bytes_per(past(text, ' '));
    let tenths = 10 * count_in(text) + tenths_in(text);
    &&& all_digits(leading_digits(text))
    &&& 0 <= tenths_in(text) < 10
    &&& scale > 0
    &&& if scale == 1 {
        tenths == 10 * n
    } else {
        tenths * scale <= 10 * n < (tenths + 1) * scale
    }
    &&& scale > 1 ==> n >= scale
    &&& scale < 1_000_000_000_000 ==> n < 1000 * scale
}

proof fn units_are_told_apart()
    ensures
        bytes_per("B"@) == 1,
        bytes_per("kB"@) == 1_000,
        bytes_per("MB"@) == 1_000_000,
        bytes_per("GB"@) == 1_000_000_000,
        bytes_per("TB"@) == 1_000_000_000_000,
        "."@ == seq!['.'],
        " "@ == seq![' '],
        " B"@ == seq![' ', 'B'],
        "B"@ == seq!['B'],
        "kB"@ == seq!['k', 'B'],
        "MB"@ == seq!['M', 'B'],
        "GB"@ == seq!['G', 'B'],
        "TB"@ == seq!['T', 'B'],
{
    reveal_strlit(".");
    reveal_strlit(" ");
    reveal_strlit(" B");
    reveal_strlit("B");
    reveal_strlit("kB");
    reveal_strlit("MB");
    reveal_strlit("GB");
    reveal_strlit("TB");
    assert("."@ =~= seq!['.']);
    assert(" "@ =~= seq![' ']);
    assert(" B"@ =~= seq![' ', 'B']);
    assert("B"@ =~= seq!['B']);
    assert("kB"@ =~= seq!['k', 'B']);
    assert("MB"@ =~= seq!['M', 'B']);
    assert("GB"@ =~= seq!['G', 'B']);
    assert("TB"@ =~= seq!['T', 'B']);
    assert("kB"@[0] == 'k');
    assert("MB"@[0] == 'M');
    assert("GB"@[0] == 'G');
    assert("TB"@[0] == 'T');
}

proof fn digits_are_no_mark(digits: Seq<char>, mark: char)
    requires
        all_digits(digits),
        !is_digit(mark),
    ensures
        !digits.contains(mark),
{
    if digits.contains(mark) {
        let i = choose|i: int| 0 <= i < digits.len() && digits[i] == mark;
        assert(is_digit(digits[i]));
    }
}

proof fn an_amount_in_units_says_itself(n: nat, scale: nat, unit: Seq<char>)
    requires
        scale == bytes_per(unit),
        scale >= 1000,
        n >= scale,
        scale < 1_000_000_000_000 ==> n < 1000 * scale,
    ensures
        stands_for(in_units(n, scale, unit), n as int),
        forall|i: int|
            0 <= i < in_units(n, scale, unit).len() - unit.len() ==> {
                let c = #[trigger] in_units(n, scale, unit)[i];
                is_digit(c) || c == '.' || c == ' '
            },
        in_units(n, scale, unit).len() > unit.len(),
        in_units(n, scale, unit).skip(in_units(n, scale, unit).len() - unit.len()) == unit,
{
    units_are_told_apart();
    let whole = n / scale;
    let left = n % scale;
    let tenth = left * 10 / scale;
    assert(n == whole * scale + left && left < scale) by (nonlinear_arith)
        requires
            whole == n / scale,
            left == n % scale,
            scale > 0,
    ;
    assert(tenth * scale <= left * 10 < tenth * scale + scale && tenth < 10) by (nonlinear_arith)
        requires
            tenth == left * 10 / scale,
            left < scale,
            scale > 0,
    ;
    let text = in_units(n, scale, unit);
    let start = decimal(whole);
    let tail = "."@ + decimal(tenth) + " "@ + unit;
    assert(text =~= start + tail);
    a_number_says_itself(whole);
    a_number_says_itself(tenth);
    a_count_says_itself(whole, tail);
    let behind = decimal(tenth) + (" "@ + unit);
    assert(tail.drop_first() =~= behind);
    a_count_says_itself(tenth, " "@ + unit);
    let before = start + seq!['.'] + decimal(tenth);
    digits_are_no_mark(start, ' ');
    digits_are_no_mark(decimal(tenth), ' ');
    assert(!before.contains(' ')) by {
        if before.contains(' ') {
            let i = choose|i: int| 0 <= i < before.len() && before[i] == ' ';
            if i < start.len() {
                assert(start[i] == ' ');
            } else if i > start.len() {
                assert(decimal(tenth)[i - start.len() - 1] == ' ');
            }
        }
    }
    assert(text =~= before + seq![' '] + unit);
    a_text_stops_at_a_mark(before, ' ', unit);
    let tenths = 10 * whole + tenth;
    assert(tenths * scale <= 10 * n < (tenths + 1) * scale) by (nonlinear_arith)
        requires
            n == whole * scale + left,
            tenth * scale <= left * 10 < tenth * scale + scale,
            tenths == 10 * whole + tenth,
    ;
    assert forall|i: int| 0 <= i < text.len() - unit.len() implies {
        let c = #[trigger] text[i];
        is_digit(c) || c == '.' || c == ' '
    } by {
        if i < start.len() {
            assert(text[i] == start[i]);
        } else if start.len() < i < before.len() {
            assert(text[i] == decimal(tenth)[i - start.len() - 1]);
        }
    }
    assert(text.skip(text.len() - unit.len()) =~= unit);
}

/// A byte count says itself: read for its number, its tenths and its unit, it
/// stands for the bytes it was made from, cut to a tenth of the largest unit
/// there is one of.
pub proof fn a_byte_count_says_itself(n: nat)
    ensures
        stands_for(byte_words(n), n as int),
        !byte_words(n).contains(','),
        !byte_words(n).contains('\n'),
        byte_words(n).len() >= 3,
{
    units_are_told_apart();
    let text = byte_words(n);
    if n >= 1_000 {
        let (scale, unit) = if n >= 1_000_000_000_000 {
            (1_000_000_000_000nat, "TB"@)
        } else if n >= 1_000_000_000 {
            (1_000_000_000nat, "GB"@)
        } else if n >= 1_000_000 {
            (1_000_000nat, "MB"@)
        } else {
            (1_000nat, "kB"@)
        };
        an_amount_in_units_says_itself(n, scale, unit);
        let cut = text.len() - unit.len();
        assert forall|c: char| c == ',' || c == '\n' implies !text.contains(c) by {
            if text.contains(c) {
                let i = choose|i: int| 0 <= i < text.len() && text[i] == c;
                if i >= cut {
                    assert(text.skip(cut)[i - cut] == c);
                }
            }
        }
    } else {
        a_number_says_itself(n);
        a_count_says_itself(n, " B"@);
        digits_are_no_mark(decimal(n), ' ');
        digits_are_no_mark(decimal(n), ',');
        digits_are_no_mark(decimal(n), '\n');
        assert(text =~= decimal(n) + seq![' '] + "B"@);
        a_text_stops_at_a_mark(decimal(n), ' ', "B"@);
        assert forall|c: char| c == ',' || c == '\n' implies !text.contains(c) by {
            if text.contains(c) {
                let i = choose|i: int| 0 <= i < text.len() && text[i] == c;
                if i < decimal(n).len() {
                    assert(decimal(n)[i] == c);
                }
            }
        }
    }
}

// ── what is asked before a costly statement runs ───────────────────────────

/// What a question says a statement would read, which is told before its first
/// comma.
pub open spec fn cost_said(text: Seq<char>) -> Seq<char> {
    until(text, ',').skip(14)
}

/// What a question says the limit is, which is told behind that, up to the end
/// of the line.
pub open spec fn limit_said(text: Seq<char>) -> Seq<char> {
    until(past(text, ','), '\n').skip(18).drop_last()
}

/// What a question says would be run, which is told below.
pub open spec fn statement_said(text: Seq<char>) -> Seq<char> {
    past(past(past(text, ','), '\n'), '\n')
}

/// The bytes a statement would read, or none where nobody could tell.
pub open spec fn estimated(over: OverBudget) -> int {
    match over.estimate {
        Some(n) => n as int,
        None => 0,
    }
}

/// A question about the cost of a statement says what it would read and what the
/// limit is, each where the words around it say so, and the statement itself
/// below them as it was written.
pub proof fn a_cost_question_says_the_cost_and_the_limit(over: OverBudget)
    ensures
        ({
            let text = cost_question(over);
            &&& until(text, ',').take(14) == "It would read "@
            &&& stands_for(cost_said(text), estimated(over))
            &&& until(past(text, ','), '\n').take(18) == " and the limit is "@
            &&& until(past(text, ','), '\n').last() == '.'
            &&& stands_for(limit_said(text), over.budget as int)
            &&& until(past(past(text, ','), '\n'), '\n').len() == 0
            &&& statement_said(text) == over.sql@
        }),
{
    let text = cost_question(over);
    let cost = byte_words(estimated(over) as nat);
    let limit = byte_words(over.budget as nat);
    a_byte_count_says_itself(estimated(over) as nat);
    a_byte_count_says_itself(over.budget as nat);
    reveal_strlit("It would read ");
    reveal_strlit(", and the limit is ");
    reveal_strlit(" and the limit is ");
    reveal_strlit(".\n\n");
    let lead = "It would read "@ + cost;
    let middle = " and the limit is "@ + limit + seq!['.'];
    let rest = seq!['\n'] + over.sql@;
    let tail = middle + seq!['\n'] + rest;
    assert(", and the limit is "@ =~= seq![','] + " and the limit is "@);
    assert(".\n\n"@ =~= seq!['.'] + seq!['\n'] + seq!['\n']);
    assert(text =~= lead + seq![','] + tail);
    assert(!lead.contains(',')) by {
        if lead.contains(',') {
            let i = choose|i: int| 0 <= i < lead.len() && lead[i] == ',';
            if i >= 14 {
                assert(cost[i - 14] == ',');
            }
        }
    }
    a_text_stops_at_a_mark(lead, ',', tail);
    assert(!middle.contains('\n')) by {
        if middle.contains('\n') {
            let i = choose|i: int| 0 <= i < middle.len() && middle[i] == '\n';
            if 18 <= i < 18 + limit.len() {
                assert(limit[i - 18] == '\n');
            }
        }
    }
    a_text_stops_at_a_mark(middle, '\n', rest);
    a_text_stops_at_a_mark(Seq::empty(), '\n', over.sql@);
    assert(Seq::<char>::empty() + seq!['\n'] + over.sql@ =~= rest);
    assert(lead.take(14) =~= "It would read "@);
    assert(lead.skip(14) =~= cost);
    assert(middle.take(18) =~= " and the limit is "@);
    assert(middle.skip(18).drop_last() =~= limit);
}

/// What a question says of the cost does not depend on the limit, and what it
/// says of the limit does not depend on the cost.
pub proof fn the_cost_and_the_limit_are_said_apart(a: OverBudget, b: OverBudget)
    ensures
        a.estimate == b.estimate ==> until(cost_question(a), ',') == until(cost_question(b), ','),
        a.budget == b.budget ==> limit_said(cost_question(a)) == limit_said(cost_question(b)),
        a.estimate == b.estimate && a.budget == b.budget && a.sql@ == b.sql@ ==> cost_question(a)
            == cost_question(b),
{
    the_parts_of_a_cost_question(a);
    the_parts_of_a_cost_question(b);
}

proof fn the_parts_of_a_cost_question(over: OverBudget)
    ensures
        until(cost_question(over), ',') == "It would read "@ + byte_words(estimated(over) as nat),
        limit_said(cost_question(over)) == byte_words(over.budget as nat),
{
    let cost = byte_words(estimated(over) as nat);
    let limit = byte_words(over.budget as nat);
    a_byte_count_says_itself(estimated(over) as nat);
    a_byte_count_says_itself(over.budget as nat);
    reveal_strlit("It would read ");
    reveal_strlit(", and the limit is ");
    reveal_strlit(".\n\n");
    let lead = "It would read "@ + cost;
    let said = ", and the limit is "@.drop_first();
    let middle = said + limit + seq!['.'];
    let tail = middle + seq!['\n'] + (seq!['\n'] + over.sql@);
    assert(", and the limit is "@ =~= seq![','] + said);
    assert(".\n\n"@ =~= seq!['.'] + seq!['\n'] + seq!['\n']);
    assert(cost_question(over) =~= lead + seq![','] + tail);
    assert(!lead.contains(',')) by {
        if lead.contains(',') {
            let i = choose|i: int| 0 <= i < lead.len() && lead[i] == ',';
            if i >= 14 {
                assert(cost[i - 14] == ',');
            }
        }
    }
    a_text_stops_at_a_mark(lead, ',', tail);
    assert(!middle.contains('\n')) by {
        if middle.contains('\n') {
            let i = choose|i: int| 0 <= i < middle.len() && middle[i] == '\n';
            if 18 <= i < 18 + limit.len() {
                assert(limit[i - 18] == '\n');
            }
        }
    }
    a_text_stops_at_a_mark(middle, '\n', seq!['\n'] + over.sql@);
    assert(middle.skip(18).drop_last() =~= limit);
}

/// Whether a query waits for an answer that this screen has not asked for yet.
pub open spec fn waits_for_an_answer(ui: UiView, query: QueryView) -> bool {
    query.needs_approval is Some && ui.is_mine(query.id) && !ui.asked_approval.contains(query.id.0)
}

/// A query over its budget is asked about, the first of them in the snapshot:
/// the dialog says that query's cost, limit and statement, its only answer lets
/// that query run and no other, and no menu stays open over it.
pub proof fn a_costly_query_is_asked_about(ui: UiView, snapshot: Snapshot, i: int)
    requires
        0 <= i < snapshot.queries@.len(),
        waits_for_an_answer(ui, snapshot.queries@[i]),
        forall|j: int| 0 <= j < i ==> !waits_for_an_answer(ui, #[trigger] snapshot.queries@[j]),
    ensures
        ({
            let query = snapshot.queries@[i];
            let over = query.needs_approval->0;
            let next = ui.approvals_raised(snapshot);
            &&& next.menu is None
            &&& next.asked_approval == ui.asked_approval.insert(query.id.0)
            &&& next.tabs == ui.tabs && next.active_tab == ui.active_tab
            &&& next.modal matches Some(modal) && {
                &&& modal.choices.len() == 1
                &&& modal.choices[0].intent == IntentView::App(
                    ActionView::Plain(Action::ApproveQuery(query.id)),
                )
                &&& stands_for(cost_said(modal.body), estimated(over))
                &&& stands_for(limit_said(modal.body), over.budget as int)
                &&& statement_said(modal.body) == over.sql@
            }
        }),
{
    let waiting = ui.unasked();
    first_is_the_first(snapshot.queries@, waiting);
    assert(waiting(snapshot.queries@[i]));
    let found = first(snapshot.queries@, waiting)->0;
    if found < i {
        assert(!waits_for_an_answer(ui, snapshot.queries@[found]));
    }
    assert(found == i);
    a_cost_question_says_the_cost_and_the_limit(snapshot.queries@[i].needs_approval->0);
}

/// Nothing is asked while no query of this screen waits for an answer: no dialog
/// comes up that was not there.
pub proof fn nothing_is_asked_while_nothing_waits(ui: UiView, snapshot: Snapshot)
    requires
        forall|j: int|
            0 <= j < snapshot.queries@.len() ==> !waits_for_an_answer(
                ui,
                #[trigger] snapshot.queries@[j],
            ),
    ensures
        ui.approvals_raised(snapshot).modal is Some ==> ui.approvals_raised(snapshot) == ui,
        ui.approvals_raised(snapshot).asked_approval == ui.asked_approval,
{
    let waiting = ui.unasked();
    first_is_the_first(snapshot.queries@, waiting);
    if first(snapshot.queries@, waiting) is Some {
        let j = first(snapshot.queries@, waiting)->0;
        assert(!waits_for_an_answer(ui, snapshot.queries@[j]));
    }
}

} // verus!
