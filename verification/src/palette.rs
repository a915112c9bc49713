//! The palette: saved statements, filtered as you type, and the form that
//! fills one in.
//!
//! Two stages in one overlay rather than two overlays. Picking a template and
//! answering its placeholders are one errand — nobody opens the palette in
//! order to look at a list — and a second dialog on top of the first would put
//! two `Esc`s between somebody and the buffer they were aiming at.

use crate::chrome::{fit, fitted, padded, spaced};
use crate::geometry::{least, less, max_u16, min_u16, min_usize, most, step, stepped, Position, Rect};
use crate::grid::{sanitise, sanitised};
use crate::hit::{
    all_below, extends, nothing_underneath_is_found, target_at, Hit, Target, Z_BACKDROP, Z_MODAL,
};
use crate::ids::TemplateId;
use crate::model::Template;
use crate::paint::{raw, styled, BorderKind, Canvas, CanvasView, Color, Span, SpanView, Style};
use crate::search::views;
use crate::text::{
    comes_before, contains, copy_of, holds, lowercase, one_of_two_strings_precedes, pairs,
    precedes, preceding_goes_on, push_all, same_text, some_text,
};
use vstd::prelude::*;

verus! {

/// What an answer stands for, which decides how it is quoted.
#[derive(Debug, Clone, Copy, PartialEq, Eq, Structural)]
pub enum Kind {
    /// A name.
    Ident,
    /// A value.
    Value,
}

/// A gap in a saved statement.
#[derive(Debug, PartialEq, Eq)]
pub struct Placeholder {
    pub name: String,
    pub kind: Kind,
}

/// One placeholder, waiting for an answer.
#[derive(Debug, PartialEq, Eq)]
pub struct Field {
    pub name: String,
    pub kind: Kind,
    pub value: String,
}

pub struct FieldView {
    pub name: Seq<char>,
    pub kind: Kind,
    pub value: Seq<char>,
}

impl View for Field {
    type V = FieldView;

    open spec fn view(&self) -> FieldView {
        FieldView { name: self.name@, kind: self.kind, value: self.value@ }
    }
}

impl Clone for Field {
    fn clone(&self) -> (r: Self)
        ensures
            r == *self,
    {
        Field { name: self.name.clone(), kind: self.kind, value: self.value.clone() }
    }
}

pub open spec fn field_views(fields: Seq<Field>) -> Seq<FieldView> {
    fields.map_values(|f: Field| f@)
}

/// The picked template's placeholders, and where the keyboard is.
#[derive(Debug, PartialEq, Eq)]
pub struct Form {
    pub template: TemplateId,
    /// Kept for the title: the list is filtered underneath and the name would
    /// otherwise have to be looked up again to say what is being filled in.
    pub name: String,
    pub fields: Vec<Field>,
    pub at: usize,
    /// Why the last attempt to bind was refused — a template whose body cannot
    /// be filled in at all, which is a thing only the binding knows.
    pub failed: Option<String>,
}

#[verifier::ext_equal]
pub struct FormView {
    pub template: TemplateId,
    pub name: Seq<char>,
    pub fields: Seq<FieldView>,
    pub at: usize,
    pub failed: Option<Seq<char>>,
}

impl View for Form {
    type V = FormView;

    open spec fn view(&self) -> FormView {
        FormView {
            template: self.template,
            name: self.name@,
            fields: field_views(self.fields@),
            at: self.at,
            failed: some_text(self.failed),
        }
    }
}

impl Clone for Form {
    fn clone(&self) -> (r: Self)
        ensures
            r@ == self@,
            r.fields@ == self.fields@,
    {
        let mut fields: Vec<Field> = Vec::new();
        let mut i: usize = 0;
        while i < self.fields.len()
            invariant
                i <= self.fields@.len(),
                fields@ == self.fields@.take(i as int),
            decreases self.fields@.len() - i,
        {
            fields.push(self.fields[i].clone());
            proof {
                assert(fields@ =~= self.fields@.take(i + 1));
            }
            i += 1;
        }
        proof {
            assert(self.fields@.take(i as int) =~= self.fields@);
        }
        Form {
            template: self.template,
            name: self.name.clone(),
            fields,
            at: self.at,
            failed: self.failed.clone(),
        }
    }
}

impl FormView {
    /// The field the keyboard is in, with this in it instead.
    pub open spec fn edited(self, value: Seq<char>) -> FormView {
        if self.at < self.fields.len() {
            FormView {
                fields: self.fields.update(
                    self.at as int,
                    FieldView { value, ..self.fields[self.at as int] },
                ),
                ..self
            }
        } else {
            self
        }
    }

    /// The answers of the first `n` fields, by the names of what they answer. Of
    /// several fields with one name the last answers for it.
    pub open spec fn named(self, n: int) -> Map<Seq<char>, Seq<char>>
        decreases n,
    {
        if n <= 0 {
            Map::empty()
        } else {
            self.named(n - 1).insert(self.fields[n - 1].name, self.fields[n - 1].value)
        }
    }

    /// The same, listed in the order of the names.
    pub open spec fn answers_of(self, n: int) -> Seq<(Seq<char>, Seq<char>)>
        decreases n,
    {
        if n <= 0 {
            Seq::empty()
        } else {
            answered(
                self.answers_of(n - 1),
                self.fields[n - 1].name,
                self.fields[n - 1].value,
            )
        }
    }

    /// The answers, one for every name and in the order of the names.
    pub open spec fn answers(self) -> Seq<(Seq<char>, Seq<char>)> {
        self.answers_of(self.fields.len() as int)
    }

    /// What is in the field the keyboard is in.
    pub open spec fn current(self) -> Seq<char> {
        if self.at < self.fields.len() {
            self.fields[self.at as int].value
        } else {
            Seq::empty()
        }
    }

    /// The keyboard moved between fields, clamped at both ends.
    pub open spec fn moved(self, delta: int) -> FormView {
        FormView {
            at: least(
                stepped(self.at as int, delta),
                less(self.fields.len() as int, 1),
            ) as usize,
            ..self
        }
    }
}

/// Answers in the order of their names, each name once.
pub open spec fn in_order(answers: Seq<(Seq<char>, Seq<char>)>) -> bool {
    forall|a: int, b: int|
        0 <= a < b < answers.len() ==> precedes((#[trigger] answers[a]).0, (#[trigger] answers[b]).0)
}

/// Answers in order with one more among them, which takes the place of one with
/// the same name.
pub open spec fn answered(
    answers: Seq<(Seq<char>, Seq<char>)>,
    name: Seq<char>,
    value: Seq<char>,
) -> Seq<(Seq<char>, Seq<char>)>
    decreases answers.len(),
{
    if answers.len() == 0 {
        seq![(name, value)]
    } else if answers.last().0 == name {
        answers.drop_last().push((name, value))
    } else if precedes(answers.last().0, name) {
        answers.push((name, value))
    } else {
        answered(answers.drop_last(), name, value).push(answers.last())
    }
}

proof fn one_more_answer_keeps_the_order(
    answers: Seq<(Seq<char>, Seq<char>)>,
    name: Seq<char>,
    value: Seq<char>,
)
    requires
        in_order(answers),
    ensures
        in_order(answered(answers, name, value)),
        forall|answer: (Seq<char>, Seq<char>)| #[trigger]
            answered(answers, name, value).contains(answer) <==> if answer.0 == name {
                answer.1 == value
            } else {
                answers.contains(answer)
            },
    decreases answers.len(),
{
    let all = answered(answers, name, value);
    if answers.len() == 0 {
        assert(all[0] == (name, value));
        assert(all.contains((name, value)));
    } else {
        let n = answers.len() - 1;
        let last = answers.last();
        let before = answers.drop_last();
        assert forall|a: int, b: int| 0 <= a < b < before.len() implies precedes(
            (#[trigger] before[a]).0,
            (#[trigger] before[b]).0,
        ) by {
            assert(before[a] == answers[a] && before[b] == answers[b]);
        }
        assert(last == answers[n]);
        assert forall|answer: (Seq<char>, Seq<char>)| #[trigger]
            answers.contains(answer) <==> answer == last || before.contains(answer) by {
            if answers.contains(answer) {
                let i = choose|i: int| 0 <= i < answers.len() && answers[i] == answer;
                if i < n {
                    assert(before[i] == answer);
                }
            }
            if before.contains(answer) {
                let i = choose|i: int| 0 <= i < before.len() && before[i] == answer;
                assert(answers[i] == answer);
            }
        }
        // Nothing before the last has its name.
        assert forall|answer: (Seq<char>, Seq<char>)| #[trigger]
            before.contains(answer) implies precedes(answer.0, last.0) && answer.0 != last.0 by {
            let i = choose|i: int| 0 <= i < before.len() && before[i] == answer;
            assert(answers[i] == answer);
            assert(precedes(answers[i].0, answers[n].0));
            one_of_two_strings_precedes(last.0, last.0);
        }
        if last.0 == name || precedes(last.0, name) {
            let start = if last.0 == name {
                before
            } else {
                answers
            };
            assert(all == start.push((name, value)));
            assert forall|a: int, b: int| 0 <= a < b < all.len() implies precedes(
                (#[trigger] all[a]).0,
                (#[trigger] all[b]).0,
            ) by {
                assert(all[a] == answers[a]);
                if b < start.len() {
                    assert(all[b] == answers[b]);
                } else if a < n {
                    assert(precedes(answers[a].0, answers[n].0));
                    if last.0 != name {
                        preceding_goes_on(answers[a].0, last.0, name);
                    }
                }
            }
            assert forall|answer: (Seq<char>, Seq<char>)| #[trigger]
                all.contains(answer) <==> if answer.0 == name {
                    answer.1 == value
                } else {
                    answers.contains(answer)
                } by {
                it_is_the_last_or_before_it(start, (name, value), answer);
                if start.contains(answer) && last.0 != name {
                    // Whatever was there precedes the new name.
                    if answer.0 == name {
                        one_of_two_strings_precedes(name, last.0);
                    }
                }
            }
        } else {
            one_of_two_strings_precedes(name, last.0);
            one_more_answer_keeps_the_order(before, name, value);
            let start = answered(before, name, value);
            assert(all == start.push(last));
            assert forall|a: int, b: int| 0 <= a < b < all.len() implies precedes(
                (#[trigger] all[a]).0,
                (#[trigger] all[b]).0,
            ) by {
                assert(all[a] == start[a]);
                assert(start.contains(start[a]));
                if b < start.len() {
                    assert(all[b] == start[b]);
                }
            }
            assert forall|answer: (Seq<char>, Seq<char>)| #[trigger]
                all.contains(answer) <==> if answer.0 == name {
                    answer.1 == value
                } else {
                    answers.contains(answer)
                } by {
                it_is_the_last_or_before_it(start, last, answer);
            }
        }
    }
}

proof fn it_is_the_last_or_before_it<T>(items: Seq<T>, last: T, item: T)
    ensures
        items.push(last).contains(item) <==> item == last || items.contains(item),
{
    let all = items.push(last);
    if all.contains(item) {
        let i = choose|i: int| 0 <= i < all.len() && all[i] == item;
        if i < items.len() {
            assert(items[i] == item);
        }
    }
    if items.contains(item) {
        let i = choose|i: int| 0 <= i < items.len() && items[i] == item;
        assert(all[i] == item);
    }
    assert(all[items.len() as int] == last);
}

proof fn the_answers_list_what_is_named(form: FormView, n: int)
    ensures
        in_order(form.answers_of(n)),
        forall|answer: (Seq<char>, Seq<char>)| #[trigger]
            form.answers_of(n).contains(answer) <==> form.named(n).contains_pair(
                answer.0,
                answer.1,
            ),
    decreases n,
{
    if n > 0 {
        the_answers_list_what_is_named(form, n - 1);
        let field = form.fields[n - 1];
        one_more_answer_keeps_the_order(form.answers_of(n - 1), field.name, field.value);
    }
}

/// The answers are in the order of their names, every name is answered once, and
/// by the last field that has it.
pub proof fn the_last_field_of_a_name_answers_for_it(form: FormView)
    ensures
        in_order(form.answers()),
        forall|answer: (Seq<char>, Seq<char>)| #[trigger]
            form.answers().contains(answer) <==> form.named(
                form.fields.len() as int,
            ).contains_pair(answer.0, answer.1),
        forall|i: int|
            0 <= i < form.fields.len() && (forall|j: int|
                i < j < form.fields.len() ==> (#[trigger] form.fields[j]).name
                    != form.fields[i].name) ==> form.answers().contains(
                ((#[trigger] form.fields[i]).name, form.fields[i].value),
            ),
{
    let n = form.fields.len() as int;
    the_answers_list_what_is_named(form, n);
    assert forall|i: int|
        0 <= i < n && (forall|j: int|
            i < j < n ==> (#[trigger] form.fields[j]).name
                != form.fields[i].name) implies form.answers().contains(
        ((#[trigger] form.fields[i]).name, form.fields[i].value),
    ) by {
        a_name_keeps_its_last_answer(form, i, n);
    }
}

proof fn a_name_keeps_its_last_answer(form: FormView, i: int, n: int)
    requires
        0 <= i < n <= form.fields.len(),
        forall|j: int| i < j < n ==> (#[trigger] form.fields[j]).name != form.fields[i].name,
    ensures
        form.named(n).contains_pair(form.fields[i].name, form.fields[i].value),
    decreases n,
{
    if i < n - 1 {
        a_name_keeps_its_last_answer(form, i, n - 1);
        assert(form.fields[n - 1].name != form.fields[i].name);
    }
}

/// Put an answer among the others, in the place of one with the same name.
fn put_answer(out: &mut Vec<(String, String)>, name: String, value: String)
    ensures
        pairs(final(out)@) == answered(pairs(old(out)@), name@, value@),
{
    let ghost all = pairs(out@);
    let ghost held = out@;
    let mut i: usize = out.len();
    proof {
        assert(all.take(i as int) =~= all);
        assert(all.skip(i as int) =~= Seq::empty());
        assert(answered(all, name@, value@) =~= answered(all, name@, value@) + all.skip(i as int));
    }
    while i > 0 && !same_text(out[i - 1].0.as_str(), name.as_str()) && !comes_before(
        out[i - 1].0.as_str(),
        name.as_str(),
    )
        invariant
            out@ == held,
            all == pairs(held),
            i <= held.len(),
            answered(all, name@, value@) == answered(all.take(i as int), name@, value@) + all.skip(
                i as int,
            ),
        decreases i,
    {
        proof {
            let there = all.take(i as int);
            assert(there.last() == all[i - 1]);
            assert(all[i - 1].0 == held[i - 1].0@);
            assert(there.drop_last() =~= all.take(i - 1));
            assert(answered(there, name@, value@) + all.skip(i as int) =~= answered(
                all.take(i - 1),
                name@,
                value@,
            ) + all.skip(i - 1));
        }
        i -= 1;
    }
    let ghost there = all.take(i as int);
    let ghost said = (name@, value@);
    proof {
        if i > 0 {
            assert(there.last() == all[i - 1]);
            assert(all[i - 1].0 == held[i - 1].0@);
        }
    }
    if i > 0 && same_text(out[i - 1].0.as_str(), name.as_str()) {
        out[i - 1] = (name, value);
        proof {
            assert(pairs(out@) =~= there.drop_last().push(said) + all.skip(i as int));
        }
    } else {
        out.insert(i, (name, value));
        proof {
            assert(pairs(out@) =~= there.push(said) + all.skip(i as int));
            if i == 0 {
                assert(there.push(said) =~= seq![said]);
            }
        }
    }
}

/// What a field starts with.
pub open spec fn prefilled(answer: Option<String>) -> Seq<char> {
    match answer {
        Some(answer) => answer@,
        None => Seq::empty(),
    }
}

impl Form {
    /// A form for these placeholders, with `filled` used where it has an
    /// answer already.
    ///
    /// `filled` is what the screen already knows — the relation the explorer
    /// has selected, for `{{ident:table}}`. Prefilled rather than inserted
    /// silently: it is still shown, and still editable, because the guess is
    /// only ever a guess about what somebody meant.
    pub fn new<F: Fn(&Placeholder) -> Option<String>>(
        template: TemplateId,
        name: String,
        placeholders: &Vec<Placeholder>,
        filled: F,
    ) -> (r: Self)
        requires
            forall|p: &Placeholder| #[trigger] call_requires(filled, (p,)),
        ensures
            r.template == template,
            r.name == name,
            r.at == 0,
            r.failed is None,
            r.fields@.len() == placeholders@.len(),
            forall|i: int|
                0 <= i < placeholders@.len() ==> {
                    &&& (#[trigger] r.fields@[i]).name == placeholders@[i].name
                    &&& r.fields@[i].kind == placeholders@[i].kind
                    &&& exists|answer: Option<String>| #[trigger]
                        call_ensures(filled, (&placeholders@[i],), answer) && r.fields@[i].value@
                            == prefilled(answer)
                },
    {
        let mut fields: Vec<Field> = Vec::new();
        let mut i: usize = 0;
        while i < placeholders.len()
            invariant
                forall|p: &Placeholder| #[trigger] call_requires(filled, (p,)),
                i <= placeholders@.len(),
                fields@.len() == i,
                forall|j: int|
                    0 <= j < i ==> {
                        &&& (#[trigger] fields@[j]).name == placeholders@[j].name
                        &&& fields@[j].kind == placeholders@[j].kind
                        &&& exists|answer: Option<String>| #[trigger]
                            call_ensures(filled, (&placeholders@[j],), answer) && fields@[j].value@
                                == prefilled(answer)
                    },
            decreases placeholders@.len() - i,
        {
            let answer: Option<String> = filled(&placeholders[i]);
            let ghost said = answer;
            let value: String = match answer {
                Some(answer) => answer,
                None => String::new(),
            };
            proof {
                assert(call_ensures(filled, (&placeholders@[i as int],), said) && value@
                    == prefilled(said));
            }
            fields.push(
                Field { name: placeholders[i].name.clone(), kind: placeholders[i].kind, value },
            );
            i += 1;
        }
        Form { template, name, fields, at: 0, failed: None }
    }

    /// What to fill the template in with: one answer for every name, and of
    /// several fields with one name the last, in the order of the names.
    pub fn values(&self) -> (r: Vec<(String, String)>)
        ensures
            pairs(r@) == self@.answers(),
            in_order(pairs(r@)),
            forall|answer: (Seq<char>, Seq<char>)| #[trigger]
                pairs(r@).contains(answer) <==> self@.named(
                    self@.fields.len() as int,
                ).contains_pair(answer.0, answer.1),
    {
        let mut out: Vec<(String, String)> = Vec::new();
        let mut i: usize = 0;
        proof {
            assert(pairs(out@) =~= self@.answers_of(0));
        }
        while i < self.fields.len()
            invariant
                i <= self.fields@.len(),
                pairs(out@) == self@.answers_of(i as int),
            decreases self.fields@.len() - i,
        {
            proof {
                assert(self@.fields[i as int] == self.fields@[i as int]@);
            }
            put_answer(&mut out, self.fields[i].name.clone(), self.fields[i].value.clone());
            i += 1;
        }
        proof {
            the_last_field_of_a_name_answers_for_it(self@);
        }
        out
    }

    pub fn edit(&mut self, value: String)
        ensures
            final(self)@ == old(self)@.edited(value@),
    {
        let ghost before = *self;
        if self.at < self.fields.len() {
            let at: usize = self.at;
            self.fields[at].value = value;
        }
        proof {
            assert(self@.fields =~= before@.edited(value@).fields);
        }
    }

    /// Move between fields, clamped at both ends.
    pub fn move_to(&mut self, delta: i32)
        ensures
            final(self)@ == old(self)@.moved(delta as int),
    {
        self.at = min_usize(step(self.at, delta), self.fields.len().saturating_sub(1));
    }

    /// What is in the field the keyboard is in.
    pub fn current(&self) -> (r: String)
        ensures
            r@ == self@.current(),
    {
        if self.at < self.fields.len() {
            proof {
                assert(self@.fields[self.at as int] == self.fields@[self.at as int]@);
            }
            copy_of(self.fields[self.at].value.as_str())
        } else {
            String::new()
        }
    }
}

/// What the palette is showing.
///
/// The whole state travels on the `ViewCmd` that changes it, for the same
/// reason the explorer's filter does: the key that changed it is the only
/// thing that knows what it did, and a `Backspace` that removed nothing is not
/// a state the view should have to work out again.
#[derive(Debug, PartialEq, Eq)]
pub struct Palette {
    pub filter: String,
    /// Which row is selected, counted over the *filtered* list.
    pub selected: usize,
    /// The template that was picked, and its unanswered placeholders. `None`
    /// while the list is still being chosen from.
    pub asking: Option<Form>,
    /// The statement being named, while one is: the filter is its name then.
    pub saving: Option<String>,
}

#[verifier::ext_equal]
pub struct PaletteView {
    pub filter: Seq<char>,
    pub selected: usize,
    pub asking: Option<FormView>,
    pub saving: Option<Seq<char>>,
}

pub open spec fn some_form(form: Option<Form>) -> Option<FormView> {
    match form {
        Some(form) => Some(form@),
        None => None,
    }
}

pub open spec fn some_palette(palette: Option<Palette>) -> Option<PaletteView> {
    match palette {
        Some(palette) => Some(palette@),
        None => None,
    }
}

impl View for Palette {
    type V = PaletteView;

    open spec fn view(&self) -> PaletteView {
        PaletteView {
            filter: self.filter@,
            selected: self.selected,
            asking: some_form(self.asking),
            saving: some_text(self.saving),
        }
    }
}

impl Clone for Palette {
    fn clone(&self) -> (r: Self)
        ensures
            r@ == self@,
            r.filter == self.filter,
            r.saving == self.saving,
    {
        Palette {
            filter: self.filter.clone(),
            selected: self.selected,
            asking: match &self.asking {
                Some(form) => Some(form.clone()),
                None => None,
            },
            saving: self.saving.clone(),
        }
    }
}

/// Whether a template is on the list that a filter leaves.
pub open spec fn listed(template: Template, filter: Seq<char>) -> bool {
    lowercase(filter).len() == 0 || holds(lowercase(template.name@), lowercase(filter))
}

/// Where the templates on the list stand among the first `n` of all of them.
pub open spec fn listing(templates: Seq<Template>, filter: Seq<char>, n: int) -> Seq<usize>
    decreases n,
{
    if n <= 0 {
        Seq::empty()
    } else if listed(templates[n - 1], filter) {
        listing(templates, filter, n - 1).push((n - 1) as usize)
    } else {
        listing(templates, filter, n - 1)
    }
}

/// The whole list, by where its templates stand among all of them.
pub open spec fn list_of(templates: Seq<Template>, filter: Seq<char>) -> Seq<usize> {
    listing(templates, filter, templates.len() as int)
}

pub proof fn a_listing_is_of_what_is_there(templates: Seq<Template>, filter: Seq<char>, n: int)
    requires
        0 <= n <= templates.len() <= usize::MAX,
    ensures
        listing(templates, filter, n).len() <= n,
        forall|i: int|
            0 <= i < listing(templates, filter, n).len() ==> (#[trigger] listing(
                templates,
                filter,
                n,
            )[i]) < n && listed(templates[listing(templates, filter, n)[i] as int], filter),
    decreases n,
{
    if n > 0 {
        a_listing_is_of_what_is_there(templates, filter, n - 1);
    }
}

impl PaletteView {
    /// Open, with nothing typed into it.
    pub open spec fn opening() -> PaletteView {
        PaletteView { filter: Seq::empty(), selected: 0, asking: None, saving: None }
    }

    /// Open to name a statement.
    pub open spec fn naming(sql: Seq<char>) -> PaletteView {
        PaletteView { saving: Some(sql), ..Self::opening() }
    }

    /// Where the selected template stands among all of them.
    pub open spec fn picks(self, templates: Seq<Template>) -> Option<int> {
        if self.selected < list_of(templates, self.filter).len() {
            Some(list_of(templates, self.filter)[self.selected as int] as int)
        } else {
            None
        }
    }

    /// The selection moved, clamped to what is on the list.
    pub open spec fn selecting(self, delta: int, matches: int) -> PaletteView {
        PaletteView {
            selected: least(stepped(self.selected as int, delta), less(matches, 1)) as usize,
            ..self
        }
    }
}

impl Palette {
    /// Open and empty, as `Ctrl-p` leaves it.
    pub fn opening() -> (r: Self)
        ensures
            r@ == PaletteView::opening(),
    {
        Palette { filter: String::new(), selected: 0, asking: None, saving: None }
    }

    /// Open to name a statement, as `Ctrl-s` leaves it.
    pub fn saving(sql: String) -> (r: Self)
        ensures
            r@ == PaletteView::naming(sql@),
            r.saving == Some(sql),
    {
        Palette { filter: String::new(), selected: 0, asking: None, saving: Some(sql) }
    }

    /// The statement being named, while one is.
    pub fn saving_body(&self) -> (r: Option<&str>)
        ensures
            match r {
                Some(body) => self@.saving == Some(body@),
                None => self@.saving is None,
            },
    {
        match &self.saving {
            Some(body) => Some(body.as_str()),
            None => None,
        }
    }

    /// The templates this filter matches, in the order the file listed them,
    /// by where they stand in it.
    ///
    /// Case-insensitive over the name, and a substring rather than a prefix: a
    /// palette that only matches from the start is one where `orders` never
    /// finds `daily orders`.
    pub fn matching(&self, templates: &Vec<Template>) -> (r: Vec<usize>)
        ensures
            r@ == list_of(templates@, self@.filter),
            r@.len() <= templates@.len(),
            forall|i: int| 0 <= i < r@.len() ==> (#[trigger] r@[i]) < templates@.len(),
    {
        let wanted: String = self.filter.as_str().to_lowercase();
        let mut out: Vec<usize> = Vec::new();
        let mut i: usize = 0;
        while i < templates.len()
            invariant
                wanted@ == lowercase(self.filter@),
                i <= templates@.len(),
                out@ == listing(templates@, self@.filter, i as int),
            decreases templates@.len() - i,
        {
            let there: bool = wanted.as_str().is_empty() || contains(
                templates[i].name.as_str().to_lowercase().as_str(),
                wanted.as_str(),
            );
            if there {
                out.push(i);
            }
            i += 1;
        }
        let n: usize = templates.len();
        proof {
            a_listing_is_of_what_is_there(templates@, self@.filter, n as int);
        }
        out
    }

    /// The template the selection is on, if the list is not empty.
    pub fn picked<'a>(&self, templates: &'a Vec<Template>) -> (r: Option<&'a Template>)
        ensures
            match r {
                Some(t) => self@.picks(templates@) matches Some(i) && 0 <= i < templates@.len()
                    && templates@[i] == *t,
                None => self@.picks(templates@) is None,
            },
    {
        let matches: Vec<usize> = self.matching(templates);
        if self.selected < matches.len() {
            let i: usize = matches[self.selected];
            Some(&templates[i])
        } else {
            None
        }
    }

    /// Move the selection, clamped to what is on the list.
    ///
    /// Clamped rather than wrapped, for the same reason the section list is: a
    /// list you can see all of should not jump back to the top when you step
    /// off the end.
    pub fn move_selection(&mut self, delta: i32, matches: usize)
        ensures
            final(self)@ == old(self)@.selecting(delta as int, matches as int),
            final(self).filter == old(self).filter,
            final(self).saving == old(self).saving,
    {
        self.selected = min_usize(step(self.selected, delta), matches.saturating_sub(1));
    }
}

// ── what every palette keeps to ────────────────────────────────────────────

/// A selection that has been moved is on the list, or at its start when there
/// is nothing on it.
pub proof fn a_moved_selection_is_on_the_list(palette: PaletteView, delta: int, matches: int)
    requires
        0 <= matches <= usize::MAX,
    ensures
        palette.selecting(delta, matches).selected < most(matches, 1),
{
}

/// The keyboard is always in a field of the form, once it has been moved.
pub proof fn the_keyboard_stays_in_the_form(form: FormView, delta: int)
    requires
        form.fields.len() <= usize::MAX,
    ensures
        form.moved(delta).at < most(form.fields.len() as int, 1),
{
}

// ── drawing ────────────────────────────────────────────────────────────────

/// How wide the overlay is, as a fraction of the screen.
pub const WIDTH_PERMILLE: u32 = 600;

/// And the most rows of list it will show, so a long list scrolls inside the
/// palette rather than turning it into the whole screen.
pub const MAX_ROWS: u16 = 12;

impl PaletteView {
    /// How many lines there are to show.
    pub open spec fn lines(self, templates: Seq<Template>) -> int {
        match self.asking {
            Some(form) => form.fields.len() as int,
            None => list_of(templates, self.filter).len() as int,
        }
    }

    /// Where the palette is on a screen.
    pub open spec fn place(self, area: Rect, templates: Seq<Template>) -> Rect {
        let rows = least(most(self.lines(templates), 1), MAX_ROWS as int);
        let width = most(area.width * WIDTH_PERMILLE / 1000, 20);
        let height = least(rows + 4, area.height as int);
        Rect {
            x: (area.x + (area.width - width) / 2) as u16,
            y: (area.y + (area.height - height) / 3) as u16,
            width: width as u16,
            height: height as u16,
        }
    }

    pub open spec fn title(self) -> Seq<char> {
        match self.asking {
            Some(form) => spaced(form.name),
            None => if self.saving is Some {
                " save statement "@
            } else {
                " saved statements "@
            },
        }
    }
}

/// A frame with the line the filter is typed on.
pub open spec fn prompt_drawn(c: CanvasView, area: Rect, filter: Seq<char>) -> CanvasView {
    c.lined(
        Rect { height: 1, ..area },
        seq![
            styled("> "@, Style::colored(Color::Cyan)),
            raw(sanitised(filter)),
            styled("▏"@, Style::colored(Color::Cyan)),
        ],
        Style::plain(),
    )
}

/// What a template is listed as.
pub open spec fn listed_as(template: Template) -> Seq<char> {
    template.name@ + match template.driver {
        Some(driver) => "  "@ + driver@,
        None => Seq::empty(),
    }
}

/// A frame with the templates from one of them on, as far as there are rows for
/// them.
pub open spec fn templates_drawn(
    c: CanvasView,
    body: Rect,
    templates: Seq<Template>,
    list: Seq<usize>,
    selected: usize,
    first: int,
    row: int,
) -> CanvasView
    decreases body.height - row,
{
    let index = first + row;
    if row < 0 || row >= body.height || index >= list.len() {
        c
    } else {
        let line = Rect { y: (body.y + row) as u16, height: 1, ..body };
        let style = if index == selected {
            Style::colored(Color::Black).on(Color::Cyan)
        } else {
            Style::plain()
        };
        templates_drawn(
            c.hit(line, Z_MODAL, Target::PaletteRow { index: index as usize }).lined(
                line,
                seq![
                    styled(
                        fitted(
                            sanitised(listed_as(templates[list[index] as int])),
                            line.width,
                        ),
                        style,
                    ),
                ],
                Style::plain(),
            ),
            body,
            templates,
            list,
            selected,
            first,
            row + 1,
        )
    }
}

/// A frame with the list on it, in a place of two rows or more.
pub open spec fn choosing_drawn(
    c: CanvasView,
    area: Rect,
    palette: PaletteView,
    templates: Seq<Template>,
    unavailable: Option<Seq<char>>,
) -> CanvasView {
    let prompted = prompt_drawn(c, area, palette.filter);
    let body = Rect { y: (area.y + 2) as u16, height: (area.height - 2) as u16, ..area };
    let list = list_of(templates, palette.filter);
    if body.height == 0 {
        prompted
    } else {
        match unavailable {
            Some(why) => prompted.lined(
                body,
                seq![styled(fitted(sanitised(why), body.width), Style::colored(Color::Red))],
                Style::plain(),
            ),
            None => if list.len() == 0 {
                prompted.lined(
                    body,
                    seq![
                        styled(
                            fitted("nothing saved matches"@, body.width),
                            Style::colored(Color::DarkGray),
                        ),
                    ],
                    Style::plain(),
                )
            } else {
                templates_drawn(
                    prompted,
                    body,
                    templates,
                    list,
                    palette.selected,
                    less(palette.selected as int, body.height - 1),
                    0,
                )
            },
        }
    }
}

/// What a field is asked for by.
pub open spec fn asked_by(field: FieldView) -> Seq<char> {
    match field.kind {
        Kind::Ident => field.name + " (name)"@,
        Kind::Value => field.name,
    }
}

/// What the line of a field says.
pub open spec fn field_spans(field: FieldView, here: bool) -> Seq<SpanView> {
    seq![
        styled(
            (if here {
                "> "@
            } else {
                "  "@
            }) + asked_by(field) + ": "@,
            Style::colored(
                if here {
                    Color::Cyan
                } else {
                    Color::DarkGray
                },
            ),
        ),
        raw(sanitised(field.value)),
        styled(
            if here {
                "▏"@
            } else {
                ""@
            },
            Style::colored(Color::Cyan),
        ),
    ]
}

/// A frame with the fields of a form from one of them on, as far as there are
/// rows for them.
pub open spec fn fields_drawn(c: CanvasView, area: Rect, form: FormView, from: int) -> CanvasView
    decreases form.fields.len() - from,
{
    if from < 0 || from >= form.fields.len() || from >= area.height {
        c
    } else {
        fields_drawn(
            c.lined(
                Rect { y: (area.y + from) as u16, height: 1, ..area },
                field_spans(form.fields[from], from == form.at),
                Style::plain(),
            ),
            area,
            form,
            from + 1,
        )
    }
}

/// A frame with a form on it, and over its last line what was wrong with it.
pub open spec fn form_drawn(c: CanvasView, area: Rect, form: FormView) -> CanvasView {
    let asked = fields_drawn(c, area, form, 0);
    match form.failed {
        Some(why) if area.height > 0 => asked.lined(
            Rect { y: (area.y + area.height - 1) as u16, height: 1, ..area },
            seq![styled(fitted(sanitised(why), area.width), Style::colored(Color::Red))],
            Style::plain(),
        ),
        _ => asked,
    }
}

/// A frame with the palette on it, where there is room for one.
pub open spec fn palette_drawn(
    c: CanvasView,
    area: Rect,
    palette: PaletteView,
    templates: Seq<Template>,
    unavailable: Option<Seq<char>>,
) -> CanvasView {
    if area.width < 20 || area.height < 6 {
        c
    } else {
        let rect = palette.place(area, templates);
        let boxed = c.hit(area, Z_BACKDROP, Target::Backdrop).cleared(rect).hit(
            rect,
            Z_MODAL,
            Target::Modal,
        ).boxed(
            rect,
            BorderKind::Plain,
            Style::colored(Color::Cyan),
            Some(styled(palette.title(), Style::plain().in_bold())),
        );
        match palette.asking {
            Some(form) => form_drawn(boxed, rect.bordered(), form),
            None => choosing_drawn(boxed, rect.bordered(), palette, templates, unavailable),
        }
    }
}

/// Draw the palette over everything, and record what can be clicked.
pub fn render(
    canvas: &mut Canvas,
    area: Rect,
    palette: &Palette,
    templates: &Vec<Template>,
    unavailable: Option<&str>,
)
    requires
        area.fits(),
    ensures
        final(canvas)@ == palette_drawn(
            old(canvas)@,
            area,
            palette@,
            templates@,
            match unavailable {
                Some(why) => Some(why@),
                None => None,
            },
        ),
{
    if area.width < 20 || area.height < 6 {
        return ;
    }
    // Everything behind it dismisses it, the way a modal's backdrop does.
    canvas.hit(area, Z_BACKDROP, Target::Backdrop);

    let matches: Vec<usize> = palette.matching(templates);
    let lines: usize = match &palette.asking {
        Some(form) => form.fields.len(),
        None => matches.len(),
    };
    let rows: u16 = if lines < 1 {
        1
    } else if lines > MAX_ROWS as usize {
        MAX_ROWS
    } else {
        lines as u16
    };
    let share: u16 = (area.width as u32 * WIDTH_PERMILLE / 1000) as u16;
    let width: u16 = max_u16(share, 20);
    // The filter line, the rows, and a border.
    let height: u16 = min_u16(rows + 4, area.height);
    let rect: Rect = Rect {
        x: area.x + (area.width - width) / 2,
        y: area.y + (area.height - height) / 3,
        width,
        height,
    };
    canvas.clear(rect);
    // Its own body swallows clicks, so pressing the border does not dismiss it
    // through the backdrop underneath.
    canvas.hit(rect, Z_MODAL, Target::Modal);

    let title: String = match &palette.asking {
        Some(form) => padded(form.name.as_str()),
        None => if palette.saving.is_some() {
            copy_of(" save statement ")
        } else {
            copy_of(" saved statements ")
        },
    };
    canvas.border(
        rect,
        BorderKind::Plain,
        Style::of(Color::Cyan),
        Some(Span::styled(title, Style::new().bold())),
    );
    let inner: Rect = rect.inner();
    match &palette.asking {
        Some(form) => form_lines(canvas, inner, form),
        None => list(canvas, inner, palette, templates, &matches, unavailable),
    }
}

/// One span on a line of its own.
fn one_span(canvas: &mut Canvas, area: Rect, text: String, style: Style)
    ensures
        final(canvas)@ == old(canvas)@.lined(area, seq![styled(text@, style)], Style::plain()),
{
    let span: Span = Span::styled(text, style);
    let ghost said = span@;
    let spans: Vec<Span> = vec![span];
    proof {
        assert(views(spans@) =~= seq![said]);
    }
    canvas.line(area, spans, Style::new());
}

fn list(
    canvas: &mut Canvas,
    area: Rect,
    palette: &Palette,
    templates: &Vec<Template>,
    matches: &Vec<usize>,
    unavailable: Option<&str>,
)
    requires
        area.fits(),
        area.height >= 2,
        matches@ == list_of(templates@, palette.filter@),
        forall|i: int| 0 <= i < matches@.len() ==> (#[trigger] matches@[i]) < templates@.len(),
    ensures
        final(canvas)@ == choosing_drawn(
            old(canvas)@,
            area,
            palette@,
            templates@,
            match unavailable {
                Some(why) => Some(why@),
                None => None,
            },
        ),
{
    let mark: Span = Span::styled(copy_of("> "), Style::of(Color::Cyan));
    let typed: Span = Span::raw(sanitise(palette.filter.as_str()));
    // A block rather than a real cursor: the terminal's own is where the
    // grid's selected cell is, and moving it here would take it off the thing
    // the palette is about to act on.
    let cursor: Span = Span::styled(copy_of("▏"), Style::of(Color::Cyan));
    let ghost said = seq![mark@, typed@, cursor@];
    let spans: Vec<Span> = vec![mark, typed, cursor];
    proof {
        assert(views(spans@) =~= said);
    }
    canvas.line(
        Rect { x: area.x, y: area.y, width: area.width, height: 1 },
        spans,
        Style::new(),
    );

    let body: Rect = Rect {
        x: area.x,
        y: area.y + 2,
        width: area.width,
        height: area.height - 2,
    };
    if body.height == 0 {
        return ;
    }
    if let Some(why) = unavailable {
        one_span(canvas, body, fit(sanitise(why).as_str(), body.width), Style::of(Color::Red));
        return ;
    }
    if matches.len() == 0 {
        one_span(
            canvas,
            body,
            fit("nothing saved matches", body.width),
            Style::of(Color::DarkGray),
        );
        return ;
    }
    // The window follows the selection, so a list longer than the palette can
    // still be walked to the end.
    let first: usize = palette.selected.saturating_sub(body.height as usize - 1);
    let ghost start = canvas@;
    let mut row: u16 = 0;
    while row < body.height && first < matches.len() && (row as usize) < matches.len() - first
        invariant
            body.fits(),
            row <= body.height,
            forall|i: int| 0 <= i < matches@.len() ==> (#[trigger] matches@[i]) < templates@.len(),
            templates_drawn(
                start,
                body,
                templates@,
                matches@,
                palette.selected,
                first as int,
                0,
            ) == templates_drawn(
                canvas@,
                body,
                templates@,
                matches@,
                palette.selected,
                first as int,
                row as int,
            ),
        decreases body.height - row,
    {
        let index: usize = first + row as usize;
        let line: Rect = Rect { x: body.x, y: body.y + row, width: body.width, height: 1 };
        canvas.hit(line, Z_MODAL, Target::PaletteRow { index });
        let style: Style = if index == palette.selected {
            Style::of(Color::Black).bg(Color::Cyan)
        } else {
            Style::new()
        };
        let template: &Template = &templates[matches[index]];
        let mut name: String = copy_of(template.name.as_str());
        match &template.driver {
            Some(driver) => {
                push_all(&mut name, "  ");
                push_all(&mut name, driver.as_str());
            },
            None => {},
        }
        proof {
            assert(name@ =~= listed_as(*template));
        }
        one_span(canvas, line, fit(sanitise(name.as_str()).as_str(), line.width), style);
        row += 1;
    }
}

fn form_lines(canvas: &mut Canvas, area: Rect, form: &Form)
    requires
        area.fits(),
    ensures
        final(canvas)@ == form_drawn(old(canvas)@, area, form@),
{
    let ghost start = canvas@;
    let mut index: usize = 0;
    while index < form.fields.len() && index < area.height as usize
        invariant
            area.fits(),
            fields_drawn(start, area, form@, 0) == fields_drawn(
                canvas@,
                area,
                form@,
                index as int,
            ),
        decreases form.fields@.len() - index,
    {
        proof {
            assert(form@.fields[index as int] == form.fields@[index as int]@);
        }
        let line: Rect = Rect {
            x: area.x,
            y: area.y + index as u16,
            width: area.width,
            height: 1,
        };
        field_line(canvas, line, &form.fields[index], index == form.at);
        index += 1;
    }
    match &form.failed {
        Some(why) => {
            if area.height > 0 {
                let last: Rect = Rect {
                    x: area.x,
                    y: area.y + (area.height - 1),
                    width: area.width,
                    height: 1,
                };
                one_span(
                    canvas,
                    last,
                    fit(sanitise(why.as_str()).as_str(), last.width),
                    Style::of(Color::Red),
                );
            }
        },
        None => {},
    }
}

fn field_line(canvas: &mut Canvas, line: Rect, field: &Field, here: bool)
    ensures
        final(canvas)@ == old(canvas)@.lined(line, field_spans(field@, here), Style::plain()),
{
    let mut label: String = copy_of(
        if here {
            "> "
        } else {
            "  "
        },
    );
    push_all(&mut label, field.name.as_str());
    match field.kind {
        // Said, because it decides how the answer is quoted and therefore what
        // a person should type: a name here, a value there.
        Kind::Ident => push_all(&mut label, " (name)"),
        Kind::Value => {},
    }
    push_all(&mut label, ": ");
    let colour: Color = if here {
        Color::Cyan
    } else {
        Color::DarkGray
    };
    let first: Span = Span::styled(label, Style::of(colour));
    let second: Span = Span::raw(sanitise(field.value.as_str()));
    let third: Span = Span::styled(
        copy_of(
            if here {
                "▏"
            } else {
                ""
            },
        ),
        Style::of(Color::Cyan),
    );
    let ghost said = seq![first@, second@, third@];
    let spans: Vec<Span> = vec![first, second, third];
    proof {
        assert(said[0].text =~= field_spans(field@, here)[0].text);
        assert(views(spans@) =~= said);
        assert(said =~= field_spans(field@, here));
    }
    canvas.line(line, spans, Style::new());
}

/// The targets the palette has.
pub open spec fn of_the_palette() -> spec_fn(Target) -> bool {
    |t: Target| t is Backdrop || t is Modal || t is PaletteRow
}

proof fn templates_record_rows(
    base: Seq<Hit>,
    c: CanvasView,
    body: Rect,
    templates: Seq<Template>,
    list: Seq<usize>,
    selected: usize,
    first: int,
    row: int,
)
    requires
        extends(base, c.hits, of_the_palette()),
    ensures
        extends(
            base,
            templates_drawn(c, body, templates, list, selected, first, row).hits,
            of_the_palette(),
        ),
    decreases body.height - row,
{
    let index = first + row;
    if !(row < 0 || row >= body.height || index >= list.len()) {
        let line = Rect { y: (body.y + row) as u16, height: 1, ..body };
        let style = if index == selected {
            Style::colored(Color::Black).on(Color::Cyan)
        } else {
            Style::plain()
        };
        let next = c.hit(line, Z_MODAL, Target::PaletteRow { index: index as usize }).lined(
            line,
            seq![
                styled(
                    fitted(sanitised(listed_as(templates[list[index] as int])), line.width),
                    style,
                ),
            ],
            Style::plain(),
        );
        templates_record_rows(base, next, body, templates, list, selected, first, row + 1);
    }
}

proof fn fields_record_nothing(c: CanvasView, area: Rect, form: FormView, from: int)
    ensures
        fields_drawn(c, area, form, from).hits == c.hits,
    decreases form.fields.len() - from,
{
    if !(from < 0 || from >= form.fields.len() || from >= area.height) {
        fields_record_nothing(
            c.lined(
                Rect { y: (area.y + from) as u16, height: 1, ..area },
                field_spans(form.fields[from], from == form.at),
                Style::plain(),
            ),
            area,
            form,
            from + 1,
        );
    }
}

/// While the palette is up, nothing behind it can be reached: a click anywhere
/// on the screen is on it, on one of its rows, or on the backdrop that
/// dismisses it.
pub proof fn nothing_behind_the_palette_is_reached(
    c: CanvasView,
    area: Rect,
    palette: PaletteView,
    templates: Seq<Template>,
    unavailable: Option<Seq<char>>,
    at: Position,
)
    requires
        area.width >= 20,
        area.height >= 6,
        all_below(c.hits, Z_BACKDROP),
        area.covers(at),
    ensures
        target_at(palette_drawn(c, area, palette, templates, unavailable).hits, at) matches Some(
            found,
        ) && of_the_palette()(found),
{
    let rect = palette.place(area, templates);
    let behind = c.hit(area, Z_BACKDROP, Target::Backdrop);
    let boxed = behind.cleared(rect).hit(rect, Z_MODAL, Target::Modal).boxed(
        rect,
        BorderKind::Plain,
        Style::colored(Color::Cyan),
        Some(styled(palette.title(), Style::plain().in_bold())),
    );
    let inner = rect.bordered();
    let over = c.hits.len() as int;
    let all = palette_drawn(c, area, palette, templates, unavailable).hits;
    assert(extends(behind.hits, boxed.hits, of_the_palette()));
    match palette.asking {
        Some(form) => {
            fields_record_nothing(boxed, inner, form, 0);
        },
        None => {
            let prompted = prompt_drawn(boxed, inner, palette.filter);
            let body = Rect {
                y: (inner.y + 2) as u16,
                height: (inner.height - 2) as u16,
                ..inner
            };
            templates_record_rows(
                behind.hits,
                prompted,
                body,
                templates,
                list_of(templates, palette.filter),
                palette.selected,
                less(palette.selected as int, body.height - 1),
                0,
            );
        },
    }
    assert(extends(behind.hits, all, of_the_palette()));
    assert(extends(c.hits, all, of_the_palette())) by {
        assert forall|j: int| 0 <= j < c.hits.len() implies #[trigger] all[j] == c.hits[j] by {
            assert(all[j] == behind.hits[j]);
        }
        assert forall|j: int| c.hits.len() <= j < all.len() implies of_the_palette()(
            (#[trigger] all[j]).target,
        ) by {
            if j < behind.hits.len() {
                assert(all[j] == behind.hits[j]);
            }
        }
    }
    assert(all[over] == behind.hits[over]);
    nothing_underneath_is_found(c.hits, all, of_the_palette(), Z_BACKDROP, over, at);
}

} // verus!
