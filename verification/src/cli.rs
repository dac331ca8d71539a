//! The decisions behind the interactive prompts: which option a key moves
//! to, when a choice is committed or cancelled, and which line of text
//! answers a question.

use crate::error::Error;
use vstd::prelude::*;

verus! {

/// A decoded input event, as far as the prompts tell events apart.
#[derive(Clone, Copy, Debug, PartialEq, Eq, Structural)]
pub enum Key {
    Enter,
    Tab,
    BackTab,
    Up,
    Down,
    Left,
    Right,
    /// A printable character.
    Char(char),
    /// A character typed with the control key held.
    Ctrl(char),
    /// Any other event.
    Other,
}

/// What an input event asks a choice prompt to do.
#[derive(Clone, Copy, Debug, PartialEq, Eq, Structural)]
pub enum Action {
    /// Commit the option that is shown.
    Confirm,
    /// Abandon the prompt.
    Cancel,
    /// Show the next option, the first after the last.
    Forward,
    /// Show the previous option, the last before the first.
    Backward,
    /// Nothing.
    Ignore,
}

impl Key {
    /// The action that this key stands for.
    pub open spec fn spec_action(self) -> Action {
        match self {
            Key::Enter => Action::Confirm,
            Key::Char(c) => if c == '\n' {
                Action::Confirm
            } else {
                Action::Ignore
            },
            Key::Ctrl(c) => if c == 'c' {
                Action::Cancel
            } else {
                Action::Ignore
            },
            Key::Tab | Key::Down | Key::Right => Action::Forward,
            Key::BackTab | Key::Up | Key::Left => Action::Backward,
            Key::Other => Action::Ignore,
        }
    }

    /// The action that this key stands for.
    #[verifier::when_used_as_spec(spec_action)]
    pub fn action(self) -> (action: Action)
        ensures
            action == self.spec_action(),
    {
        match self {
            Key::Enter => Action::Confirm,
            Key::Char(c) => if c == '\n' {
                Action::Confirm
            } else {
                Action::Ignore
            },
            Key::Ctrl(c) => if c == 'c' {
                Action::Cancel
            } else {
                Action::Ignore
            },
            Key::Tab | Key::Down | Key::Right => Action::Forward,
            Key::BackTab | Key::Up | Key::Left => Action::Backward,
            Key::Other => Action::Ignore,
        }
    }
}

/// The action that one read of the keyboard stands for; a read that
/// delivered no event asks for nothing.
pub open spec fn action_of(event: Option<Key>) -> Action {
    match event {
        Some(key) => key.spec_action(),
        None => Action::Ignore,
    }
}

/// The two answers to a yes/no question.
#[derive(Clone, Copy, Debug, PartialEq, Eq, Structural)]
pub enum Answer {
    Yes,
    No,
}

impl Answer {
    /// `true` for yes.
    pub open spec fn spec_as_bool(&self) -> bool {
        *self == Answer::Yes
    }

    /// `true` for yes.
    #[verifier::when_used_as_spec(spec_as_bool)]
    pub fn as_bool(&self) -> (b: bool)
        ensures
            b == self.spec_as_bool(),
    {
        match self {
            Answer::Yes => true,
            Answer::No => false,
        }
    }

    /// The text shown for this answer.
    pub fn label(&self) -> (text: &'static str)
        ensures
            text@ == if *self == Answer::Yes {
                "yes"@
            } else {
                "no"@
            },
    {
        match self {
            Answer::Yes => "yes",
            Answer::No => "no",
        }
    }
}

/// What one input event did to a choice prompt.
#[derive(Debug, PartialEq, Eq)]
pub enum Choice<T> {
    /// Another option is shown now.
    Change,
    /// Nothing changed.
    NoOp,
    /// The option was committed.
    Select(T),
}

impl<T> Choice<T> {
    /// Whether an option was committed.
    pub fn is_select(&self) -> (b: bool)
        ensures
            b == (*self is Select),
    {
        match self {
            Choice::Select(_) => true,
            _ => false,
        }
    }
}

/// A prompt that lets the user pick one of several options.
///
/// While the prompt is open, one option is shown; keys move to another
/// option, commit the one shown, or cancel. Once committed or cancelled the
/// prompt is closed and takes no more events.
///
/// A prompt is made by [`Choices::try_new`] and changed only by the methods
/// here, each of which keeps it well formed ([`ChoicesView::wf`]).
#[derive(Debug)]
pub struct Choices<T> {
    prompt: String,
    has_next: bool,
    selected: usize,
    values: Vec<T>,
}

/// The state of a choice prompt.
pub ghost struct ChoicesView<T> {
    /// Whether the prompt is open.
    pub has_next: bool,
    /// The index of the option shown.
    pub selected: int,
    /// The options that are left.
    pub values: Seq<T>,
}

impl<T> ChoicesView<T> {
    /// An open prompt over `values` that shows the option at `selected`.
    pub open spec fn start(selected: int, values: Seq<T>) -> ChoicesView<T> {
        ChoicesView { has_next: true, selected, values }
    }

    /// An open prompt shows one of its options.
    pub open spec fn wf(self) -> bool {
        self.has_next ==> 0 <= self.selected < self.values.len()
    }

    /// The index after the one shown, counted modulo the number of options.
    pub open spec fn increment(self) -> int {
        (self.selected + 1) % (self.values.len() as int)
    }

    /// The index before the one shown, counted modulo the number of options.
    pub open spec fn decrement(self) -> int {
        (self.selected - 1) % (self.values.len() as int)
    }

    /// The options left once the one shown is taken out: the last option
    /// takes its place.
    pub open spec fn without_selected(self) -> Seq<T> {
        self.values.update(self.selected, self.values.last()).drop_last()
    }

    /// The state after one input event, and what the event did.
    pub open spec fn handle(self, event: Option<Key>) -> (ChoicesView<T>, Result<Choice<T>, Error>) {
        match action_of(event) {
            Action::Confirm => (
                ChoicesView { has_next: false, values: self.without_selected(), ..self },
                Ok(Choice::Select(self.values[self.selected])),
            ),
            Action::Cancel => (ChoicesView { has_next: false, ..self }, Err(Error::Interrupted)),
            Action::Forward => (ChoicesView { selected: self.increment(), ..self }, Ok(Choice::Change)),
            Action::Backward => (
                ChoicesView { selected: self.decrement(), ..self },
                Ok(Choice::Change),
            ),
            Action::Ignore => (self, Ok(Choice::NoOp)),
        }
    }
}

impl<T> View for Choices<T> {
    type V = ChoicesView<T>;

    closed spec fn view(&self) -> ChoicesView<T> {
        ChoicesView {
            has_next: self.has_next,
            selected: self.selected as int,
            values: self.values@,
        }
    }
}

impl<T> Choices<T> {
    /// The question that the prompt asks.
    pub closed spec fn spec_prompt(&self) -> Seq<char> {
        self.prompt@
    }

    /// Opens a prompt over `values` with the option at `selected` shown.
    /// Fails when there is no such option.
    pub fn try_new(prompt: String, selected: usize, values: Vec<T>) -> (r: Result<Self, Error>)
        ensures
            selected < values.len() ==> (r matches Ok(choices) && choices@ == ChoicesView::start(
                selected as int,
                values@,
            ) && choices@.wf() && choices.spec_prompt() == prompt@),
            selected >= values.len() ==> (r matches Err(e) && e == Error::Validation),
    {
        if selected < values.len() {
            Ok(Choices { prompt, has_next: true, selected, values })
        } else {
            Err(Error::Validation)
        }
    }

    /// The question that the prompt asks.
    pub fn prompt(&self) -> (text: &String)
        ensures
            text@ == self.spec_prompt(),
    {
        &self.prompt
    }

    /// Whether the prompt is open.
    pub fn has_next(&self) -> (b: bool)
        ensures
            b == self@.has_next,
    {
        self.has_next
    }

    /// The index of the option shown.
    pub fn selected(&self) -> (i: usize)
        ensures
            i == self@.selected,
    {
        self.selected
    }

    /// The option shown, while the prompt is open.
    pub fn current(&self) -> (value: Option<&T>)
        requires
            self@.wf(),
        ensures
            value == if self@.has_next {
                Some(&self@.values[self@.selected])
            } else {
                None
            },
    {
        if self.has_next {
            Some(&self.values[self.selected])
        } else {
            None
        }
    }

    /// The index that a forward key moves to.
    fn increment(&self) -> (i: usize)
        requires
            self@.has_next,
            self@.wf(),
        ensures
            i == self@.increment(),
            i < self@.values.len(),
    {
        proof {
            lemma_step_forward(self.selected as int, self.values.len() as int);
        }
        if self.selected + 1 >= self.values.len() {
            0
        } else {
            self.selected + 1
        }
    }

    /// The index that a backward key moves to.
    fn decrement(&self) -> (i: usize)
        requires
            self@.has_next,
            self@.wf(),
        ensures
            i == self@.decrement(),
            i < self@.values.len(),
    {
        proof {
            lemma_step_backward(self.selected as int, self.values.len() as int);
        }
        if self.selected == 0 {
            self.values.len() - 1
        } else {
            self.selected - 1
        }
    }

    /// Takes the option shown out of the prompt, which is closed already.
    fn select(&mut self) -> (choice: Choice<T>)
        requires
            !old(self)@.has_next,
            0 <= old(self)@.selected < old(self)@.values.len(),
        ensures
            choice == Choice::Select(old(self)@.values[old(self)@.selected]),
            final(self)@ == (ChoicesView { values: old(self)@.without_selected(), ..old(self)@ }),
            final(self).spec_prompt() == old(self).spec_prompt(),
    {
        Choice::Select(self.values.swap_remove(self.selected))
    }

    /// Applies one input event to an open prompt.
    pub fn handle(&mut self, event: Option<Key>) -> (r: Result<Choice<T>, Error>)
        requires
            old(self)@.has_next,
            old(self)@.wf(),
        ensures
            (final(self)@, r) == old(self)@.handle(event),
            final(self)@.wf(),
            final(self).spec_prompt() == old(self).spec_prompt(),
    {
        let action = match event {
            Some(key) => key.action(),
            None => Action::Ignore,
        };
        match action {
            Action::Confirm => {
                self.has_next = false;
                Ok(self.select())
            },
            Action::Cancel => {
                self.has_next = false;
                Err(Error::Interrupted)
            },
            Action::Forward => {
                self.selected = self.increment();
                Ok(Choice::Change)
            },
            Action::Backward => {
                self.selected = self.decrement();
                Ok(Choice::Change)
            },
            Action::Ignore => Ok(Choice::NoOp),
        }
    }

    /// Applies one input event, if the prompt is still open.
    pub fn next(&mut self, event: Option<Key>) -> (r: Option<Result<Choice<T>, Error>>)
        requires
            old(self)@.wf(),
        ensures
            final(self)@.wf(),
            old(self)@.has_next ==> (r matches Some(result) && (final(self)@, result) == old(
                self,
            )@.handle(event)),
            !old(self)@.has_next ==> r is None && final(self)@ == old(self)@,
            final(self).spec_prompt() == old(self).spec_prompt(),
    {
        if self.has_next {
            Some(self.handle(event))
        } else {
            None
        }
    }
}

/// What a prompt in `state` yields when it is fed `events` in order: the
/// option committed by the first event that closes the prompt, or the
/// interruption when that event cancels or when the events run out before
/// any closes it.
pub open spec fn spec_choose_one<T>(state: ChoicesView<T>, events: Seq<Option<Key>>) -> Result<T, Error>
    decreases events.len(),
{
    if events.len() == 0 {
        Err(Error::Interrupted)
    } else {
        match state.handle(events[0]) {
            (_, Ok(Choice::Select(value))) => Ok(value),
            (_, Err(e)) => Err(e),
            (next, Ok(_)) => spec_choose_one(next, events.drop_first()),
        }
    }
}

/// What a yes/no prompt, with "yes" shown first, yields on `events`.
pub open spec fn spec_answer(events: Seq<Option<Key>>) -> Result<bool, Error> {
    match spec_choose_one(ChoicesView::start(0, seq![Answer::Yes, Answer::No]), events) {
        Ok(answer) => Ok(answer.spec_as_bool()),
        Err(e) => Err(e),
    }
}

/// Runs a choice prompt over recorded input: opens it on `choices` with the
/// option at `selected` shown, and feeds it `events` until one closes it.
///
/// Fails with `Validation` when there is no option at `selected`, and with
/// `Interrupted` when the prompt is cancelled or the events run out.
pub fn choose_one<V>(prompt: String, selected: usize, choices: Vec<V>, events: &Vec<Option<Key>>) -> (r:
    Result<V, Error>)
    ensures
        r == if selected < choices.len() {
            spec_choose_one(ChoicesView::start(selected as int, choices@), events@)
        } else {
            Err(Error::Validation)
        },
{
    let ghost start = ChoicesView::start(selected as int, choices@);
    let mut state = match Choices::try_new(prompt, selected, choices) {
        Ok(state) => state,
        Err(e) => { return Err(e); },
    };
    assert(events@.skip(0) == events@);
    let mut i: usize = 0;
    while i < events.len()
        invariant
            i <= events.len(),
            state@.has_next,
            state@.wf(),
            selected < choices.len(),
            start == ChoicesView::start(selected as int, choices@),
            spec_choose_one(start, events@) == spec_choose_one(state@, events@.skip(i as int)),
        decreases events.len() - i,
    {
        let ghost rest = events@.skip(i as int);
        assert(rest.drop_first() == events@.skip(i + 1));
        match state.handle(events[i]) {
            Ok(Choice::Select(value)) => { return Ok(value); },
            Err(e) => { return Err(e); },
            Ok(_) => {},
        }
        i += 1;
    }
    Err(Error::Interrupted)
}

/// Runs a yes/no prompt over recorded input, with "yes" shown first.
pub fn answer_yes_no(prompt: String, events: &Vec<Option<Key>>) -> (r: Result<bool, Error>)
    ensures
        r == spec_answer(events@),
{
    let mut options: Vec<Answer> = Vec::new();
    options.push(Answer::Yes);
    options.push(Answer::No);
    assert(options@ == seq![Answer::Yes, Answer::No]);
    match choose_one(prompt, 0, options, events) {
        Ok(answer) => Ok(answer.as_bool()),
        Err(e) => Err(e),
    }
}

/// An empty text stands for "no value"; any other text is kept as typed.
pub fn non_empty(value: String) -> (r: Option<String>)
    ensures
        r == if value@.len() == 0 {
            None
        } else {
            Some(value)
        },
{
    if value.as_str().is_empty() {
        None
    } else {
        Some(value)
    }
}

/// The answer to an optional question, from the one line that was read for
/// it: `None` for an empty line, the line as typed otherwise. Where the
/// input ended and no line could be read, the prompt is interrupted.
pub fn text(line: Option<String>) -> (r: Result<Option<String>, Error>)
    ensures
        r == match line {
            Some(value) => Ok(
                if value@.len() == 0 {
                    None
                } else {
                    Some(value)
                },
            ),
            None => Err(Error::Interrupted),
        },
{
    match line {
        Some(value) => Ok(non_empty(value)),
        None => Err(Error::Interrupted),
    }
}

/// Whether `lines[at]` is the first line that is not empty.
pub open spec fn first_answer(lines: Seq<String>, at: int) -> bool {
    &&& 0 <= at < lines.len()
    &&& lines[at]@.len() > 0
    &&& forall|j: int| 0 <= j < at ==> lines[j]@.len() == 0
}

/// The answer to a required question, from the lines read for it in order:
/// each empty line is turned down and the question asked again, and the
/// first line that is not empty is the answer, as typed. Where the lines
/// run out before that, the prompt is interrupted.
pub fn text_required(lines: &Vec<String>) -> (r: Result<String, Error>)
    ensures
        match r {
            Ok(value) => value@.len() > 0 && exists|at: int|
                first_answer(lines@, at) && value@ == lines@[at]@,
            Err(e) => e == Error::Interrupted && forall|j: int|
                0 <= j < lines.len() ==> lines@[j]@.len() == 0,
        },
{
    let mut i: usize = 0;
    while i < lines.len()
        invariant
            i <= lines.len(),
            forall|j: int| 0 <= j < i ==> lines@[j]@.len() == 0,
        decreases lines.len() - i,
    {
        match non_empty(lines[i].clone()) {
            Some(value) => {
                assert(first_answer(lines@, i as int));
                return Ok(value);
            },
            None => {},
        }
        i += 1;
    }
    Err(Error::Interrupted)
}

/// Whether `events[at]` cancels, and no event before it confirms.
pub open spec fn cancelled_at(events: Seq<Option<Key>>, at: int) -> bool {
    &&& 0 <= at < events.len()
    &&& action_of(events[at]) == Action::Cancel
    &&& forall|j: int| 0 <= j < at ==> action_of(#[trigger] events[j]) != Action::Confirm
}

/// A cancel key interrupts a choice prompt wherever it comes, whatever
/// option is shown by then, unless the prompt was committed before.
pub proof fn lemma_cancel_interrupts<T>(state: ChoicesView<T>, events: Seq<Option<Key>>, at: int)
    requires
        cancelled_at(events, at),
    ensures
        spec_choose_one(state, events) == Err::<T, Error>(Error::Interrupted),
    decreases events.len(),
{
    if at > 0 && action_of(events[0]) != Action::Cancel {
        let rest = events.drop_first();
        assert forall|j: int| 0 <= j < at - 1 implies action_of(#[trigger] rest[j])
            != Action::Confirm by {
            assert(rest[j] == events[j + 1]);
        }
        lemma_cancel_interrupts(state.handle(events[0]).0, rest, at - 1);
    }
}

/// A cancel key interrupts a yes/no prompt wherever it comes, unless the
/// prompt was committed before.
pub proof fn lemma_cancel_interrupts_answer(events: Seq<Option<Key>>, at: int)
    requires
        cancelled_at(events, at),
    ensures
        spec_answer(events) == Err::<bool, Error>(Error::Interrupted),
{
    lemma_cancel_interrupts(ChoicesView::start(0, seq![Answer::Yes, Answer::No]), events, at);
}

/// Whether `events[at]` confirms, and no event before it confirms or
/// cancels.
pub open spec fn confirmed_at(events: Seq<Option<Key>>, at: int) -> bool {
    &&& 0 <= at < events.len()
    &&& action_of(events[at]) == Action::Confirm
    &&& forall|j: int|
        0 <= j < at ==> action_of(#[trigger] events[j]) != Action::Confirm && action_of(events[j])
            != Action::Cancel
}

/// A confirm key that no cancel key comes before commits an option.
pub proof fn lemma_confirm_commits<T>(state: ChoicesView<T>, events: Seq<Option<Key>>, at: int)
    requires
        confirmed_at(events, at),
    ensures
        spec_choose_one(state, events) is Ok,
    decreases events.len(),
{
    if at > 0 {
        let rest = events.drop_first();
        assert forall|j: int| 0 <= j < at - 1 implies action_of(#[trigger] rest[j])
            != Action::Confirm && action_of(rest[j]) != Action::Cancel by {
            assert(rest[j] == events[j + 1]);
        }
        lemma_confirm_commits(state.handle(events[0]).0, rest, at - 1);
    }
}

/// An option is committed only by a confirm key that no cancel key comes
/// before.
pub proof fn lemma_commit_was_confirmed<T>(state: ChoicesView<T>, events: Seq<Option<Key>>)
    requires
        spec_choose_one(state, events) is Ok,
    ensures
        exists|at: int| confirmed_at(events, at),
    decreases events.len(),
{
    if action_of(events[0]) == Action::Confirm {
        assert(confirmed_at(events, 0));
    } else {
        let rest = events.drop_first();
        lemma_commit_was_confirmed(state.handle(events[0]).0, rest);
        let at = choose|at: int| confirmed_at(rest, at);
        assert forall|j: int| 0 <= j < at + 1 implies action_of(#[trigger] events[j])
            != Action::Confirm && action_of(events[j]) != Action::Cancel by {
            if j > 0 {
                assert(rest[j - 1] == events[j]);
            }
        }
        assert(confirmed_at(events, at + 1));
    }
}

/// How far `events` move the option shown, forward counted up and backward
/// counted down.
pub open spec fn net_moves(events: Seq<Option<Key>>) -> int
    decreases events.len(),
{
    if events.len() == 0 {
        0
    } else {
        net_moves(events.drop_first()) + match action_of(events[0]) {
            Action::Forward => 1int,
            Action::Backward => -1int,
            _ => 0int,
        }
    }
}

/// The option that a confirm key commits is the one reached from the option
/// shown at first by the moves made before it, counted modulo the number of
/// options: past the last option comes the first, before the first the last.
pub proof fn lemma_committed_option<T>(state: ChoicesView<T>, events: Seq<Option<Key>>, at: int)
    requires
        state.has_next,
        state.wf(),
        confirmed_at(events, at),
    ensures
        spec_choose_one(state, events) == Ok::<T, Error>(
            state.values[(state.selected + net_moves(events.take(at))) % (state.values.len() as int)],
        ),
    decreases events.len(),
{
    let count = state.values.len() as int;
    if at == 0 {
        vstd::arithmetic::div_mod::lemma_small_mod(state.selected as nat, count as nat);
    } else {
        let rest = events.drop_first();
        let next = state.handle(events[0]).0;
        let moved = net_moves(rest.take(at - 1));
        assert forall|j: int| 0 <= j < at - 1 implies action_of(#[trigger] rest[j])
            != Action::Confirm && action_of(rest[j]) != Action::Cancel by {
            assert(rest[j] == events[j + 1]);
        }
        assert(events.take(at).drop_first() == rest.take(at - 1));
        lemma_step_forward(state.selected, count);
        lemma_step_backward(state.selected, count);
        lemma_committed_option(next, rest, at - 1);
        match action_of(events[0]) {
            Action::Forward => {
                vstd::arithmetic::div_mod::lemma_add_mod_noop(state.selected + 1, moved, count);
                vstd::arithmetic::div_mod::lemma_add_mod_noop_right(
                    next.selected,
                    moved,
                    count,
                );
            },
            Action::Backward => {
                vstd::arithmetic::div_mod::lemma_add_mod_noop(state.selected - 1, moved, count);
                vstd::arithmetic::div_mod::lemma_add_mod_noop_right(
                    next.selected,
                    moved,
                    count,
                );
            },
            _ => {},
        }
    }
}

/// In an open prompt, a backward key undoes a forward key and a forward key
/// undoes a backward key, at the ends of the list as in its middle.
pub proof fn lemma_forward_backward<T>(state: ChoicesView<T>, forward: Option<Key>, backward: Option<Key>)
    requires
        state.has_next,
        state.wf(),
        action_of(forward) == Action::Forward,
        action_of(backward) == Action::Backward,
    ensures
        state.handle(forward).0.handle(backward).0 == state,
        state.handle(backward).0.handle(forward).0 == state,
        state.handle(forward).0.wf(),
        state.handle(backward).0.wf(),
{
    let count = state.values.len() as int;
    lemma_step_forward(state.selected, count);
    lemma_step_backward(state.selected, count);
    lemma_step_backward(state.handle(forward).0.selected, count);
    lemma_step_forward(state.handle(backward).0.selected, count);
}

/// A choice prompt fails in one way only: it is interrupted.
pub proof fn lemma_choose_one_error<T>(state: ChoicesView<T>, events: Seq<Option<Key>>)
    ensures
        spec_choose_one(state, events) matches Err(e) ==> e == Error::Interrupted,
    decreases events.len(),
{
    if events.len() > 0 {
        lemma_choose_one_error(state.handle(events[0]).0, events.drop_first());
    }
}

/// A yes/no prompt fails in one way only: it is interrupted.
pub proof fn lemma_answer_error(events: Seq<Option<Key>>)
    ensures
        spec_answer(events) matches Err(e) ==> e == Error::Interrupted,
{
    lemma_choose_one_error(ChoicesView::start(0, seq![Answer::Yes, Answer::No]), events);
}

/// Counting one up modulo `count` wraps from the last index to the first.
pub proof fn lemma_step_forward(selected: int, count: int)
    requires
        0 <= selected < count,
    ensures
        (selected + 1) % count == if selected + 1 >= count {
            0
        } else {
            selected + 1
        },
{
    if selected + 1 >= count {
        vstd::arithmetic::div_mod::lemma_mod_self_0(count);
    } else {
        vstd::arithmetic::div_mod::lemma_small_mod((selected + 1) as nat, count as nat);
    }
}

/// Counting one down modulo `count` wraps from the first index to the last.
pub proof fn lemma_step_backward(selected: int, count: int)
    requires
        0 <= selected < count,
    ensures
        (selected - 1) % count == if selected == 0 {
            count - 1
        } else {
            selected - 1
        },
{
    if selected == 0 {
        vstd::arithmetic::div_mod::lemma_mod_add_multiples_vanish(-1, count);
        vstd::arithmetic::div_mod::lemma_small_mod((count - 1) as nat, count as nat);
    } else {
        vstd::arithmetic::div_mod::lemma_small_mod((selected - 1) as nat, count as nat);
    }
}

} // verus!
