use dot_dev::cli::answer_yes_no;
use dot_dev::cli::choose_one;
use dot_dev::cli::non_empty;
use dot_dev::cli::text;
use dot_dev::cli::text_required;
use dot_dev::cli::Action;
use dot_dev::Answer;
use dot_dev::Choice;
use dot_dev::Choices;
use dot_dev::Error;
use dot_dev::Key;

fn yes_no() -> Choices<Answer> {
    Choices::try_new(String::from("replace it? "), 0, vec![Answer::Yes, Answer::No]).unwrap()
}

fn letters(selected: usize) -> Choices<char> {
    Choices::try_new(String::from("pick: "), selected, vec!['a', 'b', 'c']).unwrap()
}

#[test]
fn keys_map_to_actions() {
    assert_eq!(Key::Enter.action(), Action::Confirm);
    assert_eq!(Key::Char('\n').action(), Action::Confirm);
    assert_eq!(Key::Ctrl('c').action(), Action::Cancel);
    assert_eq!(Key::Tab.action(), Action::Forward);
    assert_eq!(Key::Down.action(), Action::Forward);
    assert_eq!(Key::Right.action(), Action::Forward);
    assert_eq!(Key::BackTab.action(), Action::Backward);
    assert_eq!(Key::Up.action(), Action::Backward);
    assert_eq!(Key::Left.action(), Action::Backward);
}

#[test]
fn other_keys_are_ignored() {
    assert_eq!(Key::Char('y').action(), Action::Ignore);
    assert_eq!(Key::Char('c').action(), Action::Ignore);
    assert_eq!(Key::Ctrl('d').action(), Action::Ignore);
    assert_eq!(Key::Ctrl('\n').action(), Action::Ignore);
    assert_eq!(Key::Other.action(), Action::Ignore);
}

#[test]
fn answer_as_bool_and_label() {
    assert!(Answer::Yes.as_bool());
    assert!(!Answer::No.as_bool());
    assert_eq!(Answer::Yes.label(), "yes");
    assert_eq!(Answer::No.label(), "no");
}

#[test]
fn choice_is_select_only_for_select() {
    assert!(Choice::Select(3).is_select());
    assert!(!Choice::<u8>::Change.is_select());
    assert!(!Choice::<u8>::NoOp.is_select());
}

#[test]
fn try_new_opens_on_the_given_option() {
    let choices = letters(1);
    assert!(choices.has_next());
    assert_eq!(choices.selected(), 1);
    assert_eq!(choices.current(), Some(&'b'));
    assert_eq!(choices.prompt(), "pick: ");
}

#[test]
fn try_new_rejects_a_missing_option() {
    assert_eq!(Choices::try_new(String::new(), 3, vec!['a', 'b', 'c']).err(), Some(Error::Validation));
    assert_eq!(Choices::<char>::try_new(String::new(), 0, Vec::new()).err(), Some(Error::Validation));
    assert!(Choices::try_new(String::new(), 2, vec!['a', 'b', 'c']).is_ok());
}

#[test]
fn forward_cycles_and_wraps() {
    let mut choices = yes_no();
    assert_eq!(choices.current(), Some(&Answer::Yes));
    assert_eq!(choices.handle(Some(Key::Tab)), Ok(Choice::Change));
    assert_eq!(choices.selected(), 1);
    assert_eq!(choices.current(), Some(&Answer::No));
    assert_eq!(choices.handle(Some(Key::Tab)), Ok(Choice::Change));
    assert_eq!(choices.selected(), 0);
    assert_eq!(choices.current(), Some(&Answer::Yes));
}

#[test]
fn backward_cycles_and_wraps() {
    let mut choices = letters(0);
    assert_eq!(choices.handle(Some(Key::Up)), Ok(Choice::Change));
    assert_eq!(choices.selected(), 2);
    assert_eq!(choices.handle(Some(Key::Left)), Ok(Choice::Change));
    assert_eq!(choices.selected(), 1);
    assert_eq!(choices.handle(Some(Key::BackTab)), Ok(Choice::Change));
    assert_eq!(choices.selected(), 0);
}

#[test]
fn every_forward_key_advances() {
    let mut choices = letters(0);
    choices.handle(Some(Key::Tab)).unwrap();
    assert_eq!(choices.selected(), 1);
    choices.handle(Some(Key::Down)).unwrap();
    assert_eq!(choices.selected(), 2);
    choices.handle(Some(Key::Right)).unwrap();
    assert_eq!(choices.selected(), 0);
}

fn round_trips_from(start: usize) {
    let mut choices = letters(start);
    choices.handle(Some(Key::Tab)).unwrap();
    choices.handle(Some(Key::BackTab)).unwrap();
    assert_eq!(choices.selected(), start);
    choices.handle(Some(Key::Up)).unwrap();
    choices.handle(Some(Key::Down)).unwrap();
    assert_eq!(choices.selected(), start);
}

#[test]
fn backward_undoes_forward() {
    round_trips_from(0);
    round_trips_from(1);
    round_trips_from(2);
}

#[test]
fn a_single_option_stays_selected() {
    let mut choices = Choices::try_new(String::new(), 0, vec!['x']).unwrap();
    assert_eq!(choices.handle(Some(Key::Tab)), Ok(Choice::Change));
    assert_eq!(choices.selected(), 0);
    assert_eq!(choices.handle(Some(Key::Up)), Ok(Choice::Change));
    assert_eq!(choices.selected(), 0);
    assert_eq!(choices.handle(Some(Key::Enter)), Ok(Choice::Select('x')));
}

#[test]
fn unknown_events_change_nothing() {
    let mut choices = letters(1);
    assert_eq!(choices.handle(Some(Key::Char('q'))), Ok(Choice::NoOp));
    assert_eq!(choices.handle(Some(Key::Other)), Ok(Choice::NoOp));
    assert_eq!(choices.handle(None), Ok(Choice::NoOp));
    assert_eq!(choices.selected(), 1);
    assert!(choices.has_next());
}

#[test]
fn enter_commits_the_option_shown() {
    let mut choices = letters(0);
    choices.handle(Some(Key::Tab)).unwrap();
    assert_eq!(choices.handle(Some(Key::Enter)), Ok(Choice::Select('b')));
    assert!(!choices.has_next());
    assert_eq!(choices.current(), None);
}

#[test]
fn newline_character_commits_too() {
    let mut choices = yes_no();
    assert_eq!(choices.handle(Some(Key::Char('\n'))), Ok(Choice::Select(Answer::Yes)));
    assert!(!choices.has_next());
}

#[test]
fn cancel_interrupts_and_closes() {
    let mut choices = yes_no();
    assert_eq!(choices.handle(Some(Key::Ctrl('c'))), Err(Error::Interrupted));
    assert!(!choices.has_next());
    assert_eq!(choices.next(Some(Key::Enter)), None);
}

#[test]
fn next_yields_nothing_once_closed() {
    let mut choices = yes_no();
    assert_eq!(choices.next(Some(Key::Tab)), Some(Ok(Choice::Change)));
    assert_eq!(choices.next(Some(Key::Enter)), Some(Ok(Choice::Select(Answer::No))));
    assert_eq!(choices.next(Some(Key::Enter)), None);
    assert_eq!(choices.next(Some(Key::Tab)), None);
    assert_eq!(choices.selected(), 1);
}

#[test]
fn choose_one_returns_the_committed_option() {
    let events = vec![Some(Key::Down), None, Some(Key::Down), Some(Key::Enter), Some(Key::Ctrl('c'))];
    assert_eq!(choose_one(String::new(), 0, vec!['a', 'b', 'c'], &events), Ok('c'));
    let events = vec![Some(Key::Enter)];
    assert_eq!(choose_one(String::new(), 1, vec!['a', 'b', 'c'], &events), Ok('b'));
}

#[test]
fn choose_one_is_interrupted_by_cancel_at_any_point() {
    let options = vec!['a', 'b', 'c'];
    let first = vec![Some(Key::Ctrl('c')), Some(Key::Enter)];
    assert_eq!(choose_one(String::new(), 0, options.clone(), &first), Err(Error::Interrupted));
    let later = vec![Some(Key::Tab), Some(Key::Char('x')), Some(Key::Up), Some(Key::Ctrl('c'))];
    assert_eq!(choose_one(String::new(), 0, options.clone(), &later), Err(Error::Interrupted));
}

#[test]
fn choose_one_is_interrupted_when_events_run_out() {
    let none: Vec<Option<Key>> = Vec::new();
    assert_eq!(choose_one(String::new(), 0, vec!['a', 'b'], &none), Err(Error::Interrupted));
    let moves = vec![Some(Key::Tab), Some(Key::Tab), None];
    assert_eq!(choose_one(String::new(), 0, vec!['a', 'b'], &moves), Err(Error::Interrupted));
}

#[test]
fn choose_one_rejects_a_missing_option() {
    let events = vec![Some(Key::Enter)];
    assert_eq!(choose_one(String::new(), 2, vec!['a', 'b'], &events), Err(Error::Validation));
    assert_eq!(choose_one(String::new(), 0, Vec::<char>::new(), &events), Err(Error::Validation));
}

#[test]
fn answer_yes_no_starts_on_yes() {
    assert_eq!(answer_yes_no(String::from("ok? "), &vec![Some(Key::Enter)]), Ok(true));
    assert_eq!(answer_yes_no(String::from("ok? "), &vec![Some(Key::Tab), Some(Key::Enter)]), Ok(false));
    assert_eq!(
        answer_yes_no(String::from("ok? "), &vec![Some(Key::Tab), Some(Key::Tab), Some(Key::Enter)]),
        Ok(true)
    );
    assert_eq!(answer_yes_no(String::from("ok? "), &vec![Some(Key::Up), Some(Key::Enter)]), Ok(false));
}

#[test]
fn answer_yes_no_is_interrupted_by_cancel() {
    assert_eq!(answer_yes_no(String::new(), &vec![Some(Key::Ctrl('c'))]), Err(Error::Interrupted));
    assert_eq!(
        answer_yes_no(String::new(), &vec![Some(Key::Tab), Some(Key::Ctrl('c')), Some(Key::Enter)]),
        Err(Error::Interrupted)
    );
    assert_eq!(answer_yes_no(String::new(), &Vec::new()), Err(Error::Interrupted));
}

#[test]
fn non_empty_maps_empty_to_none() {
    assert_eq!(non_empty(String::new()), None);
    assert_eq!(non_empty(String::from("x")), Some(String::from("x")));
    assert_eq!(non_empty(String::from(" ")), Some(String::from(" ")));
}

#[test]
fn optional_text_maps_empty_to_none() {
    assert_eq!(text(Some(String::new())), Ok(None));
    assert_eq!(text(Some(String::from("abc"))), Ok(Some(String::from("abc"))));
}

#[test]
fn optional_text_keeps_whitespace_as_typed() {
    assert_eq!(text(Some(String::from("  a b \t"))), Ok(Some(String::from("  a b \t"))));
    assert_eq!(text(Some(String::from(" "))), Ok(Some(String::from(" "))));
}

#[test]
fn optional_text_is_interrupted_at_end_of_input() {
    assert_eq!(text(None), Err(Error::Interrupted));
}

#[test]
fn required_text_skips_empty_lines() {
    let lines = vec![String::new(), String::new(), String::from("x")];
    assert_eq!(text_required(&lines), Ok(String::from("x")));
}

#[test]
fn required_text_takes_the_first_answer() {
    let lines = vec![String::from("first"), String::from("second")];
    assert_eq!(text_required(&lines), Ok(String::from("first")));
    let lines = vec![String::new(), String::from(" padded "), String::new(), String::from("late")];
    assert_eq!(text_required(&lines), Ok(String::from(" padded ")));
}

#[test]
fn required_text_is_interrupted_when_lines_run_out() {
    assert_eq!(text_required(&Vec::new()), Err(Error::Interrupted));
    assert_eq!(text_required(&vec![String::new(), String::new()]), Err(Error::Interrupted));
}
