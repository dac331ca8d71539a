use dot_dev::Definition;
use dot_dev::EnvironmentVariable;
use dot_dev::Error;
use dot_dev::Key;
use dot_dev::Profile;

fn variable(name: &str) -> EnvironmentVariable {
    EnvironmentVariable { name: String::from(name), description: None, required: false, default_value: None }
}

fn variable_with_default(name: &str, default_value: &str) -> EnvironmentVariable {
    EnvironmentVariable {
        name: String::from(name),
        description: None,
        required: false,
        default_value: Some(String::from(default_value)),
    }
}

fn group(name: &str, members: Vec<EnvironmentVariable>) -> Definition {
    Definition::Group { name: String::from(name), members }
}

fn profile(definitions: Vec<Definition>) -> Profile {
    Profile { name: String::from("work"), description: Some(String::from("at work")), definitions }
}

fn a_and_b() -> Profile {
    profile(vec![Definition::Variable(variable("A")), Definition::Variable(variable("B"))])
}

fn yes() -> Vec<Option<Key>> {
    vec![Some(Key::Enter)]
}

fn no() -> Vec<Option<Key>> {
    vec![Some(Key::Tab), Some(Key::Enter)]
}

#[test]
fn defines_finds_single_variables_only() {
    let p = profile(vec![
        Definition::Variable(variable("A")),
        group("G", vec![variable("INNER")]),
    ]);
    assert!(p.defines(&String::from("A")));
    assert!(!p.defines(&String::from("B")));
    assert!(!p.defines(&String::from("G")));
    assert!(!p.defines(&String::from("INNER")));
    assert!(!profile(Vec::new()).defines(&String::from("A")));
}

#[test]
fn defines_compares_names_exactly() {
    let p = a_and_b();
    assert!(!p.defines(&String::from("a")));
    assert!(!p.defines(&String::from("A ")));
    assert!(!p.defines(&String::new()));
}

#[test]
fn definition_defines_its_own_name() {
    assert!(Definition::Variable(variable("A")).defines(&String::from("A")));
    assert!(!Definition::Variable(variable("A")).defines(&String::from("B")));
    assert!(!group("A", vec![variable("A")]).defines(&String::from("A")));
}

#[test]
fn replace_prompt_names_the_variable() {
    assert_eq!(Profile::replace_prompt(&String::from("PATH")), "PATH is already defined, replace it? ");
}

#[test]
fn add_to_empty_profile_appends() {
    let merged = profile(Vec::new()).add(variable("A"), &Vec::new()).unwrap();
    assert_eq!(merged, profile(vec![Definition::Variable(variable("A"))]));
}

#[test]
fn add_to_profile_of_one_appends() {
    let merged = profile(vec![Definition::Variable(variable("A"))]).add(variable("B"), &Vec::new()).unwrap();
    assert_eq!(merged, a_and_b());
}

#[test]
fn add_to_longer_profile_appends() {
    let before = vec![
        Definition::Variable(variable("A")),
        group("G", vec![variable("C")]),
        Definition::Variable(variable("B")),
        Definition::Variable(variable_with_default("D", "d")),
    ];
    let mut after = before.clone();
    after.push(Definition::Variable(variable("C")));
    assert_eq!(profile(before).add(variable("C"), &Vec::new()), Ok(profile(after)));
}

#[test]
fn add_without_conflict_ignores_events() {
    let cancel = vec![Some(Key::Ctrl('c'))];
    let merged = a_and_b().add(variable("C"), &cancel).unwrap();
    assert_eq!(merged.definitions.len(), 3);
    assert_eq!(merged.definitions[2], Definition::Variable(variable("C")));
}

#[test]
fn add_declined_keeps_the_profile() {
    let merged = a_and_b().add(variable_with_default("A", "x"), &no()).unwrap();
    assert_eq!(merged, a_and_b());
}

#[test]
fn add_accepted_replaces_and_moves_to_end() {
    let merged = a_and_b().add(variable_with_default("A", "x"), &yes()).unwrap();
    assert_eq!(
        merged,
        profile(vec![
            Definition::Variable(variable("B")),
            Definition::Variable(variable_with_default("A", "x")),
        ])
    );
}

#[test]
fn add_accepted_removes_every_variable_of_that_name() {
    let p = profile(vec![
        Definition::Variable(variable("A")),
        Definition::Variable(variable("B")),
        Definition::Variable(variable_with_default("A", "old")),
        group("A", vec![variable("A")]),
    ]);
    let merged = p.add(variable_with_default("A", "new"), &yes()).unwrap();
    assert_eq!(
        merged.definitions,
        vec![
            Definition::Variable(variable("B")),
            group("A", vec![variable("A")]),
            Definition::Variable(variable_with_default("A", "new")),
        ]
    );
}

#[test]
fn add_cancelled_is_interrupted() {
    let cancel = vec![Some(Key::Ctrl('c'))];
    assert_eq!(a_and_b().add(variable("A"), &cancel), Err(Error::Interrupted));
    let later = vec![Some(Key::Tab), Some(Key::Other), Some(Key::Ctrl('c')), Some(Key::Enter)];
    assert_eq!(a_and_b().add(variable("B"), &later), Err(Error::Interrupted));
}

#[test]
fn add_is_interrupted_when_events_run_out() {
    assert_eq!(a_and_b().add(variable("A"), &Vec::new()), Err(Error::Interrupted));
    assert_eq!(a_and_b().add(variable("A"), &vec![Some(Key::Tab)]), Err(Error::Interrupted));
}

#[test]
fn add_ignores_names_inside_groups() {
    let p = profile(vec![group("G", vec![variable("A")])]);
    let merged = p.add(variable("A"), &Vec::new()).unwrap();
    assert_eq!(
        merged.definitions,
        vec![group("G", vec![variable("A")]), Definition::Variable(variable("A"))]
    );
}

#[test]
fn merge_with_free_name_appends_whatever_the_decision() {
    let expected = profile(vec![
        Definition::Variable(variable("A")),
        Definition::Variable(variable("B")),
        Definition::Variable(variable("C")),
    ]);
    assert_eq!(a_and_b().merge(variable("C"), false), expected);
    assert_eq!(a_and_b().merge(variable("C"), true), expected);
}

#[test]
fn merge_follows_the_decision_on_conflict() {
    assert_eq!(a_and_b().merge(variable_with_default("B", "x"), false), a_and_b());
    assert_eq!(
        a_and_b().merge(variable_with_default("B", "x"), true),
        profile(vec![
            Definition::Variable(variable("A")),
            Definition::Variable(variable_with_default("B", "x")),
        ])
    );
}

#[test]
fn merge_keeps_name_and_description() {
    let merged = a_and_b().merge(variable("A"), true);
    assert_eq!(merged.name, "work");
    assert_eq!(merged.description, Some(String::from("at work")));
}
