use beacon::k8s::ops::Operation;
use beacon::k8s::store::ObjectRef;
use beacon::ui::prompt::{Ask, Prompt, PromptEvent};

fn prompt(operation: Operation) -> Prompt {
    Prompt::new(Ask {
        operation,
        target: ObjectRef::new(Some("default".into()), "api"),
        kind: "Deployment".into(),
    })
}

#[test]
fn a_question_names_what_it_is_about() {
    let delete = prompt(Operation::Delete);
    assert_eq!(delete.ask.title(), "Delete this Deployment?");
    assert!(delete.ask.body().starts_with("default/api will be deleted."));
    assert!(delete.ask.is_destructive() && !delete.ask.needs_a_number());

    let scale = prompt(Operation::Scale { replicas: 3 });
    assert_eq!(scale.ask.title(), "Scale this Deployment");
    assert_eq!(scale.ask.body(), "default/api");
    assert!(scale.ask.needs_a_number() && !scale.ask.is_destructive());
}

/// The field opens on the number that is set.
#[test]
fn a_number_starts_at_what_is_set() {
    assert_eq!(prompt(Operation::Scale { replicas: 3 }).start(), "3");
    assert_eq!(prompt(Operation::Scale { replicas: -3 }).start(), "0");
    assert_eq!(prompt(Operation::Delete).start(), "");
}

/// What is no number of replicas keeps the question open.
#[test]
fn only_a_number_of_replicas_is_confirmed() {
    let scale = prompt(Operation::Scale { replicas: 3 });
    assert_eq!(
        scale.confirm(" 7 "),
        Some(PromptEvent::Confirmed(Operation::Scale { replicas: 7 }))
    );
    for typed in ["", "-1", "seven", "2147483648", "1.5"] {
        assert_eq!(scale.confirm(typed), None, "{typed}");
    }
    assert_eq!(
        scale.resolve("2147483647"),
        Some(Operation::Scale { replicas: i32::MAX })
    );
    assert_eq!(prompt(Operation::Delete).resolve("anything"), Some(Operation::Delete));
}

#[test]
fn the_button_says_what_it_does() {
    assert_eq!(prompt(Operation::Delete).ask.button(), "Delete");
    assert_eq!(prompt(Operation::Scale { replicas: 3 }).ask.button(), "Scale");
    assert_eq!(prompt(Operation::Restart).ask.button(), "Confirm");
}
