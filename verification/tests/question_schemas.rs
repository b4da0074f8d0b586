use seichi_portal::non_empty_string::NonEmptyString;
use seichi_portal::redmine::form_check::QuestionType;
use seichi_portal::web::api_error::DomainError;
use seichi_portal::web::question_schemas::{
    into_domain_choices, required_choices, ChoiceSchema, QuestionDefinitionSchema,
    QuestionSchema, SelectQuestionSchema, TextQuestionSchema,
};

fn definition(template_key: &str) -> QuestionDefinitionSchema {
    QuestionDefinitionSchema {
        id: None,
        template_key: template_key.to_string(),
        position: 0,
        title: NonEmptyString::try_new("Role".to_string()).unwrap(),
        description: None,
        is_required: true,
    }
}

#[test]
fn choice_question_without_choices_is_rejected() {
    let question = QuestionSchema::SingleChoice(SelectQuestionSchema {
        definition: definition("role"),
        choices: Vec::new(),
    });
    assert_eq!(question.question_type(), QuestionType::SingleChoice);
    let (question_type, definition, choices) = question.into_parts();
    assert_eq!(question_type, QuestionType::SingleChoice);
    assert_eq!(definition.template_key, "role");
    let result = required_choices(into_domain_choices(choices));
    match result {
        Err(DomainError::InvalidEntity { message }) => {
            assert_eq!(message, "choice question must have at least one choice")
        }
        other => panic!("unexpected: {other:?}"),
    }
}

#[test]
fn text_questions_have_no_choices_and_choice_questions_keep_theirs() {
    let text = QuestionSchema::Text(TextQuestionSchema {
        definition: definition("body"),
    });
    assert_eq!(text.definition().template_key, "body");
    assert!(text.into_choices().is_none());
    let select = QuestionSchema::MultipleChoice(SelectQuestionSchema {
        definition: definition("tags"),
        choices: vec![ChoiceSchema {
            id: None,
            position: 0,
            label: NonEmptyString::try_new("a".to_string()).unwrap(),
        }],
    });
    let choices = required_choices(into_domain_choices(select.into_choices())).unwrap();
    assert_eq!(choices.len(), 1);
    assert_eq!(choices[0].position, 0);
}
