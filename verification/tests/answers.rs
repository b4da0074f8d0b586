use seichi_portal::schemas::{
    AnswerAuthor, AnswerContent, AnswerPublication, AnswerStatus, FormAnswer, FormAnswerBody,
};
use seichi_portal::web::api_error::Timestamp;

fn answer(redacted: bool) -> FormAnswer {
    FormAnswer {
        id: "00000000-0000-0000-0000-000000000001".to_string(),
        author: AnswerAuthor::Anonymous,
        form_id: "00000000-0000-0000-0000-000000000002".to_string(),
        timestamp: Timestamp {
            seconds: 0,
            nanos: 0,
        },
        title: Some("management title".to_string()),
        publication: AnswerPublication::Private,
        status: AnswerStatus::Completed,
        answers: vec![AnswerContent {
            question_id: "00000000-0000-0000-0000-000000000004".to_string(),
            answer: "input value".to_string(),
        }],
        labels: Vec::new(),
        redmine_issue_id: None,
        redacted,
    }
}

#[test]
fn restricted_answer_response_contains_only_resource_ids_and_answer_values() {
    match answer(true).into_body() {
        FormAnswerBody::Restricted {
            id,
            form_id,
            answers,
        } => {
            assert_eq!(id, "00000000-0000-0000-0000-000000000001");
            assert_eq!(form_id, "00000000-0000-0000-0000-000000000002");
            assert_eq!(answers.len(), 1);
            assert_eq!(answers[0].answer, "input value");
        }
        FormAnswerBody::Full(_) => panic!("a redacted answer leaked its other fields"),
    }
}

#[test]
fn an_unredacted_answer_shows_every_field() {
    match answer(false).into_body() {
        FormAnswerBody::Full(full) => {
            assert_eq!(full.title.as_deref(), Some("management title"));
            assert_eq!(full.status, AnswerStatus::Completed);
        }
        FormAnswerBody::Restricted { .. } => panic!("an answer was redacted without reason"),
    }
}
