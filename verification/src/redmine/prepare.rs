//! Preparing one listed issue for import from its details: every check that
//! an issue has to pass, in the order in which the importer makes them, and
//! the answer it becomes.

use vstd::prelude::*;

use crate::lookup::{int_keys, position, text_keys};
use crate::redmine::associate::{
    associate_attachments_with_fallback, fallback_associations, fallback_refused,
};
use crate::redmine::attachment_index::attachment_journal_candidates;
use crate::redmine::cli::{publication_for_tracker, Report};
use crate::redmine::config::{
    answer_status_named, status_label, Config, ConfigError, FormMapping, INQUIRY_TRACKER_ID,
    PUBLIC_TRACKER_ID,
};
use crate::redmine::inquiry::{inquiry_classification, InquiryClassification};
use crate::redmine::issue_input::{build_issue_input, issue_reading, BuiltIssueInput};
use crate::redmine::model::{
    AttachmentWarning, ImportError, IssueStub, RedmineAttachmentAssociation, RedmineIssue,
};
use crate::redmine::questions::{answer_texts, question_answers};
use crate::redmine::targets::{find_import_target, selects, status_target_key, ImportTarget};
use crate::redmine::triage::{check_issue_detail, detail_mismatch, issue_classification, DetailMismatch};
use crate::schemas::{AnswerPublication, AnswerStatus};
use crate::text::{chars_of, string_of};

verus! {

/// Why a listed issue cannot be imported.
#[derive(Debug)]
pub enum PrepareProblem {
    /// Its project is not configured (the listing and the settings disagree).
    UnknownProject { project_id: i64 },
    /// Its details disagree with the listing or the configured project name.
    DetailMismatch(DetailMismatch),
    /// Its journals or attachments are malformed.
    Attachments(ImportError),
    /// Its status has no portal status.
    Status(ConfigError),
    /// No portal form and labels are set for its tracker, status and class.
    NoTarget { classification: InquiryClassification },
    /// Its answers cannot be read with its form mapping.
    QuestionValues(ConfigError),
    /// Its details cannot be read for import.
    Build(ImportError),
}

/// An issue ready to be imported.
#[derive(Debug)]
pub struct PreparedIssue {
    pub project_id: i64,
    pub tracker_name: String,
    pub issue_id: i64,
    pub inquiry_classification: InquiryClassification,
    pub built: BuiltIssueInput,
    pub publication: AnswerPublication,
    pub attachments: Vec<RedmineAttachmentAssociation>,
}

/// The preparation of one issue: the warnings about its attachments, raised
/// once they were associated, and the prepared issue or the problem.
#[derive(Debug)]
pub struct IssuePreparation {
    pub attachment_warnings: Vec<AttachmentWarning>,
    pub outcome: Result<PreparedIssue, PrepareProblem>,
}

/// The portal status of a Redmine status name, if the settings give one.
pub open spec fn portal_status_of(config: Config, name: Seq<char>) -> Option<AnswerStatus> {
    match position(text_keys(config.status_mapping@), name) {
        None => None,
        Some(k) => answer_status_named(config.status_mapping@[k].1@),
    }
}

pub open spec fn description_text(issue: RedmineIssue) -> Seq<char> {
    match issue.description {
        Some(d) => d@,
        None => Seq::empty(),
    }
}

/// The class of an issue of a tracker: inquiries are classified by their
/// subject and description, other issues are generic.
pub open spec fn class_of(tracker_id: i64, issue: RedmineIssue) -> InquiryClassification {
    if tracker_id == INQUIRY_TRACKER_ID {
        inquiry_classification(issue.subject@, description_text(issue))
    } else {
        InquiryClassification::Generic
    }
}

/// The status part of a target's key: the status name where the tracker
/// labels that status.
pub open spec fn status_key_of(config: Config, tracker_id: i64, name: Seq<char>) -> Option<Seq<char>> {
    match status_label(config.status_label_mappings@, tracker_id, name) {
        Some(_) => Some(name),
        None => None,
    }
}

/// Some target is set for the tracker, status key and class.
pub open spec fn has_target(
    targets: Seq<ImportTarget>,
    tracker_id: i64,
    key: Option<Seq<char>>,
    class: InquiryClassification,
) -> bool {
    exists|k: int| 0 <= k < targets.len() && selects(#[trigger] targets[k], (tracker_id, key, class))
}

/// The form mapping whose questions an issue answers: that of its inquiry
/// route where its class has one, else that of its tracker.
pub open spec fn answer_mapping(config: Config, tracker_id: i64, class: InquiryClassification) -> Result<
    FormMapping,
    ConfigError,
> {
    match class.spec_special_route() {
        Some(route) => match position(config.inquiry_routes(), route) {
            Some(k) => Ok(config.inquiry_mappings@[k].1),
            None => Err(ConfigError::UnknownInquiryRoute { route }),
        },
        None => match position(int_keys(config.tracker_mappings@), tracker_id) {
            Some(k) => Ok(config.tracker_mappings@[k].1),
            None => Err(ConfigError::UnknownTracker { tracker_id }),
        },
    }
}

fn copy_string(s: &String) -> (r: String)
    ensures
        r@ == s@,
{
    string_of(&chars_of(s.as_str()))
}

/// Prepares a listed issue from its details, checking in turn: that its
/// project is configured, that its details agree with the listing, its
/// attachments, its portal status, that a target is set for it, its
/// answers, and its reading for import.
pub fn prepare_issue(
    config: &Config,
    targets: &[ImportTarget],
    stub: &IssueStub,
    issue: RedmineIssue,
) -> (r: IssuePreparation)
    ensures
        match position(config.project_ids(), stub.project_id) {
            None => r.outcome matches Err(PrepareProblem::UnknownProject { project_id })
                && project_id == stub.project_id,
            Some(p) => match detail_mismatch(*stub, issue, config.redmine_projects@[p].name@) {
                Some(m) => r.outcome matches Err(PrepareProblem::DetailMismatch(n)) && n == m,
                None => if fallback_refused(issue.journals@, issue.attachments@) {
                    r.outcome is Err && r.outcome->Err_0 is Attachments
                } else {
                    let done = fallback_associations(
                        issue.journals@,
                        attachment_journal_candidates(issue.journals@)->Ok_0,
                        issue.attachments@,
                    )->Ok_0.2;
                    let class = class_of(stub.tracker_id, issue);
                    let key = status_key_of(*config, stub.tracker_id, issue.status.name@);
                    match portal_status_of(*config, issue.status.name@) {
                        None => r.outcome matches Err(PrepareProblem::Status(_)),
                        Some(status) => if !has_target(targets@, stub.tracker_id, key, class) {
                            r.outcome matches Err(PrepareProblem::NoTarget { classification: c })
                                && c == class
                        } else {
                            match answer_mapping(*config, stub.tracker_id, class) {
                                Err(e) => r.outcome matches Err(PrepareProblem::QuestionValues(f))
                                    && f == e,
                                Ok(mapping) => match question_answers(mapping, issue) {
                                    Err(e) => r.outcome matches Err(
                                        PrepareProblem::QuestionValues(f),
                                    ) && f == e,
                                    Ok(values) => match issue_reading(issue) {
                                        Err(e) => r.outcome matches Err(PrepareProblem::Build(f))
                                            && f == e,
                                        Ok(_) => r.outcome matches Ok(prepared) && {
                                            &&& prepared.project_id == stub.project_id
                                            &&& prepared.issue_id == stub.id
                                            &&& prepared.tracker_name@ == stub.tracker_name@
                                            &&& prepared.inquiry_classification == class
                                            &&& prepared.publication == (if stub.tracker_id
                                                == PUBLIC_TRACKER_ID {
                                                AnswerPublication::Public
                                            } else {
                                                AnswerPublication::Private
                                            })
                                            &&& prepared.attachments@ == done
                                            &&& prepared.built.input.issue_id == issue.id
                                            &&& prepared.built.input.status == status
                                            &&& answer_texts(
                                                prepared.built.input.question_values@,
                                            ) == values
                                        },
                                    },
                                },
                            }
                        },
                    }
                },
            },
        },
{
    let no_warnings: Vec<AttachmentWarning> = Vec::new();
    let project_name = match config.project_name_for(stub.project_id) {
        Ok(name) => name,
        Err(_) => {
            return IssuePreparation {
                attachment_warnings: no_warnings,
                outcome: Err(PrepareProblem::UnknownProject { project_id: stub.project_id }),
            };
        },
    };
    if let Some(mismatch) = check_issue_detail(stub, &issue, project_name) {
        return IssuePreparation {
            attachment_warnings: no_warnings,
            outcome: Err(PrepareProblem::DetailMismatch(mismatch)),
        };
    }
    let associated = match associate_attachments_with_fallback(&issue.journals, &issue.attachments) {
        Ok(result) => result,
        Err(error) => {
            return IssuePreparation {
                attachment_warnings: no_warnings,
                outcome: Err(PrepareProblem::Attachments(error)),
            };
        },
    };
    let warnings = associated.warnings;
    let status = match config.status_for(issue.status.name.as_str()) {
        Ok(status) => status,
        Err(error) => {
            return IssuePreparation {
                attachment_warnings: warnings,
                outcome: Err(PrepareProblem::Status(error)),
            };
        },
    };
    let status_key = status_target_key(config, stub.tracker_id, issue.status.name.as_str());
    let description: Option<&str> = match &issue.description {
        Some(d) => Some(d.as_str()),
        None => None,
    };
    let classification = issue_classification(stub.tracker_id, issue.subject.as_str(), description);
    assert(class_of(stub.tracker_id, issue) == classification);
    match find_import_target(targets, stub.tracker_id, &status_key, classification) {
        Some(_) => {},
        None => {
            return IssuePreparation {
                attachment_warnings: warnings,
                outcome: Err(PrepareProblem::NoTarget { classification }),
            };
        },
    }
    let question_values = match classification.special_route() {
        Some(route) => config.question_values_for_inquiry(route, &issue),
        None => config.question_values_for(stub.tracker_id, &issue),
    };
    let question_values = match question_values {
        Ok(values) => values,
        Err(error) => {
            return IssuePreparation {
                attachment_warnings: warnings,
                outcome: Err(PrepareProblem::QuestionValues(error)),
            };
        },
    };
    let built = match build_issue_input(issue, status, question_values) {
        Ok(built) => built,
        Err(error) => {
            return IssuePreparation {
                attachment_warnings: warnings,
                outcome: Err(PrepareProblem::Build(error)),
            };
        },
    };
    IssuePreparation {
        attachment_warnings: warnings,
        outcome: Ok(
            PreparedIssue {
                project_id: stub.project_id,
                tracker_name: copy_string(&stub.tracker_name),
                issue_id: stub.id,
                inquiry_classification: classification,
                built,
                publication: publication_for_tracker(stub.tracker_id),
                attachments: associated.associations,
            },
        ),
    }
}

impl Report {
    /// Whether the import may go on: only when the run found no error.
    pub fn allows_import(&self) -> (r: bool)
        ensures
            r == (self.errors@.len() == 0),
    {
        self.errors.len() == 0
    }
}

} // verus!
