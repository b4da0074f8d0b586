//! Classification of Redmine inquiries (tracker 4) into the dedicated portal
//! forms, and the extraction of the values that those forms ask for.

use vstd::prelude::*;

use crate::text::{
    ascii_lowercase, ascii_lowercase_of, chars_of, contains_exec, contains_seq,
    first_occurrence_from, find_from, lemma_first_occurrence_from, occurs_at, occurs_at_exec,
    without_white_space, without_white_space_exec,
};

verus! {

/// The dedicated inquiry forms.
#[derive(Clone, Copy, Debug, Eq, Hash, Ord, PartialEq, PartialOrd, Structural)]
pub enum InquiryRoute {
    Mod,
    Login,
    ExperienceOverflow,
    Appeal,
}

impl InquiryRoute {
    pub open spec fn spec_name(self) -> Seq<char> {
        match self {
            InquiryRoute::Mod => "mod"@,
            InquiryRoute::Login => "login"@,
            InquiryRoute::ExperienceOverflow => "experience_overflow"@,
            InquiryRoute::Appeal => "appeal"@,
        }
    }

    /// The name under which the route appears in the importer's settings.
    pub fn name(self) -> (name: &'static str)
        ensures
            name@ == self.spec_name(),
    {
        match self {
            InquiryRoute::Mod => "mod",
            InquiryRoute::Login => "login",
            InquiryRoute::ExperienceOverflow => "experience_overflow",
            InquiryRoute::Appeal => "appeal",
        }
    }

    /// Every dedicated route, in a fixed order.
    pub fn special() -> (routes: [InquiryRoute; 4])
        ensures
            routes@ == seq![
                InquiryRoute::Mod,
                InquiryRoute::Login,
                InquiryRoute::ExperienceOverflow,
                InquiryRoute::Appeal,
            ],
    {
        let routes = [
            InquiryRoute::Mod,
            InquiryRoute::Login,
            InquiryRoute::ExperienceOverflow,
            InquiryRoute::Appeal,
        ];
        assert(routes@ =~= seq![
            InquiryRoute::Mod,
            InquiryRoute::Login,
            InquiryRoute::ExperienceOverflow,
            InquiryRoute::Appeal,
        ]);
        routes
    }
}

/// Where an inquiry of tracker 4 goes: a dedicated form, or the generic one.
///
/// A category written in the subject wins; without one, only experience and
/// overflow mentioned close together count as an experience-overflow
/// inquiry. Common keywords alone never route to a dedicated form.
#[derive(Clone, Copy, Debug, Eq, Hash, Ord, PartialEq, PartialOrd, Structural)]
pub enum InquiryClassification {
    Generic,
    Mod,
    Login,
    ExperienceOverflow,
    Appeal,
}

impl InquiryClassification {
    pub open spec fn spec_special_route(self) -> Option<InquiryRoute> {
        match self {
            InquiryClassification::Generic => None,
            InquiryClassification::Mod => Some(InquiryRoute::Mod),
            InquiryClassification::Login => Some(InquiryRoute::Login),
            InquiryClassification::ExperienceOverflow => Some(InquiryRoute::ExperienceOverflow),
            InquiryClassification::Appeal => Some(InquiryRoute::Appeal),
        }
    }

    pub fn special_route(self) -> (route: Option<InquiryRoute>)
        ensures
            route == self.spec_special_route(),
    {
        match self {
            InquiryClassification::Generic => None,
            InquiryClassification::Mod => Some(InquiryRoute::Mod),
            InquiryClassification::Login => Some(InquiryRoute::Login),
            InquiryClassification::ExperienceOverflow => Some(InquiryRoute::ExperienceOverflow),
            InquiryClassification::Appeal => Some(InquiryRoute::Appeal),
        }
    }
}

/// Scanning `t` for the occurrences of `first` from index `i` on, leftmost
/// first and without overlap (as `str::match_indices` does): some occurrence
/// is followed by `second` with at most `gap` characters in between.
pub open spec fn followed_within(
    t: Seq<char>,
    first: Seq<char>,
    second: Seq<char>,
    gap: int,
    i: int,
) -> bool
    decreases t.len() + 1 - i,
{
    if first.len() == 0 || i < 0 || i + first.len() > t.len() {
        false
    } else if occurs_at(t, first, i) {
        let rest = i + first.len();
        (match first_occurrence_from(t, second, rest) {
            Some(j) => j - rest <= gap,
            None => false,
        }) || followed_within(t, first, second, gap, rest)
    } else {
        followed_within(t, first, second, gap, i + 1)
    }
}

/// `first` and `second` appear, in either order, with at most `gap`
/// characters between them once whitespace is removed from `text`.
pub open spec fn nearby_terms(text: Seq<char>, first: Seq<char>, second: Seq<char>, gap: int) -> bool {
    let compact = without_white_space(text);
    followed_within(compact, first, second, gap, 0) || followed_within(
        compact,
        second,
        first,
        gap,
        0,
    )
}

pub open spec fn mentions_experience_overflow(text: Seq<char>) -> bool {
    nearby_terms(text, "経験値"@, "オーバーフロー"@, 20)
}

/// The category that the subject states.
pub open spec fn explicit_classification(subject: Seq<char>) -> Option<InquiryClassification> {
    let lower = ascii_lowercase(subject);
    if (contains_seq(subject, "Mod"@) || contains_seq(subject, "MOD"@) || contains_seq(
        lower,
        "mod"@,
    )) && contains_seq(subject, "使用可否"@) {
        Some(InquiryClassification::Mod)
    } else if contains_seq(subject, "ログインできない"@) || contains_seq(subject, "ログインできなく"@)
        || contains_seq(subject, "ログインできません"@) || contains_seq(
        lower,
        "blacklisted from server"@,
    ) || contains_seq(lower, "blacklisted from the server"@) {
        Some(InquiryClassification::Login)
    } else if contains_seq(subject, "処罰への異議申し立て"@) || contains_seq(subject, "BAN解除申立"@) {
        Some(InquiryClassification::Appeal)
    } else if mentions_experience_overflow(subject) {
        Some(InquiryClassification::ExperienceOverflow)
    } else {
        None
    }
}

pub open spec fn inquiry_classification(
    subject: Seq<char>,
    description: Seq<char>,
) -> InquiryClassification {
    match explicit_classification(subject) {
        Some(classification) => classification,
        None => if mentions_experience_overflow(subject) || mentions_experience_overflow(
            description,
        ) {
            InquiryClassification::ExperienceOverflow
        } else {
            InquiryClassification::Generic
        },
    }
}

pub open spec fn optional_text(text: Option<&str>) -> Seq<char> {
    match text {
        Some(t) => t@,
        None => Seq::empty(),
    }
}

/// The form that an inquiry with this subject and description belongs to.
pub fn classify_inquiry(subject: &str, description: Option<&str>) -> (classification:
    InquiryClassification)
    ensures
        classification == inquiry_classification(subject@, optional_text(description)),
{
    let subject_chars = chars_of(subject);
    if let Some(classification) = explicit_subject_classification(&subject_chars) {
        return classification;
    }
    let description_chars = match description {
        Some(d) => chars_of(d),
        None => Vec::new(),
    };
    assert(description_chars@ == optional_text(description));
    if mentions_experience_overflow_exec(&subject_chars) || mentions_experience_overflow_exec(
        &description_chars,
    ) {
        InquiryClassification::ExperienceOverflow
    } else {
        InquiryClassification::Generic
    }
}

fn mentions_experience_overflow_exec(text: &Vec<char>) -> (r: bool)
    ensures
        r == mentions_experience_overflow(text@),
{
    proof {
        reveal_strlit("経験値");
        reveal_strlit("オーバーフロー");
    }
    has_nearby_terms(text, &chars_of("経験値"), &chars_of("オーバーフロー"), 20)
}

fn contains_str(t: &Vec<char>, p: &str) -> (r: bool)
    ensures
        r == contains_seq(t@, p@),
{
    contains_exec(t, &chars_of(p))
}

fn explicit_subject_classification(subject: &Vec<char>) -> (r: Option<InquiryClassification>)
    ensures
        r == explicit_classification(subject@),
{
    let lowercase = ascii_lowercase_of(subject);
    if (contains_str(subject, "Mod") || contains_str(subject, "MOD") || contains_str(
        &lowercase,
        "mod",
    )) && contains_str(subject, "使用可否") {
        return Some(InquiryClassification::Mod);
    }
    if contains_str(subject, "ログインできない") || contains_str(subject, "ログインできなく")
        || contains_str(subject, "ログインできません") || contains_str(
        &lowercase,
        "blacklisted from server",
    ) || contains_str(&lowercase, "blacklisted from the server") {
        return Some(InquiryClassification::Login);
    }
    if contains_str(subject, "処罰への異議申し立て") || contains_str(subject, "BAN解除申立") {
        return Some(InquiryClassification::Appeal);
    }
    if mentions_experience_overflow_exec(subject) {
        return Some(InquiryClassification::ExperienceOverflow);
    }
    None
}

fn has_nearby_terms(text: &Vec<char>, first: &Vec<char>, second: &Vec<char>, max_gap: usize) -> (r:
    bool)
    requires
        first@.len() > 0,
        second@.len() > 0,
    ensures
        r == nearby_terms(text@, first@, second@, max_gap as int),
{
    let compact = without_white_space_exec(text);
    nearby_in_order(&compact, first, second, max_gap) || nearby_in_order(
        &compact,
        second,
        first,
        max_gap,
    )
}

fn nearby_in_order(text: &Vec<char>, first: &Vec<char>, second: &Vec<char>, max_gap: usize) -> (r:
    bool)
    requires
        first@.len() > 0,
    ensures
        r == followed_within(text@, first@, second@, max_gap as int, 0),
{
    let mut i: usize = 0;
    while i <= text.len() && first.len() <= text.len() - i
        invariant
            first@.len() > 0,
            followed_within(text@, first@, second@, max_gap as int, 0) == followed_within(
                text@,
                first@,
                second@,
                max_gap as int,
                i as int,
            ),
        decreases text@.len() + 1 - i,
    {
        if occurs_at_exec(text, first, i) {
            let rest = i + first.len();
            match find_from(text, second, rest) {
                Some(j) => {
                    proof {
                        lemma_first_occurrence_from(text@, second@, rest as int);
                    }
                    if j - rest <= max_gap {
                        return true;
                    }
                },
                None => {},
            }
            i = rest;
        } else {
            i = i + 1;
        }
    }
    false
}

/// The subject asks whether a mod may be used: it names "Mod", "MOD" or
/// "mod" (in any ASCII case) and "使用可否".
pub open spec fn asks_about_mod(subject: Seq<char>) -> bool {
    (contains_seq(subject, "Mod"@) || contains_seq(subject, "MOD"@) || contains_seq(
        ascii_lowercase(subject),
        "mod"@,
    )) && contains_seq(subject, "使用可否"@)
}

/// The subject reports that its author cannot log in.
pub open spec fn reports_login_trouble(subject: Seq<char>) -> bool {
    ||| contains_seq(subject, "ログインできない"@)
    ||| contains_seq(subject, "ログインできなく"@)
    ||| contains_seq(subject, "ログインできません"@)
    ||| contains_seq(ascii_lowercase(subject), "blacklisted from server"@)
    ||| contains_seq(ascii_lowercase(subject), "blacklisted from the server"@)
}

/// The subject appeals a punishment.
pub open spec fn appeals_punishment(subject: Seq<char>) -> bool {
    contains_seq(subject, "処罰への異議申し立て"@) || contains_seq(subject, "BAN解除申立"@)
}

/// How an inquiry is classified, stated by its subject first: a question
/// about a mod goes to the mod form; else a login problem to the login
/// form; else an appeal of a punishment to the appeal form; else a mention
/// of the experience overflow, in the subject or the description, to that
/// form; and anything else to the generic form.
pub proof fn lemma_inquiry_classification_by_subject(subject: Seq<char>, description: Seq<char>)
    ensures
        asks_about_mod(subject) ==> inquiry_classification(subject, description)
            == InquiryClassification::Mod,
        !asks_about_mod(subject) && reports_login_trouble(subject) ==> inquiry_classification(
            subject,
            description,
        ) == InquiryClassification::Login,
        !asks_about_mod(subject) && !reports_login_trouble(subject) && appeals_punishment(subject)
            ==> inquiry_classification(subject, description) == InquiryClassification::Appeal,
        !asks_about_mod(subject) && !reports_login_trouble(subject) && !appeals_punishment(subject)
            ==> inquiry_classification(subject, description) == if mentions_experience_overflow(
            subject,
        ) || mentions_experience_overflow(description) {
            InquiryClassification::ExperienceOverflow
        } else {
            InquiryClassification::Generic
        },
{
}

/// No proper suffix of `p` starts like `p`: two occurrences of `p` never
/// overlap.
pub open spec fn starts_only_once(p: Seq<char>) -> bool {
    forall|d: int| 0 < d < p.len() ==> #[trigger] p[d] != p[0]
}

proof fn lemma_followed_within_found(
    t: Seq<char>,
    first: Seq<char>,
    second: Seq<char>,
    gap: int,
    i: int,
    q: int,
    r: int,
)
    requires
        first.len() > 0,
        starts_only_once(first),
        0 <= i <= q,
        occurs_at(t, first, q),
        occurs_at(t, second, r),
        q + first.len() <= r <= q + first.len() + gap,
    ensures
        followed_within(t, first, second, gap, i),
    decreases q - i,
{
    if occurs_at(t, first, i) {
        if i == q {
            lemma_first_occurrence_from(t, second, q + first.len());
        } else {
            if q < i + first.len() {
                assert(t[q] == first[q - i]);
                assert(t[q] == first[0]);
                assert(false);
            }
            lemma_followed_within_found(t, first, second, gap, i + first.len(), q, r);
        }
    } else {
        assert(i + first.len() <= t.len());
        lemma_followed_within_found(t, first, second, gap, i + 1, q, r);
    }
}

proof fn lemma_followed_within_needs_both(
    t: Seq<char>,
    first: Seq<char>,
    second: Seq<char>,
    gap: int,
    i: int,
)
    requires
        0 <= i,
        followed_within(t, first, second, gap, i),
    ensures
        contains_seq(t, first),
        contains_seq(t, second),
    decreases t.len() + 1 - i,
{
    if occurs_at(t, first, i) {
        let rest = i + first.len();
        lemma_first_occurrence_from(t, second, rest);
        if first_occurrence_from(t, second, rest) is None {
            lemma_followed_within_needs_both(t, first, second, gap, rest);
        }
    } else {
        lemma_followed_within_needs_both(t, first, second, gap, i + 1);
    }
}

/// A text mentions the experience overflow exactly as the importer reads
/// it: once whitespace is removed, "経験値" followed within 20 characters by
/// "オーバーフロー", or "オーバーフロー" followed within 20 characters by
/// "経験値", is a mention; and a mention always names both terms.
pub proof fn lemma_experience_overflow_mentions(text: Seq<char>, q: int, r: int)
    ensures
        ({
            let c = without_white_space(text);
            &&& occurs_at(c, "経験値"@, q) && occurs_at(c, "オーバーフロー"@, r) && q + 3 <= r <= q + 23
                ==> mentions_experience_overflow(text)
            &&& occurs_at(c, "オーバーフロー"@, q) && occurs_at(c, "経験値"@, r) && q + 7 <= r <= q + 27
                ==> mentions_experience_overflow(text)
            &&& mentions_experience_overflow(text) ==> contains_seq(c, "経験値"@) && contains_seq(
                c,
                "オーバーフロー"@,
            )
        }),
{
    reveal_strlit("経験値");
    reveal_strlit("オーバーフロー");
    let c = without_white_space(text);
    let a = "経験値"@;
    let b = "オーバーフロー"@;
    assert(a.len() == 3 && b.len() == 7);
    assert(starts_only_once(a));
    assert(starts_only_once(b));
    if occurs_at(c, a, q) && occurs_at(c, b, r) && q + 3 <= r <= q + 23 {
        lemma_followed_within_found(c, a, b, 20, 0, q, r);
    }
    if occurs_at(c, b, q) && occurs_at(c, a, r) && q + 7 <= r <= q + 27 {
        lemma_followed_within_found(c, b, a, 20, 0, q, r);
    }
    if mentions_experience_overflow(text) {
        if followed_within(c, a, b, 20, 0) {
            lemma_followed_within_needs_both(c, a, b, 20, 0);
        } else {
            lemma_followed_within_needs_both(c, b, a, 20, 0);
        }
    }
}

} // verus!
