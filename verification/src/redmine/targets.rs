//! The portal forms that an import writes into: for every imported tracker,
//! for its plain state and each status that has a label, and for each way an
//! issue of the tracker is classified, the form, its title and the labels an
//! answer gets.

use vstd::prelude::*;

use crate::lookup::{find_int_key, int_keys, position, text_keys, texts};
use crate::redmine::config::{
    status_label, table_ids, target_tracker_table, target_trackers, Config, ConfigError,
    FormMapping, INQUIRY_TRACKER_ID,
};
use crate::redmine::inquiry::{InquiryClassification, InquiryRoute};
use crate::redmine::model::clone_optional_string;

verus! {

/// The classifications under which issues of a tracker are imported.
pub open spec fn classifications_for(tracker_id: i64) -> Seq<InquiryClassification> {
    if tracker_id == INQUIRY_TRACKER_ID {
        seq![
            InquiryClassification::Generic,
            InquiryClassification::Mod,
            InquiryClassification::Login,
            InquiryClassification::ExperienceOverflow,
            InquiryClassification::Appeal,
        ]
    } else {
        seq![InquiryClassification::Generic]
    }
}

/// The states of a tracker that get a form target of their own: the plain
/// state, then each status that the tracker's status labels name.
pub open spec fn status_variants(c: Config, tracker_id: i64) -> Seq<Option<Seq<char>>> {
    seq![None] + match position(int_keys(c.status_label_mappings@), tracker_id) {
        None => Seq::empty(),
        Some(t) => text_keys(c.status_label_mappings@[t].1@).map_values(
            |k: Seq<char>| Some(k),
        ),
    }
}

/// A form target by what selects it: tracker, status, classification.
pub type TargetKey = (i64, Option<Seq<char>>, InquiryClassification);

pub open spec fn keys_for_variants(
    tracker_id: i64,
    variants: Seq<Option<Seq<char>>>,
    classes: Seq<InquiryClassification>,
) -> Seq<TargetKey>
    decreases variants.len(),
{
    if variants.len() == 0 {
        Seq::empty()
    } else {
        keys_for_variants(tracker_id, variants.drop_last(), classes) + classes.map_values(
            |k: InquiryClassification| (tracker_id, variants.last(), k),
        )
    }
}

pub open spec fn keys_for_trackers(c: Config, trackers: Seq<i64>) -> Seq<TargetKey>
    decreases trackers.len(),
{
    if trackers.len() == 0 {
        Seq::empty()
    } else {
        let t = trackers.last();
        keys_for_trackers(c, trackers.drop_last()) + keys_for_variants(
            t,
            status_variants(c, t),
            classifications_for(t),
        )
    }
}

/// Every form target of an import, trackers in table order, then states,
/// then classifications.
pub open spec fn target_keys(c: Config) -> Seq<TargetKey> {
    keys_for_trackers(c, table_ids(target_tracker_table()))
}

/// The mapping of a tracker or, for an inquiry route, of the route.
pub open spec fn mapping_of(c: Config, tracker_id: i64, route: Option<InquiryRoute>) -> Result<
    FormMapping,
    ConfigError,
> {
    match route {
        Some(route) => if tracker_id == INQUIRY_TRACKER_ID {
            match position(c.inquiry_routes(), route) {
                Some(k) => Ok(c.inquiry_mappings@[k].1),
                None => Err(ConfigError::UnknownInquiryRoute { route }),
            }
        } else {
            Err(ConfigError::RouteOutsideInquiryTracker)
        },
        None => match position(int_keys(c.tracker_mappings@), tracker_id) {
            Some(k) => Ok(c.tracker_mappings@[k].1),
            None => Err(ConfigError::UnknownTracker { tracker_id }),
        },
    }
}

/// The form ID of a tracker or of an inquiry route.
pub open spec fn form_id_of(c: Config, tracker_id: i64, route: Option<InquiryRoute>) -> Result<
    u128,
    ConfigError,
> {
    match route {
        Some(route) => match position(c.inquiry_routes(), route) {
            Some(k) => match crate::uuid_text::uuid_parse_str(c.inquiry_mappings@[k].1.form_id@) {
                Some(id) => Ok(id),
                None => Err(ConfigError::InquiryFormIdNotUuid { route }),
            },
            None => Err(ConfigError::UnknownInquiryRoute { route }),
        },
        None => match position(int_keys(c.tracker_mappings@), tracker_id) {
            Some(k) => match crate::uuid_text::uuid_parse_str(c.tracker_mappings@[k].1.form_id@) {
                Some(id) => Ok(id),
                None => Err(ConfigError::TrackerFormIdNotUuid { tracker_id }),
            },
            None => Err(ConfigError::UnknownTracker { tracker_id }),
        },
    }
}

/// A form target by its parts: tracker, status, classification, form ID,
/// form title, labels.
pub type TargetView = (
    i64,
    Option<Seq<char>>,
    InquiryClassification,
    u128,
    Seq<char>,
    Seq<Seq<char>>,
);

/// The form target of a key: the form of its mapping, and the mapping's
/// labels followed by the label of the status, where the status has one.
pub open spec fn target_of(c: Config, key: TargetKey) -> Result<TargetView, ConfigError> {
    let (t, status, class) = key;
    let route = class.spec_special_route();
    match mapping_of(c, t, route) {
        Err(e) => Err(e),
        Ok(m) => match form_id_of(c, t, route) {
            Err(e) => Err(e),
            Ok(id) => {
                let label = match status {
                    Some(s) => status_label(c.status_label_mappings@, t, s),
                    None => None,
                };
                let labels = texts(m.labels@) + match label {
                    Some(l) => seq![l],
                    None => Seq::empty(),
                };
                Ok((t, status, class, id, m.form_title@, labels))
            },
        },
    }
}

/// The form targets of the keys in order; the first key that fails fails
/// them all.
pub open spec fn targets_of(c: Config, keys: Seq<TargetKey>) -> Result<Seq<TargetView>, ConfigError>
    decreases keys.len(),
{
    if keys.len() == 0 {
        Ok(Seq::empty())
    } else {
        match targets_of(c, keys.drop_last()) {
            Err(e) => Err(e),
            Ok(ts) => match target_of(c, keys.last()) {
                Err(e) => Err(e),
                Ok(t) => Ok(ts.push(t)),
            },
        }
    }
}

/// A portal form that an import writes into, and what selects it.
#[derive(Debug)]
pub struct ImportTarget {
    pub tracker_id: i64,
    pub status_name: Option<String>,
    pub classification: InquiryClassification,
    pub form_id: u128,
    pub form_title: String,
    pub labels: Vec<String>,
}

pub open spec fn opt_view(s: Option<String>) -> Option<Seq<char>> {
    match s {
        Some(v) => Some(v@),
        None => None,
    }
}

pub open spec fn target_view(t: ImportTarget) -> TargetView {
    (t.tracker_id, opt_view(t.status_name), t.classification, t.form_id, t.form_title@, texts(
        t.labels@,
    ))
}

pub open spec fn key_view(k: (i64, Option<String>, InquiryClassification)) -> TargetKey {
    (k.0, opt_view(k.1), k.2)
}

pub open spec fn key_views(keys: Seq<(i64, Option<String>, InquiryClassification)>) -> Seq<TargetKey> {
    keys.map_values(|k: (i64, Option<String>, InquiryClassification)| key_view(k))
}

fn classification_list(tracker_id: i64) -> (v: Vec<InquiryClassification>)
    ensures
        v@ == classifications_for(tracker_id),
{
    if tracker_id == INQUIRY_TRACKER_ID {
        vec![
            InquiryClassification::Generic,
            InquiryClassification::Mod,
            InquiryClassification::Login,
            InquiryClassification::ExperienceOverflow,
            InquiryClassification::Appeal,
        ]
    } else {
        vec![InquiryClassification::Generic]
    }
}

fn variant_list(config: &Config, tracker_id: i64) -> (v: Vec<Option<String>>)
    ensures
        v@.map_values(|s: Option<String>| opt_view(s)) == status_variants(*config, tracker_id),
{
    let mut v: Vec<Option<String>> = Vec::new();
    v.push(None);
    match find_int_key(&config.status_label_mappings, tracker_id) {
        None => {
            assert(v@.map_values(|s: Option<String>| opt_view(s)) =~= status_variants(
                *config,
                tracker_id,
            ));
        },
        Some(t) => {
            let labels = &config.status_label_mappings[t].1;
            let ghost names = text_keys(labels@).map_values(|k: Seq<char>| Some(k));
            let mut i: usize = 0;
            while i < labels.len()
                invariant
                    i <= labels@.len(),
                    names == text_keys(labels@).map_values(|k: Seq<char>| Some(k)),
                    v@.map_values(|s: Option<String>| opt_view(s)) =~= seq![None]
                        + names.subrange(0, i as int),
                decreases labels@.len() - i,
            {
                let ghost prev = v@;
                let name = labels[i].0.clone();
                v.push(Some(name));
                proof {
                    assert(v@.map_values(|s: Option<String>| opt_view(s)) =~= prev.map_values(
                        |s: Option<String>| opt_view(s),
                    ).push(Some(name@)));
                    assert(names[i as int] == Some(labels@[i as int].0@));
                    assert(names.subrange(0, i + 1) =~= names.subrange(0, i as int).push(
                        names[i as int],
                    ));
                }
                i = i + 1;
            }
            assert(names.subrange(0, i as int) =~= names);
        },
    }
    v
}

fn form_target(config: &Config, tracker_id: i64, status: &Option<String>, class: InquiryClassification) -> (r:
    Result<ImportTarget, ConfigError>)
    ensures
        match target_of(*config, (tracker_id, opt_view(*status), class)) {
            Ok(t) => r matches Ok(x) && target_view(x) == t,
            Err(e) => r == Err::<ImportTarget, ConfigError>(e),
        },
{
    let route = class.special_route();
    let mapping = config.form_mapping_for(tracker_id, route)?;
    let form_id = match route {
        Some(route) => config.form_id_for_inquiry(route)?,
        None => config.form_id_for(tracker_id)?,
    };
    let label = match status {
        Some(name) => config.status_label_for(tracker_id, name.as_str()),
        None => None,
    };
    let mut labels: Vec<String> = Vec::new();
    let mut i: usize = 0;
    while i < mapping.labels.len()
        invariant
            i <= mapping.labels@.len(),
            texts(labels@) =~= texts(mapping.labels@.subrange(0, i as int)),
        decreases mapping.labels@.len() - i,
    {
        let ghost prev = labels@;
        let label_text = mapping.labels[i].clone();
        labels.push(label_text);
        proof {
            assert(texts(labels@) =~= texts(prev).push(label_text@));
            assert(mapping.labels@.subrange(0, i + 1) =~= mapping.labels@.subrange(0, i as int).push(
                mapping.labels@[i as int],
            ));
            assert(texts(mapping.labels@.subrange(0, i + 1)) =~= texts(
                mapping.labels@.subrange(0, i as int),
            ).push(mapping.labels@[i as int]@));
        }
        i = i + 1;
    }
    assert(mapping.labels@.subrange(0, i as int) =~= mapping.labels@);
    let ghost base = labels@;
    match label {
        Some(l) => {
            labels.push(crate::text::string_of(&crate::text::chars_of(l)));
            assert(texts(labels@) =~= texts(base) + seq![l@]);
        },
        None => {
            assert(texts(labels@) =~= texts(base) + Seq::<Seq<char>>::empty());
        },
    }
    Ok(
        ImportTarget {
            tracker_id,
            status_name: clone_optional_string(status),
            classification: class,
            form_id,
            form_title: mapping.form_title.clone(),
            labels,
        },
    )
}

fn all_target_keys(config: &Config) -> (keys: Vec<(i64, Option<String>, InquiryClassification)>)
    ensures
        key_views(keys@) == target_keys(*config),
{
    let trackers = target_trackers();
    let ghost ids = table_ids(target_tracker_table());
    assert(trackers@.map_values(|e: (i64, &'static str)| e.0) =~= ids);
    let mut keys: Vec<(i64, Option<String>, InquiryClassification)> = Vec::new();
    let mut i: usize = 0;
    assert(ids.subrange(0, 0) =~= Seq::<i64>::empty());
    assert(key_views(keys@) =~= Seq::<TargetKey>::empty());
    while i < trackers.len()
        invariant
            i <= trackers@.len(),
            trackers@.len() == ids.len(),
            ids == table_ids(target_tracker_table()),
            forall|k: int| 0 <= k < ids.len() ==> #[trigger] ids[k] == trackers@[k].0,
            key_views(keys@) == keys_for_trackers(*config, ids.subrange(0, i as int)),
        decreases trackers@.len() - i,
    {
        let t = trackers[i].0;
        let classes = classification_list(t);
        let variants = variant_list(config, t);
        let ghost vs = variants@.map_values(|s: Option<String>| opt_view(s));
        let ghost before = key_views(keys@);
        let mut j: usize = 0;
        assert(vs.subrange(0, 0) =~= Seq::<Option<Seq<char>>>::empty());
        assert(before + keys_for_variants(t, vs.subrange(0, 0), classes@) =~= before);
        while j < variants.len()
            invariant
                j <= variants@.len(),
                vs == variants@.map_values(|s: Option<String>| opt_view(s)),
                key_views(keys@) == before + keys_for_variants(t, vs.subrange(0, j as int), classes@),
            decreases variants@.len() - j,
        {
            let ghost mid = key_views(keys@);
            let mut k: usize = 0;
            assert(mid + classes@.subrange(0, 0).map_values(
                |c: InquiryClassification| (t, vs[j as int], c),
            ) =~= mid);
            while k < classes.len()
                invariant
                    k <= classes@.len(),
                    j < variants@.len(),
                    vs == variants@.map_values(|s: Option<String>| opt_view(s)),
                    key_views(keys@) == mid + classes@.subrange(0, k as int).map_values(
                        |c: InquiryClassification| (t, vs[j as int], c),
                    ),
                decreases classes@.len() - k,
            {
                let ghost prev = keys@;
                keys.push((t, clone_optional_string(&variants[j]), classes[k]));
                proof {
                    assert(key_views(keys@) =~= key_views(prev).push(
                        (t, vs[j as int], classes@[k as int]),
                    ));
                    assert(classes@.subrange(0, k + 1).map_values(
                        |c: InquiryClassification| (t, vs[j as int], c),
                    ) =~= classes@.subrange(0, k as int).map_values(
                        |c: InquiryClassification| (t, vs[j as int], c),
                    ).push((t, vs[j as int], classes@[k as int])));
                }
                k = k + 1;
            }
            proof {
                assert(classes@.subrange(0, k as int) =~= classes@);
                assert(vs.subrange(0, j + 1).drop_last() =~= vs.subrange(0, j as int));
                assert(vs.subrange(0, j + 1).last() == vs[j as int]);
            }
            j = j + 1;
        }
        proof {
            assert(vs.subrange(0, j as int) =~= vs);
            assert(ids.subrange(0, i + 1).drop_last() =~= ids.subrange(0, i as int));
            assert(ids.subrange(0, i + 1).last() == t);
        }
        i = i + 1;
    }
    assert(ids.subrange(0, i as int) =~= ids);
    keys
}

/// Every form target of an import, in order, or the first lookup in the
/// settings that fails.
pub fn import_targets(config: &Config) -> (r: Result<Vec<ImportTarget>, ConfigError>)
    ensures
        match targets_of(*config, target_keys(*config)) {
            Ok(ts) => r matches Ok(v) && v@.map_values(|t: ImportTarget| target_view(t)) == ts,
            Err(e) => r == Err::<Vec<ImportTarget>, ConfigError>(e),
        },
{
    let keys = all_target_keys(config);
    let ghost ks = key_views(keys@);
    let mut targets: Vec<ImportTarget> = Vec::new();
    let mut i: usize = 0;
    assert(ks.subrange(0, 0) =~= Seq::<TargetKey>::empty());
    assert(targets@.map_values(|t: ImportTarget| target_view(t)) =~= Seq::<TargetView>::empty());
    while i < keys.len()
        invariant
            i <= keys@.len(),
            ks == key_views(keys@),
            ks == target_keys(*config),
            targets_of(*config, ks.subrange(0, i as int)) == Ok::<Seq<TargetView>, ConfigError>(
                targets@.map_values(|t: ImportTarget| target_view(t)),
            ),
        decreases keys@.len() - i,
    {
        proof {
            assert(ks.subrange(0, i + 1).drop_last() =~= ks.subrange(0, i as int));
            assert(ks.subrange(0, i + 1).last() == key_view(keys@[i as int]));
        }
        let target = match form_target(config, keys[i].0, &keys[i].1, keys[i].2) {
            Ok(t) => t,
            Err(e) => {
                proof {
                    lemma_targets_prefix_error(*config, ks, i + 1);
                }
                return Err(e);
            },
        };
        let ghost prev = targets@;
        targets.push(target);
        assert(targets@.map_values(|t: ImportTarget| target_view(t)) =~= prev.map_values(
            |t: ImportTarget| target_view(t),
        ).push(target_view(target)));
        i = i + 1;
    }
    assert(ks.subrange(0, i as int) =~= ks);
    Ok(targets)
}

proof fn lemma_targets_prefix_error(c: Config, keys: Seq<TargetKey>, n: int)
    requires
        0 <= n <= keys.len(),
        targets_of(c, keys.subrange(0, n)) is Err,
    ensures
        targets_of(c, keys) == targets_of(c, keys.subrange(0, n)),
    decreases keys.len() - n,
{
    if n == keys.len() {
        assert(keys.subrange(0, n) =~= keys);
    } else {
        assert(keys.subrange(0, n + 1).drop_last() =~= keys.subrange(0, n));
        lemma_targets_prefix_error(c, keys, n + 1);
    }
}

/// The state under which an issue's form target is looked up: its status
/// where the status has a label for the tracker, else the plain state.
pub fn status_target_key(config: &Config, tracker_id: i64, status_name: &str) -> (r: Option<String>)
    ensures
        match status_label(config.status_label_mappings@, tracker_id, status_name@) {
            Some(_) => r matches Some(s) && s@ == status_name@,
            None => r is None,
        },
{
    match config.status_label_for(tracker_id, status_name) {
        Some(_) => Some(crate::text::string_of(&crate::text::chars_of(status_name))),
        None => None,
    }
}

pub open spec fn selects(t: ImportTarget, key: TargetKey) -> bool {
    t.tracker_id == key.0 && opt_view(t.status_name) == key.1 && t.classification == key.2
}

/// The first target selected by tracker, state and classification.
pub fn find_import_target(
    targets: &[ImportTarget],
    tracker_id: i64,
    status_name: &Option<String>,
    classification: InquiryClassification,
) -> (r: Option<usize>)
    ensures
        match r {
            Some(i) => i < targets@.len() && selects(
                targets@[i as int],
                (tracker_id, opt_view(*status_name), classification),
            ) && forall|k: int|
                0 <= k < i ==> !selects(
                    #[trigger] targets@[k],
                    (tracker_id, opt_view(*status_name), classification),
                ),
            None => forall|k: int|
                0 <= k < targets@.len() ==> !selects(
                    #[trigger] targets@[k],
                    (tracker_id, opt_view(*status_name), classification),
                ),
        },
{
    let ghost key = (tracker_id, opt_view(*status_name), classification);
    let mut i: usize = 0;
    while i < targets.len()
        invariant
            i <= targets@.len(),
            key == (tracker_id, opt_view(*status_name), classification),
            forall|k: int| 0 <= k < i ==> !selects(#[trigger] targets@[k], key),
        decreases targets@.len() - i,
    {
        let t = &targets[i];
        let same_status = match (&t.status_name, status_name) {
            (None, None) => true,
            (Some(a), Some(b)) => crate::text::text_equal(a.as_str(), b.as_str()),
            _ => false,
        };
        if t.tracker_id == tracker_id && same_status && t.classification == classification {
            return Some(i);
        }
        i = i + 1;
    }
    None
}

} // verus!
