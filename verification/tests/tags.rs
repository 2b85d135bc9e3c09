use cobalt::id_list::{id_list_valid, parse_id_list};
use cobalt::infused::{CreateTag, ValuePerPeriod};
use cobalt::tags::{create_tag_plan, created_tag, update_tag_apps_plan, TagRef, TagWrite};
use std::collections::HashMap;

const NOW: i64 = 5_000;

/// Applies the app links of the writes to a table of app tags.
fn apply(writes: &[TagWrite], tags: &mut HashMap<i64, Option<TagRef>>) {
    for w in writes {
        if let TagWrite::SetAppTag { app, tag, .. } = w {
            tags.insert(*app, *tag);
        }
    }
}

fn request(apps: Vec<i64>) -> CreateTag {
    CreateTag { name: "Work".to_string(), color: "#ff0000".to_string(), score: 3, apps }
}

#[test]
fn create_tag_plan_inserts_then_links() {
    let w = create_tag_plan(&request(vec![4, 7]), NOW);
    assert_eq!(
        w,
        vec![
            TagWrite::InsertTag { created_at: NOW, updated_at: NOW },
            TagWrite::SetAppTag { app: 4, tag: Some(TagRef::NewTag), updated_at: NOW },
            TagWrite::SetAppTag { app: 7, tag: Some(TagRef::NewTag), updated_at: NOW },
        ]
    );
    assert_eq!(create_tag_plan(&request(vec![]), NOW), vec![TagWrite::InsertTag { created_at: NOW, updated_at: NOW }]);
}

#[test]
fn create_tag_links_every_requested_app() {
    let mut tags = HashMap::from([(4, Some(TagRef::Existing { id: 1 })), (9, None)]);
    apply(&create_tag_plan(&request(vec![4, 7]), NOW), &mut tags);
    assert_eq!(tags[&4], Some(TagRef::NewTag));
    assert_eq!(tags[&7], Some(TagRef::NewTag));
    assert_eq!(tags[&9], None);
}

#[test]
fn created_tag_takes_request_and_id() {
    let tag = created_tag(&request(vec![4, 7]), 12, NOW);
    assert_eq!(tag.inner.id, 12);
    assert_eq!(tag.inner.name, "Work");
    assert_eq!(tag.inner.color, "#ff0000");
    assert_eq!(tag.inner.score, 3);
    assert_eq!(tag.inner.created_at, NOW);
    assert_eq!(tag.inner.updated_at, NOW);
    assert_eq!(tag.apps.0, vec![4, 7]);
    assert_eq!(tag.usages, ValuePerPeriod { today: 0, week: 0, month: 0 });
}

#[test]
fn update_tag_apps_plan_unlinks_then_links() {
    let w = update_tag_apps_plan(2, &vec![1, 3], &vec![5], NOW);
    assert_eq!(
        w,
        vec![
            TagWrite::SetAppTag { app: 1, tag: None, updated_at: NOW },
            TagWrite::SetAppTag { app: 3, tag: None, updated_at: NOW },
            TagWrite::SetAppTag { app: 5, tag: Some(TagRef::Existing { id: 2 }), updated_at: NOW },
        ]
    );
}

#[test]
fn update_tag_apps_added_wins_over_removed() {
    let before = Some(TagRef::Existing { id: 2 });
    let mut tags = HashMap::from([(1, before), (3, before), (8, before)]);
    apply(&update_tag_apps_plan(2, &vec![1, 3], &vec![3, 5], NOW), &mut tags);
    assert_eq!(tags[&1], None);
    assert_eq!(tags[&3], Some(TagRef::Existing { id: 2 }));
    assert_eq!(tags[&5], Some(TagRef::Existing { id: 2 }));
    assert_eq!(tags[&8], before);
}

#[test]
fn id_list_reads_empty_text_as_no_ids() {
    assert!(id_list_valid(""));
    assert_eq!(parse_id_list("").0, Vec::<i64>::new());
}

#[test]
fn id_list_reads_comma_separated_ids() {
    assert_eq!(parse_id_list("1,2,3").0, vec![1, 2, 3]);
    assert_eq!(parse_id_list("42").0, vec![42]);
    assert_eq!(parse_id_list("-5,+7,007").0, vec![-5, 7, 7]);
}

#[test]
fn id_list_reads_the_i64_limits() {
    assert_eq!(parse_id_list("9223372036854775807").0, vec![i64::MAX]);
    assert_eq!(parse_id_list("-9223372036854775808").0, vec![i64::MIN]);
    assert_eq!(
        parse_id_list("00000000000000000000009223372036854775807").0,
        vec![i64::MAX]
    );
}

#[test]
fn id_list_refuses_what_is_no_i64() {
    assert!(!id_list_valid("9223372036854775808"));
    assert!(!id_list_valid("-9223372036854775809"));
    assert!(!id_list_valid("99999999999999999999999"));
    assert!(!id_list_valid("1,,2"));
    assert!(!id_list_valid(","));
    assert!(!id_list_valid("1,"));
    assert!(!id_list_valid("a"));
    assert!(!id_list_valid("-"));
    assert!(!id_list_valid("+"));
    assert!(!id_list_valid(" 1"));
    assert!(!id_list_valid("1é"));
}

#[test]
fn id_list_agrees_with_str_parse() {
    for text in ["1,2", "0", "-0", "+12,-13", "12a", "", "18446744073709551616", "--1"] {
        let expected: Option<Vec<i64>> = if text.is_empty() {
            Some(vec![])
        } else {
            text.split(',').map(|p| p.parse::<i64>().ok()).collect()
        };
        assert_eq!(id_list_valid(text), expected.is_some(), "{text}");
        if let Some(ids) = expected {
            assert_eq!(parse_id_list(text).0, ids, "{text}");
        }
    }
}

#[test]
fn id_list_reads_back_joined_ids() {
    for ids in [vec![], vec![0], vec![1, -2, 30], vec![i64::MIN, i64::MAX, 7]] {
        let text = ids.iter().map(|v| v.to_string()).collect::<Vec<_>>().join(",");
        assert!(id_list_valid(&text));
        assert_eq!(parse_id_list(&text).0, ids);
    }
}
