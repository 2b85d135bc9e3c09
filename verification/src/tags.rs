//! Creating tags and moving apps between tags.
//!
//! Both are transactions of writes against the tags and apps tables. Their
//! writes are decided here, in order: [`create_tag_plan`] inserts the tag and
//! links the requested apps to it, [`update_tag_apps_plan`] unlinks the
//! removed apps and then links the added ones. The tag inserted by a
//! transaction is referred to by [`TagRef::NewTag`].
use vstd::prelude::*;

use crate::entities::{Id, Tag, Timestamp};
use crate::infused::{CreateTag, RefVec, ValuePerPeriod};

verus! {

/// A tag, either known or inserted by the same transaction.
#[derive(Clone, Copy, Debug, PartialEq, Eq, Structural)]
pub enum TagRef {
    /// A tag that already exists
    Existing { id: Id },
    /// The tag inserted by this transaction
    NewTag,
}

/// A write of a tag transaction.
#[derive(Clone, Copy, Debug, PartialEq, Eq, Structural)]
pub enum TagWrite {
    /// Insert a tag with the request's name, color and score; it yields the
    /// new tag's identifier.
    InsertTag { created_at: Timestamp, updated_at: Timestamp },
    /// Set the tag of the app (`None` unlinks it from any tag).
    SetAppTag { app: Id, tag: Option<TagRef>, updated_at: Timestamp },
}

/// The writes that set the tag of each of `apps`, in order.
pub open spec fn link_writes(apps: Seq<Id>, tag: Option<TagRef>, now: Timestamp) -> Seq<TagWrite> {
    apps.map_values(|app: Id| TagWrite::SetAppTag { app, tag, updated_at: now })
}

/// The writes that create a tag: the tag itself, then a link of each
/// requested app to it.
pub open spec fn create_tag_writes(tag: CreateTag, now: Timestamp) -> Seq<TagWrite> {
    seq![TagWrite::InsertTag { created_at: now, updated_at: now }]
        + link_writes(tag.apps@, Some(TagRef::NewTag), now)
}

/// The writes that move apps: each removed app is unlinked, then each added
/// app is linked to the tag.
pub open spec fn update_tag_apps_writes(tag_id: Id, removed: Seq<Id>, added: Seq<Id>, now: Timestamp) -> Seq<TagWrite> {
    link_writes(removed, None, now) + link_writes(added, Some(TagRef::Existing { id: tag_id }), now)
}

/// The tag of `app` after the writes, where it had `before`.
pub open spec fn app_tag_after(writes: Seq<TagWrite>, app: Id, before: Option<TagRef>) -> Option<TagRef>
    decreases writes.len(),
{
    if writes.len() == 0 {
        before
    } else if let TagWrite::SetAppTag { app: a, tag, .. } = writes.last() {
        if a == app {
            tag
        } else {
            app_tag_after(writes.drop_last(), app, before)
        }
    } else {
        app_tag_after(writes.drop_last(), app, before)
    }
}

/// Pushes to `w` the writes that set the tag of each of `apps`.
fn push_links(w: &mut Vec<TagWrite>, apps: &Vec<Id>, tag: Option<TagRef>, now: Timestamp)
    ensures
        final(w)@ == old(w)@ + link_writes(apps@, tag, now),
{
    let ghost head = w@;
    let mut i: usize = 0;
    while i < apps.len()
        invariant
            i <= apps.len(),
            w@ == head + link_writes(apps@.take(i as int), tag, now),
        decreases apps.len() - i,
    {
        w.push(TagWrite::SetAppTag { app: apps[i], tag, updated_at: now });
        proof {
            assert(link_writes(apps@.take(i + 1), tag, now) =~= link_writes(apps@.take(i as int), tag, now).push(
                TagWrite::SetAppTag { app: apps@[i as int], tag, updated_at: now },
            ));
        }
        i = i + 1;
    }
    assert(apps@.take(apps.len() as int) =~= apps@);
}

/// The writes that create the tag at time `now` and link its apps.
pub fn create_tag_plan(tag: &CreateTag, now: Timestamp) -> (r: Vec<TagWrite>)
    ensures
        r@ == create_tag_writes(*tag, now),
{
    let mut w: Vec<TagWrite> = Vec::new();
    w.push(TagWrite::InsertTag { created_at: now, updated_at: now });
    push_links(&mut w, &tag.apps, Some(TagRef::NewTag), now);
    w
}

/// The tag that [`create_tag_plan`] created, once its insert yielded `id`:
/// the request's name, color, score and apps, created and updated at `now`,
/// with no usage yet.
pub fn created_tag(tag: &CreateTag, id: Id, now: Timestamp) -> (r: crate::infused::Tag)
    ensures
        r.inner.id == id,
        r.inner.name@ == tag.name@,
        r.inner.color@ == tag.color@,
        r.inner.score == tag.score,
        r.inner.created_at == now,
        r.inner.updated_at == now,
        r.apps.0@ == tag.apps@,
        r.usages == (ValuePerPeriod::<i64> { today: 0, week: 0, month: 0 }),
{
    crate::infused::Tag {
        inner: Tag {
            id,
            name: tag.name.clone(),
            color: tag.color.clone(),
            score: tag.score,
            created_at: now,
            updated_at: now,
        },
        apps: RefVec(tag.apps.clone()),
        usages: ValuePerPeriod { today: 0, week: 0, month: 0 },
    }
}

/// The writes at time `now` that unlink the `removed` apps from any tag and
/// link the `added` apps to the tag `tag_id`.
pub fn update_tag_apps_plan(tag_id: Id, removed: &Vec<Id>, added: &Vec<Id>, now: Timestamp) -> (r: Vec<TagWrite>)
    ensures
        r@ == update_tag_apps_writes(tag_id, removed@, added@, now),
{
    let mut w: Vec<TagWrite> = Vec::new();
    push_links(&mut w, removed, None, now);
    push_links(&mut w, added, Some(TagRef::Existing { id: tag_id }), now);
    assert(w@ =~= update_tag_apps_writes(tag_id, removed@, added@, now));
    w
}

// ---------------------------------------------------------------------------
// Laws
// ---------------------------------------------------------------------------

proof fn lemma_app_tag_after_concat(a: Seq<TagWrite>, b: Seq<TagWrite>, app: Id, before: Option<TagRef>)
    ensures
        app_tag_after(a + b, app, before) == app_tag_after(b, app, app_tag_after(a, app, before)),
    decreases b.len(),
{
    if b.len() == 0 {
        assert(a + b =~= a);
    } else {
        assert((a + b).drop_last() =~= a + b.drop_last());
        assert((a + b).last() == b.last());
        lemma_app_tag_after_concat(a, b.drop_last(), app, before);
    }
}

proof fn lemma_app_tag_after_links(apps: Seq<Id>, tag: Option<TagRef>, now: Timestamp, app: Id, before: Option<TagRef>)
    ensures
        app_tag_after(link_writes(apps, tag, now), app, before) == if apps.contains(app) {
            tag
        } else {
            before
        },
    decreases apps.len(),
{
    if apps.len() > 0 {
        let w = link_writes(apps, tag, now);
        assert(w.drop_last() =~= link_writes(apps.drop_last(), tag, now));
        lemma_app_tag_after_links(apps.drop_last(), tag, now, app, before);
        if apps.last() != app {
            assert(apps.contains(app) ==> apps.drop_last().contains(app)) by {
                if apps.contains(app) {
                    let k = choose|k: int| 0 <= k < apps.len() && apps[k] == app;
                    assert(k < apps.len() - 1);
                    assert(apps.drop_last()[k] == app);
                }
            }
            assert(apps.drop_last().contains(app) ==> apps.contains(app)) by {
                if apps.drop_last().contains(app) {
                    let k = choose|k: int| 0 <= k < apps.len() - 1 && apps.drop_last()[k] == app;
                    assert(apps[k] == app);
                }
            }
        } else {
            assert(apps[apps.len() - 1] == app);
        }
    }
}

/// Creating a tag links every requested app to the new tag.
pub proof fn law_create_tag_links_apps(tag: CreateTag, now: Timestamp, app: Id, before: Option<TagRef>)
    requires
        tag.apps@.contains(app),
    ensures
        app_tag_after(create_tag_writes(tag, now), app, before) == Some(TagRef::NewTag),
{
    let head = seq![TagWrite::InsertTag { created_at: now, updated_at: now }];
    lemma_app_tag_after_concat(head, link_writes(tag.apps@, Some(TagRef::NewTag), now), app, before);
    lemma_app_tag_after_links(tag.apps@, Some(TagRef::NewTag), now, app, app_tag_after(head, app, before));
}

/// Moving apps leaves each added app linked to the tag, each removed app that
/// is not also added linked to no tag, and every other app as it was.
pub proof fn law_update_tag_apps_links(
    tag_id: Id,
    removed: Seq<Id>,
    added: Seq<Id>,
    now: Timestamp,
    app: Id,
    before: Option<TagRef>,
)
    ensures
        app_tag_after(update_tag_apps_writes(tag_id, removed, added, now), app, before) == if added.contains(app) {
            Some(TagRef::Existing { id: tag_id })
        } else if removed.contains(app) {
            None
        } else {
            before
        },
{
    let unlink = link_writes(removed, None, now);
    let link = link_writes(added, Some(TagRef::Existing { id: tag_id }), now);
    lemma_app_tag_after_concat(unlink, link, app, before);
    lemma_app_tag_after_links(removed, None, now, app, before);
    lemma_app_tag_after_links(added, Some(TagRef::Existing { id: tag_id }), now, app, app_tag_after(unlink, app, before));
}

} // verus!
