use vstd::prelude::*;

use crate::app::App;
use crate::chars::{decimal, decimal_chars, string_of};
use crate::forms::MainTab;
use crate::searchkeys::says_info;
use crate::browse::{BrowseLists, ImageFeed, ModelPaging};
use crate::models::{model_versions, model_versions_view, version_views, MediaDelivery, ModelHit, ParsedModelVersion, VersionView};
use crate::searchform::searching_models_text;

verus! {

/// A model can be shown with a version: it has versions, or names its
/// primary one.
pub open spec fn displayable(m: ModelHit, base: Seq<char>, namespace: Seq<char>) -> bool {
    model_versions_view(m, base, namespace).len() > 0 || m.primary_model_version_id is Some
}

/// Whether a model can be shown with a version.
pub fn has_displayable_model_version(m: &ModelHit, delivery: &MediaDelivery) -> (b: bool)
    ensures
        b == displayable(*m, delivery.base_url@, delivery.namespace@),
{
    let versions = model_versions(m, delivery);
    proof {
        assert(version_views(versions@).len() == versions@.len());
    }
    versions.len() > 0 || m.primary_model_version_id.is_some()
}

/// The models that can be shown with a version first, then the others, each
/// part in the order given.
pub open spec fn displayable_first(s: Seq<ModelHit>, base: Seq<char>, namespace: Seq<char>) -> Seq<ModelHit> {
    s.filter(|m: ModelHit| displayable(m, base, namespace)) + s.filter(|m: ModelHit| !displayable(m, base, namespace))
}

/// Whether a list holds a model with the given id.
pub open spec fn has_id(s: Seq<ModelHit>, id: u64) -> bool {
    exists|i: int| 0 <= i < s.len() && #[trigger] s[i].id == id
}

/// The list with each new model appended, in order, unless a model with its id
/// is listed already.
pub open spec fn appended_unique(base: Seq<ModelHit>, new: Seq<ModelHit>) -> Seq<ModelHit>
    decreases new.len(),
{
    if new.len() == 0 {
        base
    } else {
        let before = appended_unique(base, new.drop_last());
        if has_id(before, new.last().id) {
            before
        } else {
            before.push(new.last())
        }
    }
}

/// Orders models with a version first, keeping the order within each part.
pub fn sort_displayable_first(models: Vec<ModelHit>, delivery: &MediaDelivery) -> (r: Vec<ModelHit>)
    ensures
        r@ == displayable_first(models@, delivery.base_url@, delivery.namespace@),
{
    let ghost all = models@;
    let ghost pd = |m: ModelHit| displayable(m, delivery.base_url@, delivery.namespace@);
    let ghost pn = |m: ModelHit| !displayable(m, delivery.base_url@, delivery.namespace@);
    let mut rest = models;
    let mut shown: Vec<ModelHit> = Vec::new();
    let mut hidden: Vec<ModelHit> = Vec::new();
    let ghost mut i: int = 0;
    proof {
        reveal(Seq::filter);
    }
    while rest.len() > 0
        invariant
            0 <= i <= all.len(),
            rest@ == all.subrange(i, all.len() as int),
            shown@ == all.subrange(0, i).filter(pd),
            hidden@ == all.subrange(0, i).filter(pn),
            pd == (|m: ModelHit| displayable(m, delivery.base_url@, delivery.namespace@)),
            pn == (|m: ModelHit| !displayable(m, delivery.base_url@, delivery.namespace@)),
        decreases rest@.len(),
    {
        let m = rest.remove(0);
        let ghost s = all.subrange(0, i + 1);
        proof {
            reveal(Seq::filter);
            assert(s.drop_last() =~= all.subrange(0, i));
            assert(s.last() == m);
        }
        if has_displayable_model_version(&m, delivery) {
            proof {
                reveal(Seq::filter);
                assert(pd(m));
                assert(s.filter(pd) == all.subrange(0, i).filter(pd).push(m));
                assert(s.filter(pn) == all.subrange(0, i).filter(pn));
            }
            shown.push(m);
        } else {
            proof {
                reveal(Seq::filter);
                assert(pn(m));
                assert(s.filter(pn) == all.subrange(0, i).filter(pn).push(m));
                assert(s.filter(pd) == all.subrange(0, i).filter(pd));
            }
            hidden.push(m);
        }
        proof {
            i = i + 1;
            assert(rest@ =~= all.subrange(i, all.len() as int));
        }
    }
    proof {
        assert(all.subrange(0, i) =~= all);
    }
    shown.append(&mut hidden);
    shown
}

fn lists_id(models: &Vec<ModelHit>, id: u64) -> (b: bool)
    ensures
        b == has_id(models@, id),
{
    let mut i: usize = 0;
    while i < models.len()
        invariant
            i <= models@.len(),
            forall|j: int| 0 <= j < i ==> models@[j].id != id,
        decreases models@.len() - i,
    {
        if models[i].id == id {
            assert(models@[i as int].id == id);
            return true;
        }
        i = i + 1;
    }
    false
}

/// Appends each new model to the list, in order, unless a model with its id
/// is listed already.
pub fn append_unique_models(models: &mut Vec<ModelHit>, new: Vec<ModelHit>)
    ensures
        final(models)@ == appended_unique(old(models)@, new@),
{
    let ghost all = new@;
    let ghost start = models@;
    let mut rest = new;
    let ghost mut i: int = 0;
    while rest.len() > 0
        invariant
            0 <= i <= all.len(),
            rest@ == all.subrange(i, all.len() as int),
            models@ == appended_unique(start, all.subrange(0, i)),
        decreases rest@.len(),
    {
        let m = rest.remove(0);
        proof {
            assert(all.subrange(0, i + 1).drop_last() =~= all.subrange(0, i));
            assert(all.subrange(0, i + 1).last() == m);
        }
        if !lists_id(models, m.id) {
            models.push(m);
        }
        proof {
            i = i + 1;
            assert(rest@ =~= all.subrange(i, all.len() as int));
        }
    }
    proof {
        assert(all.subrange(0, i) =~= all);
    }
}

/// The ids of the versions of the models, model by model.
pub open spec fn version_ids_of(models: Seq<ModelHit>, base: Seq<char>, namespace: Seq<char>) -> Seq<u64>
    decreases models.len(),
{
    if models.len() == 0 {
        Seq::empty()
    } else {
        version_ids_of(models.drop_last(), base, namespace) + model_versions_view(models.last(), base, namespace).map_values(
            |v: VersionView| v.id,
        )
    }
}

fn push_version_ids(ids: &mut Vec<u64>, versions: &Vec<ParsedModelVersion>)
    ensures
        final(ids)@ == old(ids)@ + version_views(versions@).map_values(|v: VersionView| v.id),
{
    let ghost start = ids@;
    let mut i: usize = 0;
    while i < versions.len()
        invariant
            i <= versions@.len(),
            ids@ == start + version_views(versions@.subrange(0, i as int)).map_values(
                |v: VersionView| v.id,
            ),
        decreases versions@.len() - i,
    {
        ids.push(versions[i].id);
        proof {
            assert(version_views(versions@.subrange(0, i + 1)).map_values(|v: VersionView| v.id)
                =~= version_views(versions@.subrange(0, i as int)).map_values(|v: VersionView| v.id).push(
                versions@[i as int]@.id,
            ));
        }
        i = i + 1;
    }
    assert(versions@.subrange(0, versions@.len() as int) =~= versions@);
}

/// The ids of every version of the models, model by model: the versions whose
/// cached covers are worth keeping.
pub fn known_version_ids(models: &Vec<ModelHit>, delivery: &MediaDelivery) -> (r: Vec<u64>)
    ensures
        r@ == version_ids_of(models@, delivery.base_url@, delivery.namespace@),
{
    let mut r: Vec<u64> = Vec::new();
    let mut i: usize = 0;
    while i < models.len()
        invariant
            i <= models@.len(),
            r@ == version_ids_of(models@.subrange(0, i as int), delivery.base_url@, delivery.namespace@),
        decreases models@.len() - i,
    {
        let versions = model_versions(&models[i], delivery);
        push_version_ids(&mut r, &versions);
        proof {
            assert(models@.subrange(0, i + 1).drop_last() =~= models@.subrange(0, i as int));
        }
        i = i + 1;
    }
    assert(models@.subrange(0, models@.len() as int) =~= models@);
    r
}

/// The model results of a search and their paging.
pub struct ModelResults {
    pub models: Vec<ModelHit>,
    pub paging: ModelPaging,
}

impl ModelResults {
    /// Shows the first page of a search: the models with a version first, the
    /// first one selected, and the paging as the search reports it.
    pub fn set_results(
        &mut self,
        lists: &mut BrowseLists,
        models: Vec<ModelHit>,
        has_more: bool,
        next_page: Option<u32>,
        delivery: &MediaDelivery,
    )
        ensures
            final(self).models@ == displayable_first(models@, delivery.base_url@, delivery.namespace@),
            final(self).paging == (ModelPaging { has_more, loading_more: false, next_page }),
            *final(lists) == (BrowseLists { model_selected: Some(0), ..*old(lists) }),
    {
        self.models = sort_displayable_first(models, delivery);
        self.paging = ModelPaging { has_more, loading_more: false, next_page };
        lists.model_selected = Some(0);
    }

    /// Adds a further page of a search: its models with a version first,
    /// those already listed left out; the paging as the search reports it.
    pub fn append_results(&mut self, models: Vec<ModelHit>, has_more: bool, next_page: Option<u32>, delivery: &MediaDelivery)
        ensures
            final(self).models@ == appended_unique(
                old(self).models@,
                displayable_first(models@, delivery.base_url@, delivery.namespace@),
            ),
            final(self).paging == (ModelPaging { has_more, loading_more: false, next_page }),
    {
        if models.len() > 0 {
            let sorted = sort_displayable_first(models, delivery);
            append_unique_models(&mut self.models, sorted);
        } else {
            proof {
                reveal(Seq::filter);
                assert(models@.filter(|m: ModelHit| displayable(m, delivery.base_url@, delivery.namespace@)) =~= Seq::<ModelHit>::empty());
                assert(models@.filter(|m: ModelHit| !displayable(m, delivery.base_url@, delivery.namespace@)) =~= Seq::<ModelHit>::empty());
                assert(displayable_first(models@, delivery.base_url@, delivery.namespace@) =~= Seq::<ModelHit>::empty());
            }
        }
        self.paging = ModelPaging { has_more, loading_more: false, next_page };
    }
}

impl ModelPaging {
    /// A new search was sent: more pages may follow and none is being fetched.
    pub fn restart(&mut self)
        ensures
            *final(self) == (ModelPaging { has_more: true, loading_more: false, ..*old(self) }),
    {
        self.has_more = true;
        self.loading_more = false;
    }
}

impl ImageFeed {
    /// A new image search starts: nothing loaded, nothing being fetched, no
    /// next page known, more to come.
    pub fn reset(&mut self)
        ensures
            *final(self) == (ImageFeed { loaded: false, loading: false, has_more: true, next_page: None }),
    {
        self.loaded = false;
        self.loading = false;
        self.has_more = true;
        self.next_page = None;
    }

    /// The first page of the feed arrived with `count` images: it is loaded,
    /// more follow exactly when a next page is named, and the image selection
    /// stays within the page.
    pub fn set_results(&mut self, selected: &mut usize, count: usize, next_page: Option<u32>)
        ensures
            *final(self) == (ImageFeed { loaded: true, loading: false, has_more: next_page is Some, next_page }),
            *final(selected) == if count == 0 {
                0
            } else if *old(selected) >= count {
                (count - 1) as usize
            } else {
                *old(selected)
            },
    {
        self.next_page = next_page;
        self.has_more = next_page.is_some();
        self.loaded = true;
        self.loading = false;
        if count == 0 {
            *selected = 0;
        } else if *selected >= count {
            *selected = count - 1;
        }
    }

    /// A further page of the feed arrived, bringing the feed to `count`
    /// images: more follow exactly when a next page is named, and the image
    /// selection stays within the feed.
    pub fn append_results(&mut self, selected: &mut usize, count: usize, next_page: Option<u32>)
        ensures
            *final(self) == (ImageFeed { loading: false, has_more: next_page is Some, next_page, ..*old(self) }),
            *final(selected) == if count > 0 && *old(selected) >= count {
                (count - 1) as usize
            } else {
                *old(selected)
            },
    {
        self.next_page = next_page;
        self.has_more = next_page.is_some();
        self.loading = false;
        if count > 0 && *selected >= count {
            *selected = count - 1;
        }
    }
}

/// Whether an incoming image is new to a feed holding the `known` ids: every
/// image is when the feed is empty.
pub open spec fn is_new_image(known: Seq<u64>, id: u64) -> bool {
    known.len() == 0 || !known.contains(id)
}

/// The positions, among the first `n` incoming images, of those new to the
/// feed, in order.
pub open spec fn new_positions(known: Seq<u64>, incoming: Seq<u64>, n: nat) -> Seq<usize>
    decreases n,
{
    if n == 0 {
        Seq::empty()
    } else {
        let before = new_positions(known, incoming, (n - 1) as nat);
        if is_new_image(known, incoming[n - 1]) {
            before.push((n - 1) as usize)
        } else {
            before
        }
    }
}

/// Which images of a further page are new: the positions of those whose id the
/// feed does not hold yet, in order; all of them when the feed is empty.
pub fn new_image_positions(known: &Vec<u64>, incoming: &Vec<u64>) -> (r: Vec<usize>)
    ensures
        r@ == new_positions(known@, incoming@, incoming@.len()),
{
    let mut r: Vec<usize> = Vec::new();
    let mut j: usize = 0;
    while j < incoming.len()
        invariant
            j <= incoming@.len(),
            r@ == new_positions(known@, incoming@, j as nat),
        decreases incoming@.len() - j,
    {
        let id = incoming[j];
        let mut seen = false;
        let mut i: usize = 0;
        while i < known.len()
            invariant
                i <= known@.len(),
                seen <==> exists|y: int| 0 <= y < i && known@[y] == id,
            decreases known@.len() - i,
        {
            if known[i] == id {
                seen = true;
            }
            i = i + 1;
        }
        proof {
            if seen {
                let y = choose|y: int| 0 <= y < known@.len() && known@[y] == id;
                assert(known@.contains(id));
            }
        }
        if known.len() == 0 || !seen {
            r.push(j);
        }
        j = j + 1;
    }
    r
}

impl App {
    /// A model search was sent: more pages may follow, none is being fetched,
    /// and the status line names the query.
    pub fn note_model_search_sent(&mut self, paging: &mut ModelPaging, query: &str)
        ensures
            *final(paging) == (ModelPaging { has_more: true, loading_more: false, ..*old(paging) }),
            final(self).status@ == searching_models_text(query@),
            *final(self) == (App { status: final(self).status, ..*old(self) }),
    {
        paging.restart();
        self.note_model_search_started(query);
    }

    /// An image search was sent: the feed is being fetched and the status line
    /// says so.
    pub fn note_image_search_sent(&mut self, feed: &mut ImageFeed)
        ensures
            *final(feed) == (ImageFeed { loading: true, ..*old(feed) }),
            final(self).status@ == "Searching image feed..."@,
            *final(self) == (App { status: final(self).status, ..*old(self) }),
    {
        feed.loading = true;
        self.status = String::from_str("Searching image feed...");
    }
}

impl App {
    /// Says how many images a page of the feed brought, on the image tab: how
    /// many more and the total for a further page, the total for a first one.
    pub fn note_images_loaded(&mut self, append: bool, before: usize, total: usize)
        requires
            before <= total,
        ensures
            old(self).active_tab != MainTab::Images ==> *final(self) == *old(self),
            old(self).active_tab == MainTab::Images ==> says_info(
                *old(self),
                *final(self),
                if append {
                    "Loaded "@ + decimal((total - before) as nat) + " more images (total "@ + decimal(total as nat)
                        + ")"@
                } else {
                    "Loaded "@ + decimal(total as nat) + " images"@
                },
            ),
    {
        if self.active_tab != MainTab::Images {
            return;
        }
        let mut text = String::from_str("Loaded ");
        if append {
            text.append(number_text(total - before).as_str());
            text.append(" more images (total ");
            text.append(number_text(total).as_str());
            text.append(")");
        } else {
            text.append(number_text(total).as_str());
            text.append(" images");
        }
        self.set_status(text.as_str());
    }

    /// Says how many models a page of a search brought: how many more and the
    /// total for a further page, the number found for a first one.
    pub fn note_models_loaded(&mut self, append: bool, added: usize, total: usize)
        ensures
            says_info(
                *old(self),
                *final(self),
                if append {
                    "Loaded "@ + decimal(added as nat) + " more models (total "@ + decimal(total as nat) + ")"@
                } else {
                    "Found "@ + decimal(total as nat) + " models"@
                },
            ),
    {
        let mut text = String::new();
        if append {
            text.append("Loaded ");
            text.append(number_text(added).as_str());
            text.append(" more models (total ");
            text.append(number_text(total).as_str());
            text.append(")");
        } else {
            text.append("Found ");
            text.append(number_text(total).as_str());
            text.append(" models");
        }
        self.set_status(text.as_str());
    }

    /// Says that a model's details arrived, naming the model shown when there
    /// is one.
    pub fn note_model_details_loaded(&mut self, name: Option<&str>)
        ensures
            says_info(
                *old(self),
                *final(self),
                match name {
                    Some(n) => "Loaded model details: "@ + n@,
                    None => "Loaded model details"@,
                },
            ),
    {
        match name {
            Some(n) => {
                let mut text = String::from_str("Loaded model details: ");
                text.append(n);
                self.set_status(text.as_str());
            },
            None => self.set_status("Loaded model details"),
        }
    }
}

/// The page of the feed to ask for after a page arrived: the next one when
/// the page was empty, or when more may be asked for; none otherwise.
pub fn next_feed_page_after_load(loaded: usize, can_request_more: bool, next_page: Option<u32>) -> (r: Option<u32>)
    ensures
        r == (if loaded == 0 || can_request_more {
            next_page
        } else {
            None
        }),
{
    if loaded == 0 || can_request_more {
        next_page
    } else {
        None
    }
}

fn number_text(n: usize) -> (r: String)
    ensures
        r@ == decimal(n as nat),
{
    string_of(decimal_chars(n as u64).as_slice())
}

/// Adding a page of results never drops a listed model, and lists no id twice
/// when no id was listed twice before.
pub proof fn law_appended_keeps_and_stays_unique(base: Seq<ModelHit>, new: Seq<ModelHit>)
    requires
        forall|i: int, j: int| 0 <= i < j < base.len() ==> base[i].id != base[j].id,
    ensures
        appended_unique(base, new).len() >= base.len(),
        appended_unique(base, new).subrange(0, base.len() as int) == base,
        forall|i: int, j: int|
            0 <= i < j < appended_unique(base, new).len() ==> appended_unique(base, new)[i].id != appended_unique(
                base,
                new,
            )[j].id,
        forall|k: int| 0 <= k < new.len() ==> has_id(appended_unique(base, new), #[trigger] new[k].id),
    decreases new.len(),
{
    if new.len() > 0 {
        let prev = new.drop_last();
        law_appended_keeps_and_stays_unique(base, prev);
        let before = appended_unique(base, prev);
        let x = new.last();
        let after = appended_unique(base, new);
        assert(after.subrange(0, base.len() as int) =~= base) by {
            assert(before.subrange(0, base.len() as int) =~= base);
            if !has_id(before, x.id) {
                assert(after =~= before.push(x));
            }
        }
        assert forall|k: int| 0 <= k < new.len() implies has_id(after, #[trigger] new[k].id) by {
            if k < prev.len() {
                assert(prev[k] == new[k]);
                assert(has_id(before, prev[k].id));
                let w = choose|w: int| 0 <= w < before.len() && before[w].id == prev[k].id;
                if !has_id(before, x.id) {
                    assert(after[w] == before[w]);
                }
            } else {
                if !has_id(before, x.id) {
                    assert(after[before.len() as int] == x);
                }
            }
        }
    }
}

} // verus!
