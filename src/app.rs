use vstd::prelude::*;
use crate::errors::{fails_with, AppError, ErrorKind};
use crate::validate::{copy_opt_text, char_len_within, is_url, len_within, opt_char_len_within, opt_len_within, url_is_valid};

verus! {

/// A bookmark owned by one user, ranked by `index` among the owner's live apps.
#[derive(Debug)]
pub struct App {
    pub id: i64,
    pub name: String,
    pub url: String,
    pub description: Option<String>,
    pub icon: Option<String>,
    pub index: i32,
    pub owner_id: i64,
    pub created_at: i64,
    pub deleted_at: Option<i64>,
}

impl App {
    /// The app belongs to `owner` and has not been deleted.
    pub open spec fn owned_live(self, owner: i64) -> bool {
        self.owner_id == owner && self.deleted_at is None
    }

    pub fn copy(&self) -> (r: App)
        ensures
            r == *self,
    {
        App {
            id: self.id,
            name: self.name.clone(),
            url: self.url.clone(),
            description: copy_opt_text(&self.description),
            icon: copy_opt_text(&self.icon),
            index: self.index,
            owner_id: self.owner_id,
            created_at: self.created_at,
            deleted_at: self.deleted_at,
        }
    }
}

pub open spec fn ids_unique(rows: Seq<App>) -> bool {
    forall|i: int, j: int|
        #![trigger rows[i].id, rows[j].id]
        0 <= i < rows.len() && 0 <= j < rows.len() && i != j ==> rows[i].id != rows[j].id
}

/// The number of live apps of `owner`.
pub open spec fn count_owned(rows: Seq<App>, owner: i64) -> nat
    decreases rows.len(),
{
    if rows.len() == 0 {
        0
    } else {
        count_owned(rows.drop_last(), owner) + if rows.last().owned_live(owner) {
            1nat
        } else {
            0nat
        }
    }
}

/// The live apps of `owner`, in table order.
pub open spec fn owned_apps(rows: Seq<App>, owner: i64) -> Seq<App> {
    rows.filter(|a: App| a.owned_live(owner))
}

/// The indices of the owner's N live apps are pairwise distinct and lie in
/// `0..N`; that is, as a multiset they are exactly `{0, ..., N-1}`.
pub open spec fn indices_contiguous(rows: Seq<App>, owner: i64) -> bool {
    &&& forall|j: int|
        0 <= j < rows.len() && #[trigger] rows[j].owned_live(owner) ==> 0 <= rows[j].index < count_owned(rows, owner)
    &&& forall|j: int, k: int|
        #![trigger rows[j].owned_live(owner), rows[k].owned_live(owner)]
        0 <= j < rows.len() && 0 <= k < rows.len() && j != k && rows[j].owned_live(owner)
            && rows[k].owned_live(owner) ==> rows[j].index != rows[k].index
}

/// Some live app of `owner` has this id.
pub open spec fn owner_has_live_id(rows: Seq<App>, owner: i64, id: i64) -> bool {
    exists|j: int| 0 <= j < rows.len() && #[trigger] rows[j].owned_live(owner) && rows[j].id == id
}

/// The row with this id is a live app of `owner`.
pub open spec fn is_owned_live_at(rows: Seq<App>, owner: i64, id: i64, j: int) -> bool {
    0 <= j < rows.len() && rows[j].owned_live(owner) && rows[j].id == id
}

/// The table of apps: its rows, and the id that the next new row receives.
pub struct AppTable {
    rows: Vec<App>,
    next_id: i64,
}

impl View for AppTable {
    type V = Seq<App>;

    closed spec fn view(&self) -> Seq<App> {
        self.rows@
    }
}

impl AppTable {
    pub closed spec fn spec_next_id(&self) -> i64 {
        self.next_id
    }

    /// Ids are distinct, positive and below the next id to hand out; the
    /// table holds at most `i32::MAX` rows, so that every rank fits an index.
    pub open spec fn wf(&self) -> bool {
        &&& ids_unique(self@)
        &&& self@.len() <= i32::MAX
        &&& 1 <= self.spec_next_id()
        &&& forall|j: int| 0 <= j < self@.len() ==> 1 <= #[trigger] self@[j].id < self.spec_next_id()
    }

    pub fn new() -> (t: AppTable)
        ensures
            t.wf(),
            t@ == Seq::<App>::empty(),
            t.spec_next_id() == 1,
    {
        AppTable { rows: Vec::new(), next_id: 1 }
    }

    pub fn len(&self) -> (n: usize)
        ensures
            n == self@.len(),
    {
        self.rows.len()
    }

    pub fn get(&self, i: usize) -> (a: &App)
        requires
            i < self@.len(),
        ensures
            *a == self@[i as int],
    {
        &self.rows[i]
    }

    /// The position of the live app of `owner` with this id.
    pub fn find_owned(&self, owner: i64, id: i64) -> (r: Option<usize>)
        requires
            self.wf(),
        ensures
            r matches Some(j) ==> is_owned_live_at(self@, owner, id, j as int),
            r is None ==> !owner_has_live_id(self@, owner, id),
    {
        let mut j: usize = 0;
        while j < self.rows.len()
            invariant
                j <= self@.len(),
                forall|k: int| 0 <= k < j ==> !is_owned_live_at(self@, owner, id, k),
            decreases self@.len() - j,
        {
            let a = &self.rows[j];
            if a.owner_id == owner && a.deleted_at.is_none() && a.id == id {
                return Some(j);
            }
            j = j + 1;
        }
        assert forall|k: int| 0 <= k < self@.len() && #[trigger] self@[k].owned_live(owner) implies self@[k].id != id by {
            assert(!is_owned_live_at(self@, owner, id, k));
        }
        None
    }

    /// The number of live apps of `owner`.
    pub fn count_owned(&self, owner: i64) -> (n: usize)
        ensures
            n == count_owned(self@, owner),
    {
        let mut j: usize = 0;
        let mut n: usize = 0;
        while j < self.rows.len()
            invariant
                j <= self@.len(),
                n == count_owned(self@.subrange(0, j as int), owner),
                n <= j,
            decreases self@.len() - j,
        {
            assert(self@.subrange(0, j + 1).drop_last() =~= self@.subrange(0, j as int));
            let a = &self.rows[j];
            if a.owner_id == owner && a.deleted_at.is_none() {
                n = n + 1;
            }
            j = j + 1;
        }
        assert(self@.subrange(0, self@.len() as int) =~= self@);
        n
    }
}

/// What a new app is made of.
#[derive(Debug)]
pub struct CreateAppData {
    pub url: String,
    pub name: String,
    pub description: Option<String>,
    pub icon: Option<String>,
}

/// New contents of an existing app.
#[derive(Debug)]
pub struct UpdateAppData {
    pub id: i64,
    pub url: String,
    pub name: String,
    pub description: Option<String>,
    pub icon: Option<String>,
}

/// One entry of a submitted ranking: the id of an app.
#[derive(Clone, Copy, Debug, PartialEq, Eq, Structural)]
pub struct SortAppData {
    pub id: i64,
}

/// The fields that both creating and updating an app check: a URL of
/// 1 to 255 characters that parses, a name of 1 to 30 characters, and
/// description and icon, when present, of 1 to 255 characters.
pub open spec fn app_fields_valid(
    url: Seq<char>,
    name: Seq<char>,
    description: Option<String>,
    icon: Option<String>,
) -> bool {
    &&& len_within(url, 1, 255)
    &&& url_is_valid(url)
    &&& len_within(name, 1, 30)
    &&& opt_len_within(description, 1, 255)
    &&& opt_len_within(icon, 1, 255)
}

fn check_app_fields(
    url: &String,
    name: &String,
    description: &Option<String>,
    icon: &Option<String>,
) -> (r: Result<(), AppError>)
    ensures
        r is Ok <==> app_fields_valid(url@, name@, *description, *icon),
        r is Err ==> fails_with(r, ErrorKind::ValidationFailed),
{
    if !char_len_within(url.as_str(), 1, 255) {
        return Err(AppError::new(ErrorKind::ValidationFailed, 422, "app URL must be 1 to 255 characters"));
    }
    if !is_url(url.as_str()) {
        return Err(AppError::new(ErrorKind::ValidationFailed, 422, "app URL is not a valid URL"));
    }
    if !char_len_within(name.as_str(), 1, 30) {
        return Err(AppError::new(ErrorKind::ValidationFailed, 422, "app name must be 1 to 30 characters"));
    }
    if !opt_char_len_within(description, 1, 255) {
        return Err(AppError::new(ErrorKind::ValidationFailed, 422, "app description must be 1 to 255 characters"));
    }
    if !opt_char_len_within(icon, 1, 255) {
        return Err(AppError::new(ErrorKind::ValidationFailed, 422, "app icon must be 1 to 255 characters"));
    }
    Ok(())
}

impl CreateAppData {
    pub open spec fn valid(&self) -> bool {
        app_fields_valid(self.url@, self.name@, self.description, self.icon)
    }

    pub fn validate(&self) -> (r: Result<(), AppError>)
        ensures
            r is Ok <==> self.valid(),
            r is Err ==> fails_with(r, ErrorKind::ValidationFailed),
    {
        check_app_fields(&self.url, &self.name, &self.description, &self.icon)
    }
}

impl UpdateAppData {
    pub open spec fn valid(&self) -> bool {
        app_fields_valid(self.url@, self.name@, self.description, self.icon)
    }

    pub fn validate(&self) -> (r: Result<(), AppError>)
        ensures
            r is Ok <==> self.valid(),
            r is Err ==> fails_with(r, ErrorKind::ValidationFailed),
    {
        check_app_fields(&self.url, &self.name, &self.description, &self.icon)
    }
}

/// The row that creating an app adds: it is appended after the owner's
/// `rank` live apps.
pub open spec fn new_app_row(data: CreateAppData, id: i64, owner: i64, rank: nat, now: i64) -> App {
    App {
        id: id,
        name: data.name,
        url: data.url,
        description: data.description,
        icon: data.icon,
        index: rank as i32,
        owner_id: owner,
        created_at: now,
        deleted_at: None,
    }
}

/// The live apps of `user_id`, in table order.
pub fn get_user_all_app(apps: &AppTable, user_id: i64) -> (r: Vec<App>)
    ensures
        r@ == owned_apps(apps@, user_id),
{
    let mut out: Vec<App> = Vec::new();
    let mut j: usize = 0;
    while j < apps.len()
        invariant
            j <= apps@.len(),
            out@ == owned_apps(apps@.subrange(0, j as int), user_id),
        decreases apps@.len() - j,
    {
        let ghost pre = apps@.subrange(0, j + 1);
        assert(pre.drop_last() =~= apps@.subrange(0, j as int));
        assert(pre.last() == apps@[j as int]);
        proof {
            reveal(Seq::filter);
        }
        let a = apps.get(j);
        if a.owner_id == user_id && a.deleted_at.is_none() {
            out.push(a.copy());
        }
        j = j + 1;
    }
    assert(apps@.subrange(0, apps@.len() as int) =~= apps@);
    out
}

proof fn lemma_count_le_len(rows: Seq<App>, owner: i64)
    ensures
        count_owned(rows, owner) <= rows.len(),
    decreases rows.len(),
{
    if rows.len() > 0 {
        lemma_count_le_len(rows.drop_last(), owner);
    }
}

proof fn lemma_count_push(rows: Seq<App>, a: App, owner: i64)
    ensures
        count_owned(rows.push(a), owner) == count_owned(rows, owner) + if a.owned_live(owner) {
            1nat
        } else {
            0nat
        },
{
    assert(rows.push(a).drop_last() =~= rows);
}

/// Appending a live app of `owner` ranked at the owner's count keeps the
/// owner's indices contiguous, and appending any row keeps another owner's
/// indices contiguous when it is not a live app of theirs.
pub proof fn lemma_append_keeps_contiguous(rows: Seq<App>, a: App, owner: i64)
    requires
        indices_contiguous(rows, owner),
        a.owned_live(owner) ==> a.index == count_owned(rows, owner),
    ensures
        indices_contiguous(rows.push(a), owner),
{
    lemma_count_push(rows, a, owner);
    let r2 = rows.push(a);
    assert forall|j: int| 0 <= j < r2.len() && #[trigger] r2[j].owned_live(owner) implies 0 <= r2[j].index
        < count_owned(r2, owner) by {
        if j < rows.len() {
            assert(r2[j] == rows[j]);
        }
    }
    assert forall|j: int, k: int|
        #![trigger r2[j].owned_live(owner), r2[k].owned_live(owner)]
        0 <= j < r2.len() && 0 <= k < r2.len() && j != k && r2[j].owned_live(owner) && r2[k].owned_live(
            owner,
        ) implies r2[j].index != r2[k].index by {
        if j < rows.len() && k < rows.len() {
            assert(r2[j] == rows[j] && r2[k] == rows[k]);
            assert(rows[j].owned_live(owner) && rows[k].owned_live(owner));
        } else if j < rows.len() {
            assert(r2[j] == rows[j]);
            assert(rows[j].owned_live(owner));
        } else {
            assert(r2[k] == rows[k]);
            assert(rows[k].owned_live(owner));
        }
    }
}

/// Adds an app for `operator_id`, ranked after the operator's live apps.
pub fn create_app(apps: &mut AppTable, operator_id: i64, data: &CreateAppData, now: i64) -> (r: Result<App, AppError>)
    requires
        old(apps).wf(),
    ensures
        final(apps).wf(),
        !data.valid() ==> fails_with(r, ErrorKind::ValidationFailed),
        data.valid() && old(apps)@.len() < i32::MAX && old(apps).spec_next_id() < i64::MAX
            ==> r is Ok,
        r matches Ok(a) ==> {
            &&& a == new_app_row(*data, old(apps).spec_next_id(), operator_id, count_owned(old(apps)@, operator_id), now)
            &&& final(apps)@ == old(apps)@.push(a)
            &&& final(apps).spec_next_id() == old(apps).spec_next_id() + 1
        },
        r is Ok ==> count_owned(old(apps)@, operator_id) <= i32::MAX,
        r is Err ==> final(apps)@ == old(apps)@ && final(apps).spec_next_id() == old(apps).spec_next_id(),
        r is Err && data.valid() ==> fails_with(r, ErrorKind::Internal),
        forall|owner: i64| indices_contiguous(old(apps)@, owner) ==> indices_contiguous(final(apps)@, owner),
        r is Ok ==> forall|owner: i64| ranking_step(old(apps)@, final(apps)@, owner),
{
    data.validate()?;
    if apps.rows.len() >= 0x7FFF_FFFF {
        return Err(AppError::from_err());
    }
    let total = apps.count_owned(operator_id);
    proof {
        lemma_count_le_len(apps@, operator_id);
    }
    if apps.next_id == 0x7FFF_FFFF_FFFF_FFFF {
        return Err(AppError::from_err());
    }
    let a = App {
        id: apps.next_id,
        name: data.name.clone(),
        url: data.url.clone(),
        description: copy_opt_text(&data.description),
        icon: copy_opt_text(&data.icon),
        index: total as i32,
        owner_id: operator_id,
        created_at: now,
        deleted_at: None,
    };
    let out = a.copy();
    let ghost before = apps@;
    apps.rows.push(a);
    apps.next_id = apps.next_id + 1;
    proof {
        assert forall|owner: i64| indices_contiguous(before, owner) implies indices_contiguous(apps@, owner) by {
            lemma_append_keeps_contiguous(before, out, owner);
        }
        assert forall|owner: i64| ranking_step(before, apps@, owner) by {
            assert(apps@ == before.push(out));
        }
    }
    Ok(out)
}

/// The ids of a submitted ranking, in order.
pub open spec fn sort_ids(data: Seq<SortAppData>) -> Seq<i64> {
    data.map_values(|d: SortAppData| d.id)
}

/// `ids` names every live app of `owner` exactly once, and nothing else.
pub open spec fn is_full_order(rows: Seq<App>, owner: i64, ids: Seq<i64>) -> bool {
    &&& ids.no_duplicates()
    &&& forall|k: int| 0 <= k < ids.len() ==> owner_has_live_id(rows, owner, #[trigger] ids[k])
    &&& forall|j: int| 0 <= j < rows.len() && #[trigger] rows[j].owned_live(owner) ==> ids.contains(rows[j].id)
    &&& ids.len() == count_owned(rows, owner)
}

/// A row after a ranking of `owner`'s apps: a live app of `owner` takes the
/// position of its id in `ids` as its index; any other row is left as is.
pub open spec fn reranked(a: App, owner: i64, ids: Seq<i64>) -> App {
    if a.owned_live(owner) {
        App { index: ids.index_of(a.id) as i32, ..a }
    } else {
        a
    }
}

pub open spec fn resequenced(rows: Seq<App>, owner: i64, ids: Seq<i64>) -> Seq<App> {
    Seq::new(rows.len(), |j: int| reranked(rows[j], owner, ids))
}

proof fn lemma_index_of_unique(ids: Seq<i64>, k: int)
    requires
        ids.no_duplicates(),
        0 <= k < ids.len(),
    ensures
        ids.index_of(ids[k]) == k,
{
    assert(0 <= k < ids.len() && ids[k] == ids[k]);
}

proof fn lemma_count_same_liveness(a: Seq<App>, b: Seq<App>, owner: i64)
    requires
        a.len() == b.len(),
        forall|j: int| 0 <= j < a.len() ==> a[j].owned_live(owner) == b[j].owned_live(owner),
    ensures
        count_owned(a, owner) == count_owned(b, owner),
    decreases a.len(),
{
    if a.len() > 0 {
        lemma_count_same_liveness(a.drop_last(), b.drop_last(), owner);
    }
}

/// Resequencing `owner`'s apps by a full ranking leaves their indices
/// exactly `0..N`, and leaves every other owner's apps as they were.
pub proof fn lemma_resequence_contiguous(rows: Seq<App>, owner: i64, ids: Seq<i64>)
    requires
        ids_unique(rows),
        is_full_order(rows, owner, ids),
        ids.len() <= i32::MAX,
    ensures
        indices_contiguous(resequenced(rows, owner, ids), owner),
        forall|other: i64| other != owner && indices_contiguous(rows, other)
            ==> indices_contiguous(resequenced(rows, owner, ids), other),
{
    let r2 = resequenced(rows, owner, ids);
    lemma_count_same_liveness(rows, r2, owner);
    assert forall|j: int| 0 <= j < r2.len() && #[trigger] r2[j].owned_live(owner) implies 0 <= r2[j].index
        < count_owned(r2, owner) by {
        assert(rows[j].owned_live(owner));
        assert(ids.contains(rows[j].id));
        let k = choose|k: int| 0 <= k < ids.len() && ids[k] == rows[j].id;
        lemma_index_of_unique(ids, k);
    }
    assert forall|j: int, k: int|
        #![trigger r2[j].owned_live(owner), r2[k].owned_live(owner)]
        0 <= j < r2.len() && 0 <= k < r2.len() && j != k && r2[j].owned_live(owner) && r2[k].owned_live(
            owner,
        ) implies r2[j].index != r2[k].index by {
        assert(rows[j].owned_live(owner) && rows[k].owned_live(owner));
        assert(ids.contains(rows[j].id));
        assert(ids.contains(rows[k].id));
        let pj = choose|p: int| 0 <= p < ids.len() && ids[p] == rows[j].id;
        let pk = choose|p: int| 0 <= p < ids.len() && ids[p] == rows[k].id;
        lemma_index_of_unique(ids, pj);
        lemma_index_of_unique(ids, pk);
        assert(rows[j].id != rows[k].id);
    }
    assert forall|other: i64| other != owner && indices_contiguous(rows, other) implies indices_contiguous(
        r2,
        other,
    ) by {
        lemma_count_same_liveness(rows, r2, other);
        assert forall|j: int| 0 <= j < r2.len() && #[trigger] r2[j].owned_live(other) implies 0 <= r2[j].index
            < count_owned(r2, other) by {
            assert(r2[j] == rows[j]);
        }
        assert forall|j: int, k: int|
            #![trigger r2[j].owned_live(other), r2[k].owned_live(other)]
            0 <= j < r2.len() && 0 <= k < r2.len() && j != k && r2[j].owned_live(other) && r2[k].owned_live(
                other,
            ) implies r2[j].index != r2[k].index by {
            assert(r2[j] == rows[j] && r2[k] == rows[k]);
            assert(rows[j].owned_live(other) && rows[k].owned_live(other));
        }
    }
}

/// `after` follows `before` by one change to `owner`'s ranking: a row is
/// appended, ranked after the owner's live apps when it is one of them, or
/// the owner's apps are resequenced by a full ranking.
pub open spec fn ranking_step(before: Seq<App>, after: Seq<App>, owner: i64) -> bool {
    ||| exists|a: App|
        after == before.push(a) && (a.owned_live(owner) ==> a.index == count_owned(before, owner))
    ||| exists|ids: Seq<i64>|
        is_full_order(before, owner, ids) && ids.len() <= i32::MAX && after == resequenced(before, owner, ids)
}

/// After any sequence of creations and resequencings, starting from a table
/// whose indices for `owner` are contiguous, the owner's live apps still
/// carry exactly the indices `0..N`.
pub proof fn lemma_steps_keep_contiguous(states: Seq<Seq<App>>, owner: i64)
    requires
        states.len() > 0,
        indices_contiguous(states[0], owner),
        forall|i: int| 0 <= i < states.len() ==> ids_unique(#[trigger] states[i]),
        forall|i: int| 0 <= i < states.len() - 1 ==> ranking_step(#[trigger] states[i], states[i + 1], owner),
    ensures
        forall|i: int| 0 <= i < states.len() ==> indices_contiguous(#[trigger] states[i], owner),
    decreases states.len(),
{
    if states.len() > 1 {
        let prev = states.drop_last();
        assert forall|i: int| 0 <= i < prev.len() - 1 implies ranking_step(#[trigger] prev[i], prev[i + 1], owner) by {
            assert(prev[i] == states[i] && prev[i + 1] == states[i + 1]);
        }
        assert forall|i: int| 0 <= i < prev.len() implies ids_unique(#[trigger] prev[i]) by {
            assert(prev[i] == states[i]);
        }
        lemma_steps_keep_contiguous(prev, owner);
        let k = states.len() - 2;
        assert(prev[k] == states[k]);
        assert(ranking_step(states[k], states[k + 1], owner));
        if exists|a: App|
            states[k + 1] == states[k].push(a) && (a.owned_live(owner) ==> a.index == count_owned(states[k], owner)) {
            let a = choose|a: App|
                states[k + 1] == states[k].push(a) && (a.owned_live(owner) ==> a.index == count_owned(
                    states[k],
                    owner,
                ));
            lemma_append_keeps_contiguous(states[k], a, owner);
        } else {
            let ids = choose|ids: Seq<i64>|
                is_full_order(states[k], owner, ids) && ids.len() <= i32::MAX && states[k + 1] == resequenced(
                    states[k],
                    owner,
                    ids,
                );
            lemma_resequence_contiguous(states[k], owner, ids);
        }
        assert forall|i: int| 0 <= i < states.len() implies indices_contiguous(#[trigger] states[i], owner) by {
            if i < states.len() - 1 {
                assert(prev[i] == states[i]);
            }
        }
    }
}

/// The position in `data` of the entry with this id.
fn rank_of(data: &Vec<SortAppData>, id: i64) -> (r: Option<usize>)
    ensures
        r matches Some(k) ==> k < data@.len() && data@[k as int].id == id,
        r is None ==> !sort_ids(data@).contains(id),
{
    let mut k: usize = 0;
    while k < data.len()
        invariant
            k <= data@.len(),
            forall|l: int| 0 <= l < k ==> data@[l].id != id,
        decreases data@.len() - k,
    {
        if data[k].id == id {
            return Some(k);
        }
        k = k + 1;
    }
    None
}

/// Ranks the operator's live apps in the order given: the app at position
/// `i` gets index `i`. The ranking must name every live app of the operator
/// once and nothing else; otherwise nothing changes. An id that is not a
/// live app of the operator fails `NotFound`; a repeated or missing id
/// fails `ValidationFailed`.
pub fn sort_app(apps: &mut AppTable, operator_id: i64, data: &Vec<SortAppData>) -> (r: Result<(), AppError>)
    requires
        old(apps).wf(),
    ensures
        final(apps).wf(),
        final(apps).spec_next_id() == old(apps).spec_next_id(),
        r is Ok <==> is_full_order(old(apps)@, operator_id, sort_ids(data@)),
        r is Ok ==> final(apps)@ == resequenced(old(apps)@, operator_id, sort_ids(data@)),
        r is Err ==> final(apps)@ == old(apps)@,
        fails_with(r, ErrorKind::NotFound) <==> exists|k: int|
            0 <= k < data@.len() && !owner_has_live_id(old(apps)@, operator_id, #[trigger] data@[k].id),
        r is Err && !fails_with(r, ErrorKind::NotFound) ==> fails_with(r, ErrorKind::ValidationFailed),
        r is Ok ==> indices_contiguous(final(apps)@, operator_id),
        r is Ok ==> ranking_step(old(apps)@, final(apps)@, operator_id),
        forall|other: i64| other != operator_id && indices_contiguous(old(apps)@, other)
            ==> indices_contiguous(final(apps)@, other),
{
    let n = data.len();
    let ghost ids = sort_ids(data@);
    let ghost old_rows = apps@;
    let mut k: usize = 0;
    while k < n
        invariant
            n == data@.len(),
            k <= n,
            ids == sort_ids(data@),
            apps.wf(),
            apps@ == old_rows,
            old_rows == old(apps)@,
            apps.spec_next_id() == old(apps).spec_next_id(),
            forall|l: int| 0 <= l < k ==> owner_has_live_id(old_rows, operator_id, #[trigger] data@[l].id),
        decreases n - k,
    {
        if apps.find_owned(operator_id, data[k].id).is_none() {
            assert(ids[k as int] == data@[k as int].id);
            return Err(AppError::new(ErrorKind::NotFound, 404, "app not found"));
        }
        k = k + 1;
    }
    assert(forall|l: int| 0 <= l < n ==> #[trigger] ids[l] == data@[l].id);
    let mut k: usize = 0;
    while k < n
        invariant
            n == data@.len(),
            k <= n,
            ids == sort_ids(data@),
            apps.wf(),
            apps@ == old_rows,
            old_rows == old(apps)@,
            apps.spec_next_id() == old(apps).spec_next_id(),
            forall|l: int| 0 <= l < n ==> owner_has_live_id(old_rows, operator_id, #[trigger] data@[l].id),
            forall|a: int, b: int| 0 <= a < k && 0 <= b < k && a != b ==> #[trigger] ids[a] != #[trigger] ids[b],
        decreases n - k,
    {
        let mut l: usize = 0;
        while l < k
            invariant
                n == data@.len(),
                k < n,
                l <= k,
                ids == sort_ids(data@),
                apps.wf(),
                apps@ == old_rows,
                old_rows == old(apps)@,
                apps.spec_next_id() == old(apps).spec_next_id(),
                forall|l: int| 0 <= l < n ==> owner_has_live_id(old_rows, operator_id, #[trigger] data@[l].id),
                forall|b: int| 0 <= b < l ==> #[trigger] ids[b] != ids[k as int],
            decreases k - l,
        {
            if data[l].id == data[k].id {
                assert(ids[l as int] == ids[k as int]);
                return Err(AppError::new(ErrorKind::ValidationFailed, 422, "an app is ranked twice"));
            }
            l = l + 1;
        }
        k = k + 1;
    }
    assert(ids.no_duplicates());
    let mut plan: Vec<usize> = Vec::new();
    let mut j: usize = 0;
    while j < apps.len()
        invariant
            j <= apps@.len(),
            apps.wf(),
            apps@ == old_rows,
            old_rows == old(apps)@,
            apps.spec_next_id() == old(apps).spec_next_id(),
            ids.no_duplicates(),
            forall|l: int| 0 <= l < n ==> owner_has_live_id(old_rows, operator_id, #[trigger] data@[l].id),
            n == data@.len(),
            ids == sort_ids(data@),
            plan@.len() == j,
            forall|jj: int| 0 <= jj < j && #[trigger] old_rows[jj].owned_live(operator_id)
                ==> plan@[jj] < n && ids[plan@[jj] as int] == old_rows[jj].id,
        decreases apps@.len() - j,
    {
        let a = apps.get(j);
        if a.owner_id == operator_id && a.deleted_at.is_none() {
            match rank_of(data, a.id) {
                Some(p) => plan.push(p),
                None => {
                    assert(old_rows[j as int].owned_live(operator_id));
                    return Err(
                        AppError::new(ErrorKind::ValidationFailed, 422, "the ranking must list every app"),
                    );
                },
            }
        } else {
            plan.push(0);
        }
        j = j + 1;
    }
    let total = apps.count_owned(operator_id);
    if total != n {
        return Err(AppError::new(ErrorKind::ValidationFailed, 422, "the ranking must list every app"));
    }
    proof {
        lemma_count_le_len(old_rows, operator_id);
    }
    assert(is_full_order(old_rows, operator_id, ids));
    let mut j: usize = 0;
    while j < apps.rows.len()
        invariant
            apps@.len() == old_rows.len(),
            plan@.len() == old_rows.len(),
            j <= old_rows.len(),
            n == ids.len(),
            n <= i32::MAX,
            ids.no_duplicates(),
            apps.next_id == old(apps).next_id,
            forall|jj: int| 0 <= jj < old_rows.len() && #[trigger] old_rows[jj].owned_live(operator_id)
                ==> plan@[jj] < n && ids[plan@[jj] as int] == old_rows[jj].id,
            forall|jj: int| 0 <= jj < j ==> apps@[jj] == #[trigger] reranked(old_rows[jj], operator_id, ids),
            forall|jj: int| j <= jj < old_rows.len() ==> #[trigger] apps@[jj] == old_rows[jj],
        decreases old_rows.len() - j,
    {
        if apps.rows[j].owner_id == operator_id && apps.rows[j].deleted_at.is_none() {
            proof {
                assert(old_rows[j as int].owned_live(operator_id));
                lemma_index_of_unique(ids, plan@[j as int] as int);
            }
            apps.rows[j].index = plan[j] as i32;
        }
        j = j + 1;
    }
    assert(apps@ =~= resequenced(old_rows, operator_id, ids));
    proof {
        lemma_resequence_contiguous(old_rows, operator_id, ids);
    }
    Ok(())
}

/// An app with the contents of an update applied.
pub open spec fn updated_app(a: App, data: UpdateAppData) -> App {
    App { name: data.name, url: data.url, description: data.description, icon: data.icon, ..a }
}

/// Changes name, URL, description and icon of one of the operator's live
/// apps.
pub fn update_app(apps: &mut AppTable, operator_id: i64, data: &UpdateAppData) -> (r: Result<App, AppError>)
    requires
        old(apps).wf(),
    ensures
        final(apps).wf(),
        final(apps).spec_next_id() == old(apps).spec_next_id(),
        !data.valid() ==> fails_with(r, ErrorKind::ValidationFailed),
        data.valid() && !owner_has_live_id(old(apps)@, operator_id, data.id) ==> fails_with(r, ErrorKind::NotFound),
        data.valid() && owner_has_live_id(old(apps)@, operator_id, data.id) ==> r is Ok,
        r matches Ok(a) ==> exists|j: int|
            is_owned_live_at(old(apps)@, operator_id, data.id, j) && a == updated_app(old(apps)@[j], *data)
                && final(apps)@ == old(apps)@.update(j, a),
        r is Err ==> final(apps)@ == old(apps)@,
{
    data.validate()?;
    let j = match apps.find_owned(operator_id, data.id) {
        Some(j) => j,
        None => return Err(AppError::new(ErrorKind::NotFound, 404, "app not found")),
    };
    let ghost before = apps@;
    apps.rows[j].name = data.name.clone();
    apps.rows[j].url = data.url.clone();
    apps.rows[j].description = copy_opt_text(&data.description);
    apps.rows[j].icon = copy_opt_text(&data.icon);
    let out = apps.rows[j].copy();
    assert(apps@ =~= before.update(j as int, out));
    assert(forall|i: int| 0 <= i < apps@.len() ==> #[trigger] apps@[i].id == before[i].id);
    Ok(out)
}

/// Marks one of the operator's live apps deleted at time `now`. The other
/// apps keep their indices.
pub fn delete_app(apps: &mut AppTable, operator_id: i64, app_id: i64, now: i64) -> (r: Result<(), AppError>)
    requires
        old(apps).wf(),
    ensures
        final(apps).wf(),
        final(apps).spec_next_id() == old(apps).spec_next_id(),
        r is Ok <==> owner_has_live_id(old(apps)@, operator_id, app_id),
        r is Err ==> fails_with(r, ErrorKind::NotFound) && final(apps)@ == old(apps)@,
        r is Ok ==> exists|j: int|
            is_owned_live_at(old(apps)@, operator_id, app_id, j) && final(apps)@ == old(apps)@.update(
                j,
                App { deleted_at: Some(now), ..old(apps)@[j] },
            ),
{
    let j = match apps.find_owned(operator_id, app_id) {
        Some(j) => j,
        None => return Err(AppError::new(ErrorKind::NotFound, 404, "app not found")),
    };
    let ghost before = apps@;
    apps.rows[j].deleted_at = Some(now);
    assert(apps@ =~= before.update(j as int, App { deleted_at: Some(now), ..before[j as int] }));
    assert(forall|i: int| 0 <= i < apps@.len() ==> #[trigger] apps@[i].id == before[i].id);
    Ok(())
}

/// A row with the live apps of `owner` marked deleted at `now`.
pub open spec fn tombstoned(a: App, owner: i64, now: i64) -> App {
    if a.owned_live(owner) {
        App { deleted_at: Some(now), ..a }
    } else {
        a
    }
}

impl AppTable {
    /// Marks every live app of `owner` deleted at `now`, and returns how
    /// many there were.
    pub fn delete_owned_by(&mut self, owner: i64, now: i64) -> (n: u64)
        requires
            old(self).wf(),
        ensures
            final(self).wf(),
            final(self).spec_next_id() == old(self).spec_next_id(),
            final(self)@ == Seq::new(old(self)@.len(), |j: int| tombstoned(old(self)@[j], owner, now)),
            n == count_owned(old(self)@, owner),
    {
        let ghost before = self@;
        let mut j: usize = 0;
        let mut n: u64 = 0;
        while j < self.rows.len()
            invariant
                self@.len() == before.len(),
                j <= before.len(),
                self.next_id == old(self).next_id,
                before == old(self)@,
                n == count_owned(before.subrange(0, j as int), owner),
                n <= j,
                forall|i: int| 0 <= i < j ==> self@[i] == #[trigger] tombstoned(before[i], owner, now),
                forall|i: int| j <= i < before.len() ==> #[trigger] self@[i] == before[i],
            decreases before.len() - j,
        {
            assert(before.subrange(0, j + 1).drop_last() =~= before.subrange(0, j as int));
            if self.rows[j].owner_id == owner && self.rows[j].deleted_at.is_none() {
                self.rows[j].deleted_at = Some(now);
                n = n + 1;
            }
            j = j + 1;
        }
        assert(before.subrange(0, before.len() as int) =~= before);
        assert(self@ =~= Seq::new(before.len(), |j: int| tombstoned(before[j], owner, now)));
        assert(forall|i: int| 0 <= i < self@.len() ==> #[trigger] self@[i].id == before[i].id);
        n
    }
}

} // verus!
