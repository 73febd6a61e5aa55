//! The task store: unique identifiers, unique slugs, ordered listings,
//! and the filtered, paginated query.

use vstd::prelude::*;

use crate::error::ApiError;
use crate::error::ApiErrorView;
use crate::ids::new_uuid;
use crate::ids::now_timestamp;
use crate::pagination::PaginatedResponse;
use crate::pagination::PaginationMeta;
use crate::pagination::SortBy;
use crate::pagination::SortDir;
use crate::pagination::TaskFilters;
use crate::pagination::TaskQueryParams;
use crate::pagination::spec_params_valid;
use crate::pagination::spec_parse_sort_by;
use crate::pagination::spec_parse_sort_dir;
use crate::pagination::spec_total_pages;
use crate::pagination::parse_sort_by;
use crate::pagination::parse_sort_dir;
use crate::query::filter_tasks;
use crate::query::lemma_filter_congruent;
use crate::query::page_slice;
use crate::query::sort_tasks;
use crate::query::spec_page;
use crate::query::spec_sorted;
use crate::query::spec_task_matches;
use crate::query::spec_views;
use crate::slug::generate_random_suffix;
use crate::slug::slugify;
use crate::slug::spec_slugify;
use crate::task::Task;
use crate::task::TaskStatus;
use crate::task::TaskView;
use crate::text::str_eq;

verus! {

/// A creation request with the authenticated owner resolved.
#[derive(Debug)]
pub struct CreateTaskRequestInternal {
    pub title: String,
    pub description: Option<String>,
    pub user_id: u128,
}

/// Some stored task carries this slug.
pub open spec fn spec_slug_taken(s: Seq<TaskView>, slug: Seq<char>) -> bool {
    exists|i: int| 0 <= i < s.len() && #[trigger] s[i].slug == slug
}

/// Some stored task carries this identifier.
pub open spec fn spec_has_task_id(s: Seq<TaskView>, id: u128) -> bool {
    exists|i: int| 0 <= i < s.len() && #[trigger] s[i].id == id
}

/// The store's invariant: identifiers and slugs are unique.
pub open spec fn spec_tasks_wf(s: Seq<TaskView>) -> bool {
    &&& forall|i: int, j: int|
        0 <= i < s.len() && 0 <= j < s.len() && i != j ==> #[trigger] s[i].id != #[trigger] s[j].id
    &&& forall|i: int, j: int|
        0 <= i < s.len() && 0 <= j < s.len() && i != j ==> #[trigger] s[i].slug
            != #[trigger] s[j].slug
}

/// The slug either is the derived one, or the derived one with a dash and
/// a four-character lower-case alphanumeric suffix appended.
pub open spec fn spec_slug_of_title(slug: Seq<char>, title: Seq<char>) -> bool {
    ||| slug == spec_slugify(title)
    ||| {
        &&& slug.len() == spec_slugify(title).len() + 5
        &&& slug.subrange(0, spec_slugify(title).len() as int) == spec_slugify(title)
        &&& slug[spec_slugify(title).len() as int] == '-'
        &&& forall|i: int|
            spec_slugify(title).len() < i < slug.len() ==> crate::text::spec_is_lower_alnum(
                #[trigger] slug[i],
            )
    }
}

/// The owner filter alone, as the simple listing paths use it.
pub open spec fn spec_owned_by(uid: u128) -> spec_fn(TaskView) -> bool {
    |t: TaskView| t.user_id == uid
}

/// Two creations that both succeed hand out distinct slugs: the later
/// one's slug avoids every slug already stored, the earlier one's among
/// them.  A collision race that slips past the probe would surface as the
/// store's uniqueness conflict, never as two stored tasks sharing a slug:
/// `spec_tasks_wf` excludes that state.
pub proof fn lemma_created_slugs_distinct(s: Seq<TaskView>, t1: TaskView, t2: TaskView)
    requires
        !spec_slug_taken(s.push(t1), t2.slug),
    ensures
        t2.slug != t1.slug,
{
    assert(s.push(t1)[s.len() as int] == t1);
}

/// The task store.  In a deployment this state lives in the relational
/// database; here it is the store's verified model, and the process
/// boundary hands it plain rows.
#[derive(Debug)]
pub struct TaskRepository {
    pub tasks: Vec<Task>,
}

impl View for TaskRepository {
    type V = Seq<TaskView>;

    open spec fn view(&self) -> Seq<TaskView> {
        spec_views(self.tasks@)
    }
}

impl TaskRepository {
    /// An empty store.
    pub fn new() -> (r: Self)
        ensures
            r@ == Seq::<TaskView>::empty(),
            spec_tasks_wf(r@),
    {
        let r = TaskRepository { tasks: Vec::new() };
        proof {
            assert(r@ =~= Seq::<TaskView>::empty());
        }
        r
    }

    /// Whether a task with this slug is stored.
    pub fn slug_exists(&self, slug: &str) -> (r: bool)
        ensures
            r == spec_slug_taken(self@, slug@),
    {
        let mut i: usize = 0;
        while i < self.tasks.len()
            invariant
                i <= self@.len(),
                self@.len() == self.tasks@.len(),
                forall|j: int| 0 <= j < i ==> #[trigger] self@[j].slug != slug@,
            decreases self@.len() - i,
        {
            if str_eq(self.tasks[i].slug.as_str(), slug) {
                proof {
                    assert(self@[i as int].slug == slug@);
                }
                return true;
            }
            i = i + 1;
        }
        false
    }

    /// Whether a task with this identifier is stored.
    pub fn id_exists(&self, id: u128) -> (r: bool)
        ensures
            r == spec_has_task_id(self@, id),
    {
        let mut i: usize = 0;
        while i < self.tasks.len()
            invariant
                i <= self@.len(),
                self@.len() == self.tasks@.len(),
                forall|j: int| 0 <= j < i ==> #[trigger] self@[j].id != id,
            decreases self@.len() - i,
        {
            if self.tasks[i].id == id {
                proof {
                    assert(self@[i as int].id == id);
                }
                return true;
            }
            i = i + 1;
        }
        false
    }

    /// Resolves a unique slug for the title: the derived slug, or, on
    /// collision, the derived slug with a fresh random suffix, retried up
    /// to a fixed ceiling, after which the operation fails rather than
    /// looping forever.
    pub fn generate_unique_slug(&self, title: &str) -> (r: Result<String, ApiError>)
        ensures
            match r {
                Ok(sl) => !spec_slug_taken(self@, sl@) && spec_slug_of_title(sl@, title@),
                Err(e) => e@ == ApiErrorView::InternalError("Unable to generate unique slug"@),
            },
            !spec_slug_taken(self@, spec_slugify(title@)) ==> (r matches Ok(sl) && sl@
                == spec_slugify(title@)),
    {
        let base = slugify(title);
        let mut slug: String = base.clone();
        let mut attempts: u32 = 0;
        while attempts <= 1000
            invariant
                base@ == spec_slugify(title@),
                spec_slug_of_title(slug@, title@),
                attempts == 0 ==> slug@ == base@,
                attempts > 0 ==> spec_slug_taken(self@, base@),
            decreases 1001 - attempts,
        {
            if !self.slug_exists(slug.as_str()) {
                return Ok(slug);
            }
            let suffix = generate_random_suffix();
            let mut next = base.clone();
            next.append("-");
            next.append(suffix.as_str());
            proof {
                reveal_strlit("-");
                assert(next@.subrange(0, base@.len() as int) =~= base@);
                assert(next@[base@.len() as int] == '-');
                assert forall|i: int|
                    base@.len() < i < next@.len() implies crate::text::spec_is_lower_alnum(
                    #[trigger] next@[i],
                ) by {
                    assert(next@[i] == suffix@[i - base@.len() - 1]);
                }
            }
            slug = next;
            attempts = attempts + 1;
        }
        Err(ApiError::internal_error("Unable to generate unique slug"))
    }

    /// Stores a new task: resolves a unique slug, stamps the creation
    /// time, and appends the row with status `Todo`.  A slug-retry ceiling
    /// or an identifier collision surfaces as `InternalError` and leaves
    /// the store unchanged.
    pub fn create(&mut self, request: CreateTaskRequestInternal) -> (r: Result<Task, ApiError>)
        requires
            spec_tasks_wf(old(self)@),
        ensures
            spec_tasks_wf(final(self)@),
            match r {
                Ok(t) => {
                    &&& t.title@ == request.title@
                    &&& (match (t.description, request.description) {
                        (Some(a), Some(b)) => a@ == b@,
                        (None, None) => true,
                        _ => false,
                    })
                    &&& t.user_id == request.user_id
                    &&& t.status == TaskStatus::Todo
                    &&& t.created_at == t.updated_at
                    &&& spec_slug_of_title(t.slug@, request.title@)
                    &&& (!spec_slug_taken(old(self)@, spec_slugify(request.title@)) ==> t.slug@
                        == spec_slugify(request.title@))
                    &&& !spec_slug_taken(old(self)@, t.slug@)
                    &&& !spec_has_task_id(old(self)@, t.id)
                    &&& final(self)@ == old(self)@.push(t@)
                },
                Err(e) => e@ is InternalError && final(self)@ == old(self)@,
            },
    {
        let slug = match self.generate_unique_slug(request.title.as_str()) {
            Ok(s) => s,
            Err(e) => {
                return Err(e);
            },
        };
        let id = new_uuid();
        if self.id_exists(id) {
            return Err(ApiError::internal_error("identifier collision on insert"));
        }
        let now = now_timestamp();
        let task = Task {
            id,
            title: request.title,
            description: request.description,
            slug,
            status: TaskStatus::Todo,
            user_id: request.user_id,
            created_at: now,
            updated_at: now,
        };
        let ghost old_view = self@;
        let result = task.clone();
        self.tasks.push(task);
        proof {
            assert(self@ =~= old_view.push(result@));
            assert forall|i: int, j: int|
                0 <= i < self@.len() && 0 <= j < self@.len() && i != j implies #[trigger] self@[i].id
                != #[trigger] self@[j].id by {
                if i < old_view.len() && j < old_view.len() {
                } else if j == old_view.len() {
                    assert(self@[j].id == result@.id);
                } else {
                    assert(self@[i].id == result@.id);
                }
            }
            assert forall|i: int, j: int|
                0 <= i < self@.len() && 0 <= j < self@.len() && i != j implies #[trigger] self@[i].slug
                != #[trigger] self@[j].slug by {
                if i < old_view.len() && j < old_view.len() {
                } else if j == old_view.len() {
                    assert(self@[j].slug == self@[i].slug ==> spec_slug_taken(
                        old_view,
                        self@[j].slug,
                    ));
                } else {
                    assert(self@[i].slug == self@[j].slug ==> spec_slug_taken(
                        old_view,
                        self@[i].slug,
                    ));
                }
            }
        }
        Ok(result)
    }

    /// The task with this identifier, or `TaskNotFound`.
    pub fn find_by_id(&self, id: u128) -> (r: Result<Task, ApiError>)
        ensures
            match r {
                Ok(t) => t.id == id && exists|i: int| 0 <= i < self@.len() && #[trigger] self@[i]
                    == t@,
                Err(e) => !spec_has_task_id(self@, id) && e@ == (ApiErrorView::TaskNotFound { id }),
            },
    {
        let mut i: usize = 0;
        while i < self.tasks.len()
            invariant
                i <= self@.len(),
                self@.len() == self.tasks@.len(),
                forall|j: int| 0 <= j < i ==> #[trigger] self@[j].id != id,
            decreases self@.len() - i,
        {
            if self.tasks[i].id == id {
                let t = self.tasks[i].clone();
                proof {
                    assert(self@[i as int] == t@);
                }
                return Ok(t);
            }
            i = i + 1;
        }
        Err(ApiError::TaskNotFound { id })
    }

    /// The tasks of one owner, newest first by creation time.
    pub fn find_by_user_id(&self, user_id: u128) -> (r: Vec<Task>)
        ensures
            spec_sorted(spec_views(r@), SortBy::CreatedAt, SortDir::Desc),
            spec_views(r@).to_multiset() == self@.filter(spec_owned_by(user_id)).to_multiset(),
    {
        let filters = TaskFilters {
            status: None,
            user_id: Some(user_id),
            created_after: None,
            created_before: None,
            search: None,
        };
        let kept = filter_tasks(&self.tasks, &filters);
        let r = sort_tasks(&kept, SortBy::CreatedAt, SortDir::Desc);
        proof {
            lemma_filter_congruent(
                self@,
                |t: TaskView| spec_task_matches(t, filters@),
                spec_owned_by(user_id),
            );
        }
        r
    }

    /// Every task, newest first by creation time.
    pub fn find_all(&self) -> (r: Vec<Task>)
        ensures
            spec_sorted(spec_views(r@), SortBy::CreatedAt, SortDir::Desc),
            spec_views(r@).to_multiset() == self@.to_multiset(),
    {
        sort_tasks(&self.tasks, SortBy::CreatedAt, SortDir::Desc)
    }

    /// How many tasks are stored.
    pub fn count(&self) -> (r: usize)
        ensures
            r == self@.len(),
    {
        self.tasks.len()
    }

    /// The filtered, ordered, paginated listing: validates the pagination
    /// parameters, counts every row the filters keep, orders them by the
    /// requested column and direction, and returns the requested page
    /// beside its metadata.  Rows tied on the sort key may come out in any
    /// order, as they may from the underlying store.
    pub fn find_with_pagination(&self, query_params: &TaskQueryParams) -> (r: Result<
        PaginatedResponse<Task>,
        ApiError,
    >)
        requires
            self@.len() <= u32::MAX,
        ensures
            !spec_params_valid(&query_params.pagination) ==> (r matches Err(e) && e@ is BadRequest),
            spec_params_valid(&query_params.pagination) ==> (r matches Ok(resp) && {
                let filtered = self@.filter(
                    |t: TaskView| spec_task_matches(t, query_params.filters@),
                );
                let sb = spec_parse_sort_by(query_params.pagination.sort_by@)->0;
                let sd = spec_parse_sort_dir(query_params.pagination.sort_direction@)->0;
                let offset = (query_params.pagination.page - 1) * query_params.pagination.limit;
                &&& resp.pagination.page == query_params.pagination.page
                &&& resp.pagination.limit == query_params.pagination.limit
                &&& resp.pagination.total == filtered.len()
                &&& resp.pagination.total_pages == spec_total_pages(
                    filtered.len() as int,
                    query_params.pagination.limit as int,
                )
                &&& resp.pagination.has_next == (resp.pagination.page < resp.pagination.total_pages)
                &&& resp.pagination.has_prev == (resp.pagination.page > 1)
                &&& exists|sorted: Seq<TaskView>|
                    {
                        &&& #[trigger] spec_sorted(sorted, sb, sd)
                        &&& sorted.to_multiset() == filtered.to_multiset()
                        &&& spec_views(resp.data@) == spec_page(
                            sorted,
                            offset as int,
                            query_params.pagination.limit as int,
                        )
                    }
            }),
    {
        if let Err(m) = query_params.pagination.validate() {
            return Err(ApiError::BadRequest(m));
        }
        let sb = match parse_sort_by(query_params.pagination.sort_by.as_str()) {
            Some(sb) => sb,
            None => {
                return Err(ApiError::bad_request("Invalid sort field"));
            },
        };
        let sd = match parse_sort_dir(query_params.pagination.sort_direction.as_str()) {
            Some(sd) => sd,
            None => {
                return Err(ApiError::bad_request("Sort direction must be 'asc' or 'desc'"));
            },
        };
        let kept = filter_tasks(&self.tasks, &query_params.filters);
        let total: u64 = kept.len() as u64;
        let sorted = sort_tasks(&kept, sb, sd);
        let page64: u64 = query_params.pagination.page as u64;
        let limit64: u64 = query_params.pagination.limit as u64;
        proof {
            assert((page64 - 1) * limit64 <= 0xffff_ffff_u64 * 100) by (nonlinear_arith)
                requires
                    1 <= page64 <= 0xffff_ffff_u64,
                    limit64 <= 100,
            ;
        }
        let offset64: u64 = (page64 - 1) * limit64;
        let data = page_slice(&sorted, offset64, limit64);
        proof {
            broadcast use vstd::seq_lib::to_multiset_len;

            assert(spec_views(kept@).to_multiset().len() == spec_views(kept@).len());
            assert((self@.filter(
                |t: TaskView| spec_task_matches(t, query_params.filters@),
            )).to_multiset().len() == spec_views(kept@).to_multiset().len());
            assert(spec_total_pages(total as int, query_params.pagination.limit as int)
                <= u32::MAX) by (nonlinear_arith)
                requires
                    1 <= query_params.pagination.limit <= 100,
                    0 <= total <= u32::MAX,
            ;
        }
        let meta = PaginationMeta::new(&query_params.pagination, total);
        proof {
            let sortedv = spec_views(sorted@);
            assert(spec_sorted(sortedv, sb, sd));
        }
        Ok(PaginatedResponse { data, pagination: meta })
    }
}

} // verus!
