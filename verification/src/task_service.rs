//! The task query and command service: authorization-free orchestration
//! of the task store and the cache-aside layer.
//!
//! Reads attempt the cache first and fall back to the store, populating
//! the cache afterward.  The write path invalidates the aggregate entries
//! it made stale and refreshes the single-task entry with the value it
//! already holds.  Coherence — every cache entry agrees with the store —
//! is the service's invariant, so a cache hit and a store read are
//! indistinguishable in the contracts.

use vstd::prelude::*;

use crate::cache::CacheKey;
use crate::cache::CachedValue;
use crate::cache::CachedValueView;
use crate::cache::RedisCache;
use crate::cache::spec_cache_wf;
use crate::error::ApiError;
use crate::error::ApiErrorView;
use crate::pagination::PaginatedResponse;
use crate::pagination::SortBy;
use crate::pagination::SortDir;
use crate::pagination::TaskQueryParams;
use crate::pagination::spec_params_valid;
use crate::pagination::spec_parse_sort_by;
use crate::pagination::spec_parse_sort_dir;
use crate::pagination::spec_total_pages;
use crate::query::clone_tasks;
use crate::query::spec_page;
use crate::query::spec_sorted;
use crate::query::spec_task_matches;
use crate::query::spec_views;
use crate::task::CreateTaskRequest;
use crate::task::Task;
use crate::task::TaskStatus;
use crate::task::TaskView;
use crate::task_repository::CreateTaskRequestInternal;
use crate::task_repository::TaskRepository;
use crate::task_repository::spec_has_task_id;
use crate::task_repository::spec_owned_by;
use crate::task_repository::spec_slug_of_title;
use crate::task_repository::spec_tasks_wf;
use crate::text::spec_trim;
use crate::text::trim_str;
use crate::user_repository::UserRepository;
use crate::user_repository::spec_has_user_id;

verus! {

/// What the creation path accepts: a title that is non-empty after
/// trimming and at most 200 characters, and a description of at most
/// 1000 characters.
pub open spec fn spec_task_request_valid(req: &CreateTaskRequest) -> bool {
    &&& spec_trim(req.title@).len() > 0
    &&& req.title@.len() <= 200
    &&& match req.description {
        Some(d) => d@.len() <= 1000,
        None => true,
    }
}

/// The validation error the creation path reports, naming the first
/// violated rule.
pub open spec fn spec_task_request_error(req: &CreateTaskRequest) -> crate::error::ApiErrorView {
    crate::error::ApiErrorView::ValidationError(
        if spec_trim(req.title@).len() == 0 {
            "Title cannot be empty"@
        } else if req.title@.len() > 200 {
            "Title cannot exceed 200 characters"@
        } else {
            "Description cannot exceed 1000 characters"@
        },
    )
}

/// One cache entry agrees with the store: a single-task entry holds a
/// stored task under its own identifier, and an aggregate entry holds an
/// ordered snapshot of exactly the rows the store would list.
pub open spec fn spec_entry_coherent(k: CacheKey, v: CachedValueView, tasks: Seq<TaskView>) -> bool {
    match k {
        CacheKey::Task(id) => match v {
            CachedValueView::One(t) => t.id == id && exists|i: int|
                0 <= i < tasks.len() && #[trigger] tasks[i] == t,
            CachedValueView::Many(_) => false,
        },
        CacheKey::UserTasks(uid) => match v {
            CachedValueView::Many(s) => spec_sorted(s, SortBy::CreatedAt, SortDir::Desc)
                && s.to_multiset() == tasks.filter(spec_owned_by(uid)).to_multiset(),
            CachedValueView::One(_) => false,
        },
        CacheKey::AllTasks => match v {
            CachedValueView::Many(s) => spec_sorted(s, SortBy::CreatedAt, SortDir::Desc)
                && s.to_multiset() == tasks.to_multiset(),
            CachedValueView::One(_) => false,
        },
    }
}

/// Every entry the cache holds agrees with the store.
pub open spec fn spec_cache_coherent(
    m: Map<CacheKey, CachedValueView>,
    tasks: Seq<TaskView>,
) -> bool {
    forall|k: CacheKey| #[trigger] m.contains_key(k) ==> spec_entry_coherent(k, m[k], tasks)
}

/// The cache the service holds, as a map, when it holds one.
pub open spec fn spec_service_cache(svc: &TaskService) -> Option<Map<CacheKey, CachedValueView>> {
    match svc.cache {
        Some(c) => Some(c@),
        None => None,
    }
}

/// The service's invariant against a given store state.
pub open spec fn spec_service_wf(svc: &TaskService, tasks: Seq<TaskView>) -> bool {
    match svc.cache {
        Some(c) => spec_cache_wf(&c) && spec_cache_coherent(c@, tasks),
        None => true,
    }
}

/// A read right after a write cannot observe the pre-write listing: any
/// whole-listing snapshot coherent with the store after a task was
/// appended holds exactly one more task than any snapshot coherent with
/// the store before — so the aggregate entries the write invalidated
/// cannot reappear with their stale content.  The by-id counterpart needs
/// no lemma: `get_task`'s contract returns the stored task whenever its
/// identifier is stored, cache hit or miss.
pub proof fn lemma_no_stale_listing(
    before: Seq<TaskView>,
    t: TaskView,
    old_snap: Seq<TaskView>,
    new_snap: Seq<TaskView>,
)
    requires
        old_snap.to_multiset() == before.to_multiset(),
        new_snap.to_multiset() == before.push(t).to_multiset(),
    ensures
        new_snap.len() == old_snap.len() + 1,
        new_snap != old_snap,
{
    broadcast use vstd::seq_lib::to_multiset_len, vstd::seq_lib::to_multiset_build, vstd::multiset::group_multiset_axioms;

    assert(old_snap.len() == old_snap.to_multiset().len());
    assert(new_snap.len() == new_snap.to_multiset().len());
    assert(before.push(t).to_multiset() == before.to_multiset().insert(t));
    assert(before.push(t).len() == before.push(t).to_multiset().len());
}

/// The task service; it owns the cache-aside state, while the store
/// handles are injected per call.
#[derive(Debug)]
pub struct TaskService {
    pub cache: Option<RedisCache>,
}

impl TaskService {
    /// A service over a fresh or absent cache.
    pub fn new(cache: Option<RedisCache>) -> (r: Self)
        requires
            match cache {
                Some(c) => spec_cache_wf(&c) && c@ == Map::<CacheKey, CachedValueView>::empty(),
                None => true,
            },
        ensures
            forall|tasks: Seq<TaskView>| #[trigger] spec_service_wf(&r, tasks),
            spec_service_cache(&r) is Some <==> cache is Some,
    {
        let r = TaskService { cache };
        proof {
            assert forall|tasks: Seq<TaskView>| #[trigger] spec_service_wf(&r, tasks) by {
                match r.cache {
                    Some(c) => {
                        assert(forall|k: CacheKey| !c@.contains_key(k));
                    },
                    None => {},
                }
            }
        }
        r
    }

    /// Accepts the request or reports the first violated rule.
    fn validate_task_request(&self, request: &CreateTaskRequest) -> (r: Result<(), ApiError>)
        ensures
            r is Ok <==> spec_task_request_valid(request),
            r matches Err(e) ==> e@ == spec_task_request_error(request),
    {
        let title = trim_str(request.title.as_str());
        if title.as_str().is_empty() {
            return Err(ApiError::validation_error("Title cannot be empty"));
        }
        if request.title.as_str().unicode_len() > 200 {
            return Err(ApiError::validation_error("Title cannot exceed 200 characters"));
        }
        match &request.description {
            Some(d) => {
                if d.as_str().unicode_len() > 1000 {
                    return Err(
                        ApiError::validation_error("Description cannot exceed 1000 characters"),
                    );
                }
            },
            None => {},
        }
        Ok(())
    }

    /// Validates, checks the owner exists, stores the task, invalidates
    /// the stale aggregate cache entries, and refreshes the single-task
    /// entry with the fresh value.
    pub fn create_task(
        &mut self,
        tasks: &mut TaskRepository,
        users: &UserRepository,
        request: CreateTaskRequest,
        user_id: u128,
    ) -> (r: Result<Task, ApiError>)
        requires
            spec_tasks_wf(old(tasks)@),
            spec_service_wf(old(self), old(tasks)@),
        ensures
            spec_tasks_wf(final(tasks)@),
            spec_service_wf(final(self), final(tasks)@),
            r is Err ==> final(tasks)@ == old(tasks)@ && spec_service_cache(final(self))
                == spec_service_cache(old(self)),
            !spec_task_request_valid(&request) ==> (r matches Err(e) && e@
                == spec_task_request_error(&request)),
            spec_task_request_valid(&request) && !spec_has_user_id(users@, user_id) ==> (
            r matches Err(e) && e@ == (ApiErrorView::UserNotFound { id: user_id })),
            spec_task_request_valid(&request) && spec_has_user_id(users@, user_id) ==> match r {
                Ok(t) => {
                    &&& t.title@ == request.title@
                    &&& (match (t.description, request.description) {
                        (Some(a), Some(b)) => a@ == b@,
                        (None, None) => true,
                        _ => false,
                    })
                    &&& t.user_id == user_id
                    &&& t.status == TaskStatus::Todo
                    &&& spec_slug_of_title(t.slug@, request.title@)
                    &&& (!crate::task_repository::spec_slug_taken(
                        old(tasks)@,
                        crate::slug::spec_slugify(request.title@),
                    ) ==> t.slug@ == crate::slug::spec_slugify(request.title@))
                    &&& !spec_has_task_id(old(tasks)@, t.id)
                    &&& final(tasks)@ == old(tasks)@.push(t@)
                    &&& match (spec_service_cache(old(self)), spec_service_cache(final(self))) {
                        (Some(m0), Some(m1)) => m1 == m0.remove(CacheKey::AllTasks).remove(
                            CacheKey::UserTasks(user_id),
                        ).insert(CacheKey::Task(t.id), CachedValueView::One(t@)),
                        (None, None) => true,
                        _ => false,
                    }
                },
                Err(e) => e@ is InternalError,
            },
    {
        if let Err(e) = self.validate_task_request(&request) {
            return Err(e);
        }
        if !users.id_exists(user_id) {
            return Err(ApiError::UserNotFound { id: user_id });
        }
        let internal_request = CreateTaskRequestInternal {
            title: request.title,
            description: request.description,
            user_id,
        };
        let ghost old_tasks = tasks@;
        let task = match tasks.create(internal_request) {
            Ok(t) => t,
            Err(e) => {
                return Err(e);
            },
        };
        match self.cache.take() {
            Some(mut cache) => {
                cache.del(CacheKey::AllTasks);
                cache.del(CacheKey::UserTasks(task.user_id));
                cache.set(CacheKey::Task(task.id), CachedValue::One(task.clone()));
                self.cache = Some(cache);
                proof {
                    let m = match &self.cache {
                        Some(c) => c@,
                        None => Map::empty(),
                    };
                    broadcast use Seq::lemma_filter_push;

                    assert(tasks@ =~= old_tasks.push(task@));
                    assert forall|k: CacheKey| #[trigger] m.contains_key(
                        k,
                    ) implies spec_entry_coherent(k, m[k], tasks@) by {
                        let m0 = match &old(self).cache {
                            Some(c) => c@,
                            None => Map::empty(),
                        };
                        if k == CacheKey::Task(task.id) {
                            assert(m[k] == CachedValueView::One(task@));
                            assert(tasks@[tasks@.len() - 1] == task@);
                        } else {
                            assert(m0.contains_key(k));
                            assert(spec_entry_coherent(k, m0[k], old_tasks));
                            assert(m[k] == m0[k]);
                            match k {
                                CacheKey::Task(id) => {
                                    match m0[k] {
                                        CachedValueView::One(t) => {
                                            let i = choose|i: int|
                                                0 <= i < old_tasks.len() && #[trigger] old_tasks[i]
                                                    == t;
                                            assert(tasks@[i] == t);
                                        },
                                        CachedValueView::Many(_) => {},
                                    }
                                },
                                CacheKey::UserTasks(uid) => {
                                    assert(k != CacheKey::UserTasks(task.user_id));
                                    assert(uid != task.user_id);
                                    assert(tasks@ =~= old_tasks.push(task@));
                                    assert(old_tasks.push(task@).filter(spec_owned_by(uid))
                                        == old_tasks.filter(spec_owned_by(uid)));
                                },
                                CacheKey::AllTasks => {},
                            }
                        }
                    }
                }
                Ok(task)
            },
            None => {
                proof {
                    assert(tasks@[tasks@.len() - 1] == task@);
                }
                Ok(task)
            },
        }
    }

    /// The task with this identifier: served from the cache when present,
    /// else fetched from the store and cached.  Under coherence the
    /// outcome is exactly the store's: the task if stored, `TaskNotFound`
    /// otherwise.
    pub fn get_task(&mut self, tasks: &TaskRepository, id: u128) -> (r: Result<Task, ApiError>)
        requires
            spec_tasks_wf(tasks@),
            spec_service_wf(old(self), tasks@),
        ensures
            spec_service_wf(final(self), tasks@),
            match r {
                Ok(t) => t.id == id && exists|i: int| 0 <= i < tasks@.len() && #[trigger] tasks@[i]
                    == t@,
                Err(e) => !spec_has_task_id(tasks@, id) && e@ == (ApiErrorView::TaskNotFound { id }),
            },
    {
        match self.cache.take() {
            Some(mut cache) => {
                match cache.get(CacheKey::Task(id)) {
                    Some(CachedValue::One(t)) => {
                        self.cache = Some(cache);
                        proof {
                            assert(spec_entry_coherent(CacheKey::Task(id), CachedValueView::One(t@), tasks@));
                        }
                        return Ok(t);
                    },
                    Some(CachedValue::Many(_)) => {
                        proof {
                            assert(false);
                        }
                        self.cache = Some(cache);
                        return Err(ApiError::TaskNotFound { id });
                    },
                    None => {},
                }
                let t = match tasks.find_by_id(id) {
                    Ok(t) => t,
                    Err(e) => {
                        self.cache = Some(cache);
                        return Err(e);
                    },
                };
                let ghost m0 = cache@;
                cache.set(CacheKey::Task(id), CachedValue::One(t.clone()));
                self.cache = Some(cache);
                proof {
                    let m = m0.insert(CacheKey::Task(id), CachedValueView::One(t@));
                    assert forall|k: CacheKey| #[trigger] m.contains_key(
                        k,
                    ) implies spec_entry_coherent(k, m[k], tasks@) by {
                        if k != CacheKey::Task(id) {
                            assert(m0.contains_key(k));
                            assert(m[k] == m0[k]);
                        }
                    }
                }
                Ok(t)
            },
            None => tasks.find_by_id(id),
        }
    }

    /// The tasks of one owner, newest first: the owner must exist; the
    /// snapshot is served from the cache when present, else listed from
    /// the store and cached.
    pub fn get_tasks_by_user(
        &mut self,
        tasks: &TaskRepository,
        users: &UserRepository,
        user_id: u128,
    ) -> (r: Result<Vec<Task>, ApiError>)
        requires
            spec_service_wf(old(self), tasks@),
        ensures
            spec_service_wf(final(self), tasks@),
            !spec_has_user_id(users@, user_id) ==> (r matches Err(e) && e@
                == (ApiErrorView::UserNotFound { id: user_id })),
            spec_has_user_id(users@, user_id) ==> (r matches Ok(v) && spec_sorted(
                spec_views(v@),
                SortBy::CreatedAt,
                SortDir::Desc,
            ) && spec_views(v@).to_multiset() == tasks@.filter(
                spec_owned_by(user_id),
            ).to_multiset()),
    {
        if !users.id_exists(user_id) {
            return Err(ApiError::UserNotFound { id: user_id });
        }
        match self.cache.take() {
            Some(mut cache) => {
                match cache.get(CacheKey::UserTasks(user_id)) {
                    Some(CachedValue::Many(v)) => {
                        self.cache = Some(cache);
                        proof {
                            assert(spec_entry_coherent(
                                CacheKey::UserTasks(user_id),
                                CachedValueView::Many(spec_views(v@)),
                                tasks@,
                            ));
                        }
                        return Ok(v);
                    },
                    Some(CachedValue::One(_)) => {
                        proof {
                            assert(false);
                        }
                        self.cache = Some(cache);
                        return Err(ApiError::UserNotFound { id: user_id });
                    },
                    None => {},
                }
                let v = tasks.find_by_user_id(user_id);
                let ghost m0 = cache@;
                cache.set(CacheKey::UserTasks(user_id), CachedValue::Many(clone_tasks(&v)));
                self.cache = Some(cache);
                proof {
                    let m = m0.insert(
                        CacheKey::UserTasks(user_id),
                        CachedValueView::Many(spec_views(v@)),
                    );
                    assert forall|k: CacheKey| #[trigger] m.contains_key(
                        k,
                    ) implies spec_entry_coherent(k, m[k], tasks@) by {
                        if k != CacheKey::UserTasks(user_id) {
                            assert(m0.contains_key(k));
                            assert(m[k] == m0[k]);
                        }
                    }
                }
                Ok(v)
            },
            None => Ok(tasks.find_by_user_id(user_id)),
        }
    }

    /// Every task, newest first: served from the cache when present, else
    /// listed from the store and cached.
    pub fn get_all_tasks(&mut self, tasks: &TaskRepository) -> (r: Result<Vec<Task>, ApiError>)
        requires
            spec_service_wf(old(self), tasks@),
        ensures
            spec_service_wf(final(self), tasks@),
            r matches Ok(v) && spec_sorted(spec_views(v@), SortBy::CreatedAt, SortDir::Desc)
                && spec_views(v@).to_multiset() == tasks@.to_multiset(),
    {
        match self.cache.take() {
            Some(mut cache) => {
                match cache.get(CacheKey::AllTasks) {
                    Some(CachedValue::Many(v)) => {
                        self.cache = Some(cache);
                        proof {
                            assert(spec_entry_coherent(
                                CacheKey::AllTasks,
                                CachedValueView::Many(spec_views(v@)),
                                tasks@,
                            ));
                        }
                        return Ok(v);
                    },
                    Some(CachedValue::One(_)) => {
                        proof {
                            assert(false);
                        }
                        self.cache = Some(cache);
                        return Ok(Vec::new());
                    },
                    None => {},
                }
                let v = tasks.find_all();
                let ghost m0 = cache@;
                cache.set(CacheKey::AllTasks, CachedValue::Many(clone_tasks(&v)));
                self.cache = Some(cache);
                proof {
                    let m = m0.insert(CacheKey::AllTasks, CachedValueView::Many(spec_views(v@)));
                    assert forall|k: CacheKey| #[trigger] m.contains_key(
                        k,
                    ) implies spec_entry_coherent(k, m[k], tasks@) by {
                        if k != CacheKey::AllTasks {
                            assert(m0.contains_key(k));
                            assert(m[k] == m0[k]);
                        }
                    }
                }
                Ok(v)
            },
            None => Ok(tasks.find_all()),
        }
    }

    /// How many tasks are stored.
    pub fn get_task_count(&self, tasks: &TaskRepository) -> (r: usize)
        ensures
            r == tasks@.len(),
    {
        tasks.count()
    }

    /// The filtered, ordered, paginated listing; pagination results are
    /// not cached.
    pub fn get_tasks_paginated(&self, tasks: &TaskRepository, query_params: TaskQueryParams) -> (r:
        Result<PaginatedResponse<Task>, ApiError>)
        requires
            tasks@.len() <= u32::MAX,
        ensures
            !spec_params_valid(&query_params.pagination) ==> (r matches Err(e) && e@ is BadRequest),
            spec_params_valid(&query_params.pagination) ==> (r matches Ok(resp) && {
                let filtered = tasks@.filter(
                    |t: TaskView| spec_task_matches(t, query_params.filters@),
                );
                let sb = spec_parse_sort_by(query_params.pagination.sort_by@)->0;
                let sd = spec_parse_sort_dir(query_params.pagination.sort_direction@)->0;
                let offset = (query_params.pagination.page - 1) * query_params.pagination.limit;
                &&& resp.pagination.page == query_params.pagination.page
                &&& resp.pagination.limit == query_params.pagination.limit
                &&& resp.pagination.total == filtered.len()
                &&& resp.pagination.total_pages == spec_total_pages(
                    filtered.len() as int,
                    query_params.pagination.limit as int,
                )
                &&& resp.pagination.has_next == (resp.pagination.page < resp.pagination.total_pages)
                &&& resp.pagination.has_prev == (resp.pagination.page > 1)
                &&& exists|sorted: Seq<TaskView>|
                    {
                        &&& #[trigger] spec_sorted(sorted, sb, sd)
                        &&& sorted.to_multiset() == filtered.to_multiset()
                        &&& spec_views(resp.data@) == spec_page(
                            sorted,
                            offset as int,
                            query_params.pagination.limit as int,
                        )
                    }
            }),
    {
        tasks.find_with_pagination(&query_params)
    }
}

} // verus!
