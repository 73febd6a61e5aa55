//! Pagination parameters, task filters, and the derived page metadata.

use vstd::prelude::*;

use crate::task::TaskStatus;
use crate::text::str_eq;

verus! {

/// The sort columns a listing accepts.
#[derive(Clone, Copy, Debug, PartialEq, Eq, Structural)]
pub enum SortBy {
    CreatedAt,
    UpdatedAt,
    Title,
    Status,
}

/// The sort directions a listing accepts.
#[derive(Clone, Copy, Debug, PartialEq, Eq, Structural)]
pub enum SortDir {
    Asc,
    Desc,
}

/// The sort column named by a request string, if recognized.
pub open spec fn spec_parse_sort_by(s: Seq<char>) -> Option<SortBy> {
    if s == "created_at"@ {
        Some(SortBy::CreatedAt)
    } else if s == "updated_at"@ {
        Some(SortBy::UpdatedAt)
    } else if s == "title"@ {
        Some(SortBy::Title)
    } else if s == "status"@ {
        Some(SortBy::Status)
    } else {
        None
    }
}

/// The sort direction named by a request string, if recognized.
pub open spec fn spec_parse_sort_dir(s: Seq<char>) -> Option<SortDir> {
    if s == "asc"@ {
        Some(SortDir::Asc)
    } else if s == "desc"@ {
        Some(SortDir::Desc)
    } else {
        None
    }
}

/// Exec counterpart of `spec_parse_sort_by`.
pub fn parse_sort_by(s: &str) -> (r: Option<SortBy>)
    ensures
        r == spec_parse_sort_by(s@),
{
    if str_eq(s, "created_at") {
        Some(SortBy::CreatedAt)
    } else if str_eq(s, "updated_at") {
        Some(SortBy::UpdatedAt)
    } else if str_eq(s, "title") {
        Some(SortBy::Title)
    } else if str_eq(s, "status") {
        Some(SortBy::Status)
    } else {
        None
    }
}

/// Exec counterpart of `spec_parse_sort_dir`.
pub fn parse_sort_dir(s: &str) -> (r: Option<SortDir>)
    ensures
        r == spec_parse_sort_dir(s@),
{
    if str_eq(s, "asc") {
        Some(SortDir::Asc)
    } else if str_eq(s, "desc") {
        Some(SortDir::Desc)
    } else {
        None
    }
}

/// Pagination parameters for task listings; the defaults are page 1,
/// limit 20, newest first by creation time.
#[derive(Debug)]
pub struct PaginationParams {
    /// Page number, 1-based.
    pub page: u32,
    /// Items per page, between 1 and 100 once validated.
    pub limit: u32,
    /// Sort column name.
    pub sort_by: String,
    /// Sort direction, `asc` or `desc`.
    pub sort_direction: String,
}

/// What a valid set of pagination parameters looks like.
pub open spec fn spec_params_valid(p: &PaginationParams) -> bool {
    &&& p.page >= 1
    &&& 1 <= p.limit <= 100
    &&& spec_parse_sort_by(p.sort_by@) is Some
    &&& spec_parse_sort_dir(p.sort_direction@) is Some
}

impl Clone for PaginationParams {
    fn clone(&self) -> (res: Self)
        ensures
            res.page == self.page,
            res.limit == self.limit,
            res.sort_by@ == self.sort_by@,
            res.sort_direction@ == self.sort_direction@,
    {
        PaginationParams {
            page: self.page,
            limit: self.limit,
            sort_by: self.sort_by.clone(),
            sort_direction: self.sort_direction.clone(),
        }
    }
}

impl Default for PaginationParams {
    fn default() -> (res: Self)
        ensures
            res.page == 1,
            res.limit == 20,
            res.sort_by@ == "created_at"@,
            res.sort_direction@ == "desc"@,
    {
        PaginationParams {
            page: 1,
            limit: 20,
            sort_by: String::from_str("created_at"),
            sort_direction: String::from_str("desc"),
        }
    }
}

impl PaginationParams {
    /// How many rows precede the requested page.
    pub fn offset(&self) -> (r: u32)
        requires
            self.page >= 1,
            (self.page - 1) * self.limit <= u32::MAX,
        ensures
            r == (self.page - 1) * self.limit,
    {
        (self.page - 1) * self.limit
    }

    /// Accepts the parameters or reports the first violated rule; invalid
    /// values are rejected, never clamped.
    pub fn validate(&self) -> (r: Result<(), String>)
        ensures
            r is Ok <==> spec_params_valid(self),
            r matches Err(m) ==> {
                if self.page == 0 {
                    m@ == "Page must be greater than 0"@
                } else if self.limit == 0 || self.limit > 100 {
                    m@ == "Limit must be between 1 and 100"@
                } else if spec_parse_sort_by(self.sort_by@) is None {
                    m@ == "Invalid sort field"@
                } else {
                    m@ == "Sort direction must be 'asc' or 'desc'"@
                }
            },
    {
        if self.page == 0 {
            return Err(String::from_str("Page must be greater than 0"));
        }
        if self.limit == 0 || self.limit > 100 {
            return Err(String::from_str("Limit must be between 1 and 100"));
        }
        if parse_sort_by(self.sort_by.as_str()).is_none() {
            return Err(String::from_str("Invalid sort field"));
        }
        if parse_sort_dir(self.sort_direction.as_str()).is_none() {
            return Err(String::from_str("Sort direction must be 'asc' or 'desc'"));
        }
        Ok(())
    }
}

/// Optional predicates a listing may filter by; absence means unfiltered
/// on that dimension.
#[derive(Debug)]
pub struct TaskFilters {
    /// Keep only tasks in this status.
    pub status: Option<TaskStatus>,
    /// Keep only tasks owned by this identity.
    pub user_id: Option<u128>,
    /// Keep only tasks created at or after this timestamp.
    pub created_after: Option<i64>,
    /// Keep only tasks created at or before this timestamp.
    pub created_before: Option<i64>,
    /// Keep only tasks whose title or description contains this text,
    /// case-insensitively.
    pub search: Option<String>,
}

/// The mathematical value of a filter set.
pub ghost struct TaskFiltersView {
    pub status: Option<TaskStatus>,
    pub user_id: Option<u128>,
    pub created_after: Option<i64>,
    pub created_before: Option<i64>,
    pub search: Option<Seq<char>>,
}

impl View for TaskFilters {
    type V = TaskFiltersView;

    open spec fn view(&self) -> TaskFiltersView {
        TaskFiltersView {
            status: self.status,
            user_id: self.user_id,
            created_after: self.created_after,
            created_before: self.created_before,
            search: match self.search {
                Some(s) => Some(s@),
                None => None,
            },
        }
    }
}

impl Clone for TaskFilters {
    fn clone(&self) -> (res: Self)
        ensures
            res@ == self@,
    {
        TaskFilters {
            status: self.status,
            user_id: self.user_id,
            created_after: self.created_after,
            created_before: self.created_before,
            search: match &self.search {
                Some(s) => Some(s.clone()),
                None => None,
            },
        }
    }
}

impl Default for TaskFilters {
    fn default() -> (res: Self)
        ensures
            res@.status is None,
            res@.user_id is None,
            res@.created_after is None,
            res@.created_before is None,
            res@.search is None,
    {
        TaskFilters {
            status: None,
            user_id: None,
            created_after: None,
            created_before: None,
            search: None,
        }
    }
}

/// Combined pagination and filter parameters of one listing request.
#[derive(Debug)]
pub struct TaskQueryParams {
    pub pagination: PaginationParams,
    pub filters: TaskFilters,
}

impl Default for TaskQueryParams {
    fn default() -> (res: Self)
        ensures
            res.pagination.page == 1,
            res.pagination.limit == 20,
            res.pagination.sort_by@ == "created_at"@,
            res.pagination.sort_direction@ == "desc"@,
            res.filters@.status is None,
            res.filters@.user_id is None,
            res.filters@.created_after is None,
            res.filters@.created_before is None,
            res.filters@.search is None,
    {
        TaskQueryParams { pagination: PaginationParams::default(), filters: TaskFilters::default() }
    }
}

/// The number of pages `total` rows make at `limit` rows per page.
pub open spec fn spec_total_pages(total: int, limit: int) -> int {
    (total + limit - 1) / limit
}

/// Derived page metadata returned beside every paginated listing; never
/// stored.
#[derive(Clone, Copy, Debug, PartialEq, Eq, Structural)]
pub struct PaginationMeta {
    pub page: u32,
    pub limit: u32,
    pub total: u64,
    pub total_pages: u32,
    pub has_next: bool,
    pub has_prev: bool,
}

impl PaginationMeta {
    /// Derives the metadata of a page: `total_pages` is the ceiling of
    /// `total / limit`, `has_next` and `has_prev` say whether neighbouring
    /// pages exist.
    pub fn new(pagination: &PaginationParams, total: u64) -> (r: Self)
        requires
            1 <= pagination.limit,
            spec_total_pages(total as int, pagination.limit as int) <= u32::MAX,
            total + pagination.limit <= u64::MAX,
        ensures
            r.page == pagination.page,
            r.limit == pagination.limit,
            r.total == total,
            r.total_pages == spec_total_pages(total as int, pagination.limit as int),
            r.has_next == (pagination.page < r.total_pages),
            r.has_prev == (pagination.page > 1),
    {
        let limit64: u64 = pagination.limit as u64;
        let tp64: u64 = (total + limit64 - 1) / limit64;
        let total_pages: u32 = tp64 as u32;
        PaginationMeta {
            page: pagination.page,
            limit: pagination.limit,
            total,
            total_pages,
            has_next: pagination.page < total_pages,
            has_prev: pagination.page > 1,
        }
    }
}

/// A page of results together with its metadata.
#[derive(Debug)]
pub struct PaginatedResponse<T> {
    pub data: Vec<T>,
    pub pagination: PaginationMeta,
}

} // verus!
