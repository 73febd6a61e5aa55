//! Tasks: status, record, and the creation request shape.

use vstd::prelude::*;

verus! {

/// The lifecycle state of a task; `Todo` is the state at creation.
#[derive(Clone, Copy, Debug, PartialEq, Eq, Structural)]
pub enum TaskStatus {
    Todo,
    InProgress,
    Done,
}

/// The order of the status column when a listing sorts by status.
pub open spec fn spec_status_rank(s: TaskStatus) -> int {
    match s {
        TaskStatus::Todo => 0,
        TaskStatus::InProgress => 1,
        TaskStatus::Done => 2,
    }
}

/// Exec counterpart of `spec_status_rank`.
pub fn status_rank(s: TaskStatus) -> (r: u8)
    ensures
        r as int == spec_status_rank(s),
{
    match s {
        TaskStatus::Todo => 0,
        TaskStatus::InProgress => 1,
        TaskStatus::Done => 2,
    }
}

/// The mathematical value of a stored task.
pub ghost struct TaskView {
    pub id: u128,
    pub title: Seq<char>,
    pub description: Option<Seq<char>>,
    pub slug: Seq<char>,
    pub status: TaskStatus,
    pub user_id: u128,
    pub created_at: i64,
    pub updated_at: i64,
}

/// A stored task.  `user_id` is a non-owning reference to the identity that
/// owns the task; `slug` is unique across all tasks of one repository.
#[derive(Debug)]
pub struct Task {
    pub id: u128,
    pub title: String,
    pub description: Option<String>,
    pub slug: String,
    pub status: TaskStatus,
    pub user_id: u128,
    pub created_at: i64,
    pub updated_at: i64,
}

impl Task {
    /// A fresh task: new identifier, derived slug, status `Todo`, and
    /// both timestamps set to now.
    pub fn new(title: String, description: Option<String>, user_id: u128) -> (r: Self)
        ensures
            r.title@ == title@,
            (match (r.description, description) {
                (Some(a), Some(b)) => a@ == b@,
                (None, None) => true,
                _ => false,
            }),
            r.slug@ == crate::slug::spec_slugify(title@),
            r.status == TaskStatus::Todo,
            r.user_id == user_id,
            r.created_at == r.updated_at,
    {
        let now = crate::ids::now_timestamp();
        let slug = crate::slug::slugify(title.as_str());
        Task {
            id: crate::ids::new_uuid(),
            title,
            description,
            slug,
            status: TaskStatus::Todo,
            user_id,
            created_at: now,
            updated_at: now,
        }
    }
}

impl View for Task {
    type V = TaskView;

    open spec fn view(&self) -> TaskView {
        TaskView {
            id: self.id,
            title: self.title@,
            description: match self.description {
                Some(d) => Some(d@),
                None => None,
            },
            slug: self.slug@,
            status: self.status,
            user_id: self.user_id,
            created_at: self.created_at,
            updated_at: self.updated_at,
        }
    }
}

impl Clone for Task {
    fn clone(&self) -> (res: Self)
        ensures
            res@ == self@,
    {
        Task {
            id: self.id,
            title: self.title.clone(),
            description: match &self.description {
                Some(d) => Some(d.clone()),
                None => None,
            },
            slug: self.slug.clone(),
            status: self.status,
            user_id: self.user_id,
            created_at: self.created_at,
            updated_at: self.updated_at,
        }
    }
}

/// A request to create a task, as the write path receives it.  The
/// `user_id` field mirrors the request body; the command service ignores it
/// and trusts only the authenticated caller's identity.
#[derive(Debug)]
pub struct CreateTaskRequest {
    pub title: String,
    pub description: Option<String>,
    pub user_id: u128,
}

impl Clone for CreateTaskRequest {
    fn clone(&self) -> (res: Self)
        ensures
            res.title@ == self.title@,
            res.user_id == self.user_id,
            match (res.description, self.description) {
                (Some(a), Some(b)) => a@ == b@,
                (None, None) => true,
                _ => false,
            },
    {
        CreateTaskRequest {
            title: self.title.clone(),
            description: match &self.description {
                Some(d) => Some(d.clone()),
                None => None,
            },
            user_id: self.user_id,
        }
    }
}

} // verus!
