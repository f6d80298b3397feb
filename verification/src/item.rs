//! The todo item itself: the executable record, its mathematical view, and
//! the validation error classification.

use vstd::prelude::*;
use vstd::string::StringExecFns;

verus! {

/// A single task owned by the store.
///
/// `id` is assigned by the store, monotonically increasing and never reused
/// within one store's lifetime. `title` is non-empty, trimmed, and at most
/// [`crate::title::TITLE_MAX_LEN`] Unicode scalar values. `created_at` is a
/// millisecond timestamp captured at creation; `updated_at` is set on every
/// toggle and absent until the first one.
#[derive(Debug, Clone, PartialEq, Eq)]
pub struct TodoItem {
    pub id: u32,
    pub title: String,
    pub completed: bool,
    pub created_at: u64,
    pub updated_at: Option<u64>,
}

/// The mathematical value of a [`TodoItem`]: the same fields, with the title
/// as a sequence of Unicode scalar values.
#[verifier::ext_equal]
pub struct ItemView {
    pub id: u32,
    pub title: Seq<char>,
    pub completed: bool,
    pub created_at: u64,
    pub updated_at: Option<u64>,
}

impl View for TodoItem {
    type V = ItemView;

    open spec fn view(&self) -> ItemView {
        ItemView {
            id: self.id,
            title: self.title@,
            completed: self.completed,
            created_at: self.created_at,
            updated_at: self.updated_at,
        }
    }
}

impl DeepView for TodoItem {
    type V = ItemView;

    open spec fn deep_view(&self) -> ItemView {
        self.view()
    }
}

impl TodoItem {
    /// An independent copy: same id, flags and timestamps, and a fresh string
    /// holding the same title.
    pub fn duplicate(&self) -> (r: TodoItem)
        ensures
            r@ == self@,
    {
        TodoItem {
            id: self.id,
            title: String::from_str(self.title.as_str()),
            completed: self.completed,
            created_at: self.created_at,
            updated_at: self.updated_at,
        }
    }
}

/// Why a title was rejected by validation.
#[derive(Debug, Clone, Copy, PartialEq, Eq, Structural)]
pub enum TodoError {
    /// The trimmed title is empty.
    EmptyTitle,
    /// The trimmed title exceeds the maximum length in Unicode scalar values.
    TooLong,
}

impl TodoError {
    /// The user-facing message for this error.
    pub fn message(&self) -> (r: &'static str)
        ensures
            r@ == (match self {
                TodoError::EmptyTitle => "할 일 제목을 입력해주세요."@,
                TodoError::TooLong => "제목은 128자 이하여야 합니다."@,
            }),
    {
        match self {
            TodoError::EmptyTitle => "할 일 제목을 입력해주세요.",
            TodoError::TooLong => "제목은 128자 이하여야 합니다.",
        }
    }
}

} // verus!
