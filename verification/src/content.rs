use vstd::prelude::*;

verus! {

/// A lesson of a course.
#[derive(Clone, Debug, PartialEq, Eq)]
pub struct Lesson {
    pub lesson_id: u64,
    pub course_id: u64,
    pub title: String,
    pub description: String,
    pub content_uri: String,
    pub estimated_duration: u32,
    pub lesson_order: u32,
}

/// A module of a course: an ordered group of lessons.
#[derive(Clone, Debug, PartialEq, Eq)]
pub struct Module {
    pub module_id: u64,
    pub course_id: u64,
    pub title: String,
    pub lesson_ids: Vec<u64>,
    pub display_order: u32,
}

} // verus!
