use vstd::prelude::*;

use crate::account::AccountId;

verus! {

/// Why a course operation was refused.
#[derive(Debug, Clone, Copy, PartialEq, Eq, PartialOrd, Ord, Structural)]
pub enum CourseError {
    CourseNotFound,
    Unauthorized,
    InvalidInput,
}

/// The metadata of a course.
#[derive(Debug, PartialEq)]
pub struct Course {
    pub id: u64,
    pub instructor: AccountId,
    pub title: String,
    pub description: String,
    pub category: String,
    pub difficulty: u32,
    pub thumbnail: String,
    pub published: bool,
    pub created_at: u64,
    pub updated_at: u64,
}

impl Clone for Course {
    fn clone(&self) -> (copy: Self)
        ensures
            copy == *self,
    {
        Course {
            id: self.id,
            instructor: self.instructor.clone(),
            title: self.title.clone(),
            description: self.description.clone(),
            category: self.category.clone(),
            difficulty: self.difficulty,
            thumbnail: self.thumbnail.clone(),
            published: self.published,
            created_at: self.created_at,
            updated_at: self.updated_at,
        }
    }
}

/// Storage keys of the course module.
#[derive(Debug, Clone, Copy, PartialEq, Eq, Structural)]
pub enum DataKey {
    Course(u64),
    NextCourseId,
}

/// Whether a text field holds something.
pub open spec fn filled(text: Seq<char>) -> bool {
    text.len() > 0
}

/// Whether the text fields of a new course are all filled.
pub open spec fn course_fields_valid(
    title: Seq<char>,
    description: Seq<char>,
    category: Seq<char>,
    thumbnail: Seq<char>,
) -> bool {
    filled(title) && filled(description) && filled(category) && filled(thumbnail)
}

/// The id that the next course receives, given the stored counter: the
/// counter, or 1 when nothing was stored yet.
pub open spec fn id_to_assign(stored_counter: Option<u64>) -> u64 {
    match stored_counter {
        Some(id) => id,
        None => 1,
    }
}

/// The course that a valid creation stores under `id`: published, and
/// created and updated at `now`.
pub open spec fn created_course(
    id: u64,
    instructor: AccountId,
    title: String,
    description: String,
    category: String,
    difficulty: u32,
    thumbnail: String,
    now: u64,
) -> Course {
    Course {
        id,
        instructor,
        title,
        description,
        category,
        difficulty,
        thumbnail,
        published: true,
        created_at: now,
        updated_at: now,
    }
}

/// Helper function to validate non-empty strings
pub fn validate_string(s: &String) -> (filled_in: bool)
    ensures
        filled_in == filled(s@),
{
    !s.as_str().is_empty()
}

/// Builds the course that a creation stores, given the stored id counter,
/// and returns it with the counter value that follows it. Refuses with
/// `InvalidInput` when a text field is empty.
pub fn draft_course(
    stored_counter: Option<u64>,
    instructor: AccountId,
    title: String,
    description: String,
    category: String,
    difficulty: u32,
    thumbnail: String,
    now: u64,
) -> (result: Result<(Course, u64), CourseError>)
    requires
        course_fields_valid(title@, description@, category@, thumbnail@) ==> id_to_assign(
            stored_counter,
        ) < u64::MAX,
    ensures
        !course_fields_valid(title@, description@, category@, thumbnail@) ==> result == Err::<
            (Course, u64),
            CourseError,
        >(CourseError::InvalidInput),
        course_fields_valid(title@, description@, category@, thumbnail@) ==> result == Ok::<
            (Course, u64),
            CourseError,
        >(
            (
                created_course(
                    id_to_assign(stored_counter),
                    instructor,
                    title,
                    description,
                    category,
                    difficulty,
                    thumbnail,
                    now,
                ),
                (id_to_assign(stored_counter) + 1) as u64,
            ),
        ),
{
    if !validate_string(&title) || !validate_string(&description) || !validate_string(&category)
        || !validate_string(&thumbnail) {
        return Err(CourseError::InvalidInput);
    }
    let course_id: u64 = match stored_counter {
        Some(id) => id,
        None => 1,
    };
    let course = Course {
        id: course_id,
        instructor,
        title,
        description,
        category,
        difficulty,
        thumbnail,
        published: true,
        created_at: now,
        updated_at: now,
    };
    Ok((course, course_id + 1))
}

/// The most recently stored course under `id` in a record of writes.
pub open spec fn stored_under(writes: Seq<Course>, id: u64) -> Option<Course>
    decreases writes.len(),
{
    if writes.len() == 0 {
        None
    } else if writes.last().id == id {
        Some(writes.last())
    } else {
        stored_under(writes.drop_last(), id)
    }
}

/// The stored course metadata and the id counter. A course written under an
/// id replaces whatever was stored under it before.
pub struct CourseStore {
    next_course_id: Option<u64>,
    writes: Vec<Course>,
}

impl CourseStore {
    /// The stored id counter, if one was stored.
    pub closed spec fn counter(&self) -> Option<u64> {
        self.next_course_id
    }

    /// The course stored under `id`, if any.
    pub closed spec fn course(&self, id: u64) -> Option<Course> {
        stored_under(self.writes@, id)
    }

    /// Every stored course sits under its own id, and that id is below the
    /// id that the next course receives.
    #[verifier::type_invariant]
    spec fn well_formed(&self) -> bool {
        forall|id: u64|
            #[trigger] self.course(id) matches Some(course) ==> course.id == id && id
                < id_to_assign(self.counter())
    }

    /// A store that holds no course and no counter.
    pub fn new() -> (store: Self)
        ensures
            store.counter() == None::<u64>,
            forall|id: u64| #[trigger] store.course(id) == None::<Course>,
    {
        CourseStore { next_course_id: None, writes: Vec::new() }
    }

    /// The course stored under `id`, if any.
    ///
    /// A stored course sits under its own id, below the id that the next
    /// course receives.
    pub fn get_course(&self, id: u64) -> (found: Option<Course>)
        ensures
            found == self.course(id),
            found matches Some(course) ==> course.id == id && id < id_to_assign(self.counter()),
    {
        proof {
            use_type_invariant(self);
            assert(self.course(id) matches Some(c) ==> c.id == id && id < id_to_assign(
                self.counter(),
            ));
        }
        let mut i = self.writes.len();
        assert(self.writes@.take(i as int) =~= self.writes@);
        while i > 0
            invariant
                i <= self.writes@.len(),
                stored_under(self.writes@, id) == stored_under(self.writes@.take(i as int), id),
                self.course(id) matches Some(c) ==> c.id == id && id < id_to_assign(
                    self.counter(),
                ),
            decreases i,
        {
            assert(self.writes@.take(i as int).drop_last() =~= self.writes@.take(i - 1));
            if self.writes[i - 1].id == id {
                return Some(self.writes[i - 1].clone());
            }
            i = i - 1;
        }
        None
    }

    /// The id that the next created course receives.
    pub fn next_course_id(&self) -> (id: u64)
        ensures
            id == id_to_assign(self.counter()),
    {
        match self.next_course_id {
            Some(id) => id,
            None => 1,
        }
    }
}

/// Creates a course with the next id, stores it and advances the id counter.
///
/// Refuses with `InvalidInput`, changing nothing, when a text field is
/// empty. The course is published, created and updated at `now`; no other
/// stored course is touched.
pub fn create_course(
    store: &mut CourseStore,
    instructor: AccountId,
    title: String,
    description: String,
    category: String,
    difficulty: u32,
    thumbnail: String,
    now: u64,
) -> (result: Result<u64, CourseError>)
    requires
        course_fields_valid(title@, description@, category@, thumbnail@) ==> id_to_assign(
            old(store).counter(),
        ) < u64::MAX,
    ensures
        !course_fields_valid(title@, description@, category@, thumbnail@) ==> {
            &&& result == Err::<u64, CourseError>(CourseError::InvalidInput)
            &&& final(store).counter() == old(store).counter()
            &&& forall|id: u64| #[trigger] final(store).course(id) == old(store).course(id)
        },
        course_fields_valid(title@, description@, category@, thumbnail@) ==> {
            let id = id_to_assign(old(store).counter());
            &&& result == Ok::<u64, CourseError>(id)
            &&& old(store).course(id) is None
            &&& final(store).course(id) == Some(
                created_course(
                    id,
                    instructor,
                    title,
                    description,
                    category,
                    difficulty,
                    thumbnail,
                    now,
                ),
            )
            &&& final(store).counter() == Some((id + 1) as u64)
            &&& forall|other: u64|
                other != id ==> #[trigger] final(store).course(other) == old(store).course(other)
        },
{
    proof {
        use_type_invariant(&*store);
    }
    let drafted = draft_course(
        store.next_course_id,
        instructor,
        title,
        description,
        category,
        difficulty,
        thumbnail,
        now,
    );
    match drafted {
        Err(e) => Err(e),
        Ok((course, next)) => {
            let id = course.id;
            let ghost old_writes = store.writes@;
            proof {
                if old(store).course(id) is Some {
                    assert(old(store).course(id) matches Some(c) ==> c.id == id && id < id);
                }
            }
            let mut writes: Vec<Course> = Vec::new();
            std::mem::swap(&mut writes, &mut store.writes);
            writes.push(course);
            proof {
                assert(writes@.drop_last() =~= old_writes);
                assert forall|other: u64| #[trigger]
                    stored_under(writes@, other) matches Some(c) ==> c.id == other && other
                        < id_to_assign(Some(next)) by {
                    if other != id {
                        assert(old(store).course(other) == stored_under(writes@, other));
                    }
                }
            }
            *store = CourseStore { next_course_id: Some(next), writes };
            Ok(id)
        },
    }
}

/// Course ids count up from 1: a store that never held a counter assigns 1,
/// and after a creation that assigned `id` the next creation assigns
/// `id + 1`.
pub proof fn lemma_course_ids_count_up(id: u64)
    requires
        id < u64::MAX,
    ensures
        id_to_assign(None) == 1,
        id_to_assign(Some((id + 1) as u64)) == id + 1,
{
}

/// A stored counter is the id that the next course receives.
pub proof fn lemma_stored_counter_is_next_id(counter: u64)
    ensures
        id_to_assign(Some(counter)) == counter,
{
}

/// A course is accepted exactly when its title, description, category and
/// thumbnail are all non-empty; an empty one of any of the four is refused.
pub proof fn lemma_every_text_field_is_required(
    title: Seq<char>,
    description: Seq<char>,
    category: Seq<char>,
    thumbnail: Seq<char>,
)
    ensures
        course_fields_valid(title, description, category, thumbnail) == (title.len() > 0
            && description.len() > 0 && category.len() > 0 && thumbnail.len() > 0),
        title.len() == 0 ==> !course_fields_valid(title, description, category, thumbnail),
        description.len() == 0 ==> !course_fields_valid(title, description, category, thumbnail),
        category.len() == 0 ==> !course_fields_valid(title, description, category, thumbnail),
        thumbnail.len() == 0 ==> !course_fields_valid(title, description, category, thumbnail),
{
}

/// A created course holds each argument in its own field: the id, the
/// instructor, title, description, category, difficulty and thumbnail as
/// given; it is published, and both its creation and update times are
/// `now`.
pub proof fn lemma_created_course_keeps_arguments(
    id: u64,
    instructor: AccountId,
    title: String,
    description: String,
    category: String,
    difficulty: u32,
    thumbnail: String,
    now: u64,
)
    ensures
        ({
            let course = created_course(
                id,
                instructor,
                title,
                description,
                category,
                difficulty,
                thumbnail,
                now,
            );
            &&& course.id == id
            &&& course.instructor == instructor
            &&& course.title == title
            &&& course.description == description
            &&& course.category == category
            &&& course.difficulty == difficulty
            &&& course.thumbnail == thumbnail
            &&& course.published
            &&& course.created_at == now
            &&& course.updated_at == now
        }),
{
}

/// A write of a course is read back under its id, and leaves every other id
/// as it was; nothing is stored under any id before the first write.
pub proof fn lemma_course_read_gives_back_write(writes: Seq<Course>, course: Course, id: u64)
    ensures
        stored_under(Seq::<Course>::empty(), id) == None::<Course>,
        stored_under(writes.push(course), course.id) == Some(course),
        id != course.id ==> stored_under(writes.push(course), id) == stored_under(writes, id),
{
    assert(writes.push(course).drop_last() =~= writes);
}

} // verus!
