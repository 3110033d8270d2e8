use lms::course::{create_course, draft_course, CourseError, CourseStore};
use lms::{AccountId, Lesson, Module};

fn text(s: &str) -> String {
    String::from(s)
}

fn create(store: &mut CourseStore, title: &str, now: u64) -> Result<u64, CourseError> {
    create_course(
        store,
        AccountId(text("GINSTRUCTOR")),
        text(title),
        text("A description"),
        text("Science"),
        2,
        text("https://thumb.png"),
        now,
    )
}

#[test]
fn course_ids_start_at_one_and_increase() {
    let mut store = CourseStore::new();
    assert_eq!(store.next_course_id(), 1);
    assert_eq!(create(&mut store, "First", 10), Ok(1));
    assert_eq!(create(&mut store, "Second", 20), Ok(2));
    assert_eq!(store.next_course_id(), 3);

    let first = store.get_course(1).expect("course 1 stored");
    assert_eq!(first.id, 1);
    assert_eq!(first.title, "First");
    assert_eq!(first.instructor, AccountId(text("GINSTRUCTOR")));
    assert_eq!(first.category, "Science");
    assert_eq!(first.difficulty, 2);
    assert!(first.published);
    assert_eq!(first.created_at, 10);
    assert_eq!(first.updated_at, 10);
    assert_eq!(store.get_course(2).unwrap().title, "Second");
    assert_eq!(store.get_course(3), None);
}

#[test]
fn empty_fields_are_refused_without_a_trace() {
    let mut store = CourseStore::new();
    assert_eq!(create(&mut store, "", 10), Err(CourseError::InvalidInput));
    let refused = create_course(
        &mut store,
        AccountId(text("GINSTRUCTOR")),
        text("Title"),
        text("Description"),
        text("Category"),
        1,
        text(""),
        10,
    );
    assert_eq!(refused, Err(CourseError::InvalidInput));
    assert_eq!(store.next_course_id(), 1);
    assert_eq!(store.get_course(1), None);
    assert_eq!(create(&mut store, "Now valid", 11), Ok(1));
}

#[test]
fn drafting_follows_the_stored_counter() {
    let (course, next) = draft_course(
        Some(41),
        AccountId(text("GI")),
        text("T"),
        text("D"),
        text("C"),
        3,
        text("P"),
        99,
    )
    .unwrap();
    assert_eq!(course.id, 41);
    assert_eq!(next, 42);
    assert_eq!(course.created_at, 99);
    let (first, next) = draft_course(
        None,
        AccountId(text("GI")),
        text("T"),
        text("D"),
        text("C"),
        3,
        text("P"),
        1,
    )
    .unwrap();
    assert_eq!(first.id, 1);
    assert_eq!(next, 2);
    assert_eq!(
        draft_course(None, AccountId(text("GI")), text("T"), text(""), text("C"), 3, text("P"), 1),
        Err(CourseError::InvalidInput)
    );
}

#[test]
fn test_create_module() {
    let lessons: Vec<u64> = vec![1, 2, 3];

    let module = Module {
        module_id: 1,
        course_id: 100,
        title: text("Introduction"),
        lesson_ids: lessons.clone(),
        display_order: 1,
    };

    assert_eq!(module.module_id, 1);
    assert_eq!(module.course_id, 100);
    assert_eq!(module.lesson_ids.len(), 3);
    assert_eq!(module.display_order, 1);

    assert_eq!(module.lesson_ids.get(0), Some(&1));
    assert_eq!(module.lesson_ids.get(1), Some(&2));
    assert_eq!(module.lesson_ids.get(2), Some(&3));
}

#[test]
fn test_create_lesson() {
    let lesson = Lesson {
        lesson_id: 1,
        course_id: 100,
        title: text("Introduction"),
        description: text("Welcome to the course"),
        content_uri: text("ipfs://QmLessonHash"),
        estimated_duration: 30,
        lesson_order: 1,
    };

    assert_eq!(lesson.lesson_id, 1);
    assert_eq!(lesson.course_id, 100);
    assert_eq!(lesson.title, text("Introduction"));
    assert_eq!(lesson.estimated_duration, 30);
    assert_eq!(lesson.lesson_order, 1);
}
