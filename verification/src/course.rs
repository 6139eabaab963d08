//! Courses: registered by a trainer, carrying the ordered list of skills a
//! certificate earned from the course attests to.

use vstd::prelude::*;

verus! {

/// A course. The id and the course-key are distinct identifiers: courses are
/// stored under their id, while creation checks uniqueness of both.
#[derive(Debug)]
pub struct Course {
    pub id: u128,
    pub name: String,
    pub description: String,
    pub course_key: String,
    pub skills: Vec<u128>,
}

impl Course {
    pub fn new(
        id_: u128,
        name_: String,
        description_: String,
        course_key_: String,
        skills_: Vec<u128>,
    ) -> (r: Self)
        ensures
            r.id == id_,
            r.name == name_,
            r.description == description_,
            r.course_key == course_key_,
            r.skills == skills_,
    {
        Self { id: id_, name: name_, description: description_, course_key: course_key_, skills: skills_ }
    }
}

} // verus!
