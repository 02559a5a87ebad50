//! Rows of the employee and practice-session tables, the rows built from
//! request payloads before insertion, and the replies of the handlers that
//! read, update and create them.
use vstd::prelude::*;

use crate::text::{bool_text, push_bool, push_signed_decimal, signed_decimal};

verus! {

/// The payload of a request that creates an employee.
#[derive(Debug)]
pub struct CreateEmployee {
    pub name: String,
    pub age: i32,
    pub department: String,
    pub working: bool,
}

/// A row of the employee table.
#[derive(Debug)]
pub struct AxumEmployee {
    pub id: i32,
    pub name: String,
    pub age: i32,
    pub department: String,
    pub working: bool,
}

/// An employee row to insert; the table assigns the id.
#[derive(Debug)]
pub struct NewAxumEmployee<'a> {
    pub name: &'a str,
    pub age: i32,
    pub department: &'a str,
    pub working: bool,
}

/// The row to insert for a creation request: the payload's fields, unchanged.
pub fn new_employee(payload: &CreateEmployee) -> (r: NewAxumEmployee<'_>)
    ensures
        r.name@ == payload.name@,
        r.age == payload.age,
        r.department@ == payload.department@,
        r.working == payload.working,
{
    NewAxumEmployee {
        name: payload.name.as_str(),
        age: payload.age,
        department: payload.department.as_str(),
        working: payload.working,
    }
}

/// The reply after an employee's working flag was updated.
pub fn unwork_reply(emp: &AxumEmployee) -> (r: String)
    ensures
        r@ == "Update employee ID: "@ + signed_decimal(emp.id as int) + " to working: "@ + bool_text(emp.working),
{
    let mut s = String::from_str("Update employee ID: ");
    push_signed_decimal(&mut s, emp.id as i64);
    s.append(" to working: ");
    push_bool(&mut s, emp.working);
    s
}

/// The reply to a lookup of one employee: its id and name, `Not found`, or
/// `Errored out` when the query failed.
pub open spec fn employee_lookup_reply(found: Result<Option<AxumEmployee>, ()>) -> Seq<char> {
    match found {
        Ok(Some(e)) => "The employee of "@ + signed_decimal(e.id as int) + " is "@ + e.name@ + " "@,
        Ok(None) => "Not found"@,
        Err(_) => "Errored out"@,
    }
}

/// The reply to a lookup of one employee.
pub fn show_employee_reply(found: &Result<Option<AxumEmployee>, ()>) -> (r: String)
    ensures
        r@ == employee_lookup_reply(*found),
{
    match found {
        Ok(Some(e)) => {
            let mut s = String::from_str("The employee of ");
            push_signed_decimal(&mut s, e.id as i64);
            s.append(" is ");
            s.append(e.name.as_str());
            s.append(" ");
            s
        },
        Ok(None) => String::from_str("Not found"),
        Err(_) => String::from_str("Errored out"),
    }
}

/// The payload of a request that creates a practice session.
#[derive(Debug)]
pub struct CreatePrac {
    pub sessionname: String,
    pub practice: i32,
    pub package: String,
    pub completed: bool,
}

/// A row of the practice-session table.
#[derive(Debug)]
pub struct PracTrac {
    pub id: i32,
    pub sessionname: String,
    pub practice: i32,
    pub package: String,
    pub completed: bool,
}

/// A practice-session row to insert; the table assigns the id.
#[derive(Debug)]
pub struct NewPracTrac {
    pub sessionname: String,
    pub practice: i32,
    pub package: String,
    pub completed: bool,
}

/// The row to insert for a new practice session.
pub fn new_prac_session(sessionname: String, practice: i32, package: String, completed: bool) -> (r:
    NewPracTrac)
    ensures
        r.sessionname@ == sessionname@,
        r.practice == practice,
        r.package@ == package@,
        r.completed == completed,
{
    NewPracTrac { sessionname, practice, package, completed }
}

/// The row to insert for a creation request: the payload's fields, unchanged.
pub fn new_prac(payload: CreatePrac) -> (r: NewPracTrac)
    ensures
        r.sessionname@ == payload.sessionname@,
        r.practice == payload.practice,
        r.package@ == payload.package@,
        r.completed == payload.completed,
{
    new_prac_session(payload.sessionname, payload.practice, payload.package, payload.completed)
}

/// The message after a session was marked not completed.
pub fn uncomplete_reply(sess: &PracTrac) -> (r: String)
    ensures
        r@ == "Updated session Id: "@ + signed_decimal(sess.id as int) + " to "@ + bool_text(sess.completed),
{
    let mut s = String::from_str("Updated session Id: ");
    push_signed_decimal(&mut s, sess.id as i64);
    s.append(" to ");
    push_bool(&mut s, sess.completed);
    s
}

/// The message when a session lookup finds nothing: the id and `not found`,
/// or `Querying Error` when the query failed.
pub fn missing_prac_reply(pid: i32, query_failed: bool) -> (r: String)
    ensures
        r@ == (if query_failed { "Querying Error"@ } else { signed_decimal(pid as int) + " not found"@ }),
{
    if query_failed {
        String::from_str("Querying Error")
    } else {
        let mut s = String::new();
        push_signed_decimal(&mut s, pid as i64);
        s.append(" not found");
        s
    }
}

/// The page that shows an id from the path.
pub fn path_finder(id: i32) -> (r: String)
    ensures
        r@ == "<h1>The Id is "@ + signed_decimal(id as int) + "</h2>"@,
{
    let mut s = String::from_str("<h1>The Id is ");
    push_signed_decimal(&mut s, id as i64);
    s.append("</h2>");
    s
}

} // verus!
