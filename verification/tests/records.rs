use explorer_kit::records::{
    missing_prac_reply, new_employee, new_prac, new_prac_session, path_finder, show_employee_reply,
    uncomplete_reply, unwork_reply, AxumEmployee, CreateEmployee, CreatePrac, PracTrac,
};

fn employee(id: i32, working: bool) -> AxumEmployee {
    AxumEmployee { id, name: "Ravi".to_string(), age: 30, department: "Ops".to_string(), working }
}

#[test]
fn employee_row_from_payload() {
    let p = CreateEmployee { name: "Ravi".to_string(), age: 30, department: "Ops".to_string(), working: true };
    let row = new_employee(&p);
    assert_eq!(row.name, "Ravi");
    assert_eq!(row.age, 30);
    assert_eq!(row.department, "Ops");
    assert!(row.working);
}

#[test]
fn employee_replies() {
    assert_eq!(unwork_reply(&employee(7, true)), "Update employee ID: 7 to working: true");
    assert_eq!(show_employee_reply(&Ok(Some(employee(-3, false)))), "The employee of -3 is Ravi ");
    assert_eq!(show_employee_reply(&Ok(None)), "Not found");
    assert_eq!(show_employee_reply(&Err(())), "Errored out");
}

#[test]
fn practice_rows_and_replies() {
    let row = new_prac(CreatePrac {
        sessionname: "s".to_string(),
        practice: 4,
        package: "axum".to_string(),
        completed: true,
    });
    assert_eq!((row.sessionname.as_str(), row.practice, row.package.as_str(), row.completed), ("s", 4, "axum", true));
    let row = new_prac_session("t".to_string(), 5, "diesel".to_string(), false);
    assert_eq!((row.sessionname.as_str(), row.practice, row.package.as_str(), row.completed), ("t", 5, "diesel", false));
    let sess = PracTrac { id: 12, sessionname: "s".to_string(), practice: 1, package: "p".to_string(), completed: false };
    assert_eq!(uncomplete_reply(&sess), "Updated session Id: 12 to false");
    assert_eq!(missing_prac_reply(9, false), "9 not found");
    assert_eq!(missing_prac_reply(9, true), "Querying Error");
    assert_eq!(path_finder(10), "<h1>The Id is 10</h2>");
}
