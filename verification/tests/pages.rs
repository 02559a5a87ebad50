use explorer_kit::pages::{
    create_user, employee_id_for, fallback, new_employee_id, pic_demo, random_number_page,
    random_number_page_for, use_de, CreateUser, CustParams, STATUS_CREATED, STATUS_NOT_FOUND,
};

#[test]
fn pixel_image_decodes() {
    let (content_type, bytes) = pic_demo().unwrap();
    assert_eq!(content_type, "image/png");
    assert_eq!(bytes.len(), 70);
    assert_eq!(&bytes[..8], &[137, 80, 78, 71, 13, 10, 26, 10]);
    assert_eq!(&bytes[66..], &[174, 66, 96, 130]);
}

#[test]
fn random_number_in_range() {
    for _ in 0..50 {
        let page = random_number_page(50, 53);
        assert!(
            page == "<h1>Random Number: 50</h1>" || page == "<h1>Random Number: 51</h1>" || page == "<h1>Random Number: 52</h1>",
            "{}",
            page
        );
    }
    assert_eq!(random_number_page(7, 8), "<h1>Random Number: 7</h1>");
    assert_eq!(random_number_page_for(0), "<h1>Random Number: 0</h1>");
}

#[test]
fn user_creation() {
    let (status, user) = create_user(CreateUser { username: "new123".to_string() });
    assert_eq!(status, STATUS_CREATED);
    assert_eq!(status, 201);
    assert_eq!(user.id, 1225);
    assert_eq!(user.username, "new123");
}

#[test]
fn not_found_reply() {
    assert_eq!(fallback("/x"), (STATUS_NOT_FOUND, "No Route to heaven from: /x".to_string()));
}

#[test]
fn employee_record_ids() {
    assert_eq!(employee_id_for("abc"), "employee:abc");
    let id = new_employee_id();
    assert!(id.starts_with("employee:"));
    let u: Vec<char> = id["employee:".len()..].chars().collect();
    assert_eq!(u.len(), 36);
    for (i, c) in u.iter().enumerate() {
        if i == 8 || i == 13 || i == 18 || i == 23 {
            assert_eq!(*c, '-');
        } else {
            assert!(c.is_ascii_hexdigit() && !c.is_ascii_uppercase());
        }
    }
    assert_eq!(u[14], '4');
    assert!(matches!(u[19], '8' | '9' | 'a' | 'b'));
    assert_ne!(new_employee_id(), new_employee_id());
}

#[test]
fn custom_parameters_page() {
    let p = CustParams { name: "niagra".to_string(), age: 25 };
    assert_eq!(p.to_display_string(), "name is niagra and age is 25");
    assert_eq!(use_de(&p), "Recieved custom Param: name is niagra and age is 25");
    assert_eq!(use_de(&CustParams { name: String::new(), age: -1 }), "Recieved custom Param: name is  and age is -1");
}
