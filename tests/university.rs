use aspirin::university::{get_best_class, get_num_excel_students_for_class, olin_students, ClassYear};

#[test]
fn test_get_num_excel_students_for_class() {
    assert_eq!(get_num_excel_students_for_class(ClassYear::Sophomore), 0);
    assert_eq!(get_num_excel_students_for_class(ClassYear::Junior), 2);
    assert_eq!(get_num_excel_students_for_class(ClassYear::Senior), 2);
}

#[test]
fn test_get_best_class() {
    assert_eq!(get_best_class(), ClassYear::Senior);
}

#[test]
fn first_years_are_counted_too() {
    assert_eq!(get_num_excel_students_for_class(ClassYear::FirstYear), 2);
}

#[test]
fn roster_has_eight_students() {
    let students = olin_students();
    assert_eq!(students.len(), 8);
    assert_eq!(students[0].name, "Alice");
    assert_eq!(students[7].gpa, 360);
}
