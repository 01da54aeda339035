//! Queries over a fixed roster of students. Grade point averages are held in
//! hundredths of a point (3.9 is 390), so every comparison is exact.
use vstd::prelude::*;

verus! {

/// A student's class.
#[derive(PartialEq, Eq, Structural, Clone, Copy, Debug)]
pub enum ClassYear {
    Senior,
    Junior,
    Sophomore,
    FirstYear,
}

/// One student of the roster.
pub struct Student {
    pub name: &'static str,
    pub class_year: ClassYear,
    /// Grade point average in hundredths of a point.
    pub gpa: u32,
}

/// The class years and grade point averages of the roster, in order.
pub open spec fn roster() -> Seq<(ClassYear, nat)> {
    seq![
        (ClassYear::Senior, 390),
        (ClassYear::Sophomore, 230),
        (ClassYear::Junior, 390),
        (ClassYear::Senior, 310),
        (ClassYear::Senior, 0),
        (ClassYear::FirstYear, 400),
        (ClassYear::FirstYear, 400),
        (ClassYear::Junior, 360),
    ]
}

/// The students of the roster.
pub fn olin_students() -> (v: Vec<Student>)
    ensures
        v@.len() == roster().len(),
        v@.map_values(|s: Student| (s.class_year, s.gpa as nat)) == roster(),
{
    let v = vec![
        Student { name: "Alice", class_year: ClassYear::Senior, gpa: 390 },
        Student { name: "Foo", class_year: ClassYear::Sophomore, gpa: 230 },
        Student { name: "Bar", class_year: ClassYear::Junior, gpa: 390 },
        Student { name: "Ralph", class_year: ClassYear::Senior, gpa: 310 },
        Student { name: "Ayush", class_year: ClassYear::Senior, gpa: 0 },
        Student { name: "Anna", class_year: ClassYear::FirstYear, gpa: 400 },
        Student { name: "Hannah", class_year: ClassYear::FirstYear, gpa: 400 },
        Student { name: "Lorin", class_year: ClassYear::Junior, gpa: 360 },
    ];
    assert(v@.map_values(|s: Student| (s.class_year, s.gpa as nat)) =~= roster());
    v
}

/// Sum and number of the averages of the students who are not first years,
/// over the first `n` students of `r`.
pub open spec fn upper_class_totals(r: Seq<(ClassYear, nat)>, n: int) -> (nat, nat)
    decreases n,
{
    if n <= 0 {
        (0, 0)
    } else {
        let (total, count) = upper_class_totals(r, n - 1);
        if r[n - 1].0 != ClassYear::FirstYear {
            (total + r[n - 1].1, count + 1)
        } else {
            (total, count)
        }
    }
}

/// A grade point average above the mean `total / count`.
pub open spec fn above_mean(gpa: nat, total: nat, count: nat) -> bool {
    gpa * count > total
}

/// How many of the first `n` students of `r` are in `year` and above the mean
/// `total / count`.
pub open spec fn excel_count(
    r: Seq<(ClassYear, nat)>,
    n: int,
    year: ClassYear,
    total: nat,
    count: nat,
) -> nat
    decreases n,
{
    if n <= 0 {
        0
    } else {
        excel_count(r, n - 1, year, total, count) + if r[n - 1].0 == year && above_mean(
            r[n - 1].1,
            total,
            count,
        ) {
            1nat
        } else {
            0nat
        }
    }
}

/// How many students of `year` have an average above the mean average of the
/// students who are not first years.
pub open spec fn excel_students(year: ClassYear) -> nat {
    let (total, count) = upper_class_totals(roster(), roster().len() as int);
    excel_count(roster(), roster().len() as int, year, total, count)
}

/// The sum and the number of averages of the students who are not first years.
fn upper_class_gpa_totals(students: &Vec<Student>) -> (r: (u64, u64))
    requires
        students@.len() <= 1000,
    ensures
        r.0 <= students@.len() * 0x1_0000_0000,
        r.1 <= students@.len(),
        (r.0 as nat, r.1 as nat) == upper_class_totals(
            students@.map_values(|s: Student| (s.class_year, s.gpa as nat)),
            students@.len() as int,
        ),
{
    let ghost r = students@.map_values(|s: Student| (s.class_year, s.gpa as nat));
    let mut total: u64 = 0;
    let mut count: u64 = 0;
    let mut i: usize = 0;
    while i < students.len()
        invariant
            students@.len() <= 1000,
            r == students@.map_values(|s: Student| (s.class_year, s.gpa as nat)),
            i <= students@.len(),
            (total as nat, count as nat) == upper_class_totals(r, i as int),
            total <= i * 0x1_0000_0000,
            count <= i,
        decreases students@.len() - i,
    {
        if students[i].class_year != ClassYear::FirstYear {
            total = total + students[i].gpa as u64;
            count = count + 1;
        }
        i += 1;
    }
    (total, count)
}

/// How many students of `class_year` have an average above the mean average of
/// the students who are not first years.
pub fn get_num_excel_students_for_class(class_year: ClassYear) -> (n: u32)
    ensures
        n == excel_students(class_year),
{
    let students = olin_students();
    let ghost r = students@.map_values(|s: Student| (s.class_year, s.gpa as nat));
    assert(roster().len() == 8);
    let (total, count) = upper_class_gpa_totals(&students);
    let mut n: u32 = 0;
    let mut i: usize = 0;
    while i < students.len()
        invariant
            r == roster(),
            r == students@.map_values(|s: Student| (s.class_year, s.gpa as nat)),
            students@.len() == 8,
            (total as nat, count as nat) == upper_class_totals(r, 8),
            i <= 8,
            n == excel_count(r, i as int, class_year, total as nat, count as nat),
            n <= i,
            total <= 8 * 0x1_0000_0000,
            count <= 8,
        decreases 8 - i,
    {
        let gpa = students[i].gpa as u64;
        assert(gpa * count <= 0x1_0000_0000 * 8) by (nonlinear_arith)
            requires
                gpa < 0x1_0000_0000,
                count <= 8,
        ;
        if students[i].class_year == class_year && gpa * count > total {
            n = n + 1;
        }
        i += 1;
    }
    n
}

/// The class, among seniors, juniors and sophomores in that order, with the
/// most students above the mean; an earlier class wins a tie, and seniors
/// win when no class has any.
pub open spec fn best_class() -> ClassYear {
    let seniors = excel_students(ClassYear::Senior);
    let juniors = excel_students(ClassYear::Junior);
    let sophomores = excel_students(ClassYear::Sophomore);
    let (best, most) = if juniors > seniors {
        (ClassYear::Junior, juniors)
    } else {
        (ClassYear::Senior, seniors)
    };
    if sophomores > most {
        ClassYear::Sophomore
    } else {
        best
    }
}

/// The class with the most students above the mean average.
pub fn get_best_class() -> (c: ClassYear)
    ensures
        c == best_class(),
{
    let mut best_class = ClassYear::Senior;
    let mut best_class_num_excel_students: u32 = 0;
    let seniors = get_num_excel_students_for_class(ClassYear::Senior);
    if seniors > best_class_num_excel_students {
        best_class = ClassYear::Senior;
        best_class_num_excel_students = seniors;
    }
    let juniors = get_num_excel_students_for_class(ClassYear::Junior);
    if juniors > best_class_num_excel_students {
        best_class = ClassYear::Junior;
        best_class_num_excel_students = juniors;
    }
    let sophomores = get_num_excel_students_for_class(ClassYear::Sophomore);
    if sophomores > best_class_num_excel_students {
        best_class = ClassYear::Sophomore;
    }
    best_class
}

} // verus!
