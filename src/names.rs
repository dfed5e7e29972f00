//! The naming conventions of the dataset, as predicates on characters.
use crate::error::CustomError;
use vstd::prelude::*;

verus! {

pub open spec fn is_digit(c: char) -> bool {
    '0' <= c && c <= '9'
}

pub open spec fn all_digits(s: Seq<char>, lo: int, hi: int) -> bool {
    forall|i: int| lo <= i < hi ==> #[trigger] is_digit(s[i])
}

/// `YYYY-YYYY-T`: a term label such as `2022-2023-1`.
pub open spec fn is_term_label(s: Seq<char>) -> bool {
    &&& s.len() == 11
    &&& all_digits(s, 0, 4)
    &&& s[4] == '-'
    &&& all_digits(s, 5, 9)
    &&& s[9] == '-'
    &&& is_digit(s[10])
}

/// The five characters that close a term label inside a term name.
pub open spec fn score_suffix() -> Seq<char> {
    seq!['智', '育', '学', '分', '绩']
}

/// A term directory: a term label, `学期`, then the score suffix.
pub open spec fn is_term_dir_name(s: Seq<char>) -> bool {
    &&& s.len() == 18
    &&& is_term_label(s.subrange(0, 11))
    &&& s[11] == '学'
    &&& s[12] == '期'
    &&& s.subrange(13, 18) == score_suffix()
}

/// A college directory: a two-digit college number, then a non-empty name.
pub open spec fn is_college_dir_name(s: Seq<char>) -> bool {
    &&& s.len() > 2
    &&& is_digit(s[0])
    &&& is_digit(s[1])
}

/// A data file: a lowercase letter, two digits, a major name without digits,
/// a four-digit class number, then `hz`, any character but a line feed, and `csv`.
pub open spec fn is_data_file_name(s: Seq<char>) -> bool {
    let n = s.len();
    &&& n >= 13
    &&& 'a' <= s[0] && s[0] <= 'z'
    &&& is_digit(s[1])
    &&& is_digit(s[2])
    &&& forall|i: int| 3 <= i < n - 10 ==> !#[trigger] is_digit(s[i])
    &&& all_digits(s, n - 10, n - 6)
    &&& s[n - 6] == 'h'
    &&& s[n - 5] == 'z'
    &&& s[n - 4] != '\n'
    &&& s[n - 3] == 'c'
    &&& s[n - 2] == 's'
    &&& s[n - 1] == 'v'
}

/// The major name inside a data file name.
pub open spec fn data_file_major(s: Seq<char>) -> Seq<char> {
    s.subrange(3, s.len() - 10)
}

/// The class name inside a data file name: the major name and the class number.
pub open spec fn data_file_class(s: Seq<char>) -> Seq<char> {
    s.subrange(3, s.len() - 6)
}

/// The marker cell of a table that carries a GPA column,
/// such as `00101|3.5|2022-2023-1智育学分绩||`.
pub open spec fn is_gpa_marker(s: Seq<char>) -> bool {
    &&& s.len() == 28
    &&& all_digits(s, 0, 5)
    &&& s[5] == '|'
    &&& is_digit(s[6])
    &&& s[7] == '.'
    &&& is_digit(s[8])
    &&& s[9] == '|'
    &&& is_term_label(s.subrange(10, 21))
    &&& s.subrange(21, 26) == score_suffix()
    &&& s[26] == '|'
    &&& s[27] == '|'
}

pub fn is_digit_char(c: char) -> (r: bool)
    ensures
        r == is_digit(c),
{
    '0' <= c && c <= '9'
}

/// The characters of `s`, one by one.
pub fn chars_of(s: &str) -> (r: Vec<char>)
    ensures
        r@ == s@,
{
    let n = s.unicode_len();
    let mut r: Vec<char> = Vec::new();
    let mut i: usize = 0;
    while i < n
        invariant
            n == s@.len(),
            i <= n,
            r@ == s@.subrange(0, i as int),
        decreases n - i,
    {
        r.push(s.get_char(i));
        i = i + 1;
    }
    r
}

fn digits_in(cs: &Vec<char>, lo: usize, hi: usize) -> (r: bool)
    requires
        lo <= hi <= cs@.len(),
    ensures
        r == all_digits(cs@, lo as int, hi as int),
{
    let mut i = lo;
    while i < hi
        invariant
            lo <= i <= hi <= cs@.len(),
            all_digits(cs@, lo as int, i as int),
        decreases hi - i,
    {
        if !is_digit_char(cs[i]) {
            return false;
        }
        i = i + 1;
    }
    true
}

fn score_suffix_at(cs: &Vec<char>, at: usize) -> (r: bool)
    requires
        at + 5 <= cs.len(),
    ensures
        r == (cs@.subrange(at as int, at + 5) == score_suffix()),
{
    let r = cs[at] == '智' && cs[at + 1] == '育' && cs[at + 2] == '学' && cs[at + 3] == '分'
        && cs[at + 4] == '绩';
    proof {
        if !r {
            let t = cs@.subrange(at as int, at + 5);
            if t == score_suffix() {
                assert(t[0] == '智' && t[1] == '育' && t[2] == '学' && t[3] == '分' && t[4] == '绩');
            }
        } else {
            assert(cs@.subrange(at as int, at + 5) =~= score_suffix());
        }
    }
    r
}

fn term_label_at(cs: &Vec<char>, at: usize) -> (r: bool)
    requires
        at + 11 <= cs.len(),
    ensures
        r == is_term_label(cs@.subrange(at as int, at + 11)),
{
    let ghost t = cs@.subrange(at as int, at + 11);
    let r = digits_in(cs, at, at + 4) && cs[at + 4] == '-' && digits_in(cs, at + 5, at + 9)
        && cs[at + 9] == '-' && is_digit_char(cs[at + 10]);
    proof {
        assert(all_digits(t, 0, 4) == all_digits(cs@, at as int, at + 4)) by {
            if all_digits(cs@, at as int, at + 4) {
                assert forall|i: int| 0 <= i < 4 implies #[trigger] is_digit(t[i]) by {
                    assert(t[i] == cs@[at + i]);
                }
            }
            if all_digits(t, 0, 4) {
                assert forall|i: int| at <= i < at + 4 implies #[trigger] is_digit(cs@[i]) by {
                    assert(t[i - at] == cs@[i]);
                }
            }
        }
        assert(all_digits(t, 5, 9) == all_digits(cs@, at + 5, at + 9)) by {
            if all_digits(cs@, at + 5, at + 9) {
                assert forall|i: int| 5 <= i < 9 implies #[trigger] is_digit(t[i]) by {
                    assert(t[i] == cs@[at + i]);
                }
            }
            if all_digits(t, 5, 9) {
                assert forall|i: int| at + 5 <= i < at + 9 implies #[trigger] is_digit(cs@[i]) by {
                    assert(t[i - at] == cs@[i]);
                }
            }
        }
    }
    r
}

/// Whether `name` is the name of a term directory.
pub fn is_term_dir_name_text(name: &str) -> (r: bool)
    ensures
        r == is_term_dir_name(name@),
{
    let cs = chars_of(name);
    if cs.len() != 18 {
        return false;
    }
    let r = term_label_at(&cs, 0) && cs[11] == '学' && cs[12] == '期' && score_suffix_at(&cs, 13);
    proof {
        assert(cs@.subrange(0, 11) == name@.subrange(0, 11));
    }
    r
}

/// Whether `name` is the name of a college directory.
pub fn is_college_dir_name_text(name: &str) -> (r: bool)
    ensures
        r == is_college_dir_name(name@),
{
    let cs = chars_of(name);
    cs.len() > 2 && is_digit_char(cs[0]) && is_digit_char(cs[1])
}

/// Whether `cell` is the marker cell of a table with a GPA column.
pub fn is_gpa_marker_text(cell: &str) -> (r: bool)
    ensures
        r == is_gpa_marker(cell@),
{
    let cs = chars_of(cell);
    if cs.len() != 28 {
        return false;
    }
    let r = digits_in(&cs, 0, 5) && cs[5] == '|' && is_digit_char(cs[6]) && cs[7] == '.'
        && is_digit_char(cs[8]) && cs[9] == '|' && term_label_at(&cs, 10) && score_suffix_at(
        &cs,
        21,
    ) && cs[26] == '|' && cs[27] == '|';
    r
}


fn no_digits_in(cs: &Vec<char>, lo: usize, hi: usize) -> (r: bool)
    requires
        lo <= hi <= cs@.len(),
    ensures
        r == (forall|i: int| lo <= i < hi ==> !#[trigger] is_digit(cs@[i])),
{
    let mut i = lo;
    while i < hi
        invariant
            lo <= i <= hi <= cs@.len(),
            forall|j: int| lo <= j < i ==> !#[trigger] is_digit(cs@[j]),
        decreases hi - i,
    {
        if is_digit_char(cs[i]) {
            return false;
        }
        i = i + 1;
    }
    true
}

/// Whether `name` is the name of a data file.
pub fn is_data_file_name_text(name: &str) -> (r: bool)
    ensures
        r == is_data_file_name(name@),
{
    let cs = chars_of(name);
    let n = cs.len();
    if n < 13 {
        return false;
    }
    'a' <= cs[0] && cs[0] <= 'z' && is_digit_char(cs[1]) && is_digit_char(cs[2]) && no_digits_in(
        &cs,
        3,
        n - 10,
    ) && digits_in(&cs, n - 10, n - 6) && cs[n - 6] == 'h' && cs[n - 5] == 'z' && cs[n - 4]
        != '\n' && cs[n - 3] == 'c' && cs[n - 2] == 's' && cs[n - 1] == 'v'
}

/// The major and class names of a data file, or `None` when `name` is no data file name.
pub fn parse_data_file_name(name: &str) -> (r: Option<(String, String)>)
    ensures
        r is Some <==> is_data_file_name(name@),
        r matches Some((major, class)) ==> major@ == data_file_major(name@) && class@
            == data_file_class(name@),
{
    if !is_data_file_name_text(name) {
        return None;
    }
    let n = name.unicode_len();
    let major = String::from_str(name.substring_char(3, n - 10));
    let class = String::from_str(name.substring_char(3, n - 6));
    Some((major, class))
}

/// The term label of a term directory name: its first eleven characters.
pub fn term_label_of(dir_name: &str) -> (r: Option<String>)
    ensures
        r is Some <==> is_term_dir_name(dir_name@),
        r matches Some(label) ==> label@ == dir_name@.subrange(0, 11),
{
    if !is_term_dir_name_text(dir_name) {
        return None;
    }
    Some(String::from_str(dir_name.substring_char(0, 11)))
}

/// The college number and college name of a college directory name.
pub fn college_of(dir_name: &str) -> (r: Option<(String, String)>)
    ensures
        r is Some <==> is_college_dir_name(dir_name@),
        r matches Some((number, name)) ==> number@ == dir_name@.subrange(0, 2) && name@
            == dir_name@.subrange(2, dir_name@.len() as int),
{
    if !is_college_dir_name_text(dir_name) {
        return None;
    }
    let n = dir_name.unicode_len();
    Some(
        (
            String::from_str(dir_name.substring_char(0, 2)),
            String::from_str(dir_name.substring_char(2, n)),
        ),
    )
}


/// Whether `s[b - 1]` is a `.` component: a `.` at the start or after a separator.
pub open spec fn ends_in_cur_dir(s: Seq<char>, b: int) -> bool {
    b > 0 && s[b - 1] == '.' && (b == 1 || s[b - 2] == '/')
}

/// Where the last component of `s[0..b]` ends: trailing separators and `.`
/// components are skipped, as they name no file of their own.
pub open spec fn name_end(s: Seq<char>, b: int) -> int
    decreases b,
{
    if b > 0 && (s[b - 1] == '/' || ends_in_cur_dir(s, b)) {
        name_end(s, b - 1)
    } else {
        b
    }
}

/// Where the component that ends at `a` begins.
pub open spec fn name_start(s: Seq<char>, a: int) -> int
    decreases a,
{
    if a > 0 && s[a - 1] != '/' {
        name_start(s, a - 1)
    } else {
        a
    }
}

/// The last component of a `/`-separated path.
pub open spec fn last_component(s: Seq<char>) -> Seq<char> {
    let b = name_end(s, s.len() as int);
    s.subrange(name_start(s, b), b)
}

/// A path names a file when its last component is neither empty (the root,
/// or nothing but `.` components) nor `..`.
pub open spec fn has_file_name(s: Seq<char>) -> bool {
    let f = last_component(s);
    f.len() > 0 && f != seq!['.', '.']
}

/// Where the last component of the path `cs` begins and ends.
pub fn component_bounds(cs: &Vec<char>) -> (r: (usize, usize))
    ensures
        r.1 == name_end(cs@, cs@.len() as int),
        r.0 == name_start(cs@, r.1 as int),
        r.0 <= r.1 <= cs@.len(),
{
    let mut b: usize = cs.len();
    while b > 0 && (cs[b - 1] == '/' || (cs[b - 1] == '.' && (b == 1 || cs[b - 2] == '/')))
        invariant
            b <= cs@.len(),
            name_end(cs@, b as int) == name_end(cs@, cs@.len() as int),
        decreases b,
    {
        b = b - 1;
    }
    let mut a: usize = b;
    while a > 0 && cs[a - 1] != '/'
        invariant
            a <= b <= cs@.len(),
            b == name_end(cs@, cs@.len() as int),
            name_start(cs@, a as int) == name_start(cs@, b as int),
        decreases a,
    {
        a = a - 1;
    }
    (a, b)
}

/// The file name of a path: its last component.
pub fn get_file_name(file: &str) -> (r: Result<String, CustomError>)
    ensures
        has_file_name(file@) ==> (r matches Ok(name) && name@ == last_component(file@)),
        !has_file_name(file@) ==> (r matches Err(CustomError::IllegalFileError(p)) && p@
            == file@),
{
    let cs = chars_of(file);
    let (a, b) = component_bounds(&cs);
    let ok = a < b && !(b - a == 2 && cs[a] == '.' && cs[a + 1] == '.');
    proof {
        let f = cs@.subrange(a as int, b as int);
        assert(f == last_component(file@));
        if f == seq!['.', '.'] {
            assert(f[0] == '.' && f[1] == '.');
        }
        if ok {
            assert(f != seq!['.', '.']) by {
                if b - a == 2 {
                    assert(f[0] != '.' || f[1] != '.');
                }
            }
        } else if b - a == 2 {
            assert(f =~= seq!['.', '.']);
        }
    }
    if ok {
        Ok(String::from_str(file.substring_char(a, b)))
    } else {
        Err(CustomError::IllegalFileError(String::from_str(file)))
    }
}

} // verus!
