//! File names out of paths, under the rules of the system that the program runs on.

use crate::text::{contains_char, same_text, text_view};
use vstd::prelude::*;
use vstd::string::StrSliceExecFns;

verus! {

/// The name of a file that came with no usable name of its own.
pub const DEFAULT_FILE_NAME: &'static str = "archivo_recibido";

/// How a system reads a path.
#[derive(Debug, Clone, Copy, PartialEq, Eq, Structural)]
pub enum PathRules {
    /// Only `/` stands between components.
    Slash,
    /// So does `\`, and a path may begin with a drive or a share.
    Windows,
}

/// Whether a character stands between the components of a path.
pub open spec fn separates(rules: PathRules, c: char) -> bool {
    c == '/' || (rules == PathRules::Windows && c == '\\')
}

/// A text of one piece, as far as separators go.
pub open spec fn no_separator(rules: PathRules, s: Seq<char>) -> bool {
    forall|i: int| 0 <= i < s.len() ==> !separates(rules, #[trigger] s[i])
}

/// The end of a path, behind its last separator.
pub open spec fn after_last_separator(rules: PathRules, path: Seq<char>) -> Seq<char>
    decreases path.len(),
{
    if path.len() == 0 || separates(rules, path.last()) {
        Seq::empty()
    } else {
        after_last_separator(rules, path.drop_last()).push(path.last())
    }
}

/// The last component of a path without a prefix: separators and `.` at the end do not count, and
/// a path that ends in `..` has none.
pub open spec fn last_component(rules: PathRules, path: Seq<char>) -> Option<Seq<char>>
    decreases path.len(),
{
    if path.len() == 0 {
        None
    } else if separates(rules, path.last()) || after_last_separator(rules, path) == seq!['.'] {
        last_component(rules, path.drop_last())
    } else if after_last_separator(rules, path) == seq!['.', '.'] {
        None
    } else {
        Some(after_last_separator(rules, path))
    }
}

pub open spec fn is_letter(c: char) -> bool {
    ('a' <= c && c <= 'z') || ('A' <= c && c <= 'Z')
}

/// Whether a path begins with a drive, such as `C:`.
pub open spec fn has_drive(path: Seq<char>) -> bool {
    path.len() >= 2 && is_letter(path[0]) && path[1] == ':'
}

/// A path without its drive, if it has one.
pub open spec fn without_drive(path: Seq<char>) -> Seq<char> {
    if has_drive(path) {
        path.skip(2)
    } else {
        path
    }
}

/// Whether a path begins with two separators, as `\\server\share` and `\\.\device` do.
pub open spec fn begins_with_two_separators(path: Seq<char>) -> bool {
    path.len() >= 2 && separates(PathRules::Windows, path[0]) && separates(
        PathRules::Windows,
        path[1],
    )
}

/// Whether a path begins with `\\?\`, behind which Windows takes everything literally but `\`.
pub open spec fn is_verbatim(path: Seq<char>) -> bool {
    path.len() >= 4 && path.take(4) == seq!['\\', '\\', '?', '\\']
}

/// A path that begins with two separators goes on with two names, the server's and that of its
/// share, which end at `i` and at `j`.
pub open spec fn share_ends(path: Seq<char>, i: int, j: int) -> bool {
    &&& 2 < i && i + 1 < j < path.len()
    &&& separates(PathRules::Windows, path[i])
    &&& separates(PathRules::Windows, path[j])
    &&& forall|k: int|
        2 <= k < j && k != i ==> !separates(PathRules::Windows, #[trigger] path[k])
}

pub open spec fn ends_with(s: Seq<char>, tail: Seq<char>) -> bool {
    tail.len() <= s.len() && s.skip(s.len() - tail.len()) == tail
}

/// The last backslash of a path stands at `j`.
pub open spec fn last_backslash(path: Seq<char>, j: int) -> bool {
    &&& 0 <= j < path.len()
    &&& path[j] == '\\'
    &&& !path.skip(j + 1).contains('\\')
}

/// Whether `component` can be the file name of a path under given rules. With slashes alone there
/// is one answer for each path. So there is on Windows, but for paths that begin with two
/// separators and are not of the ordinary forms `\\server\share\...` or `\\?\C:\...`: of these it
/// is only said that a file name is one piece from the end of the path.
pub open spec fn file_name_under(
    rules: PathRules,
    path: Seq<char>,
    component: Option<Seq<char>>,
) -> bool {
    match rules {
        PathRules::Slash => component == last_component(rules, path),
        PathRules::Windows => if !begins_with_two_separators(path) {
            component == last_component(rules, without_drive(path))
        } else if !is_verbatim(path) {
            &&& forall|i: int, j: int| #[trigger]
                share_ends(path, i, j) ==> component == last_component(rules, path.skip(j))
            &&& component matches Some(n) ==> n.len() > 0 && (last_component(rules, path)
                matches Some(c) && ends_with(c, n))
        } else {
            &&& forall|j: int|
                has_drive(path.skip(4)) && path.len() > 6 && path[6] == '\\'
                    && #[trigger] last_backslash(path, j) && path.skip(j + 1).len() > 0
                    && path.skip(j + 1) != seq!['.'] && path.skip(j + 1) != seq!['.', '.']
                    ==> component == Some(path.skip(j + 1))
            &&& component matches Some(n) ==> n.len() > 0 && !n.contains('\\')
        },
    }
}

/// The rules that go with the separator of a system.
pub open spec fn rules_of(separator: char) -> PathRules {
    if separator == '\\' {
        PathRules::Windows
    } else {
        PathRules::Slash
    }
}

/// Reads `std::path::MAIN_SEPARATOR`: a backslash on Windows, a slash on Unix. Nothing is claimed
/// of the value here; that it is the same whenever it is read is claimed below.
#[verifier::external_body]
fn main_separator() -> (separator: char) {
    std::path::MAIN_SEPARATOR
}

/// What `std::path::Path::file_name` makes of a path on a system with the given main separator.
pub uninterp spec fn file_name_by(separator: char, path: Seq<char>) -> Option<Seq<char>>;

/// Calls `std::path::Path::file_name`, and gives `std::path::MAIN_SEPARATOR` with the result. The
/// separator is a constant of the system that the program runs on: it is the one that
/// `main_separator` reads, whenever that is. The file name depends on the path and the system
/// alone. Claimed of it is what [`file_name_under`] says, under the rules that go with the
/// separator; what that leaves open of Windows paths that begin with two separators is left unsaid
/// here.
#[verifier::external_body]
fn path_file_name(path: &str) -> (r: (char, Option<String>))
    ensures
        forall|separator: char| #[trigger]
            call_ensures(main_separator, (), separator) ==> separator == r.0,
        text_view(r.1) == file_name_by(r.0, path@),
        file_name_under(rules_of(r.0), path@, text_view(r.1)),
{
    let name = std::path::Path::new(path).file_name();
    (std::path::MAIN_SEPARATOR, name.map(|n| n.to_string_lossy().into_owned()))
}

/// What the system that the program runs on says of a path: the rules it goes by, and the file
/// name. It is an outcome of the call itself, so that nothing else can stand in for it.
pub closed spec fn reported(path: &str, rules: PathRules, component: Option<String>) -> bool {
    exists|separator: char| #[trigger]
        call_ensures(path_file_name, (path,), (separator, component)) && call_ensures(
            main_separator,
            (),
            separator,
        ) && rules == rules_of(separator)
}

/// What a system says of a path is right under the rules it goes by.
pub proof fn lemma_reported(path: &str, rules: PathRules, component: Option<String>)
    requires
        reported(path, rules, component),
    ensures
        file_name_under(rules, path@, text_view(component)),
{
}

/// A program runs on one system: whatever paths it asks about, the rules are the same, and the same
/// path has the same file name.
pub proof fn law_one_system(
    a: &str,
    a_rules: PathRules,
    a_component: Option<String>,
    b: &str,
    b_rules: PathRules,
    b_component: Option<String>,
)
    requires
        reported(a, a_rules, a_component),
        reported(b, b_rules, b_component),
    ensures
        a_rules == b_rules,
        a@ == b@ ==> text_view(a_component) == text_view(b_component),
{
    let s = choose|separator: char| #[trigger]
        call_ensures(path_file_name, (a,), (separator, a_component)) && call_ensures(
            main_separator,
            (),
            separator,
        ) && a_rules == rules_of(separator);
    let t = choose|separator: char| #[trigger]
        call_ensures(path_file_name, (b,), (separator, b_component)) && call_ensures(
            main_separator,
            (),
            separator,
        ) && b_rules == rules_of(separator);
    assert(s == t);
}

/// The file name of a path, and the rules it was found under, as the system has them.
pub fn file_name(path: &str) -> (r: (PathRules, Option<String>))
    ensures
        reported(path, r.0, r.1),
        file_name_under(r.0, path@, text_view(r.1)),
{
    let separator: char = main_separator();
    let (_same, component) = path_file_name(path);
    if separator == '\\' {
        (PathRules::Windows, component)
    } else {
        (PathRules::Slash, component)
    }
}

/// The file name of a path is the one that the system gives, and the rules are those that go with
/// the system's separator.
proof fn law_file_name_is_the_systems(path: &str, r: (PathRules, Option<String>))
    requires
        call_ensures(file_name, (path,), r),
    ensures
        exists|separator: char| #[trigger]
            call_ensures(path_file_name, (path,), (separator, r.1)) && call_ensures(
                main_separator,
                (),
                separator,
            ) && (r.0 == PathRules::Windows <==> separator == '\\'),
{
    let separator = choose|separator: char| #[trigger]
        call_ensures(path_file_name, (path,), (separator, r.1)) && call_ensures(
            main_separator,
            (),
            separator,
        ) && r.0 == rules_of(separator);
    assert(call_ensures(path_file_name, (path,), (separator, r.1)));
}

/// Whether a text, put behind the path of a folder, names an entry of that folder.
pub open spec fn entry_name(rules: PathRules, n: Seq<char>) -> bool {
    &&& n.len() > 0
    &&& n != "."@
    &&& n != ".."@
    &&& no_separator(rules, n)
    &&& !(rules == PathRules::Windows && has_drive(n))
}

/// Whether a component can be the name of a file. A literal path of Windows can have a component
/// with a slash, and a path can have a drive in its middle: neither would stay in the folder that
/// it is put in.
pub open spec fn usable_name(rules: PathRules, n: Seq<char>) -> bool {
    &&& n.len() > 0
    &&& n != "."@
    &&& n != ".."@
    &&& !n.contains('/')
    &&& !(rules == PathRules::Windows && has_drive(n))
}

/// A component, if it can be the name of a file, else [`DEFAULT_FILE_NAME`].
pub open spec fn chosen_name(rules: PathRules, component: Option<Seq<char>>) -> Seq<char> {
    match component {
        Some(n) => if usable_name(rules, n) {
            n
        } else {
            DEFAULT_FILE_NAME@
        },
        None => DEFAULT_FILE_NAME@,
    }
}

fn begins_with_drive(n: &str) -> (yes: bool)
    ensures
        yes == has_drive(n@),
{
    if n.unicode_len() < 2 {
        return false;
    }
    let c: char = n.get_char(0);
    (('a' <= c && c <= 'z') || ('A' <= c && c <= 'Z')) && n.get_char(1) == ':'
}

/// A component, if it can be the name of a file, else [`DEFAULT_FILE_NAME`].
pub fn choose_name(rules: PathRules, component: Option<String>) -> (name: String)
    ensures
        name@ == chosen_name(rules, text_view(component)),
{
    match component {
        Some(n) => {
            let windows: bool = match rules {
                PathRules::Windows => true,
                PathRules::Slash => false,
            };
            if n.as_str().unicode_len() > 0 && !same_text(n.as_str(), ".") && !same_text(
                n.as_str(),
                "..",
            ) && !contains_char(n.as_str(), '/') && !(windows && begins_with_drive(n.as_str())) {
                n
            } else {
                DEFAULT_FILE_NAME.to_owned()
            }
        },
        None => DEFAULT_FILE_NAME.to_owned(),
    }
}

/// `name` is what an announced file name is made safe as, under given rules.
pub open spec fn sanitized_under(rules: PathRules, announced: Seq<char>, name: Seq<char>) -> bool {
    exists|component: Option<Seq<char>>| #[trigger]
        file_name_under(rules, announced, component) && name == chosen_name(rules, component)
}

/// `name` is what an announced file name is made safe as on the system that the program runs on: the
/// file name that it reports, judged by the rules that it reports.
pub open spec fn sanitized(announced: Seq<char>, name: Seq<char>) -> bool {
    exists|path: &str, rules: PathRules, component: Option<String>| #[trigger]
        reported(path, rules, component) && path@ == announced && name == chosen_name(
            rules,
            text_view(component),
        )
}

/// `name` is what the file at `file_path` is offered as: the file name that the system reports.
pub open spec fn offered_as(file_path: Seq<char>, name: Seq<char>) -> bool {
    exists|path: &str, rules: PathRules, component: Option<String>| #[trigger]
        reported(path, rules, component) && path@ == file_path && name == (match component {
            Some(n) => n@,
            None => DEFAULT_FILE_NAME@,
        })
}

proof fn lemma_after_last_separator(rules: PathRules, path: Seq<char>)
    ensures
        no_separator(rules, after_last_separator(rules, path)),
        no_separator(rules, path) ==> after_last_separator(rules, path) == path,
        path.len() > 0 && !separates(rules, path.last()) ==> after_last_separator(
            rules,
            path,
        ).len() > 0,
    decreases path.len(),
{
    if path.len() > 0 && !separates(rules, path.last()) {
        let front = path.drop_last();
        lemma_after_last_separator(rules, front);
        if no_separator(rules, path) {
            assert forall|i: int| 0 <= i < front.len() implies !separates(
                rules,
                #[trigger] front[i],
            ) by {
                assert(!separates(rules, path[i]));
            }
            assert(front.push(path.last()) =~= path);
        }
    } else if path.len() > 0 {
        assert(separates(rules, path[path.len() - 1]));
    } else {
        assert(after_last_separator(rules, path) =~= path);
    }
}

proof fn lemma_last_component(rules: PathRules, path: Seq<char>)
    ensures
        last_component(rules, path) matches Some(n) ==> n.len() > 0 && n != seq!['.'] && n != seq![
            '.',
            '.',
        ] && no_separator(rules, n),
    decreases path.len(),
{
    if path.len() > 0 {
        lemma_after_last_separator(rules, path);
        if separates(rules, path.last()) || after_last_separator(rules, path) == seq!['.'] {
            lemma_last_component(rules, path.drop_last());
        }
    }
}

proof fn lemma_dots()
    ensures
        "."@ == seq!['.'],
        ".."@ == seq!['.', '.'],
{
    reveal_strlit(".");
    reveal_strlit("..");
    assert("."@ =~= seq!['.']);
    assert(".."@ =~= seq!['.', '.']);
}

proof fn lemma_default_name(rules: PathRules)
    ensures
        entry_name(rules, DEFAULT_FILE_NAME@),
{
    reveal_strlit("archivo_recibido");
    lemma_dots();
    let n = DEFAULT_FILE_NAME@;
    assert(n =~= seq![
        'a',
        'r',
        'c',
        'h',
        'i',
        'v',
        'o',
        '_',
        'r',
        'e',
        'c',
        'i',
        'b',
        'i',
        'd',
        'o',
    ]);
    assert(n[1] != ':' && n.len() == 16);
}

/// On Windows no file name holds a backslash.
proof fn lemma_no_backslash(path: Seq<char>, component: Option<Seq<char>>)
    requires
        file_name_under(PathRules::Windows, path, component),
    ensures
        component matches Some(n) ==> !n.contains('\\'),
{
    let rules = PathRules::Windows;
    lemma_last_component(rules, without_drive(path));
    lemma_last_component(rules, path);
    if let Some(n) = component {
        if !begins_with_two_separators(path) {
            if n.contains('\\') {
                assert(separates(rules, n[n.index_of('\\')]));
            }
        } else if !is_verbatim(path) {
            if let Some(c) = last_component(rules, path) {
                if n.contains('\\') {
                    let i = n.index_of('\\');
                    assert(n[i] == c.skip(c.len() - n.len())[i]);
                    assert(separates(rules, c[c.len() - n.len() + i]));
                }
            }
        }
    }
}

/// A name that came out safe stays in the folder that it is put in: it is not empty, not `.` or
/// `..`, and holds neither a separator nor a drive of the system it was made safe on.
pub proof fn law_sanitized_name_stays_in_folder(
    rules: PathRules,
    announced: Seq<char>,
    name: Seq<char>,
)
    requires
        sanitized_under(rules, announced, name),
    ensures
        entry_name(rules, name),
{
    lemma_default_name(rules);
    let component = choose|component: Option<Seq<char>>| #[trigger]
        file_name_under(rules, announced, component) && name == chosen_name(rules, component);
    if let Some(n) = component {
        if usable_name(rules, n) {
            if rules == PathRules::Windows {
                lemma_no_backslash(announced, component);
            }
            assert forall|i: int| 0 <= i < n.len() implies !separates(rules, #[trigger] n[i]) by {
                if n[i] == '/' {
                    assert(n.contains('/'));
                }
                if n[i] == '\\' {
                    assert(n.contains('\\'));
                }
            }
        }
    }
}

/// On the system that the program runs on, a safe name is an entry of the folder it is put in.
pub proof fn law_safe_name_is_an_entry_here(announced: Seq<char>, name: Seq<char>)
    requires
        sanitized(announced, name),
    ensures
        exists|path: &str, rules: PathRules, component: Option<String>| #[trigger]
            reported(path, rules, component) && path@ == announced && entry_name(rules, name),
{
    let (path, rules, component) = lemma_sanitized_by(announced, name);
    law_sanitized_name_stays_in_folder(rules, announced, name);
}

/// On no system does a safe name hold a slash, and it holds a backslash only where backslashes
/// separate nothing.
pub proof fn law_safe_name_has_no_slash(announced: Seq<char>, name: Seq<char>)
    requires
        sanitized(announced, name),
    ensures
        name.len() > 0,
        name != "."@,
        name != ".."@,
        !name.contains('/'),
        name.contains('\\') ==> last_component(PathRules::Slash, announced) == Some(name),
{
    let (_path, rules, _component) = lemma_sanitized_by(announced, name);
    if rules == PathRules::Windows {
        law_sanitized_name_stays_in_folder(PathRules::Windows, announced, name);
        if name.contains('/') {
            assert(separates(PathRules::Windows, name[name.index_of('/')]));
        }
        if name.contains('\\') {
            assert(separates(PathRules::Windows, name[name.index_of('\\')]));
        }
    } else {
        law_sanitized_name_stays_in_folder(PathRules::Slash, announced, name);
        if name.contains('/') {
            assert(separates(PathRules::Slash, name[name.index_of('/')]));
        }
        reveal_strlit("archivo_recibido");
    }
}

/// A name that stays in the folder it is put in comes out as it was.
pub proof fn law_plain_names_survive(rules: PathRules, announced: Seq<char>, name: Seq<char>)
    requires
        entry_name(rules, announced),
        sanitized_under(rules, announced, name),
    ensures
        name == announced,
{
    lemma_dots();
    lemma_after_last_separator(rules, announced);
    assert(!separates(rules, announced[0]));
    assert(!separates(rules, announced[announced.len() - 1]));
    if announced.contains('/') {
        assert(separates(rules, announced[announced.index_of('/')]));
    }
    assert(last_component(rules, announced) == Some(announced));
}

/// How a name was made safe.
proof fn lemma_sanitized_by<'a>(announced: Seq<char>, name: Seq<char>) -> (r: (
    &'a str,
    PathRules,
    Option<String>,
))
    requires
        sanitized(announced, name),
    ensures
        reported(r.0, r.1, r.2),
        r.0@ == announced,
        name == chosen_name(r.1, text_view(r.2)),
        sanitized_under(r.1, announced, name),
{
    let (path, rules, component) = choose|
        path: &str,
        rules: PathRules,
        component: Option<String>,
    | #[trigger]
        reported(path, rules, component) && path@ == announced && name == chosen_name(
            rules,
            text_view(component),
        );
    lemma_reported(path, rules, component);
    (path, rules, component)
}

/// Making a name safe once is enough.
pub proof fn law_sanitize_is_idempotent(announced: Seq<char>, name: Seq<char>, again: Seq<char>)
    requires
        sanitized(announced, name),
        sanitized(name, again),
    ensures
        again == name,
{
    let (p, rules, c) = lemma_sanitized_by(announced, name);
    let (q, same_rules, d) = lemma_sanitized_by(name, again);
    law_one_system(p, rules, c, q, same_rules, d);
    law_sanitized_name_stays_in_folder(rules, announced, name);
    law_plain_names_survive(rules, name, again);
}

/// A name is made safe in one way only.
pub proof fn law_safe_name_is_unique(announced: Seq<char>, a: Seq<char>, b: Seq<char>)
    requires
        sanitized(announced, a),
        sanitized(announced, b),
    ensures
        a == b,
{
    let (p, rules, c) = lemma_sanitized_by(announced, a);
    let (q, same_rules, d) = lemma_sanitized_by(announced, b);
    law_one_system(p, rules, c, q, same_rules, d);
}

/// A path that means the same on every system: without what Windows alone takes for a separator, a
/// drive or a share.
pub open spec fn portable(path: Seq<char>) -> bool {
    &&& !path.contains('\\')
    &&& !begins_with_two_separators(path)
    &&& !has_drive(path)
    &&& last_component(PathRules::Slash, path) matches Some(n) ==> !has_drive(n)
}

proof fn lemma_without_backslash(path: Seq<char>)
    requires
        !path.contains('\\'),
    ensures
        after_last_separator(PathRules::Windows, path) == after_last_separator(
            PathRules::Slash,
            path,
        ),
        last_component(PathRules::Windows, path) == last_component(PathRules::Slash, path),
    decreases path.len(),
{
    if path.len() > 0 {
        let front = path.drop_last();
        assert(!front.contains('\\')) by {
            if front.contains('\\') {
                assert(path[front.index_of('\\')] == '\\');
            }
        }
        assert(path.last() != '\\') by {
            assert(path[path.len() - 1] == path.last());
        }
        lemma_without_backslash(front);
    }
}

/// A portable name is made safe alike on every system.
pub proof fn law_portable_names_are_safe_alike(announced: Seq<char>, name: Seq<char>)
    requires
        portable(announced),
        sanitized(announced, name),
    ensures
        name == chosen_name(PathRules::Slash, last_component(PathRules::Slash, announced)),
{
    let (_path, _rules, _component) = lemma_sanitized_by(announced, name);
    lemma_without_backslash(announced);
}

} // verus!
