//! Laws of file names: what a file is offered as, and what an announced name is saved under.

use crate::paths::{
    after_last_separator, begins_with_two_separators, choose_name, chosen_name, file_name,
    last_component, law_one_system,
    lemma_reported, offered_as, reported, separates, without_drive, PathRules,
};
use crate::text::text_view;
use crate::transfer::{offered_name, sanitize_filename};
use vstd::prelude::*;

verus! {

/// A file name that is the same on every system: with no separator or drive in it, and neither
/// empty nor one of the two names made of dots.
pub open spec fn plain(n: Seq<char>) -> bool {
    &&& n.len() > 0
    &&& n != seq!['.']
    &&& n != seq!['.', '.']
    &&& forall|i: int| 0 <= i < n.len() ==> #[trigger] n[i] != '/' && n[i] != '\\' && n[i] != ':'
}

/// `path` leads to `n`: there is nothing else in it, or a slash in front of it.
pub open spec fn leads_to_name(path: Seq<char>, n: Seq<char>) -> bool {
    path == n || exists|dir: Seq<char>| path == #[trigger] (dir + seq!['/'] + n)
}

proof fn lemma_piece_behind_a_slash(rules: PathRules, dir: Seq<char>, n: Seq<char>)
    requires
        forall|i: int| 0 <= i < n.len() ==> #[trigger] n[i] != '/' && n[i] != '\\',
    ensures
        after_last_separator(rules, dir + seq!['/'] + n) == n,
    decreases n.len(),
{
    let path = dir + seq!['/'] + n;
    if n.len() == 0 {
        assert(path.last() == '/');
        assert(after_last_separator(rules, path) =~= n);
    } else {
        assert(path.drop_last() =~= dir + seq!['/'] + n.drop_last());
        assert forall|i: int| 0 <= i < n.len() - 1 implies #[trigger] n.drop_last()[i] != '/'
            && n.drop_last()[i] != '\\' by {
            assert(n.drop_last()[i] == n[i]);
        }
        lemma_piece_behind_a_slash(rules, dir, n.drop_last());
        assert(path.last() == n[n.len() - 1]);
        assert(n.drop_last().push(n.last()) =~= n);
    }
}

proof fn lemma_piece_alone(rules: PathRules, n: Seq<char>)
    requires
        forall|i: int| 0 <= i < n.len() ==> #[trigger] n[i] != '/' && n[i] != '\\',
    ensures
        after_last_separator(rules, n) == n,
    decreases n.len(),
{
    if n.len() > 0 {
        assert forall|i: int| 0 <= i < n.len() - 1 implies #[trigger] n.drop_last()[i] != '/'
            && n.drop_last()[i] != '\\' by {
            assert(n.drop_last()[i] == n[i]);
        }
        lemma_piece_alone(rules, n.drop_last());
        assert(n.last() == n[n.len() - 1]);
        assert(n.drop_last().push(n.last()) =~= n);
    } else {
        assert(after_last_separator(rules, n) =~= n);
    }
}

/// The piece that a path leads to is the last one there is, on every system.
proof fn lemma_last_piece(rules: PathRules, path: Seq<char>, n: Seq<char>)
    requires
        leads_to_name(path, n),
        n.len() > 0,
        forall|i: int| 0 <= i < n.len() ==> #[trigger] n[i] != '/' && n[i] != '\\' && n[i] != ':',
        !begins_with_two_separators(path),
    ensures
        n != seq!['.'] && n != seq!['.', '.'] ==> last_component(rules, path) == Some(n)
            && last_component(rules, without_drive(path)) == Some(n),
        n == seq!['.', '.'] ==> last_component(rules, path) is None && last_component(
            rules,
            without_drive(path),
        ) is None,
{
    assert(!separates(rules, n[n.len() - 1]));
    if path == n {
        lemma_piece_alone(rules, n);
        assert(without_drive(path) == path);
        assert(path.last() == n[n.len() - 1]);
    } else {
        let dir = choose|dir: Seq<char>| path == #[trigger] (dir + seq!['/'] + n);
        lemma_piece_behind_a_slash(rules, dir, n);
        assert(path.last() == n[n.len() - 1]);
        if without_drive(path) != path {
            assert(path[1] == ':');
            assert(dir.len() >= 2) by {
                if dir.len() == 0 {
                    assert(path[0] == '/');
                } else if dir.len() == 1 {
                    assert(path[1] == '/');
                }
            }
            let rest = without_drive(path);
            assert(rest =~= dir.skip(2) + seq!['/'] + n);
            lemma_piece_behind_a_slash(rules, dir.skip(2), n);
            assert(rest.last() == n[n.len() - 1]);
        }
    }
}

/// Whatever folders an announced name comes with, it is saved under its last piece, if that is a
/// plain name; a plain name by itself is kept.
pub proof fn law_folders_are_dropped(name: &str, safe: String, n: Seq<char>)
    requires
        call_ensures(sanitize_filename, (name,), safe),
        leads_to_name(name@, n),
        plain(n),
        !begins_with_two_separators(name@),
    ensures
        safe@ == n,
{
    let (path, rules, component) = choose|
        path: &str,
        rules: PathRules,
        component: Option<String>,
    | #[trigger]
        reported(path, rules, component) && path@ == name@ && safe@ == chosen_name(
            rules,
            text_view(component),
        );
    lemma_reported(path, rules, component);
    lemma_last_piece(rules, name@, n);
    lemma_plain(n);
}

proof fn lemma_plain(n: Seq<char>)
    requires
        plain(n),
    ensures
        n != "."@,
        n != ".."@,
        !n.contains('/'),
        n.len() < 2 || n[1] != ':',
{
    reveal_strlit(".");
    reveal_strlit("..");
    assert("."@ =~= seq!['.']);
    assert(".."@ =~= seq!['.', '.']);
}

/// A name that leads out of its folder, or nowhere, is replaced.
pub proof fn law_way_out_is_replaced(name: &str, safe: String)
    requires
        call_ensures(sanitize_filename, (name,), safe),
        name@.len() == 0 || leads_to_name(name@, seq!['.', '.']),
        !begins_with_two_separators(name@),
    ensures
        safe@ == "archivo_recibido"@,
{
    let (path, rules, component) = choose|
        path: &str,
        rules: PathRules,
        component: Option<String>,
    | #[trigger]
        reported(path, rules, component) && path@ == name@ && safe@ == chosen_name(
            rules,
            text_view(component),
        );
    lemma_reported(path, rules, component);
    if name@.len() > 0 {
        lemma_last_piece(rules, name@, seq!['.', '.']);
    }
}

/// No name that a file is saved under holds a slash, is empty or is made of one or two dots; and
/// making it safe again gives the same name.
pub proof fn law_saved_name_stays_in_its_folder(
    name: &str,
    safe: String,
    again_name: &str,
    again: String,
)
    requires
        call_ensures(sanitize_filename, (name,), safe),
        call_ensures(sanitize_filename, (again_name,), again),
        again_name@ == safe@,
    ensures
        safe@.len() > 0,
        forall|i: int| 0 <= i < safe@.len() ==> #[trigger] safe@[i] != '/',
        safe@ != seq!['.'],
        safe@ != seq!['.', '.'],
        again@ == safe@,
{
    crate::paths::law_safe_name_has_no_slash(name@, safe@);
    crate::paths::law_sanitize_is_idempotent(name@, safe@, again@);
    reveal_strlit(".");
    reveal_strlit("..");
    assert("."@ =~= seq!['.']);
    assert(".."@ =~= seq!['.', '.']);
    assert forall|i: int| 0 <= i < safe@.len() implies #[trigger] safe@[i] != '/' by {
        if safe@[i] == '/' {
            assert(safe@.contains('/'));
        }
    }
}

/// The same announced name is always saved under the same name.
pub proof fn law_same_name_is_saved_alike(a: &str, safe_a: String, b: &str, safe_b: String)
    requires
        call_ensures(sanitize_filename, (a,), safe_a),
        call_ensures(sanitize_filename, (b,), safe_b),
        a@ == b@,
    ensures
        safe_a@ == safe_b@,
{
    crate::paths::law_safe_name_is_unique(a@, safe_a@, safe_b@);
}

/// A file is offered under the last piece of its path, if that is a plain name.
pub proof fn law_file_is_offered_under_its_name(path: &str, name: String, n: Seq<char>)
    requires
        call_ensures(offered_name, (path,), name),
        leads_to_name(path@, n),
        plain(n),
        !begins_with_two_separators(path@),
    ensures
        name@ == n,
{
    let (p, rules, component) = choose|p: &str, rules: PathRules, component: Option<String>|
        #[trigger]
        reported(p, rules, component) && p@ == path@ && name@ == (match component {
            Some(x) => x@,
            None => crate::paths::DEFAULT_FILE_NAME@,
        });
    lemma_reported(p, rules, component);
    lemma_last_piece(rules, path@, n);
}

/// A path is offered under one name only.
pub(crate) proof fn lemma_offered_as_is_unique(path: Seq<char>, a: Seq<char>, b: Seq<char>)
    requires
        offered_as(path, a),
        offered_as(path, b),
    ensures
        a == b,
{
    let (p, p_rules, p_component) = choose|
        p: &str,
        rules: PathRules,
        component: Option<String>,
    | #[trigger]
        reported(p, rules, component) && p@ == path && a == (match component {
            Some(x) => x@,
            None => crate::paths::DEFAULT_FILE_NAME@,
        });
    let (q, q_rules, q_component) = choose|
        q: &str,
        rules: PathRules,
        component: Option<String>,
    | #[trigger]
        reported(q, rules, component) && q@ == path && b == (match component {
            Some(x) => x@,
            None => crate::paths::DEFAULT_FILE_NAME@,
        });
    law_one_system(p, p_rules, p_component, q, q_rules, q_component);
}

/// On one system a file is offered and saved under the same name, if that is a plain one.
pub proof fn law_offered_name_is_the_saved_one(path: &str, name: String, safe: String)
    requires
        call_ensures(offered_name, (path,), name),
        call_ensures(sanitize_filename, (path,), safe),
        plain(name@),
    ensures
        safe@ == name@,
{
    let (p, p_rules, p_component) = choose|
        p: &str,
        rules: PathRules,
        component: Option<String>,
    | #[trigger]
        reported(p, rules, component) && p@ == path@ && name@ == (match component {
            Some(x) => x@,
            None => crate::paths::DEFAULT_FILE_NAME@,
        });
    let (q, q_rules, q_component) = choose|
        q: &str,
        rules: PathRules,
        component: Option<String>,
    | #[trigger]
        reported(q, rules, component) && q@ == path@ && safe@ == chosen_name(
            rules,
            text_view(component),
        );
    law_one_system(p, p_rules, p_component, q, q_rules, q_component);
    lemma_plain(name@);
}

/// A letter and a colon in front are a drive.
pub open spec fn drive_in_front(n: Seq<char>) -> bool {
    n.len() >= 2 && n[1] == ':' && (('a' <= n[0] && n[0] <= 'z') || ('A' <= n[0] && n[0] <= 'Z'))
}

/// A component is kept as the name of a file unless it is empty, made of one or two dots, has a
/// slash in it, or, on Windows, a drive in front; then, and where there is none, another name takes
/// its place.
pub proof fn law_usable_component_is_kept(
    rules: PathRules,
    component: Option<String>,
    name: String,
)
    requires
        call_ensures(choose_name, (rules, component), name),
    ensures
        component is None ==> name@ == "archivo_recibido"@,
        component matches Some(n) ==> if n@.len() == 0 || n@ == seq!['.'] || n@ == seq!['.', '.']
            || n@.contains('/') || (rules == PathRules::Windows && drive_in_front(n@)) {
            name@ == "archivo_recibido"@
        } else {
            name@ == n@
        },
{
    reveal_strlit(".");
    reveal_strlit("..");
    assert("."@ =~= seq!['.']);
    assert(".."@ =~= seq!['.', '.']);
}

/// A file is saved under the file name that the system finds in the announced name, if that can be
/// one, and offered under the file name that the system finds in its path.
pub proof fn law_names_come_from_the_system(
    path: &str,
    found: (PathRules, Option<String>),
    chosen: String,
    safe: String,
    offered: String,
)
    requires
        call_ensures(file_name, (path,), found),
        call_ensures(choose_name, (found.0, found.1), chosen),
        call_ensures(sanitize_filename, (path,), safe),
        call_ensures(offered_name, (path,), offered),
    ensures
        safe@ == chosen@,
        found.1 matches Some(n) ==> offered@ == n@,
        found.1 is None ==> offered@ == "archivo_recibido"@,
{
    assert(reported(path, found.0, found.1));
    crate::paths::law_safe_name_is_unique(path@, safe@, chosen@);
    lemma_offered_as_is_unique(
        path@,
        offered@,
        match found.1 {
            Some(n) => n@,
            None => crate::paths::DEFAULT_FILE_NAME@,
        },
    );
}

} // verus!
