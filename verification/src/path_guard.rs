use crate::error::Error;
use crate::error::ErrorView;
use crate::text::chars_of;
use vstd::prelude::*;
use vstd::string::StrSliceExecFns;
use vstd::string::StringExecFns;

verus! {

/// Two consecutive dots occur somewhere in `name`.
pub open spec fn has_parent_marker(name: Seq<char>) -> bool {
    exists|i: int| 0 <= i && i + 1 < name.len() && #[trigger] name[i] == '.' && name[i + 1] == '.'
}

/// `name` begins with the root separator, so it names an absolute path.
pub open spec fn starts_at_root(name: Seq<char>) -> bool {
    name.len() > 0 && name[0] == '/'
}

/// `name` holds a backslash, the separator of another platform.
pub open spec fn has_foreign_separator(name: Seq<char>) -> bool {
    exists|i: int| 0 <= i < name.len() && #[trigger] name[i] == '\\'
}

/// `name` carries a marker that could take a joined path out of its base directory.
pub open spec fn is_traversal(name: Seq<char>) -> bool {
    has_parent_marker(name) || starts_at_root(name) || has_foreign_separator(name)
}

/// `base` with `name` adjoined: a separator is put between the two unless `base` is empty
/// or already ends with one. `name` itself is taken over unchanged.
pub open spec fn joined(base: Seq<char>, name: Seq<char>) -> Seq<char> {
    if base.len() == 0 || base.last() == '/' {
        base + name
    } else {
        base + seq!['/'] + name
    }
}

/// Some component of the relative path `rest` is exactly `..`.
pub open spec fn has_parent_component(rest: Seq<char>) -> bool {
    exists|i: int|
        0 <= i && i + 2 <= rest.len() && #[trigger] rest[i] == '.' && rest[i + 1] == '.' && (i == 0
            || rest[i - 1] == '/') && (i + 2 == rest.len() || rest[i + 2] == '/')
}

/// `path` is `base` followed by a relative part that begins at a component boundary and
/// never steps up to a parent directory.
pub open spec fn lexically_inside(base: Seq<char>, path: Seq<char>) -> bool {
    &&& base.is_prefix_of(path)
    &&& (base.len() == 0 || base.last() == '/' || path.len() == base.len() || path[base.len() as int]
        == '/')
    &&& !has_parent_component(path.skip(base.len() as int))
}

/// A name without traversal markers, joined to any base, stays lexically inside that base.
pub proof fn lemma_joined_stays_inside(base: Seq<char>, name: Seq<char>)
    requires
        !is_traversal(name),
    ensures
        lexically_inside(base, joined(base, name)),
{
    let path = joined(base, name);
    let rest = path.skip(base.len() as int);
    assert(base.is_prefix_of(path));
    if has_parent_component(rest) {
        let i = choose|i: int|
            0 <= i && i + 2 <= rest.len() && #[trigger] rest[i] == '.' && rest[i + 1] == '.' && (i
                == 0 || rest[i - 1] == '/') && (i + 2 == rest.len() || rest[i + 2] == '/');
        if base.len() == 0 || base.last() == '/' {
            assert(rest =~= name);
            assert(name[i] == '.' && name[i + 1] == '.');
        } else {
            assert(rest =~= seq!['/'] + name);
            assert(name[i - 1] == '.' && name[i] == '.');
        }
        assert(false);
    }
}

/// Checks `file_name` for traversal markers and, if it has none, joins it to `base`.
///
/// A name that holds `..`, begins with `/` or holds a backslash is refused with
/// [`Error::InvalidPath`] carrying the name, whatever `base` is. Any other name gives
/// `base` joined with the name, unchanged, which lies lexically inside `base`.
pub fn ensure_safe_path(base: &str, file_name: &str) -> (result: Result<String, Error>)
    ensures
        match result {
            Ok(path) => !is_traversal(file_name@) && path@ == joined(base@, file_name@)
                && lexically_inside(base@, path@),
            Err(error) => is_traversal(file_name@) && error@ == ErrorView::InvalidPath(
                file_name@,
            ),
        },
{
    let name = chars_of(file_name);
    let n = name.len();
    let mut i: usize = 0;
    while i < n
        invariant
            i <= n,
            n == name.len(),
            name@ == file_name@,
            !starts_at_root(name@.take(i as int)),
            forall|j: int| 0 <= j < i ==> name@[j] != '\\',
            forall|j: int|
                0 <= j && j + 1 < i ==> !(#[trigger] name@[j] == '.' && name@[j + 1] == '.'),
        decreases n - i,
    {
        let c = name[i];
        let rooted = i == 0 && c == '/';
        let stepping = c == '.' && i > 0 && name[i - 1] == '.';
        if rooted || c == '\\' || stepping {
            proof {
                if stepping {
                    assert(name@[i - 1] == '.' && name@[(i - 1) + 1] == '.');
                }
            }
            return Err(Error::InvalidPath(String::from_str(file_name)));
        }
        i = i + 1;
    }
    proof {
        assert(name@.take(n as int) =~= name@);
        lemma_joined_stays_inside(base@, file_name@);
        reveal_strlit("/");
    }
    let base_len = base.unicode_len();
    let mut path = String::from_str(base);
    if base_len > 0 && base.get_char(base_len - 1) != '/' {
        path.append("/");
        assert("/"@ =~= seq!['/']);
    }
    path.append(file_name);
    Ok(path)
}

} // verus!
