//! Path safety validation and planning for the one permitted mutation:
//! moving a cache directory into the trash.
//!
//! Validation is fail-closed: a path must expand to an absolute path, must
//! not be the filesystem root, must lie under the home directory, and must
//! either equal one of a fixed set of cache directories or be a strict
//! descendant of one of three broader roots.  Anything else — and any
//! `Delete` action — is rejected before a single move happens.
//!
//! Paths are modelled syntactically, as the character sequences the
//! given strings hold; prefix containment respects `/` boundaries but
//! no normalization of `.` or `..` components is attempted, matching the
//! purely syntactic checks the validator performs.

use vstd::prelude::*;
use crate::action::{ActionKind, ActionPlan};
use crate::text::{
    has_prefix, is_space_char, starts_with, str_eq, trim, trim_spec, views_of, dec_digits,
    fmt_u64,
};

verus! {

/// `base` joined with `rel` the way `Path::join` does it: an absolute
/// `rel` replaces `base`, and exactly one `/` separates the two otherwise.
pub open spec fn path_join(base: Seq<char>, rel: Seq<char>) -> Seq<char> {
    if rel.len() > 0 && rel[0] == '/' {
        rel
    } else if base.len() == 0 {
        rel
    } else if base[base.len() - 1] == '/' {
        base + rel
    } else {
        base + "/"@ + rel
    }
}

pub fn path_join_exec(base: &str, rel: &str) -> (r: String)
    ensures
        r@ == path_join(base@, rel@),
{
    let rn = rel.unicode_len();
    let bn = base.unicode_len();
    if rn > 0 && rel.get_char(0) == '/' {
        rel.to_owned()
    } else if bn == 0 {
        rel.to_owned()
    } else if base.get_char(bn - 1) == '/' {
        let r = base.to_owned().concat(rel);
        r
    } else {
        let mut r = base.to_owned();
        r.append("/");
        r.append(rel);
        proof {
            assert(r@ =~= base@ + "/"@ + rel@);
        }
        r
    }
}

/// A `~` or `~/` head of the trimmed path is replaced by the home
/// directory; any other input is used, trimmed, as a literal path.
pub open spec fn expand_tilde_spec(path: Seq<char>, home: Seq<char>) -> Seq<char> {
    let t = trim_spec(path);
    if t == "~"@ {
        home
    } else if has_prefix(t, "~/"@) {
        path_join(home, t.subrange(2, t.len() as int))
    } else {
        t
    }
}

pub fn expand_tilde(path: &str, home_dir: &str) -> (r: String)
    ensures
        r@ == expand_tilde_spec(path@, home_dir@),
{
    let t = trim(path);
    if str_eq(t, "~") {
        home_dir.to_owned()
    } else if starts_with(t, "~/") {
        let n = t.unicode_len();
        proof {
            reveal_strlit("~/");
        }
        let rest = t.substring_char(2, n);
        path_join_exec(home_dir, rest)
    } else {
        t.to_owned()
    }
}

/// `p` with trailing `/` characters removed, down to a single one.
pub open spec fn strip_trailing_slashes(p: Seq<char>) -> Seq<char>
    decreases p.len(),
{
    if p.len() > 1 && p[p.len() - 1] == '/' {
        strip_trailing_slashes(p.drop_last())
    } else {
        p
    }
}

pub fn strip_trailing_exec(p: &str) -> (r: String)
    ensures
        r@ == strip_trailing_slashes(p@),
    decreases p@.len(),
{
    let n = p.unicode_len();
    if n > 1 && p.get_char(n - 1) == '/' {
        let head = p.substring_char(0, n - 1);
        proof {
            assert(head@ =~= p@.drop_last());
        }
        strip_trailing_exec(head)
    } else {
        p.to_owned()
    }
}

/// Prefix containment on `/` boundaries: `p` equals `base` (ignoring
/// trailing slashes of `base`) or continues it right after a separator.
pub open spec fn path_has_prefix(p: Seq<char>, base: Seq<char>) -> bool {
    let b = strip_trailing_slashes(base);
    if b == "/"@ {
        has_prefix(p, "/"@)
    } else {
        p == b || has_prefix(p, b + "/"@)
    }
}

pub fn path_has_prefix_exec(p: &str, base: &str) -> (r: bool)
    ensures
        r == path_has_prefix(p@, base@),
{
    let b = strip_trailing_exec(base);
    if str_eq(b.as_str(), "/") {
        starts_with(p, "/")
    } else if str_eq(p, b.as_str()) {
        true
    } else {
        let sep = b.clone().concat("/");
        starts_with(p, sep.as_str())
    }
}

/// The fixed single-purpose cache directories that may be trashed whole.
pub open spec fn allowed_exact(home: Seq<char>) -> Seq<Seq<char>> {
    seq![
        path_join(home, "Library/Developer/Xcode/DerivedData"@),
        path_join(home, "Library/Developer/Shared/Documentation/DocSets"@),
        path_join(home, "Library/Developer/Xcode/iOS Device Logs"@),
        path_join(home, "Library/Caches/Homebrew"@),
        path_join(home, ".cargo/registry"@),
        path_join(home, ".cargo/git"@),
        path_join(home, ".gradle/caches"@),
        path_join(home, ".npm"@),
        path_join(home, "Library/Caches/Yarn"@),
        path_join(home, "Library/pnpm/store"@),
        path_join(home, ".pnpm-store"@),
    ]
}

pub fn allowed_trash_targets(home_dir: &str) -> (r: Vec<String>)
    ensures
        views_of(r@) == allowed_exact(home_dir@),
{
    let mut v: Vec<String> = Vec::new();
    v.push(path_join_exec(home_dir, "Library/Developer/Xcode/DerivedData"));
    v.push(path_join_exec(home_dir, "Library/Developer/Shared/Documentation/DocSets"));
    v.push(path_join_exec(home_dir, "Library/Developer/Xcode/iOS Device Logs"));
    v.push(path_join_exec(home_dir, "Library/Caches/Homebrew"));
    v.push(path_join_exec(home_dir, ".cargo/registry"));
    v.push(path_join_exec(home_dir, ".cargo/git"));
    v.push(path_join_exec(home_dir, ".gradle/caches"));
    v.push(path_join_exec(home_dir, ".npm"));
    v.push(path_join_exec(home_dir, "Library/Caches/Yarn"));
    v.push(path_join_exec(home_dir, "Library/pnpm/store"));
    v.push(path_join_exec(home_dir, ".pnpm-store"));
    proof {
        assert(views_of(v@) =~= allowed_exact(home_dir@));
    }
    v
}

/// The roots whose strict descendants — but never the root itself — may
/// be trashed: one archive or device snapshot at a time.
pub open spec fn allowed_prefix_roots(home: Seq<char>) -> Seq<Seq<char>> {
    seq![
        path_join(home, "Library/Developer/Xcode/Archives"@),
        path_join(home, "Library/Developer/Xcode/iOS DeviceSupport"@),
        path_join(home, "Library/Developer/CoreSimulator/Devices"@),
    ]
}

pub fn allowed_trash_target_prefixes(home_dir: &str) -> (r: Vec<String>)
    ensures
        views_of(r@) == allowed_prefix_roots(home_dir@),
{
    let mut v: Vec<String> = Vec::new();
    v.push(path_join_exec(home_dir, "Library/Developer/Xcode/Archives"));
    v.push(path_join_exec(home_dir, "Library/Developer/Xcode/iOS DeviceSupport"));
    v.push(path_join_exec(home_dir, "Library/Developer/CoreSimulator/Devices"));
    proof {
        assert(views_of(v@) =~= allowed_prefix_roots(home_dir@));
    }
    v
}

/// Ghost model of a validation error: the variant with the offending
/// path as given by the caller.
pub enum ErrorModel {
    NotAbsolute(Seq<char>),
    Root(Seq<char>),
    Outside(Seq<char>),
    NotAllowed(Seq<char>),
    DeleteForbidden,
}

/// Why a validation error belongs to the `InvalidPath` class rather than
/// the allowlist class.
pub open spec fn is_invalid_path_error(e: ErrorModel) -> bool {
    e is NotAbsolute || e is Root || e is Outside
}

#[derive(Debug, Clone, PartialEq, Eq)]
pub enum ValidateError {
    NotAbsolute { path: String },
    RootRejected { path: String },
    OutsideHome { path: String },
    NotAllowlisted { path: String },
    DeleteForbidden,
}

impl ValidateError {
    pub open spec fn model(self) -> ErrorModel {
        match self {
            ValidateError::NotAbsolute { path } => ErrorModel::NotAbsolute(path@),
            ValidateError::RootRejected { path } => ErrorModel::Root(path@),
            ValidateError::OutsideHome { path } => ErrorModel::Outside(path@),
            ValidateError::NotAllowlisted { path } => ErrorModel::NotAllowed(path@),
            ValidateError::DeleteForbidden => ErrorModel::DeleteForbidden,
        }
    }

    /// A complete sentence naming the offending path.
    pub fn message(&self) -> (m: String)
        ensures
            m@ == error_message(self.model()),
    {
        match self {
            ValidateError::NotAbsolute { path } => {
                let mut m = String::from_str("path must be absolute or start with ~/: ");
                m.append(path.as_str());
                proof {
                    assert(m@ =~= "path must be absolute or start with ~/: "@ + path@);
                }
                m
            },
            ValidateError::RootRejected { path } => {
                let mut m = String::from_str("refusing to operate on the filesystem root: ");
                m.append(path.as_str());
                proof {
                    assert(m@ =~= "refusing to operate on the filesystem root: "@ + path@);
                }
                m
            },
            ValidateError::OutsideHome { path } => {
                let mut m = String::from_str("path must live under the home directory: ");
                m.append(path.as_str());
                proof {
                    assert(m@ =~= "path must live under the home directory: "@ + path@);
                }
                m
            },
            ValidateError::NotAllowlisted { path } => {
                let mut m = String::from_str("path is not in the trash-move allowlist: ");
                m.append(path.as_str());
                proof {
                    assert(m@ =~= "path is not in the trash-move allowlist: "@ + path@);
                }
                m
            },
            ValidateError::DeleteForbidden => {
                String::from_str("DELETE is not permitted; use TRASH_MOVE instead")
            },
        }
    }
}

pub open spec fn error_message(e: ErrorModel) -> Seq<char> {
    match e {
        ErrorModel::NotAbsolute(p) => "path must be absolute or start with ~/: "@ + p,
        ErrorModel::Root(p) => "refusing to operate on the filesystem root: "@ + p,
        ErrorModel::Outside(p) => "path must live under the home directory: "@ + p,
        ErrorModel::NotAllowed(p) => "path is not in the trash-move allowlist: "@ + p,
        ErrorModel::DeleteForbidden => "DELETE is not permitted; use TRASH_MOVE instead"@,
    }
}

/// The expanded path equals one of the fixed cache directories.
pub open spec fn in_exact_allowlist(e: Seq<char>, home: Seq<char>) -> bool {
    exists|i: int| 0 <= i < allowed_exact(home).len() && #[trigger] allowed_exact(home)[i] == e
}

/// The expanded path is a strict descendant of one of the prefix roots.
pub open spec fn under_prefix_root(e: Seq<char>, home: Seq<char>) -> bool {
    exists|i: int|
        0 <= i < allowed_prefix_roots(home).len() && path_has_prefix(
            e,
            #[trigger] allowed_prefix_roots(home)[i],
        ) && e != allowed_prefix_roots(home)[i]
}

/// The expanded path as it is compared and returned: trailing slashes
/// carry no meaning on a path, so they are dropped first.
pub open spec fn normalized_target(path: Seq<char>, home: Seq<char>) -> Seq<char> {
    strip_trailing_slashes(expand_tilde_spec(path, home))
}

/// The whole verdict on one path, `None` meaning it may be trashed.
pub open spec fn target_error(path: Seq<char>, home: Seq<char>) -> Option<ErrorModel> {
    let e = normalized_target(path, home);
    if !(e.len() > 0 && e[0] == '/') {
        Some(ErrorModel::NotAbsolute(path))
    } else if e == "/"@ {
        Some(ErrorModel::Root(path))
    } else if !path_has_prefix(e, home) {
        Some(ErrorModel::Outside(path))
    } else if in_exact_allowlist(e, home) {
        None
    } else if under_prefix_root(e, home) {
        None
    } else {
        Some(ErrorModel::NotAllowed(path))
    }
}

/// Validates one trash target against the home directory, returning the
/// expanded absolute path exactly when [`target_error`] clears it.
pub fn validate_trash_target(path: &str, home_dir: &str) -> (r: Result<String, ValidateError>)
    ensures
        match r {
            Ok(p) => target_error(path@, home_dir@) is None && p@ == normalized_target(
                path@,
                home_dir@,
            ),
            Err(e) => target_error(path@, home_dir@) == Some(e.model()),
        },
{
    let tilde_expanded = expand_tilde(path, home_dir);
    let expanded = strip_trailing_exec(tilde_expanded.as_str());
    let en = expanded.as_str().unicode_len();
    if !(en > 0 && expanded.as_str().get_char(0) == '/') {
        return Err(ValidateError::NotAbsolute { path: path.to_owned() });
    }
    if str_eq(expanded.as_str(), "/") {
        return Err(ValidateError::RootRejected { path: path.to_owned() });
    }
    if !path_has_prefix_exec(expanded.as_str(), home_dir) {
        return Err(ValidateError::OutsideHome { path: path.to_owned() });
    }
    let allowed = allowed_trash_targets(home_dir);
    let mut i: usize = 0;
    while i < allowed.len()
        invariant
            views_of(allowed@) == allowed_exact(home_dir@),
            i <= allowed@.len(),
            forall|j: int| 0 <= j < i ==> #[trigger] allowed_exact(home_dir@)[j] != expanded@,
            expanded@ == normalized_target(path@, home_dir@),
            expanded@.len() > 0 && expanded@[0] == '/',
            expanded@ != "/"@,
            path_has_prefix(expanded@, home_dir@),
        decreases allowed@.len() - i,
    {
        proof {
            assert(allowed_exact(home_dir@)[i as int] == allowed@[i as int]@);
        }
        if str_eq(expanded.as_str(), allowed[i].as_str()) {
            proof {
                assert(in_exact_allowlist(expanded@, home_dir@));
            }
            return Ok(expanded);
        }
        i += 1;
    }
    let prefixes = allowed_trash_target_prefixes(home_dir);
    let mut k: usize = 0;
    while k < prefixes.len()
        invariant
            views_of(prefixes@) == allowed_prefix_roots(home_dir@),
            k <= prefixes@.len(),
            forall|j: int| 0 <= j < k ==> !(path_has_prefix(
                expanded@,
                #[trigger] allowed_prefix_roots(home_dir@)[j],
            ) && expanded@ != allowed_prefix_roots(home_dir@)[j]),
            forall|j: int| 0 <= j < allowed_exact(home_dir@).len()
                ==> #[trigger] allowed_exact(home_dir@)[j] != expanded@,
            target_error(path@, home_dir@) is None || target_error(path@, home_dir@) == Some(
                ErrorModel::NotAllowed(path@),
            ),
            expanded@ == normalized_target(path@, home_dir@),
        decreases prefixes@.len() - k,
    {
        proof {
            assert(allowed_prefix_roots(home_dir@)[k as int] == prefixes@[k as int]@);
        }
        if path_has_prefix_exec(expanded.as_str(), prefixes[k].as_str()) && !str_eq(
            expanded.as_str(),
            prefixes[k].as_str(),
        ) {
            proof {
                assert(under_prefix_root(expanded@, home_dir@));
            }
            return Ok(expanded);
        }
        k += 1;
    }
    Err(ValidateError::NotAllowlisted { path: path.to_owned() })
}

/// The first failing path of a trash-move list, scanned in order.
pub open spec fn first_path_error(paths: Seq<Seq<char>>, home: Seq<char>) -> Option<ErrorModel>
    decreases paths.len(),
{
    if paths.len() == 0 {
        None
    } else if target_error(paths[0], home) is Some {
        target_error(paths[0], home)
    } else {
        first_path_error(paths.drop_first(), home)
    }
}

proof fn lemma_first_path_error_skip(paths: Seq<Seq<char>>, home: Seq<char>, i: int)
    requires
        0 <= i <= paths.len(),
        forall|j: int| 0 <= j < i ==> target_error(#[trigger] paths[j], home) is None,
    ensures
        first_path_error(paths, home) == first_path_error(
            paths.subrange(i, paths.len() as int),
            home,
        ),
    decreases i,
{
    if i == 0 {
        assert(paths.subrange(0, paths.len() as int) =~= paths);
    } else {
        lemma_first_path_error_skip(paths.drop_first(), home, i - 1);
        assert(paths.drop_first().subrange(i - 1, paths.drop_first().len() as int)
            =~= paths.subrange(i, paths.len() as int));
    }
}

/// The verdict on one action: `Delete` always fails, a `TrashMove` fails
/// on its first invalid path, everything else passes trivially.
pub open spec fn action_error(a: ActionPlan, home: Seq<char>) -> Option<ErrorModel> {
    match a.kind {
        ActionKind::TrashMove { paths } => first_path_error(views_of(paths@), home),
        ActionKind::Delete { .. } => Some(ErrorModel::DeleteForbidden),
        _ => None,
    }
}

/// Validates one action, exactly as [`action_error`] says.
pub fn validate_action(action: &ActionPlan, home_dir: &str) -> (r: Result<(), ValidateError>)
    ensures
        match r {
            Ok(_) => action_error(*action, home_dir@) is None,
            Err(e) => action_error(*action, home_dir@) == Some(e.model()),
        },
{
    match &action.kind {
        ActionKind::TrashMove { paths } => {
            let ghost pv = views_of(paths@);
            let mut i: usize = 0;
            while i < paths.len()
                invariant
                    pv == views_of(paths@),
                    i <= paths@.len(),
                    forall|j: int| 0 <= j < i ==> target_error(#[trigger] pv[j], home_dir@)
                        is None,
                    action_error(*action, home_dir@) == first_path_error(pv, home_dir@),
                decreases paths@.len() - i,
            {
                proof {
                    assert(pv[i as int] == paths@[i as int]@);
                }
                match validate_trash_target(paths[i].as_str(), home_dir) {
                    Ok(_) => {},
                    Err(e) => {
                        proof {
                            lemma_first_path_error_skip(pv, home_dir@, i as int);
                            assert(pv.subrange(i as int, pv.len() as int)[0] == pv[i as int]);
                            assert(first_path_error(pv, home_dir@) == Some(e.model()));
                        }
                        return Err(e);
                    },
                }
                i += 1;
            }
            proof {
                lemma_first_path_error_skip(pv, home_dir@, pv.len() as int);
            }
            Ok(())
        },
        ActionKind::Delete { .. } => Err(ValidateError::DeleteForbidden),
        ActionKind::RunCmd { .. } => Ok(()),
        ActionKind::OpenInFinder { .. } => Ok(()),
        ActionKind::ShowInstructions { .. } => Ok(()),
    }
}

/// The first failing action of a batch, scanned in order.
pub open spec fn batch_error(actions: Seq<ActionPlan>, home: Seq<char>) -> Option<ErrorModel>
    decreases actions.len(),
{
    if actions.len() == 0 {
        None
    } else if action_error(actions[0], home) is Some {
        action_error(actions[0], home)
    } else {
        batch_error(actions.drop_first(), home)
    }
}

proof fn lemma_batch_error_skip(actions: Seq<ActionPlan>, home: Seq<char>, i: int)
    requires
        0 <= i <= actions.len(),
        forall|j: int| 0 <= j < i ==> action_error(#[trigger] actions[j], home) is None,
    ensures
        batch_error(actions, home) == batch_error(
            actions.subrange(i, actions.len() as int),
            home,
        ),
    decreases i,
{
    if i == 0 {
        assert(actions.subrange(0, actions.len() as int) =~= actions);
    } else {
        lemma_batch_error_skip(actions.drop_first(), home, i - 1);
        assert(actions.drop_first().subrange(i - 1, actions.drop_first().len() as int)
            =~= actions.subrange(i, actions.len() as int));
    }
}

/// Validates a whole batch before any mutation, fail-closed: the first
/// invalid path of the first invalid action aborts everything.
pub fn validate_actions(actions: &Vec<ActionPlan>, home_dir: &str) -> (r: Result<
    (),
    ValidateError,
>)
    ensures
        match r {
            Ok(_) => batch_error(actions@, home_dir@) is None,
            Err(e) => batch_error(actions@, home_dir@) == Some(e.model()),
        },
{
    let mut i: usize = 0;
    while i < actions.len()
        invariant
            i <= actions@.len(),
            forall|j: int| 0 <= j < i ==> action_error(#[trigger] actions@[j], home_dir@)
                is None,
        decreases actions@.len() - i,
    {
        match validate_action(&actions[i], home_dir) {
            Ok(_) => {},
            Err(e) => {
                proof {
                    lemma_batch_error_skip(actions@, home_dir@, i as int);
                    assert(actions@.subrange(i as int, actions@.len() as int)[0]
                        == actions@[i as int]);
                }
                return Err(e);
            },
        }
        i += 1;
    }
    proof {
        lemma_batch_error_skip(actions@, home_dir@, actions@.len() as int);
    }
    Ok(())
}

/// Position of the last `/` of `q`, or -1 if there is none.
pub open spec fn last_slash(q: Seq<char>) -> int
    decreases q.len(),
{
    if q.len() == 0 {
        -1
    } else if q[q.len() - 1] == '/' {
        q.len() - 1
    } else {
        last_slash(q.drop_last())
    }
}

proof fn lemma_last_slash_is(q: Seq<char>, i: int)
    requires
        -1 <= i < q.len() || (q.len() == 0 && i == -1),
        i >= 0 ==> q[i] == '/',
        forall|j: int| i < j < q.len() ==> q[j] != '/',
    ensures
        last_slash(q) == i,
    decreases q.len(),
{
    if q.len() > 0 && q[q.len() - 1] != '/' {
        lemma_last_slash_is(q.drop_last(), i);
    }
}

/// The final path component: what is left after the last `/` once
/// trailing slashes are dropped; nothing for the root or a path ending in
/// a `.` or `..` component.
pub open spec fn file_name_spec(p: Seq<char>) -> Option<Seq<char>> {
    let q = strip_trailing_slashes(p);
    let name = q.subrange(last_slash(q) + 1, q.len() as int);
    if name.len() == 0 || name == "."@ || name == ".."@ {
        None
    } else {
        Some(name)
    }
}

pub fn file_name_of(p: &str) -> (r: Option<String>)
    ensures
        match r {
            Some(n) => file_name_spec(p@) == Some(n@),
            None => file_name_spec(p@) is None,
        },
{
    let q = strip_trailing_exec(p);
    let qs = q.as_str();
    let n = qs.unicode_len();
    let mut i: usize = n;
    while i > 0
        invariant
            qs@ == strip_trailing_slashes(p@),
            n == qs@.len(),
            i <= n,
            forall|j: int| i <= j < n ==> qs@[j] != '/',
        decreases i,
    {
        if qs.get_char(i - 1) == '/' {
            proof {
                lemma_last_slash_is(qs@, i - 1);
            }
            let name = qs.substring_char(i, n);
            if name.unicode_len() == 0 || str_eq(name, ".") || str_eq(name, "..") {
                return None;
            }
            return Some(name.to_owned());
        }
        i -= 1;
    }
    proof {
        lemma_last_slash_is(qs@, -1);
    }
    let name = qs.substring_char(0, n);
    if name.unicode_len() == 0 || str_eq(name, ".") || str_eq(name, "..") {
        return None;
    }
    Some(name.to_owned())
}

/// The trash directory lives directly under the home directory.
pub fn trash_dir_of(home_dir: &str) -> (r: String)
    ensures
        r@ == path_join(home_dir@, ".Trash"@),
{
    path_join_exec(home_dir, ".Trash")
}

/// The `i`-th fallback name probed when the plain name is taken.
pub open spec fn suffixed(name: Seq<char>, i: nat) -> Seq<char> {
    name + ".macdiet-"@ + dec_digits(i)
}

/// `name` is among the names already present.
pub open spec fn occupied(occ: Seq<Seq<char>>, name: Seq<char>) -> bool {
    exists|j: int| 0 <= j < occ.len() && occ[j] == name
}

pub fn contains_name(occ: &Vec<String>, name: &str) -> (r: bool)
    ensures
        r == occupied(views_of(occ@), name@),
{
    let mut i: usize = 0;
    while i < occ.len()
        invariant
            i <= occ@.len(),
            forall|j: int| 0 <= j < i ==> views_of(occ@)[j] != name@,
        decreases occ@.len() - i,
    {
        proof {
            assert(views_of(occ@)[i as int] == occ@[i as int]@);
        }
        if str_eq(occ[i].as_str(), name) {
            return true;
        }
        i += 1;
    }
    false
}

/// The first free suffix number at or after `i`, probing up to 1000;
/// -1 when every slot is taken.
pub open spec fn first_free_from(name: Seq<char>, occ: Seq<Seq<char>>, i: int) -> int
    decreases 1001 - i,
{
    if i < 1 || i > 1000 {
        -1
    } else if !occupied(occ, suffixed(name, i as nat)) {
        i
    } else {
        first_free_from(name, occ, i + 1)
    }
}

proof fn lemma_first_free_skip(name: Seq<char>, occ: Seq<Seq<char>>, i: int)
    requires
        1 <= i <= 1001,
        forall|k: int| 1 <= k < i ==> occupied(occ, #[trigger] suffixed(name, k as nat)),
    ensures
        first_free_from(name, occ, 1) == first_free_from(name, occ, i),
    decreases i,
{
    if i > 1 {
        lemma_first_free_skip(name, occ, i - 1);
    }
}

proof fn lemma_first_free_props(name: Seq<char>, occ: Seq<Seq<char>>, i: int)
    ensures
        first_free_from(name, occ, i) >= 0 ==> {
            &&& i <= first_free_from(name, occ, i) <= 1000
            &&& !occupied(occ, suffixed(name, first_free_from(name, occ, i) as nat))
        },
    decreases 1001 - i,
{
    if 1 <= i <= 1000 && occupied(occ, suffixed(name, i as nat)) {
        lemma_first_free_props(name, occ, i + 1);
    }
}

/// The destination name a move should use: the plain name when free,
/// else the first free suffixed variant, else nothing.
pub open spec fn dest_choice(name: Seq<char>, occ: Seq<Seq<char>>) -> Option<Seq<char>> {
    if !occupied(occ, name) {
        Some(name)
    } else {
        let i = first_free_from(name, occ, 1);
        if i < 0 {
            None
        } else {
            Some(suffixed(name, i as nat))
        }
    }
}

/// Picks the destination name for a move into a directory already holding
/// `occupied_names`, exactly as [`dest_choice`] says.
pub fn choose_trash_dest(file_name: &str, occupied_names: &Vec<String>) -> (r: Option<String>)
    ensures
        match r {
            Some(d) => dest_choice(file_name@, views_of(occupied_names@)) == Some(d@),
            None => dest_choice(file_name@, views_of(occupied_names@)) is None,
        },
{
    let ghost ov = views_of(occupied_names@);
    if !contains_name(occupied_names, file_name) {
        return Some(file_name.to_owned());
    }
    let mut i: u64 = 1;
    while i <= 1000
        invariant
            1 <= i <= 1001,
            occupied(ov, file_name@),
            ov == views_of(occupied_names@),
            forall|k: int| 1 <= k < i ==> occupied(ov, #[trigger] suffixed(file_name@, k as nat)),
        decreases 1001 - i,
    {
        let mut cand = file_name.to_owned();
        cand.append(".macdiet-");
        let digits = fmt_u64(i);
        cand.append(digits.as_str());
        proof {
            assert(cand@ =~= suffixed(file_name@, i as nat));
        }
        if !contains_name(occupied_names, cand.as_str()) {
            proof {
                lemma_first_free_skip(file_name@, ov, i as int);
            }
            return Some(cand);
        }
        i += 1;
    }
    proof {
        lemma_first_free_skip(file_name@, ov, 1001);
    }
    None
}

/// A chosen destination never collides: it is not among the occupied
/// names, and when the plain name was taken it is a suffixed variant.
pub proof fn lemma_trash_dest_is_safe(name: Seq<char>, occ: Seq<Seq<char>>)
    ensures
        match dest_choice(name, occ) {
            Some(d) => !occupied(occ, d) && (occupied(occ, name) ==> exists|i: nat|
                1 <= i <= 1000 && d == suffixed(name, i)),
            None => true,
        },
{
    if occupied(occ, name) {
        lemma_first_free_props(name, occ, 1);
        if first_free_from(name, occ, 1) >= 0 {
            let i = first_free_from(name, occ, 1);
            assert(1 <= i as nat <= 1000 && dest_choice(name, occ)->0 == suffixed(name, i as nat));
        }
    }
}

/// Repeating a move never lands on a name that already exists — in
/// particular never on the destination an earlier identical move used.
pub proof fn lemma_trash_dest_never_reused(name: Seq<char>, occ: Seq<Seq<char>>, prior: Seq<char>)
    requires
        occupied(occ, prior),
    ensures
        dest_choice(name, occ) != Some(prior),
{
    lemma_trash_dest_is_safe(name, occ);
}

/// Result of applying a batch of trash moves: per-path outcomes in the
/// caller-supplied order, never rolled back.
#[derive(Debug, Clone, PartialEq, Eq)]
pub struct ApplyOutcome {
    pub moved: Vec<TrashMoveRecord>,
    pub skipped_missing: Vec<String>,
    pub errors: Vec<TrashMoveError>,
}

#[derive(Debug, Clone, PartialEq, Eq)]
pub struct TrashMoveRecord {
    pub from: String,
    pub to: String,
}

#[derive(Debug, Clone, PartialEq, Eq)]
pub struct TrashMoveError {
    pub path: String,
    pub error: String,
}

impl ApplyOutcome {
    /// The empty outcome a batch starts from.
    pub fn empty() -> (r: ApplyOutcome)
        ensures
            r.moved@.len() == 0,
            r.skipped_missing@.len() == 0,
            r.errors@.len() == 0,
    {
        ApplyOutcome { moved: Vec::new(), skipped_missing: Vec::new(), errors: Vec::new() }
    }
}

/// What the filesystem reported for one path of a batch.
#[derive(Debug, Clone, PartialEq, Eq)]
pub enum TrashMoveEvent {
    /// The source vanished between validation and execution — benign.
    Missing,
    /// The rename succeeded, to this destination.
    Moved { to: String },
    /// The rename failed; the batch continues with the next path.
    Failed { error: String },
}

/// Folds one path's event into the outcome: a missing source goes to
/// `skipped_missing` — never to `errors` — and each event touches exactly
/// one of the three lists, so no earlier entry is ever undone.
pub fn record_trash_move(outcome: &mut ApplyOutcome, path: String, event: TrashMoveEvent)
    ensures
        event matches TrashMoveEvent::Missing ==> {
            &&& final(outcome).skipped_missing@ == old(outcome).skipped_missing@.push(path)
            &&& final(outcome).moved@ == old(outcome).moved@
            &&& final(outcome).errors@ == old(outcome).errors@
        },
        event matches TrashMoveEvent::Moved { to } ==> {
            &&& final(outcome).moved@ == old(outcome).moved@.push(
                TrashMoveRecord { from: path, to },
            )
            &&& final(outcome).skipped_missing@ == old(outcome).skipped_missing@
            &&& final(outcome).errors@ == old(outcome).errors@
        },
        event matches TrashMoveEvent::Failed { error } ==> {
            &&& final(outcome).errors@ == old(outcome).errors@.push(
                TrashMoveError { path, error },
            )
            &&& final(outcome).moved@ == old(outcome).moved@
            &&& final(outcome).skipped_missing@ == old(outcome).skipped_missing@
        },
{
    match event {
        TrashMoveEvent::Missing => {
            outcome.skipped_missing.push(path);
        },
        TrashMoveEvent::Moved { to } => {
            outcome.moved.push(TrashMoveRecord { from: path, to });
        },
        TrashMoveEvent::Failed { error } => {
            outcome.errors.push(TrashMoveError { path, error });
        },
    }
}


/// A home directory in the form the validator expects: absolute, more
/// than the bare root, and ending in neither a separator nor whitespace.
pub open spec fn sane_home(home: Seq<char>) -> bool {
    &&& home.len() > 1
    &&& home[0] == '/'
    &&& home[home.len() - 1] != '/'
    &&& !is_space_char(home[home.len() - 1])
}

proof fn lemma_trim_id(s: Seq<char>)
    requires
        s.len() > 0,
        !is_space_char(s[0]),
        !is_space_char(s[s.len() - 1]),
    ensures
        trim_spec(s) == s,
{
    assert(s.subrange(0, s.len() as int) =~= s);
}

proof fn lemma_strip_id(s: Seq<char>)
    requires
        s.len() > 0 ==> s[s.len() - 1] != '/',
    ensures
        strip_trailing_slashes(s) == s,
{
}

/// Shape of `path_join(home, rel)` for a relative `rel` under a sane home.
proof fn lemma_join_shape(home: Seq<char>, rel: Seq<char>)
    requires
        sane_home(home),
        rel.len() > 0,
        rel[0] != '/',
    ensures
        path_join(home, rel) == home + "/"@ + rel,
        path_join(home, rel).len() == home.len() + 1 + rel.len(),
        path_join(home, rel)[0] == '/',
        path_join(home, rel)[path_join(home, rel).len() - 1] == rel[rel.len() - 1],
        has_prefix(path_join(home, rel), home + "/"@),
        forall|k: int| 0 <= k < rel.len() ==> path_join(home, rel)[home.len() + 1 + k]
            == rel[k],
    decreases rel.len(),
{
    reveal_strlit("/");
    let d = home + "/"@ + rel;
    assert(d[0] == home[0]);
    assert(d[d.len() - 1] == rel[rel.len() - 1]);
    assert(d.subrange(0, home.len() as int + 1) =~= home + "/"@);
    assert forall|k: int| 0 <= k < rel.len() implies d[home.len() + 1 + k] == rel[k] by {
        assert(d[home.len() + 1 + k] == rel[k]);
    }
}

/// A relative entry joined under a sane home survives expansion and
/// normalization unchanged and clears the absolute, root and home checks.
proof fn lemma_joined_entry_clears_path_checks(home: Seq<char>, rel: Seq<char>)
    requires
        sane_home(home),
        rel.len() > 0,
        rel[0] != '/',
        rel[rel.len() - 1] != '/',
        !is_space_char(rel[rel.len() - 1]),
    ensures
        normalized_target(path_join(home, rel), home) == path_join(home, rel),
        path_join(home, rel).len() > 0,
        path_join(home, rel)[0] == '/',
        path_join(home, rel) != "/"@,
        path_has_prefix(path_join(home, rel), home),
{
    lemma_join_shape(home, rel);
    let d = path_join(home, rel);
    reveal_strlit("/");
    reveal_strlit("~");
    reveal_strlit("~/");
    lemma_trim_id(d);
    assert(d != "~"@);
    if has_prefix(d, "~/"@) {
        assert(d.subrange(0, 2)[0] == d[0]);
    }
    assert(expand_tilde_spec(d, home) == d);
    lemma_strip_id(d);
    lemma_strip_id(home);
    assert(home != "/"@);
    assert(path_has_prefix(d, home));
}

/// Joining two different relative paths under one home gives different
/// absolute paths.
proof fn lemma_join_ne(home: Seq<char>, a: Seq<char>, b: Seq<char>)
    requires
        sane_home(home),
        a.len() > 0,
        a[0] != '/',
        b.len() > 0,
        b[0] != '/',
        a != b,
    ensures
        path_join(home, a) != path_join(home, b),
{
    lemma_join_shape(home, a);
    lemma_join_shape(home, b);
    if path_join(home, a) == path_join(home, b) {
        crate::text::lemma_concat_inj(home + "/"@, a, b);
    }
}

/// `path_join(home, a)` does not sit under `path_join(home, b)` when the
/// two relatives differ before either could end.
proof fn lemma_join_not_prefix_idx(home: Seq<char>, a: Seq<char>, b: Seq<char>, k: int)
    requires
        sane_home(home),
        a.len() > 0,
        a[0] != '/',
        a[a.len() - 1] != '/',
        b.len() > 0,
        b[0] != '/',
        b[b.len() - 1] != '/',
        0 <= k < a.len(),
        k < b.len(),
        a[k] != b[k],
    ensures
        !path_has_prefix(path_join(home, a), path_join(home, b)),
{
    lemma_join_shape(home, a);
    lemma_join_shape(home, b);
    let pa = path_join(home, a);
    let pb = path_join(home, b);
    lemma_strip_id(pb);
    reveal_strlit("/");
    assert(pb != "/"@);
    if pa == pb {
        crate::text::lemma_concat_inj(home + "/"@, a, b);
    }
    if has_prefix(pa, pb + "/"@) {
        let idx = home.len() + 1 + k;
        assert(pa.subrange(0, (pb + "/"@).len() as int)[idx] == pa[idx]);
        assert(pa[idx] == a[k]);
        assert((pb + "/"@)[idx] == pb[idx]);
        assert(pb[idx] == b[k]);
    }
}

/// Nor when `b` is too long ever to be a strict ancestor of `a`.
proof fn lemma_join_not_prefix_len(home: Seq<char>, a: Seq<char>, b: Seq<char>)
    requires
        sane_home(home),
        a.len() > 0,
        a[0] != '/',
        b.len() > 0,
        b[0] != '/',
        b[b.len() - 1] != '/',
        a.len() != b.len(),
        a.len() < b.len() + 1,
    ensures
        !path_has_prefix(path_join(home, a), path_join(home, b)),
{
    lemma_join_shape(home, a);
    lemma_join_shape(home, b);
    let pa = path_join(home, a);
    let pb = path_join(home, b);
    lemma_strip_id(pb);
    reveal_strlit("/");
    assert(pb != "/"@);
    assert(pa.len() != pb.len());
    assert(pa.len() < (pb + "/"@).len());
}


/// Every fixed cache directory passes validation as a trash target.
pub proof fn lemma_exact_allowlist_accepted(home: Seq<char>, i: int)
    requires
        sane_home(home),
        0 <= i < allowed_exact(home).len(),
    ensures
        target_error(allowed_exact(home)[i], home) is None,
{
    if i == 0 {
        reveal_strlit("Library/Developer/Xcode/DerivedData");
        lemma_joined_entry_clears_path_checks(home, "Library/Developer/Xcode/DerivedData"@);
    } else if i == 1 {
        reveal_strlit("Library/Developer/Shared/Documentation/DocSets");
        lemma_joined_entry_clears_path_checks(home, "Library/Developer/Shared/Documentation/DocSets"@);
    } else if i == 2 {
        reveal_strlit("Library/Developer/Xcode/iOS Device Logs");
        lemma_joined_entry_clears_path_checks(home, "Library/Developer/Xcode/iOS Device Logs"@);
    } else if i == 3 {
        reveal_strlit("Library/Caches/Homebrew");
        lemma_joined_entry_clears_path_checks(home, "Library/Caches/Homebrew"@);
    } else if i == 4 {
        reveal_strlit(".cargo/registry");
        lemma_joined_entry_clears_path_checks(home, ".cargo/registry"@);
    } else if i == 5 {
        reveal_strlit(".cargo/git");
        lemma_joined_entry_clears_path_checks(home, ".cargo/git"@);
    } else if i == 6 {
        reveal_strlit(".gradle/caches");
        lemma_joined_entry_clears_path_checks(home, ".gradle/caches"@);
    } else if i == 7 {
        reveal_strlit(".npm");
        lemma_joined_entry_clears_path_checks(home, ".npm"@);
    } else if i == 8 {
        reveal_strlit("Library/Caches/Yarn");
        lemma_joined_entry_clears_path_checks(home, "Library/Caches/Yarn"@);
    } else if i == 9 {
        reveal_strlit("Library/pnpm/store");
        lemma_joined_entry_clears_path_checks(home, "Library/pnpm/store"@);
    } else if i == 10 {
        reveal_strlit(".pnpm-store");
        lemma_joined_entry_clears_path_checks(home, ".pnpm-store"@);
    }
    assert(in_exact_allowlist(allowed_exact(home)[i], home));
}


/// Each prefix root itself is rejected: trashing a whole archive or
/// device-store root is too broad an action, whatever the allowlist
/// otherwise permits.
pub proof fn lemma_prefix_root_rejected(home: Seq<char>, i: int)
    requires
        sane_home(home),
        0 <= i < allowed_prefix_roots(home).len(),
    ensures
        target_error(allowed_prefix_roots(home)[i], home) == Some(
            ErrorModel::NotAllowed(allowed_prefix_roots(home)[i]),
        ),
{
    reveal_strlit("Library/Developer/Xcode/DerivedData");
    reveal_strlit("Library/Developer/Shared/Documentation/DocSets");
    reveal_strlit("Library/Developer/Xcode/iOS Device Logs");
    reveal_strlit("Library/Caches/Homebrew");
    reveal_strlit(".cargo/registry");
    reveal_strlit(".cargo/git");
    reveal_strlit(".gradle/caches");
    reveal_strlit(".npm");
    reveal_strlit("Library/Caches/Yarn");
    reveal_strlit("Library/pnpm/store");
    reveal_strlit(".pnpm-store");
    reveal_strlit("Library/Developer/Xcode/Archives");
    reveal_strlit("Library/Developer/Xcode/iOS DeviceSupport");
    reveal_strlit("Library/Developer/CoreSimulator/Devices");
    if i == 0 {
        let rlit = "Library/Developer/Xcode/Archives"@;
        lemma_joined_entry_clears_path_checks(home, rlit);
        let r = allowed_prefix_roots(home)[i];
        assert forall|j: int| 0 <= j < allowed_exact(home).len() implies #[trigger] allowed_exact(home)[j] != r by {
            if j == 0 {
                lemma_join_ne(home, "Library/Developer/Xcode/DerivedData"@, rlit);
            } else if j == 1 {
                lemma_join_ne(home, "Library/Developer/Shared/Documentation/DocSets"@, rlit);
            } else if j == 2 {
                lemma_join_ne(home, "Library/Developer/Xcode/iOS Device Logs"@, rlit);
            } else if j == 3 {
                lemma_join_ne(home, "Library/Caches/Homebrew"@, rlit);
            } else if j == 4 {
                lemma_join_ne(home, ".cargo/registry"@, rlit);
            } else if j == 5 {
                lemma_join_ne(home, ".cargo/git"@, rlit);
            } else if j == 6 {
                lemma_join_ne(home, ".gradle/caches"@, rlit);
            } else if j == 7 {
                lemma_join_ne(home, ".npm"@, rlit);
            } else if j == 8 {
                lemma_join_ne(home, "Library/Caches/Yarn"@, rlit);
            } else if j == 9 {
                lemma_join_ne(home, "Library/pnpm/store"@, rlit);
            } else if j == 10 {
                lemma_join_ne(home, ".pnpm-store"@, rlit);
            }
        }
        assert(!in_exact_allowlist(r, home));
        assert forall|j: int| 0 <= j < allowed_prefix_roots(home).len() implies !(path_has_prefix(
            r,
            #[trigger] allowed_prefix_roots(home)[j],
        ) && r != allowed_prefix_roots(home)[j]) by {
            if j == 1 {
                lemma_join_not_prefix_len(home, rlit, "Library/Developer/Xcode/iOS DeviceSupport"@);
            } else if j == 2 {
                lemma_join_not_prefix_len(home, rlit, "Library/Developer/CoreSimulator/Devices"@);
            }
        }
        assert(!under_prefix_root(r, home));
    } else if i == 1 {
        let rlit = "Library/Developer/Xcode/iOS DeviceSupport"@;
        lemma_joined_entry_clears_path_checks(home, rlit);
        let r = allowed_prefix_roots(home)[i];
        assert forall|j: int| 0 <= j < allowed_exact(home).len() implies #[trigger] allowed_exact(home)[j] != r by {
            if j == 0 {
                lemma_join_ne(home, "Library/Developer/Xcode/DerivedData"@, rlit);
            } else if j == 1 {
                lemma_join_ne(home, "Library/Developer/Shared/Documentation/DocSets"@, rlit);
            } else if j == 2 {
                lemma_join_ne(home, "Library/Developer/Xcode/iOS Device Logs"@, rlit);
            } else if j == 3 {
                lemma_join_ne(home, "Library/Caches/Homebrew"@, rlit);
            } else if j == 4 {
                lemma_join_ne(home, ".cargo/registry"@, rlit);
            } else if j == 5 {
                lemma_join_ne(home, ".cargo/git"@, rlit);
            } else if j == 6 {
                lemma_join_ne(home, ".gradle/caches"@, rlit);
            } else if j == 7 {
                lemma_join_ne(home, ".npm"@, rlit);
            } else if j == 8 {
                lemma_join_ne(home, "Library/Caches/Yarn"@, rlit);
            } else if j == 9 {
                lemma_join_ne(home, "Library/pnpm/store"@, rlit);
            } else if j == 10 {
                lemma_join_ne(home, ".pnpm-store"@, rlit);
            }
        }
        assert(!in_exact_allowlist(r, home));
        assert forall|j: int| 0 <= j < allowed_prefix_roots(home).len() implies !(path_has_prefix(
            r,
            #[trigger] allowed_prefix_roots(home)[j],
        ) && r != allowed_prefix_roots(home)[j]) by {
            if j == 0 {
                lemma_join_not_prefix_idx(home, rlit, "Library/Developer/Xcode/Archives"@, 24);
            } else if j == 2 {
                lemma_join_not_prefix_idx(home, rlit, "Library/Developer/CoreSimulator/Devices"@, 18);
            }
        }
        assert(!under_prefix_root(r, home));
    } else if i == 2 {
        let rlit = "Library/Developer/CoreSimulator/Devices"@;
        lemma_joined_entry_clears_path_checks(home, rlit);
        let r = allowed_prefix_roots(home)[i];
        assert forall|j: int| 0 <= j < allowed_exact(home).len() implies #[trigger] allowed_exact(home)[j] != r by {
            if j == 0 {
                lemma_join_ne(home, "Library/Developer/Xcode/DerivedData"@, rlit);
            } else if j == 1 {
                lemma_join_ne(home, "Library/Developer/Shared/Documentation/DocSets"@, rlit);
            } else if j == 2 {
                assert("Library/Developer/Xcode/iOS Device Logs"@[18] != rlit[18]);
                lemma_join_ne(home, "Library/Developer/Xcode/iOS Device Logs"@, rlit);
            } else if j == 3 {
                lemma_join_ne(home, "Library/Caches/Homebrew"@, rlit);
            } else if j == 4 {
                lemma_join_ne(home, ".cargo/registry"@, rlit);
            } else if j == 5 {
                lemma_join_ne(home, ".cargo/git"@, rlit);
            } else if j == 6 {
                lemma_join_ne(home, ".gradle/caches"@, rlit);
            } else if j == 7 {
                lemma_join_ne(home, ".npm"@, rlit);
            } else if j == 8 {
                lemma_join_ne(home, "Library/Caches/Yarn"@, rlit);
            } else if j == 9 {
                lemma_join_ne(home, "Library/pnpm/store"@, rlit);
            } else if j == 10 {
                lemma_join_ne(home, ".pnpm-store"@, rlit);
            }
        }
        assert(!in_exact_allowlist(r, home));
        assert forall|j: int| 0 <= j < allowed_prefix_roots(home).len() implies !(path_has_prefix(
            r,
            #[trigger] allowed_prefix_roots(home)[j],
        ) && r != allowed_prefix_roots(home)[j]) by {
            if j == 0 {
                lemma_join_not_prefix_idx(home, rlit, "Library/Developer/Xcode/Archives"@, 18);
            } else if j == 1 {
                lemma_join_not_prefix_len(home, rlit, "Library/Developer/Xcode/iOS DeviceSupport"@);
            }
        }
        assert(!under_prefix_root(r, home));
    }
}


/// A single-component child of a prefix root passes validation: one
/// archive or one device may be trashed where the whole root may not.
pub proof fn lemma_prefix_root_child_accepted(home: Seq<char>, i: int, child: Seq<char>)
    requires
        sane_home(home),
        0 <= i < allowed_prefix_roots(home).len(),
        child.len() > 0,
        forall|j: int| 0 <= j < child.len() ==> child[j] != '/',
        !is_space_char(child[0]),
        !is_space_char(child[child.len() - 1]),
    ensures
        target_error(path_join(allowed_prefix_roots(home)[i], child), home) is None,
{
    if i == 0 {
        reveal_strlit("Library/Developer/Xcode/Archives");
        lemma_prefix_root_child_accepted_for(home, "Library/Developer/Xcode/Archives"@, child);
        let d = path_join(allowed_prefix_roots(home)[i], child);
        if !in_exact_allowlist(d, home) {
            assert(path_has_prefix(d, allowed_prefix_roots(home)[i]) && d
                != allowed_prefix_roots(home)[i]);
            assert(under_prefix_root(d, home));
        }
    } else if i == 1 {
        reveal_strlit("Library/Developer/Xcode/iOS DeviceSupport");
        lemma_prefix_root_child_accepted_for(home, "Library/Developer/Xcode/iOS DeviceSupport"@, child);
        let d = path_join(allowed_prefix_roots(home)[i], child);
        if !in_exact_allowlist(d, home) {
            assert(path_has_prefix(d, allowed_prefix_roots(home)[i]) && d
                != allowed_prefix_roots(home)[i]);
            assert(under_prefix_root(d, home));
        }
    } else if i == 2 {
        reveal_strlit("Library/Developer/CoreSimulator/Devices");
        lemma_prefix_root_child_accepted_for(home, "Library/Developer/CoreSimulator/Devices"@, child);
        let d = path_join(allowed_prefix_roots(home)[i], child);
        if !in_exact_allowlist(d, home) {
            assert(path_has_prefix(d, allowed_prefix_roots(home)[i]) && d
                != allowed_prefix_roots(home)[i]);
            assert(under_prefix_root(d, home));
        }
    }
}

proof fn lemma_prefix_root_child_accepted_for(home: Seq<char>, rlit: Seq<char>, child: Seq<char>)
    requires
        sane_home(home),
        rlit.len() > 0,
        rlit[0] != '/',
        rlit[rlit.len() - 1] != '/',
        !is_space_char(rlit[rlit.len() - 1]),
        child.len() > 0,
        forall|j: int| 0 <= j < child.len() ==> child[j] != '/',
        !is_space_char(child[0]),
        !is_space_char(child[child.len() - 1]),
    ensures
        ({
            let r = path_join(home, rlit);
            let d = path_join(r, child);
            &&& normalized_target(d, home) == d
            &&& d.len() > 0 && d[0] == '/'
            &&& d != "/"@
            &&& path_has_prefix(d, home)
            &&& path_has_prefix(d, r)
            &&& d != r
        }),
{
    reveal_strlit("/");
    reveal_strlit("~");
    reveal_strlit("~/");
    lemma_join_shape(home, rlit);
    let r = path_join(home, rlit);
    let d = path_join(r, child);
    assert(d == r + "/"@ + child);
    assert(d[0] == r[0]);
    assert(d[d.len() - 1] == child[child.len() - 1]);
    lemma_trim_id(d);
    assert(d != "~"@);
    if has_prefix(d, "~/"@) {
        assert(d.subrange(0, 2)[0] == d[0]);
    }
    assert(expand_tilde_spec(d, home) == d);
    lemma_strip_id(d);
    assert(normalized_target(d, home) == d);
    assert(d != "/"@);
    lemma_strip_id(home);
    assert(home != "/"@);
    assert(d =~= home + "/"@ + (rlit + "/"@ + child));
    assert((home + "/"@ + (rlit + "/"@ + child)).subrange(0, home.len() as int + 1) =~= home + "/"@);
    assert(has_prefix(d, home + "/"@));
    assert(path_has_prefix(d, home));
    lemma_strip_id(r);
    assert(r != "/"@);
    assert(d != r);
    assert(d.subrange(0, r.len() as int + 1) =~= r + "/"@);
    assert(has_prefix(d, r + "/"@));
    assert(path_has_prefix(d, r));
}


/// Any path whose expansion does not sit below the home directory is
/// rejected with an invalid-path error, whatever the allowlists hold.
pub proof fn lemma_outside_home_rejected(path: Seq<char>, home: Seq<char>)
    requires
        !path_has_prefix(normalized_target(path, home), home),
    ensures
        target_error(path, home) is Some,
        is_invalid_path_error(target_error(path, home)->0),
{
}

/// A `Delete` action never validates: this version permits no
/// irreversible deletion, whatever paths it names.
pub proof fn lemma_delete_always_rejected(a: ActionPlan, home: Seq<char>)
    requires
        a.kind matches ActionKind::Delete { paths } && paths@.len() > 0,
    ensures
        action_error(a, home) == Some(ErrorModel::DeleteForbidden),
{
}


} // verus!
