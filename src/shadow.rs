use vstd::prelude::*;
use crate::error::Error;
use crate::paths::{
    file_name_of, has_no_separator, is_plain_name, join_of, path_file_name, path_join,
};

verus! {

/// The character of a decimal digit.
pub open spec fn digit_of(d: nat) -> char {
    seq!['0', '1', '2', '3', '4', '5', '6', '7', '8', '9'][d as int]
}

/// The decimal digits of `n`, most significant first, without leading zeros.
pub open spec fn decimal_of(n: nat) -> Seq<char>
    decreases n,
{
    if n < 10 {
        seq![digit_of(n)]
    } else {
        decimal_of(n / 10).push(digit_of(n % 10))
    }
}

/// The name of a shadow copy: the time stamp, an underscore, and the file
/// name of the source.
pub open spec fn shadow_name_of(stamp: nat, file_name: Seq<char>) -> Seq<char> {
    decimal_of(stamp) + "_"@ + file_name
}

/// Where the shadow copy of `full_path` goes in `shadow_dir`, for the given
/// time stamp; nothing when the source path has no file name.
pub open spec fn staged_path_of(shadow_dir: Seq<char>, full_path: Seq<char>, stamp: nat) -> Option<
    Seq<char>,
> {
    match file_name_of(full_path) {
        Some(f) => Some(join_of(shadow_dir, shadow_name_of(stamp, f))),
        None => None,
    }
}

proof fn lemma_decimal_digits(n: nat)
    ensures
        decimal_of(n).len() > 0,
        forall|i: int| 0 <= i < decimal_of(n).len() ==> '0' <= #[trigger] decimal_of(n)[i] <= '9',
    decreases n,
{
    if n >= 10 {
        lemma_decimal_digits(n / 10);
    }
}

/// Two shadow copies of one source made at different times are staged at
/// different paths: their file names, which `load_plan` states, differ.
pub proof fn lemma_fresh_copies_differ(
    first: Seq<char>,
    second: Seq<char>,
    a: nat,
    b: nat,
    file_name: Seq<char>,
)
    requires
        a != b,
        file_name_of(first) == Some(shadow_name_of(a, file_name)),
        file_name_of(second) == Some(shadow_name_of(b, file_name)),
    ensures
        first != second,
{
    lemma_shadow_names_differ(a, b, file_name);
}

proof fn lemma_digit_injective(a: nat, b: nat)
    requires
        a < 10,
        b < 10,
        digit_of(a) == digit_of(b),
    ensures
        a == b,
{
    assert(digit_of(0) == '0' && digit_of(1) == '1' && digit_of(2) == '2' && digit_of(3) == '3'
        && digit_of(4) == '4' && digit_of(5) == '5' && digit_of(6) == '6' && digit_of(7) == '7'
        && digit_of(8) == '8' && digit_of(9) == '9');
}

proof fn lemma_decimal_long(n: nat)
    requires
        n >= 10,
    ensures
        decimal_of(n).len() >= 2,
{
    lemma_decimal_digits(n / 10);
}

/// Different numbers have different decimal forms.
pub proof fn lemma_decimal_injective(a: nat, b: nat)
    requires
        decimal_of(a) == decimal_of(b),
    ensures
        a == b,
    decreases a,
{
    if a < 10 && b < 10 {
        assert(decimal_of(a) == seq![digit_of(a)]);
        assert(decimal_of(b) == seq![digit_of(b)]);
        assert(decimal_of(a)[0] == digit_of(a) && decimal_of(b)[0] == digit_of(b));
        lemma_digit_injective(a, b);
    } else if a < 10 {
        lemma_decimal_long(b);
    } else if b < 10 {
        lemma_decimal_long(a);
    } else {
        let da = decimal_of(a);
        let db = decimal_of(b);
        assert(da.drop_last() =~= decimal_of(a / 10));
        assert(db.drop_last() =~= decimal_of(b / 10));
        lemma_decimal_injective(a / 10, b / 10);
        assert(da.last() == digit_of(a % 10) && db.last() == digit_of(b % 10));
        lemma_digit_injective(a % 10, b % 10);
    }
}

/// Copies of one file made at different times get different names: the
/// time stamp keeps successive copies in one shadow directory apart.
pub proof fn lemma_shadow_names_differ(a: nat, b: nat, file_name: Seq<char>)
    requires
        a != b,
    ensures
        shadow_name_of(a, file_name) != shadow_name_of(b, file_name),
{
    reveal_strlit("_");
    let da = decimal_of(a);
    let db = decimal_of(b);
    let na = shadow_name_of(a, file_name);
    let nb = shadow_name_of(b, file_name);
    lemma_decimal_digits(a);
    lemma_decimal_digits(b);
    if na == nb {
        if da.len() < db.len() {
            assert(na[da.len() as int] == '_');
            assert(nb[da.len() as int] == db[da.len() as int]);
        } else if db.len() < da.len() {
            assert(nb[db.len() as int] == '_');
            assert(na[db.len() as int] == da[db.len() as int]);
        } else {
            assert forall|i: int| 0 <= i < da.len() implies da[i] == db[i] by {
                assert(na[i] == da[i] && nb[i] == db[i]);
            }
            assert(da =~= db);
            lemma_decimal_injective(a, b);
        }
    }
}

fn digit_str(d: u64) -> (r: &'static str)
    requires
        d < 10,
    ensures
        r@ == seq![digit_of(d as nat)],
{
    proof {
        reveal_strlit("0");
        reveal_strlit("1");
        reveal_strlit("2");
        reveal_strlit("3");
        reveal_strlit("4");
        reveal_strlit("5");
        reveal_strlit("6");
        reveal_strlit("7");
        reveal_strlit("8");
        reveal_strlit("9");
    }
    match d {
        0 => "0",
        1 => "1",
        2 => "2",
        3 => "3",
        4 => "4",
        5 => "5",
        6 => "6",
        7 => "7",
        8 => "8",
        _ => "9",
    }
}

/// `n` written in decimal.
pub fn decimal(n: u64) -> (r: String)
    ensures
        r@ == decimal_of(n as nat),
    decreases n,
{
    if n < 10 {
        String::from_str(digit_str(n))
    } else {
        let mut s = decimal(n / 10);
        s.append(digit_str(n % 10));
        s
    }
}

/// The name of a shadow copy made at time `stamp` (milliseconds) of a file
/// named `file_name`. Copies of one library made at different times get
/// different names in the shared shadow directory.
pub fn shadow_file_name(stamp: u64, file_name: &str) -> (r: String)
    ensures
        r@ == shadow_name_of(stamp as nat, file_name@),
{
    let mut s = decimal(stamp);
    s.append("_");
    s.append(file_name);
    s
}

/// The path of the shadow copy of `full_path` in `shadow_dir`, made at time
/// `stamp`; `None` when `full_path` has no file name.
pub fn format_filename(shadow_dir: &str, full_path: &str, stamp: u64) -> (r: Option<String>)
    ensures
        match r {
            Some(p) => {
                &&& staged_path_of(shadow_dir@, full_path@, stamp as nat) == Some(p@)
                &&& has_no_separator(file_name_of(full_path@)->0) ==> file_name_of(p@) == Some(
                    shadow_name_of(stamp as nat, file_name_of(full_path@)->0),
                )
            },
            None => staged_path_of(shadow_dir@, full_path@, stamp as nat) is None,
        },
{
    match path_file_name(full_path) {
        Some(f) => {
            let name = shadow_file_name(stamp, f.as_str());
            proof {
                lemma_decimal_digits(stamp as nat);
                reveal_strlit("_");
                if has_no_separator(f@) {
                    assert(name@[0] == decimal_of(stamp as nat)[0]);
                    assert forall|i: int| 0 <= i < name@.len() implies name@[i] != '/' && name@[i]
                        != '\\' by {
                        let d = decimal_of(stamp as nat);
                        if i < d.len() {
                            assert(name@[i] == d[i]);
                        } else if i == d.len() {
                            assert(name@[i] == '_');
                        } else {
                            assert(name@[i] == f@[i - d.len() - 1]);
                        }
                    }
                    assert(is_plain_name(name@));
                }
            }
            Some(path_join(shadow_dir, name.as_str()))
        },
        None => None,
    }
}

/// How a library is to be loaded: the path handed to the loader and the
/// path that is watched for changes, if any.
pub struct LoadPlan {
    /// The file the loader opens; a shadow copy when shadowing is on.
    pub loaded_path: String,
    /// The file the copy was made from; `None` when loaded in place.
    pub original_path: Option<String>,
}

/// Decides how the library at `full_path` is loaded. With a shadow
/// directory it is copied there under a fresh name made from `stamp` and
/// loaded from the copy, and the source is the path watched for changes.
/// Without one it is loaded in place and is not watched.
///
/// A source without a file name cannot be staged: `Error::Find`.
/// When shadowing, the loaded path never equals the source path (for a file
/// name free of separators); without shadowing it is the source path.
pub fn load_plan(shadow_dir: &Option<String>, full_path: &str, stamp: u64) -> (r: Result<
    LoadPlan,
    Error,
>)
    ensures
        match r {
            Ok(plan) => match *shadow_dir {
                None => plan.loaded_path@ == full_path@ && plan.original_path is None,
                Some(dir) => {
                    &&& staged_path_of(dir@, full_path@, stamp as nat) == Some(plan.loaded_path@)
                    &&& (plan.original_path matches Some(o) && o@ == full_path@)
                    &&& has_no_separator(file_name_of(full_path@)->0) ==> plan.loaded_path@
                        != full_path@ && file_name_of(plan.loaded_path@) == Some(
                        shadow_name_of(stamp as nat, file_name_of(full_path@)->0),
                    )
                },
            },
            Err(e) => match *shadow_dir {
                None => false,
                Some(dir) => {
                    &&& staged_path_of(dir@, full_path@, stamp as nat) is None
                    &&& (e matches Error::Find(p) && p@ == full_path@)
                },
            },
        },
{
    match shadow_dir {
        None => Ok(LoadPlan { loaded_path: String::from_str(full_path), original_path: None }),
        Some(dir) => match format_filename(dir.as_str(), full_path, stamp) {
            Some(p) => {
                proof {
                    if has_no_separator(file_name_of(full_path@)->0) {
                        let f = file_name_of(full_path@)->0;
                        reveal_strlit("_");
                        assert(shadow_name_of(stamp as nat, f).len() > f.len());
                        if p@ == full_path@ {
                            assert(file_name_of(p@) == file_name_of(full_path@));
                        }
                    }
                }
                Ok(LoadPlan { loaded_path: p, original_path: Some(String::from_str(full_path)) })
            },
            None => Err(Error::Find(String::from_str(full_path))),
        },
    }
}

} // verus!
