//! The issue id in a branch name: the first number in it, such as `123`
//! in `feature/INF-123-login`.
use vstd::prelude::*;
use crate::number::{
    all_ascii_digits, decimal, digits_value, i32_to_decimal, is_ascii_digit,
    lemma_parse_signed_decimal, parse_i32, signed_decimal, spec_parse_i32,
};
use crate::pattern::{first_digit_run, is_decimal_digit, leading_digits, regex_first_match};
use crate::text::opt_view;

verus! {

/// The pattern that finds an issue id: the first run of decimal digits.
pub open spec fn issue_id_pattern() -> Seq<char> {
    "\\d+"@
}

/// The issue id given the text that the pattern matched: no match gives
/// the empty id; a match is read as an `i32` and written back in decimal,
/// which drops leading zeros. `None` where the text is not an `i32` (a
/// number too large, or digits of another script than ASCII).
pub open spec fn issue_id_of_match(found: Option<Seq<char>>) -> Option<Seq<char>> {
    match found {
        None => Some(Seq::<char>::empty()),
        Some(text) => match spec_parse_i32(text) {
            Some(v) => Some(signed_decimal(v)),
            None => None,
        },
    }
}

/// The issue id of a branch name: the empty id where it holds no decimal
/// digit, otherwise the first run of digits read as an `i32` and written
/// back in decimal; `None` where that run is not an `i32`.
pub open spec fn issue_id_of(git_branch: Seq<char>) -> Option<Seq<char>> {
    issue_id_of_match(first_digit_run(git_branch))
}

/// An issue id is in canonical form: it reads as the same number that the
/// matched text reads as, and taking the issue id of the id itself gives
/// it back unchanged.
pub proof fn lemma_issue_id_canonical(found: Seq<char>)
    requires
        issue_id_of_match(Some(found)) is Some,
    ensures
        spec_parse_i32(issue_id_of_match(Some(found))->0) == spec_parse_i32(found),
        issue_id_of_match(Some(issue_id_of_match(Some(found))->0)) == issue_id_of_match(
            Some(found),
        ),
{
    let v = spec_parse_i32(found)->0;
    lemma_parse_signed_decimal(v);
}

proof fn lemma_leading_digits_shape(s: Seq<char>)
    ensures
        leading_digits(s).len() <= s.len(),
        leading_digits(s) =~= s.take(leading_digits(s).len() as int),
        forall|k: int|
            0 <= k < leading_digits(s).len() ==> is_decimal_digit(#[trigger] leading_digits(s)[k]),
        leading_digits(s).len() < s.len() ==> !is_decimal_digit(s[leading_digits(s).len() as int]),
    decreases s.len(),
{
    if s.len() > 0 && is_decimal_digit(s[0]) {
        let t = s.drop_first();
        lemma_leading_digits_shape(t);
        let l = leading_digits(s);
        assert forall|k: int| 0 <= k < l.len() implies is_decimal_digit(#[trigger] l[k]) by {
            if k > 0 {
                assert(l[k] == leading_digits(t)[k - 1]);
            }
        }
        if l.len() < s.len() {
            assert(s[l.len() as int] == t[leading_digits(t).len() as int]);
        }
    }
}

/// The run that `first_digit_run` finds starts with a decimal digit and
/// holds only decimal digits.
proof fn lemma_first_digit_run_digits(s: Seq<char>)
    ensures
        first_digit_run(s) matches Some(t) ==> t.len() > 0 && is_decimal_digit(t[0]) && forall|
            k: int,
        |
            0 <= k < t.len() ==> is_decimal_digit(#[trigger] t[k]),
    decreases s.len(),
{
    if s.len() > 0 {
        if is_decimal_digit(s[0]) {
            lemma_leading_digits_shape(s);
            assert(leading_digits(s)[0] == s[0]);
        } else {
            lemma_first_digit_run_digits(s.drop_first());
        }
    }
}

/// A run of decimal digits is its own leading run.
proof fn lemma_leading_digits_all(s: Seq<char>)
    requires
        forall|k: int| 0 <= k < s.len() ==> is_decimal_digit(#[trigger] s[k]),
    ensures
        leading_digits(s) == s,
    decreases s.len(),
{
    if s.len() > 0 {
        let t = s.drop_first();
        assert forall|k: int| 0 <= k < t.len() implies is_decimal_digit(#[trigger] t[k]) by {
            assert(t[k] == s[k + 1]);
        }
        lemma_leading_digits_all(t);
        assert(seq![s[0]] + t =~= s);
    }
}

/// What a found issue id looks like: empty exactly where the branch holds
/// no decimal digit, and otherwise the decimal text of a non-negative
/// `i32`, which is its own issue id.
proof fn lemma_issue_id_shape(git_branch: Seq<char>)
    requires
        issue_id_of(git_branch) is Some,
    ensures
        (issue_id_of(git_branch)->0.len() == 0) == (first_digit_run(git_branch) is None),
        issue_id_of(git_branch)->0.len() > 0 ==> (spec_parse_i32(issue_id_of(git_branch)->0) matches Some(
            v,
        ) && v >= 0 && issue_id_of(git_branch)->0 == decimal(v as nat)),
        issue_id_of(issue_id_of(git_branch)->0) == issue_id_of(git_branch),
{
    let id = issue_id_of(git_branch)->0;
    lemma_first_digit_run_digits(git_branch);
    match first_digit_run(git_branch) {
        None => {
            assert(id.len() == 0);
            assert(first_digit_run(id) is None);
        },
        Some(t) => {
            let v = spec_parse_i32(t)->0;
            assert(!(t[0] == '-' || t[0] == '+'));
            assert(all_ascii_digits(t));
            crate::number::lemma_digits_value_nonneg(t);
            assert(v == digits_value(t));
            let n = v as nat;
            assert(id == decimal(n));
            lemma_parse_signed_decimal(v);
            crate::number::lemma_decimal_shape(n);
            assert(id.len() > 0);
            assert forall|k: int| 0 <= k < id.len() implies is_decimal_digit(#[trigger] id[k]) by {
                assert(is_ascii_digit(id[k]));
            }
            lemma_leading_digits_all(id);
            assert(is_decimal_digit(id[0]));
            assert(first_digit_run(id) == Some(id));
        },
    }
}

/// Where every decimal digit in a branch name is an ASCII digit, the first
/// run of ASCII digits in it, from `i` up to `j`, is what the pattern finds.
proof fn lemma_first_digit_run_at(s: Seq<char>, i: int, j: int)
    requires
        0 <= i < j <= s.len(),
        forall|k: int| 0 <= k < s.len() && is_decimal_digit(#[trigger] s[k]) ==> is_ascii_digit(s[k]),
        forall|k: int| 0 <= k < i ==> !is_ascii_digit(#[trigger] s[k]),
        forall|k: int| i <= k < j ==> is_ascii_digit(#[trigger] s[k]),
        j == s.len() || !is_ascii_digit(s[j]),
    ensures
        first_digit_run(s) == Some(s.subrange(i, j)),
    decreases s.len(),
{
    let t = s.drop_first();
    if i == 0 {
        assert(is_ascii_digit(s[0]));
        lemma_leading_digits_shape(s);
        let l = leading_digits(s);
        if l.len() < j {
            assert(is_ascii_digit(s[l.len() as int]));
        }
        if l.len() > j {
            assert(l[j] == s[j]);
            assert(is_decimal_digit(l[j]));
        }
        assert(l =~= s.subrange(i, j));
    } else {
        assert(!is_ascii_digit(s[0]));
        assert(!is_decimal_digit(s[0]));
        assert forall|k: int| 0 <= k < t.len() && is_decimal_digit(#[trigger] t[k]) implies is_ascii_digit(t[k]) by {
            assert(t[k] == s[k + 1]);
        }
        assert forall|k: int| 0 <= k < i - 1 implies !is_ascii_digit(#[trigger] t[k]) by {
            assert(t[k] == s[k + 1]);
        }
        assert forall|k: int| i - 1 <= k < j - 1 implies is_ascii_digit(#[trigger] t[k]) by {
            assert(t[k] == s[k + 1]);
        }
        if j < s.len() {
            assert(t[j - 1] == s[j]);
        }
        lemma_first_digit_run_at(t, i - 1, j - 1);
        assert(t.subrange(i - 1, j - 1) =~= s.subrange(i, j));
    }
}

/// The issue id is the first number in the branch name: where the branch
/// holds no digits of other scripts than ASCII, and its first run of ASCII
/// digits (from `i` up to `j`) has a value that fits in an `i32`, the issue
/// id is that value in decimal, without leading zeros.
pub proof fn lemma_issue_id_is_first_number(git_branch: Seq<char>, i: int, j: int)
    requires
        0 <= i < j <= git_branch.len(),
        forall|k: int|
            0 <= k < git_branch.len() && is_decimal_digit(#[trigger] git_branch[k])
                ==> is_ascii_digit(git_branch[k]),
        forall|k: int| 0 <= k < i ==> !is_ascii_digit(#[trigger] git_branch[k]),
        forall|k: int| i <= k < j ==> is_ascii_digit(#[trigger] git_branch[k]),
        j == git_branch.len() || !is_ascii_digit(git_branch[j]),
        digits_value(git_branch.subrange(i, j)) <= i32::MAX,
    ensures
        issue_id_of(git_branch) == Some(decimal(digits_value(git_branch.subrange(i, j)) as nat)),
{
    lemma_first_digit_run_at(git_branch, i, j);
    let t = git_branch.subrange(i, j);
    assert(is_ascii_digit(t[0]));
    assert(all_ascii_digits(t)) by {
        assert forall|k: int| 0 <= k < t.len() implies is_ascii_digit(#[trigger] t[k]) by {
            assert(t[k] == git_branch[i + k]);
        }
    }
    crate::number::lemma_digits_value_nonneg(t);
}

/// A branch name without any decimal digit has the empty issue id.
pub proof fn lemma_issue_id_without_digits(git_branch: Seq<char>)
    requires
        forall|k: int| 0 <= k < git_branch.len() ==> !is_decimal_digit(#[trigger] git_branch[k]),
    ensures
        issue_id_of(git_branch) == Some(Seq::<char>::empty()),
    decreases git_branch.len(),
{
    if git_branch.len() > 0 {
        let t = git_branch.drop_first();
        assert(!is_decimal_digit(git_branch[0]));
        assert forall|k: int| 0 <= k < t.len() implies !is_decimal_digit(#[trigger] t[k]) by {
            assert(t[k] == git_branch[k + 1]);
        }
        lemma_issue_id_without_digits(t);
    }
}

/// The issue id for the text that the issue-id pattern matched in a branch
/// name (`None` for no match at all).
pub fn issue_id_from_match(found: Option<&str>) -> (res: Option<String>)
    ensures
        match res {
            Some(id) => issue_id_of_match(opt_view(found)) == Some(id@),
            None => issue_id_of_match(opt_view(found)) is None,
        },
{
    match found {
        None => Some(String::new()),
        Some(text) => match parse_i32(text) {
            Some(v) => Some(i32_to_decimal(v)),
            None => None,
        },
    }
}

/// The issue id in a branch name, or `None` on the branch names from which
/// no id can be read (those whose first number does not fit in an `i32` or
/// is written in digits of another script than ASCII).
pub fn find_issue_id(git_branch: &str) -> (res: Option<String>)
    ensures
        match res {
            Some(id) => issue_id_of(git_branch@) == Some(id@),
            None => issue_id_of(git_branch@) is None,
        },
{
    match regex_first_match("\\d+", git_branch) {
        Ok(found) => {
            let text = match &found {
                Some(t) => Some(t.as_str()),
                None => None,
            };
            issue_id_from_match(text)
        },
        Err(_) => {
            proof {
                assert(false);
            }
            None
        },
    }
}

/// The issue id in a branch name: the first run of digits in it, read as an
/// `i32` and written back in decimal, or the empty id where it has none.
pub fn issue_id(git_branch: &str) -> (id: String)
    requires
        issue_id_of(git_branch@) is Some,
    ensures
        issue_id_of(git_branch@) == Some(id@),
        (id@.len() == 0) == (first_digit_run(git_branch@) is None),
        id@.len() > 0 ==> (spec_parse_i32(id@) matches Some(v) && v >= 0 && id@ == decimal(
            v as nat,
        )),
        issue_id_of(id@) == Some(id@),
{
    proof {
        lemma_issue_id_shape(git_branch@);
    }
    match find_issue_id(git_branch) {
        Some(id) => id,
        None => {
            proof {
                assert(false);
            }
            String::new()
        },
    }
}

} // verus!
