//! Title normalization: trimming of leading and trailing Unicode whitespace
//! and length validation, measured in Unicode scalar values.

use vstd::prelude::*;
use vstd::string::StrSliceExecFns;
use vstd::string::StringExecFns;

use crate::item::TodoError;

verus! {

/// The longest accepted title, in Unicode scalar values.
pub const TITLE_MAX_LEN: usize = 128;

/// Whether `c` has the Unicode `White_Space` property, the set of characters
/// that trimming strips from the ends of a title.
pub open spec fn is_space_char(c: char) -> bool {
    let u = c as u32;
    ||| u == 0x09
    ||| u == 0x0A
    ||| u == 0x0B
    ||| u == 0x0C
    ||| u == 0x0D
    ||| u == 0x20
    ||| u == 0x85
    ||| u == 0xA0
    ||| u == 0x1680
    ||| (0x2000 <= u && u <= 0x200A)
    ||| u == 0x2028
    ||| u == 0x2029
    ||| u == 0x202F
    ||| u == 0x205F
    ||| u == 0x3000
}

/// Executable test for [`is_space_char`].
pub fn is_space(c: char) -> (b: bool)
    ensures
        b == is_space_char(c),
{
    let u = c as u32;
    u == 0x09 || u == 0x0A || u == 0x0B || u == 0x0C || u == 0x0D || u == 0x20 || u == 0x85
        || u == 0xA0 || u == 0x1680 || (0x2000 <= u && u <= 0x200A) || u == 0x2028 || u == 0x2029
        || u == 0x202F || u == 0x205F || u == 0x3000
}

/// `s` with every leading whitespace character removed.
pub open spec fn trim_front(s: Seq<char>) -> Seq<char>
    decreases s.len(),
{
    if s.len() == 0 {
        s
    } else if is_space_char(s[0]) {
        trim_front(s.drop_first())
    } else {
        s
    }
}

/// `s` with every trailing whitespace character removed.
pub open spec fn trim_back(s: Seq<char>) -> Seq<char>
    decreases s.len(),
{
    if s.len() == 0 {
        s
    } else if is_space_char(s.last()) {
        trim_back(s.drop_last())
    } else {
        s
    }
}

/// `s` with leading and trailing whitespace removed, as `str::trim` does.
pub open spec fn trimmed(s: Seq<char>) -> Seq<char> {
    trim_back(trim_front(s))
}

/// How validation classifies a raw title: rejected as empty when nothing but
/// whitespace remains, rejected as too long past [`TITLE_MAX_LEN`] scalar
/// values, and accepted otherwise.
pub open spec fn title_error(s: Seq<char>) -> Option<TodoError> {
    if trimmed(s).len() == 0 {
        Some(TodoError::EmptyTitle)
    } else if trimmed(s).len() > TITLE_MAX_LEN {
        Some(TodoError::TooLong)
    } else {
        None
    }
}

/// Trimming the front reduces to the suffix that starts at the first
/// non-whitespace position.
proof fn lemma_trim_front_subrange(s: Seq<char>, k: int)
    requires
        0 <= k <= s.len(),
        forall|j: int| 0 <= j < k ==> is_space_char(s[j]),
        k == s.len() || !is_space_char(s[k]),
    ensures
        trim_front(s) == s.subrange(k, s.len() as int),
    decreases k,
{
    if k == 0 {
        assert(trim_front(s) =~= s.subrange(0, s.len() as int));
    } else {
        let t = s.drop_first();
        assert(forall|j: int| 0 <= j < k - 1 ==> is_space_char(t[j]));
        lemma_trim_front_subrange(t, k - 1);
        assert(t.subrange(k - 1, t.len() as int) =~= s.subrange(k, s.len() as int));
    }
}

/// Trimming the back reduces to the prefix that ends after the last
/// non-whitespace position.
proof fn lemma_trim_back_subrange(s: Seq<char>, k: int)
    requires
        0 <= k <= s.len(),
        forall|j: int| k <= j < s.len() ==> is_space_char(s[j]),
        k == 0 || !is_space_char(s[k - 1]),
    ensures
        trim_back(s) == s.subrange(0, k),
    decreases s.len() - k,
{
    if k == s.len() {
        if s.len() == 0 {
            assert(trim_back(s) =~= s.subrange(0, 0));
        } else {
            assert(trim_back(s) =~= s.subrange(0, s.len() as int));
        }
    } else {
        let t = s.drop_last();
        assert(is_space_char(s.last()));
        assert(forall|j: int| k <= j < t.len() ==> is_space_char(t[j]));
        lemma_trim_back_subrange(t, k);
        assert(t.subrange(0, k) =~= s.subrange(0, k));
    }
}

/// A title made only of whitespace trims to the empty sequence, so `add`
/// rejects it as empty.
pub proof fn all_space_title_rejected(s: Seq<char>)
    requires
        forall|j: int| 0 <= j < s.len() ==> is_space_char(s[j]),
    ensures
        trimmed(s).len() == 0,
        title_error(s) == Some(TodoError::EmptyTitle),
{
    lemma_trim_front_subrange(s, s.len() as int);
    assert(trim_front(s) =~= Seq::<char>::empty());
}

/// Validates and normalizes a raw title: trims leading and trailing
/// whitespace, then rejects the result when it is empty or longer than
/// [`TITLE_MAX_LEN`] Unicode scalar values; otherwise returns the trimmed
/// title.
pub fn normalize_title(input: &str) -> (r: Result<String, TodoError>)
    ensures
        match r {
            Ok(t) => title_error(input@) is None && t@ == trimmed(input@),
            Err(e) => title_error(input@) == Some(e),
        },
{
    let n = input.unicode_len();
    let mut start: usize = 0;
    while start < n && is_space(input.get_char(start))
        invariant
            0 <= start <= n,
            n == input@.len(),
            forall|j: int| 0 <= j < start ==> is_space_char(input@[j]),
        decreases n - start,
    {
        start = start + 1;
    }
    if start == n {
        proof {
            all_space_title_rejected(input@);
        }
        return Err(TodoError::EmptyTitle);
    }
    let mut end: usize = n;
    while is_space(input.get_char(end - 1))
        invariant
            start < end <= n,
            n == input@.len(),
            !is_space_char(input@[start as int]),
            forall|j: int| end <= j < n ==> is_space_char(input@[j]),
        decreases end,
    {
        end = end - 1;
    }
    proof {
        lemma_trim_front_subrange(input@, start as int);
        let t = input@.subrange(start as int, n as int);
        lemma_trim_back_subrange(t, end - start);
        assert(t.subrange(0, end - start) =~= input@.subrange(start as int, end as int));
    }
    let len = end - start;
    if len > TITLE_MAX_LEN {
        return Err(TodoError::TooLong);
    }
    let t = input.substring_char(start, end);
    Ok(String::from_str(t))
}

} // verus!
