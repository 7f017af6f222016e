//! Command-line surface: the parsed argument shapes, and the parsing of a
//! comma-separated organization-id list into its cleaned form (entries
//! trimmed, empty entries dropped, order kept).

use vstd::prelude::*;

verus! {

/// Top-level parsed command line.
pub struct Cli {
    /// Secret API key, when given on the command line.
    pub secret_key: Option<String>,
    pub command: Commands,
}

/// Top-level subcommands.
pub enum Commands {
    /// Operations related to users.
    Users { command: UsersCommand },
}

/// Subcommands for user-related operations.
pub enum UsersCommand {
    /// List users of one or more organizations.
    List { org_id: String, order_by: String, emails_only: bool },
}

/// The characters the organization-id parser strips from the ends of an
/// entry.
pub open spec fn is_space(c: char) -> bool {
    c == ' ' || c == '\t' || c == '\n' || c == '\r'
}

/// Index of the first comma in `s`, or `s.len()` when there is none.
pub open spec fn spec_first_comma(s: Seq<char>) -> int
    decreases s.len(),
{
    if s.len() == 0 {
        0
    } else if s[0] == ',' {
        0
    } else {
        1 + spec_first_comma(s.drop_first())
    }
}

/// Index of the first non-space character in `s`, or `s.len()` when `s` is
/// all spaces.
pub open spec fn spec_first_non_space(s: Seq<char>) -> int
    decreases s.len(),
{
    if s.len() == 0 {
        0
    } else if !is_space(s[0]) {
        0
    } else {
        1 + spec_first_non_space(s.drop_first())
    }
}

/// Length of `s` once trailing spaces are dropped.
pub open spec fn spec_trimmed_end(s: Seq<char>) -> int
    decreases s.len(),
{
    if s.len() == 0 {
        0
    } else if is_space(s[s.len() - 1]) {
        spec_trimmed_end(s.drop_last())
    } else {
        s.len() as int
    }
}

/// `s` with leading and trailing spaces removed.
pub open spec fn spec_trim(s: Seq<char>) -> Seq<char> {
    let a: int = spec_first_non_space(s);
    let b: int = spec_trimmed_end(s);
    if 0 <= a < b <= s.len() {
        s.subrange(a, b)
    } else {
        Seq::empty()
    }
}

/// The cleaned organization-id list of a comma-separated input: each
/// comma-separated segment trimmed, empty segments dropped, order kept.
pub open spec fn spec_parse_org_ids(s: Seq<char>) -> Seq<Seq<char>>
    decreases s.len(),
{
    let i: int = spec_first_comma(s);
    if 0 <= i < s.len() {
        let seg = spec_trim(s.subrange(0, i));
        let rest = spec_parse_org_ids(s.subrange(i + 1, s.len() as int));
        if seg.len() > 0 {
            seq![seg] + rest
        } else {
            rest
        }
    } else {
        if spec_trim(s).len() > 0 {
            seq![spec_trim(s)]
        } else {
            Seq::empty()
        }
    }
}

/// Whether `c` is one of the characters trimmed from entry ends.
fn is_space_char(c: char) -> (r: bool)
    ensures
        r == is_space(c),
{
    c == ' ' || c == '\t' || c == '\n' || c == '\r'
}

/// A position before which there is no comma, and which holds one unless it
/// is the end, is the first comma position.
proof fn lemma_first_comma_at(s: Seq<char>, i: int)
    requires
        0 <= i <= s.len(),
        forall|j: int| 0 <= j < i ==> s[j] != ',',
        i < s.len() ==> s[i] == ',',
    ensures
        spec_first_comma(s) == i,
    decreases s.len(),
{
    if s.len() == 0 || i == 0 {
    } else {
        let t = s.drop_first();
        assert forall|j: int| 0 <= j < i - 1 implies t[j] != ',' by {
            assert(t[j] == s[j + 1]);
        }
        if i - 1 < t.len() {
            assert(t[i - 1] == s[i]);
        }
        lemma_first_comma_at(t, i - 1);
    }
}

/// A position before which everything is space, and which holds a non-space
/// unless it is the end, is the first non-space position.
proof fn lemma_first_non_space_at(s: Seq<char>, i: int)
    requires
        0 <= i <= s.len(),
        forall|j: int| 0 <= j < i ==> is_space(s[j]),
        i < s.len() ==> !is_space(s[i]),
    ensures
        spec_first_non_space(s) == i,
    decreases s.len(),
{
    if s.len() == 0 || i == 0 {
    } else {
        let t = s.drop_first();
        assert forall|j: int| 0 <= j < i - 1 implies is_space(t[j]) by {
            assert(t[j] == s[j + 1]);
        }
        if i - 1 < t.len() {
            assert(t[i - 1] == s[i]);
        }
        lemma_first_non_space_at(t, i - 1);
    }
}

/// A position after which everything is space, and which follows a non-space
/// unless it is the start, is where trailing spaces begin.
proof fn lemma_trimmed_end_at(s: Seq<char>, b: int)
    requires
        0 <= b <= s.len(),
        forall|j: int| b <= j < s.len() ==> is_space(s[j]),
        b > 0 ==> !is_space(s[b - 1]),
    ensures
        spec_trimmed_end(s) == b,
    decreases s.len(),
{
    if s.len() == 0 || b == s.len() {
    } else {
        assert(is_space(s[s.len() - 1]));
        let t = s.drop_last();
        assert forall|j: int| b <= j < t.len() implies is_space(t[j]) by {
            assert(t[j] == s[j]);
        }
        if b > 0 {
            assert(t[b - 1] == s[b - 1]);
        }
        lemma_trimmed_end_at(t, b);
    }
}

/// The first-non-space position lies in the string, and holds a non-space
/// character unless the string is all spaces.
proof fn lemma_first_non_space_bounds(s: Seq<char>)
    ensures
        0 <= spec_first_non_space(s) <= s.len(),
        spec_first_non_space(s) < s.len() ==> !is_space(s[spec_first_non_space(s)]),
    decreases s.len(),
{
    if s.len() == 0 || !is_space(s[0]) {
    } else {
        let t = s.drop_first();
        lemma_first_non_space_bounds(t);
        if spec_first_non_space(t) < t.len() {
            assert(t[spec_first_non_space(t)] == s[spec_first_non_space(t) + 1]);
        }
    }
}

/// The trailing-space boundary lies in the string, and follows a non-space
/// character unless the string is all spaces.
proof fn lemma_trimmed_end_bounds(s: Seq<char>)
    ensures
        0 <= spec_trimmed_end(s) <= s.len(),
        spec_trimmed_end(s) > 0 ==> !is_space(s[spec_trimmed_end(s) - 1]),
    decreases s.len(),
{
    if s.len() == 0 {
    } else if is_space(s[s.len() - 1]) {
        let t = s.drop_last();
        lemma_trimmed_end_bounds(t);
        if spec_trimmed_end(t) > 0 {
            assert(t[spec_trimmed_end(t) - 1] == s[spec_trimmed_end(t) - 1]);
        }
    } else {
    }
}

/// A non-empty trimmed string neither starts nor ends with a trimmed
/// character.
pub proof fn lemma_trim_clean(s: Seq<char>)
    ensures
        spec_trim(s).len() > 0 ==> !is_space(spec_trim(s)[0]),
        spec_trim(s).len() > 0 ==> !is_space(spec_trim(s)[spec_trim(s).len() - 1]),
{
    lemma_first_non_space_bounds(s);
    lemma_trimmed_end_bounds(s);
    let a: int = spec_first_non_space(s);
    let b: int = spec_trimmed_end(s);
    if 0 <= a < b <= s.len() {
        assert(spec_trim(s)[0] == s[a]);
        assert(spec_trim(s)[b - a - 1] == s[b - 1]);
    }
}

/// Parsing is clean for every input: each parsed identifier is non-empty,
/// and neither starts nor ends with a trimmed character.
pub proof fn lemma_parsed_ids_clean(s: Seq<char>)
    ensures
        forall|k: int|
            0 <= k < spec_parse_org_ids(s).len() ==> ((#[trigger] spec_parse_org_ids(s)[k]).len()
                > 0 && !is_space(spec_parse_org_ids(s)[k][0]) && !is_space(
                spec_parse_org_ids(s)[k][spec_parse_org_ids(s)[k].len() - 1],
            )),
    decreases s.len(),
{
    let i: int = spec_first_comma(s);
    let r = spec_parse_org_ids(s);
    if 0 <= i < s.len() {
        let seg = spec_trim(s.subrange(0, i));
        let rest = spec_parse_org_ids(s.subrange(i + 1, s.len() as int));
        lemma_trim_clean(s.subrange(0, i));
        lemma_parsed_ids_clean(s.subrange(i + 1, s.len() as int));
        if seg.len() > 0 {
            assert forall|k: int|
                0 <= k < r.len() implies ((#[trigger] r[k]).len() > 0 && !is_space(r[k][0])
                && !is_space(r[k][r[k].len() - 1])) by {
                if k == 0 {
                    assert(r[0] == seg);
                } else {
                    assert(r[k] == rest[k - 1]);
                }
            }
        }
    } else {
        lemma_trim_clean(s);
        if spec_trim(s).len() > 0 {
            assert(r[0] == spec_trim(s));
        }
    }
}

/// Position of the first comma of `s`, or its length when it has none.
fn find_comma(s: &str) -> (i: usize)
    ensures
        i as int == spec_first_comma(s@),
        i <= s@.len(),
{
    let n = s.unicode_len();
    let mut i: usize = 0;
    while i < n
        invariant
            i <= n,
            n == s@.len(),
            forall|j: int| 0 <= j < i ==> s@[j] != ',',
        decreases n - i,
    {
        if s.get_char(i) == ',' {
            proof {
                lemma_first_comma_at(s@, i as int);
            }
            return i;
        }
        i += 1;
    }
    proof {
        lemma_first_comma_at(s@, n as int);
    }
    n
}

/// Removes leading and trailing spaces.
fn trim_str<'a>(s: &'a str) -> (r: &'a str)
    ensures
        r@ == spec_trim(s@),
{
    let n = s.unicode_len();
    let mut a: usize = 0;
    while a < n && is_space_char(s.get_char(a))
        invariant
            a <= n,
            n == s@.len(),
            forall|j: int| 0 <= j < a ==> is_space(s@[j]),
        decreases n - a,
    {
        a += 1;
    }
    proof {
        lemma_first_non_space_at(s@, a as int);
    }
    let mut b: usize = n;
    while b > a && is_space_char(s.get_char(b - 1))
        invariant
            a <= b <= n,
            n == s@.len(),
            forall|j: int| b <= j < n ==> is_space(s@[j]),
        decreases b,
    {
        b -= 1;
    }
    if a < b {
        proof {
            lemma_trimmed_end_at(s@, b as int);
        }
        s.substring_char(a, b)
    } else {
        proof {
            reveal_strlit("");
            assert(""@ =~= Seq::<char>::empty());
            assert(a == n);
            assert(spec_trim(s@) =~= Seq::<char>::empty());
        }
        ""
    }
}

/// Parses a comma-separated list of organization identifiers: each segment
/// is trimmed, empty segments are dropped, and the order is kept.
pub fn parse_org_ids(input: &str) -> (r: Vec<String>)
    ensures
        r.deep_view() == spec_parse_org_ids(input@),
    decreases input@.len(),
{
    let n = input.unicode_len();
    let ic = find_comma(input);
    if ic < n {
        let rest = input.substring_char(ic + 1, n);
        let mut tail = parse_org_ids(rest);
        let seg = input.substring_char(0, ic);
        let t = trim_str(seg);
        if t.unicode_len() > 0 {
            let ghost tail_prev = tail@;
            let ghost tail_dv = tail.deep_view();
            let entry = t.to_owned();
            tail.insert(0, entry);
            proof {
                assert(tail@ == tail_prev.insert(0, entry));
                assert(tail_dv.len() == tail_prev.len());
                assert forall|k: int| 0 <= k < tail@.len() implies tail.deep_view()[k] == (seq![t@]
                    + tail_dv)[k] by {
                    assert(tail.deep_view()[k] == tail@[k]@);
                    if k == 0 {
                        assert(tail@[0] == entry);
                    } else {
                        assert(tail@[k] == tail_prev[k - 1]);
                        assert(tail_dv[k - 1] == tail_prev[k - 1]@);
                    }
                }
                assert(tail.deep_view().len() == tail_prev.len() + 1);
                assert(tail.deep_view() =~= seq![t@] + tail_dv);
            }
        }
        tail
    } else {
        let t = trim_str(input);
        let mut r: Vec<String> = Vec::new();
        if t.unicode_len() > 0 {
            r.push(t.to_owned());
            proof {
                assert(r.deep_view().len() == 1);
                assert(r.deep_view()[0] == r@[0]@);
                assert(r.deep_view() =~= seq![spec_trim(input@)]);
            }
        } else {
            proof {
                assert(r.deep_view() =~= Seq::<Seq<char>>::empty());
            }
        }
        r
    }
}

} // verus!
