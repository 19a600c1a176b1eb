//! Character-level utilities shared by the catalog codec and the
//! runner discovery logic: string/vector conversion, path joining,
//! whitespace handling, and token extraction.

use vstd::prelude::*;
use vstd::string::StrSliceExecFns;
use vstd::string::StringExecFns;

verus! {

/// The path-join convention used throughout the library: a single
/// separator between the two parts.
pub open spec fn join_path(base: Seq<char>, rel: Seq<char>) -> Seq<char> {
    base + seq!['/'] + rel
}

/// Relies on std's `String::push`: appends exactly one character at the
/// end of the string.
#[verifier::external_body]
fn push_char(s: &mut String, c: char)
    ensures
        final(s)@ == old(s)@.push(c),
{
    s.push(c);
}

/// Collect the characters of a string slice into a vector.
pub fn chars_vec(s: &str) -> (r: Vec<char>)
    ensures
        r@ == s@,
{
    let n: usize = s.unicode_len();
    let mut r: Vec<char> = Vec::new();
    let mut i: usize = 0;
    while i < n
        invariant
            i <= n,
            n == s@.len(),
            r@ == s@.take(i as int),
        decreases n - i,
    {
        let c = s.get_char(i);
        r.push(c);
        i = i + 1;
        proof {
            assert(r@ =~= s@.take(i as int));
        }
    }
    proof {
        assert(s@.take(n as int) =~= s@);
    }
    r
}

/// Build a string holding exactly the given characters, in order.
pub fn string_of_chars(v: &Vec<char>) -> (r: String)
    ensures
        r@ == v@,
{
    let mut r = String::new();
    let mut i: usize = 0;
    while i < v.len()
        invariant
            i <= v.len(),
            r@ == v@.take(i as int),
        decreases v.len() - i,
    {
        push_char(&mut r, v[i]);
        i = i + 1;
        proof {
            assert(r@ =~= v@.take(i as int));
        }
    }
    proof {
        assert(v@.take(v@.len() as int) =~= v@);
    }
    r
}

/// Join a base directory and a relative path with a single separator.
pub fn join_path_exec(base: &String, rel: &String) -> (r: String)
    ensures
        r@ == join_path(base@, rel@),
{
    let mut r = base.clone();
    push_char(&mut r, '/');
    r.append(rel.as_str());
    proof {
        assert(r@ =~= join_path(base@, rel@));
    }
    r
}

/// Copy a range of characters out of a vector.
pub fn subvec(s: &Vec<char>, from: usize, to: usize) -> (r: Vec<char>)
    requires
        from <= to <= s.len(),
    ensures
        r@ == s@.subrange(from as int, to as int),
{
    let mut r: Vec<char> = Vec::new();
    let mut i = from;
    while i < to
        invariant
            from <= i <= to <= s.len(),
            r@ == s@.subrange(from as int, i as int),
        decreases to - i,
    {
        r.push(s[i]);
        i = i + 1;
        proof {
            assert(r@ =~= s@.subrange(from as int, i as int));
        }
    }
    r
}

// ---------------------------------------------------------------------
// Whitespace
// ---------------------------------------------------------------------

/// The whitespace characters skipped between tokens.
pub open spec fn is_ws(c: char) -> bool {
    c == ' ' || c == '\n' || c == '\t' || c == '\r'
}

/// The first position at or after `i` holding a non-whitespace
/// character, or the end of the text.
pub open spec fn skip_ws(s: Seq<char>, i: int) -> int
    decreases s.len() - i,
    when 0 <= i <= s.len()
{
    if i < s.len() && is_ws(s[i]) {
        skip_ws(s, i + 1)
    } else {
        i
    }
}

/// Skipping whitespace stays inside the text and lands on a
/// non-whitespace character.
pub proof fn lemma_skip_ws_bounds(s: Seq<char>, i: int)
    requires
        0 <= i <= s.len(),
    ensures
        i <= skip_ws(s, i) <= s.len(),
        skip_ws(s, i) < s.len() ==> !is_ws(s[skip_ws(s, i)]),
    decreases s.len() - i,
{
    if i < s.len() && is_ws(s[i]) {
        lemma_skip_ws_bounds(s, i + 1);
    }
}

/// Step to the first non-whitespace character at or after `i`.
pub fn skip_ws_exec(s: &Vec<char>, i: usize) -> (r: usize)
    requires
        i <= s.len(),
    ensures
        r as int == skip_ws(s@, i as int),
        i <= r <= s.len(),
{
    let mut j = i;
    while j < s.len() && (s[j] == ' ' || s[j] == '\n' || s[j] == '\t' || s[j] == '\r')
        invariant
            i <= j <= s.len(),
            skip_ws(s@, i as int) == skip_ws(s@, j as int),
        decreases s.len() - j,
    {
        proof {
            assert(skip_ws(s@, j as int) == skip_ws(s@, j + 1 as int));
        }
        j = j + 1;
    }
    j
}

/// The first position at or after `i` holding a whitespace character,
/// or the end of the text.
pub open spec fn skip_nonws(s: Seq<char>, i: int) -> int
    decreases s.len() - i,
    when 0 <= i <= s.len()
{
    if i < s.len() && !is_ws(s[i]) {
        skip_nonws(s, i + 1)
    } else {
        i
    }
}

/// Skipping a token stays inside the text.
pub proof fn lemma_skip_nonws_bounds(s: Seq<char>, i: int)
    requires
        0 <= i <= s.len(),
    ensures
        i <= skip_nonws(s, i) <= s.len(),
    decreases s.len() - i,
{
    if i < s.len() && !is_ws(s[i]) {
        lemma_skip_nonws_bounds(s, i + 1);
    }
}

/// Step to the first whitespace character at or after `i`.
pub fn skip_nonws_exec(s: &Vec<char>, i: usize) -> (r: usize)
    requires
        i <= s.len(),
    ensures
        r as int == skip_nonws(s@, i as int),
        i <= r <= s.len(),
{
    let mut j = i;
    while j < s.len() && !(s[j] == ' ' || s[j] == '\n' || s[j] == '\t' || s[j] == '\r')
        invariant
            i <= j <= s.len(),
            skip_nonws(s@, i as int) == skip_nonws(s@, j as int),
        decreases s.len() - j,
    {
        proof {
            assert(skip_nonws(s@, j as int) == skip_nonws(s@, j + 1 as int));
        }
        j = j + 1;
    }
    j
}

// ---------------------------------------------------------------------
// Tokens
// ---------------------------------------------------------------------

/// The `n`-th whitespace-separated token at or after position `i`,
/// counting from zero.
pub open spec fn nth_token(s: Seq<char>, i: int, n: nat) -> Option<Seq<char>>
    decreases s.len() - i,
    when 0 <= i <= s.len()
{
    let a = skip_ws(s, i);
    if !(0 <= a && a < s.len()) {
        None
    } else {
        let b = skip_nonws(s, a);
        if n == 0 {
            if a < b <= s.len() {
                Some(s.subrange(a, b))
            } else {
                None
            }
        } else {
            if i < b <= s.len() {
                nth_token(s, b, (n - 1) as nat)
            } else {
                None
            }
        }
    }
}

/// Find the `n`-th whitespace-separated token at or after position
/// `i`, as the bounds of its characters.
pub fn nth_token_exec(s: &Vec<char>, i: usize, n: usize) -> (r: Option<(usize, usize)>)
    requires
        i <= s.len(),
    ensures
        match r {
            Some((a, b)) => a < b <= s.len() && nth_token(s@, i as int, n as nat) == Some(
                s@.subrange(a as int, b as int),
            ),
            None => nth_token(s@, i as int, n as nat) is None,
        },
    decreases s.len() - i,
{
    let a = skip_ws_exec(s, i);
    if a >= s.len() {
        None
    } else {
        proof {
            lemma_skip_ws_bounds(s@, i as int);
            assert(!is_ws(s@[a as int]));
        }
        let b = skip_nonws_exec(s, a);
        proof {
            assert(skip_nonws(s@, a as int) == skip_nonws(s@, a + 1 as int));
            lemma_skip_nonws_bounds(s@, a + 1 as int);
            assert(b > i);
        }
        if n == 0 {
            Some((a, b))
        } else {
            nth_token_exec(s, b, n - 1)
        }
    }
}

/// The normalized form of a launcher's raw version report: its third
/// whitespace-separated token, or `unknown` where there is none.
pub open spec fn third_token_or_unknown(raw: Seq<char>) -> Seq<char> {
    match nth_token(raw, 0, 2) {
        Some(t) => t,
        None => "unknown"@,
    }
}

/// Normalize a launcher's raw version report to its third
/// whitespace-separated token, or `unknown` where there is none.
pub fn third_token_exec(raw: &String) -> (r: String)
    ensures
        r@ == third_token_or_unknown(raw@),
{
    let cs = chars_vec(raw.as_str());
    match nth_token_exec(&cs, 0, 2) {
        Some((a, b)) => {
            let t = subvec(&cs, a, b);
            string_of_chars(&t)
        },
        None => String::from_str("unknown"),
    }
}

// ---------------------------------------------------------------------
// Path components
// ---------------------------------------------------------------------

/// The path with its trailing separators removed.
pub open spec fn strip_trailing_slashes(s: Seq<char>) -> Seq<char>
    decreases s.len(),
{
    if s.len() > 0 && s[s.len() - 1] == '/' {
        strip_trailing_slashes(s.drop_last())
    } else {
        s
    }
}

/// The characters after the last separator.
pub open spec fn after_last_slash(s: Seq<char>) -> Seq<char>
    decreases s.len(),
{
    if s.len() == 0 {
        s
    } else if s[s.len() - 1] == '/' {
        Seq::empty()
    } else {
        after_last_slash(s.drop_last()).push(s[s.len() - 1])
    }
}

/// The final component of a path: what follows the last separator,
/// trailing separators ignored.
pub open spec fn last_component(s: Seq<char>) -> Seq<char> {
    after_last_slash(strip_trailing_slashes(s))
}

/// The display name derived from a directory path: its final
/// component, or `unknown` where the path has none.
pub open spec fn display_name(s: Seq<char>) -> Seq<char> {
    if last_component(s).len() == 0 {
        "unknown"@
    } else {
        last_component(s)
    }
}

/// Derive the display name from a directory path.
pub fn display_name_exec(directory: &String) -> (r: String)
    ensures
        r@ == display_name(directory@),
{
    let cs = chars_vec(directory.as_str());
    let mut e: usize = cs.len();
    proof {
        assert(cs@.take(cs@.len() as int) =~= cs@);
    }
    while e > 0 && cs[e - 1] == '/'
        invariant
            e <= cs.len(),
            strip_trailing_slashes(cs@) == strip_trailing_slashes(cs@.take(e as int)),
        decreases e,
    {
        proof {
            assert(cs@.take(e as int).drop_last() =~= cs@.take(e - 1 as int));
        }
        e = e - 1;
    }
    proof {
        assert(strip_trailing_slashes(cs@.take(e as int)) == cs@.take(e as int));
    }
    let mut b: usize = e;
    proof {
        assert(after_last_slash(cs@.take(e as int)) =~= after_last_slash(cs@.take(b as int))
            + cs@.subrange(b as int, e as int));
    }
    while b > 0 && cs[b - 1] != '/'
        invariant
            b <= e <= cs.len(),
            after_last_slash(cs@.take(e as int)) == after_last_slash(cs@.take(b as int))
                + cs@.subrange(b as int, e as int),
        decreases b,
    {
        proof {
            assert(cs@.take(b as int).drop_last() =~= cs@.take(b - 1 as int));
            assert(after_last_slash(cs@.take(b as int)) == after_last_slash(
                cs@.take(b - 1 as int),
            ).push(cs@[b - 1 as int]));
            assert(after_last_slash(cs@.take(b - 1 as int)).push(cs@[b - 1 as int])
                + cs@.subrange(b as int, e as int) =~= after_last_slash(cs@.take(b - 1 as int))
                + cs@.subrange(b - 1 as int, e as int));
        }
        b = b - 1;
    }
    proof {
        if b == 0 {
            assert(cs@.take(0) =~= Seq::<char>::empty());
            assert(after_last_slash(cs@.take(b as int)) + cs@.subrange(b as int, e as int)
                =~= cs@.subrange(b as int, e as int));
        } else {
            assert(after_last_slash(cs@.take(b as int)) =~= Seq::<char>::empty());
            assert(after_last_slash(cs@.take(b as int)) + cs@.subrange(b as int, e as int)
                =~= cs@.subrange(b as int, e as int));
        }
        assert(last_component(cs@) == cs@.subrange(b as int, e as int));
    }
    if b == e {
        String::from_str("unknown")
    } else {
        let comp = subvec(&cs, b, e);
        string_of_chars(&comp)
    }
}

} // verus!
