//! The catalog document format: a JSON rendering of a list of bottles
//! and a parser for it, with a proof that parsing inverts rendering.
//!
//! A catalog is an array of objects, one per bottle, each holding the
//! fields `name`, `path`, `kind` and `config`; a config object holds
//! `runner`, `dxvk_version`, `vkd3d_version` and `environment`.  The
//! bottle's transient `active` flag is never written and never read.
//! Strings escape the quote and backslash characters; the parser skips
//! whitespace between tokens, expects the documented fields in the
//! order the renderer writes them, and treats anything else as a
//! decoding failure.

use vstd::prelude::*;
use crate::bottle::Bottle;
use crate::bottle::BottleConfig;
use crate::bottle::BottleType;
use crate::bottle::BottleView;
use crate::bottle::ConfigView;
use crate::bottle::bottles_view;
use crate::bottle::env_view;
use crate::bottle::opt_view;
use crate::text::chars_vec;
use crate::text::is_ws;
use crate::text::lemma_skip_ws_bounds;
use crate::text::skip_ws;
use crate::text::skip_ws_exec;
use crate::text::string_of_chars;

verus! {

// ---------------------------------------------------------------------
// Escaping
// ---------------------------------------------------------------------

/// The rendering of one character inside a quoted string.
pub open spec fn esc_char(c: char) -> Seq<char> {
    if c == '"' || c == '\\' {
        seq!['\\', c]
    } else {
        seq![c]
    }
}

/// The rendering of a whole string body, character by character.
pub open spec fn esc(s: Seq<char>) -> Seq<char>
    decreases s.len(),
{
    if s.len() == 0 {
        Seq::empty()
    } else {
        esc_char(s[0]) + esc(s.drop_first())
    }
}

/// Escaping distributes over concatenation.
pub proof fn lemma_esc_append(a: Seq<char>, b: Seq<char>)
    ensures
        esc(a + b) == esc(a) + esc(b),
    decreases a.len(),
{
    if a.len() == 0 {
        assert(a + b =~= b);
        assert(esc(a) + esc(b) =~= esc(b));
    } else {
        lemma_esc_append(a.drop_first(), b);
        assert((a + b).drop_first() =~= a.drop_first() + b);
        assert(esc(a + b) =~= esc(a) + esc(b));
    }
}

// ---------------------------------------------------------------------
// Fixed tokens
// ---------------------------------------------------------------------

/// The characters of the `name` field key.
pub open spec fn k_name() -> Seq<char> {
    seq!['n', 'a', 'm', 'e']
}

/// The characters of the `path` field key.
pub open spec fn k_path() -> Seq<char> {
    seq!['p', 'a', 't', 'h']
}

/// The characters of the `kind` field key.
pub open spec fn k_kind() -> Seq<char> {
    seq!['k', 'i', 'n', 'd']
}

/// The characters of the `config` field key.
pub open spec fn k_config() -> Seq<char> {
    seq!['c', 'o', 'n', 'f', 'i', 'g']
}

/// The characters of the `runner` field key.
pub open spec fn k_runner() -> Seq<char> {
    seq!['r', 'u', 'n', 'n', 'e', 'r']
}

/// The characters of the `dxvk_version` field key.
pub open spec fn k_dxvk() -> Seq<char> {
    seq!['d', 'x', 'v', 'k', '_', 'v', 'e', 'r', 's', 'i', 'o', 'n']
}

/// The characters of the `vkd3d_version` field key.
pub open spec fn k_vkd3d() -> Seq<char> {
    seq!['v', 'k', 'd', '3', 'd', '_', 'v', 'e', 'r', 's', 'i', 'o', 'n']
}

/// The characters of the `environment` field key.
pub open spec fn k_env() -> Seq<char> {
    seq!['e', 'n', 'v', 'i', 'r', 'o', 'n', 'm', 'e', 'n', 't']
}

/// The characters of the `Gaming` category name.
pub open spec fn kn_gaming() -> Seq<char> {
    seq!['G', 'a', 'm', 'i', 'n', 'g']
}

/// The characters of the `Software` category name.
pub open spec fn kn_software() -> Seq<char> {
    seq!['S', 'o', 'f', 't', 'w', 'a', 'r', 'e']
}

/// The characters of the `Custom` category name.
pub open spec fn kn_custom() -> Seq<char> {
    seq!['C', 'u', 's', 't', 'o', 'm']
}

/// The name a category is written as.
pub open spec fn kind_name(k: BottleType) -> Seq<char> {
    match k {
        BottleType::Gaming => kn_gaming(),
        BottleType::Software => kn_software(),
        BottleType::Custom => kn_custom(),
    }
}

/// The category a name reads back as, if any.
pub open spec fn kind_of_name(t: Seq<char>) -> Option<BottleType> {
    if t == kn_gaming() {
        Some(BottleType::Gaming)
    } else if t == kn_software() {
        Some(BottleType::Software)
    } else if t == kn_custom() {
        Some(BottleType::Custom)
    } else {
        None
    }
}

// ---------------------------------------------------------------------
// Rendering
// ---------------------------------------------------------------------

/// The rendering of a string value: its escaped body in quotes.
pub open spec fn enc_string(t: Seq<char>) -> Seq<char> {
    seq!['"'] + (esc(t) + seq!['"'])
}

/// The rendering of an optional string: `null` when unset.
pub open spec fn enc_opt_string(o: Option<Seq<char>>) -> Seq<char> {
    match o {
        None => seq!['n', 'u', 'l', 'l'],
        Some(t) => enc_string(t),
    }
}

/// The rendering of the entries of a non-empty environment object,
/// including the closing brace.
pub open spec fn enc_env_entries(env: Seq<(Seq<char>, Seq<char>)>) -> Seq<char>
    decreases env.len(),
{
    if env.len() <= 1 {
        enc_string(env[0].0) + (seq![':', ' '] + (enc_string(env[0].1) + seq!['\n', '}']))
    } else {
        enc_string(env[0].0) + (seq![':', ' '] + (enc_string(env[0].1) + (seq![',', '\n']
            + enc_env_entries(env.drop_first()))))
    }
}

/// The rendering of an environment object.
pub open spec fn enc_env(env: Seq<(Seq<char>, Seq<char>)>) -> Seq<char> {
    if env.len() == 0 {
        seq!['{', '}']
    } else {
        seq!['{', '\n'] + enc_env_entries(env)
    }
}

/// The rendering of a config object.
pub open spec fn enc_config(c: ConfigView) -> Seq<char> {
    seq!['{', '\n'] + (enc_string(k_runner()) + (seq![':', ' '] + (enc_opt_string(c.runner)
        + (seq![',', '\n'] + (enc_string(k_dxvk()) + (seq![':', ' '] + (enc_opt_string(
        c.dxvk_version) + (seq![',', '\n'] + (enc_string(k_vkd3d()) + (seq![':', ' ']
        + (enc_opt_string(c.vkd3d_version) + (seq![',', '\n'] + (enc_string(k_env())
        + (seq![':', ' '] + (enc_env(c.environment) + seq!['\n', '}'])))))))))))))))
}

/// The rendering of one bottle object.
pub open spec fn enc_bottle(b: BottleView) -> Seq<char> {
    seq!['{', '\n'] + (enc_string(k_name()) + (seq![':', ' '] + (enc_string(b.name)
        + (seq![',', '\n'] + (enc_string(k_path()) + (seq![':', ' '] + (enc_string(b.path)
        + (seq![',', '\n'] + (enc_string(k_kind()) + (seq![':', ' '] + (enc_string(
        kind_name(b.kind)) + (seq![',', '\n'] + (enc_string(k_config()) + (seq![':', ' ']
        + (enc_config(b.config) + seq!['\n', '}'])))))))))))))))
}

/// The rendering of the elements of a non-empty catalog array,
/// including the closing bracket.
pub open spec fn enc_bottles(bs: Seq<BottleView>) -> Seq<char>
    decreases bs.len(),
{
    if bs.len() <= 1 {
        enc_bottle(bs[0]) + seq!['\n', ']']
    } else {
        enc_bottle(bs[0]) + (seq![',', '\n'] + enc_bottles(bs.drop_first()))
    }
}

/// The rendering of a whole catalog document.
pub open spec fn enc_catalog(bs: Seq<BottleView>) -> Seq<char> {
    if bs.len() == 0 {
        seq!['[', ']']
    } else {
        seq!['[', '\n'] + enc_bottles(bs)
    }
}

// ---------------------------------------------------------------------
// Parsing
// ---------------------------------------------------------------------

/// A parsed string value: the characters it denotes and the position
/// just after its closing quote.  The opening quote stands at `i - 1`.
pub open spec fn parse_string_body(s: Seq<char>, i: int) -> Option<(Seq<char>, int)>
    decreases s.len() - i,
    when 0 <= i <= s.len()
{
    if i >= s.len() {
        None
    } else if s[i] == '"' {
        Some((Seq::empty(), i + 1))
    } else if s[i] == '\\' {
        if i + 1 < s.len() && (s[i + 1] == '"' || s[i + 1] == '\\') {
            match parse_string_body(s, i + 2) {
                None => None,
                Some((t, j)) => Some((seq![s[i + 1]] + t, j)),
            }
        } else {
            None
        }
    } else {
        match parse_string_body(s, i + 1) {
            None => None,
            Some((t, j)) => Some((seq![s[i]] + t, j)),
        }
    }
}

/// A string parsed from position `i` on: leading whitespace, a quote,
/// the body, the closing quote.
pub open spec fn parse_string(s: Seq<char>, i: int) -> Option<(Seq<char>, int)> {
    let a = skip_ws(s, i);
    if a < s.len() && s[a] == '"' {
        parse_string_body(s, a + 1)
    } else {
        None
    }
}

/// A parsed string ends after the position it started from and inside
/// the text.
pub proof fn lemma_parse_string_body_bounds(s: Seq<char>, i: int)
    requires
        0 <= i <= s.len(),
    ensures
        match parse_string_body(s, i) {
            Some((t, j)) => i < j <= s.len(),
            None => true,
        },
    decreases s.len() - i,
{
    if i >= s.len() {
    } else if s[i] == '"' {
    } else if s[i] == '\\' {
        if i + 1 < s.len() && (s[i + 1] == '"' || s[i + 1] == '\\') {
            lemma_parse_string_body_bounds(s, i + 2);
        }
    } else {
        lemma_parse_string_body_bounds(s, i + 1);
    }
}

/// A parsed string ends after the position it started from and inside
/// the text.
pub proof fn lemma_parse_string_bounds(s: Seq<char>, i: int)
    requires
        0 <= i <= s.len(),
    ensures
        match parse_string(s, i) {
            Some((t, j)) => i < j <= s.len(),
            None => true,
        },
{
    lemma_skip_ws_bounds(s, i);
    let a = skip_ws(s, i);
    if a < s.len() && s[a] == '"' {
        lemma_parse_string_body_bounds(s, a + 1);
    }
}

/// An optional string parsed from position `i` on: either the literal
/// `null` or a string.
pub open spec fn parse_opt_string(s: Seq<char>, i: int) -> Option<(Option<Seq<char>>, int)> {
    let a = skip_ws(s, i);
    if a + 4 <= s.len() && s[a] == 'n' && s[a + 1] == 'u' && s[a + 2] == 'l' && s[a + 3] == 'l' {
        Some((None, a + 4))
    } else {
        match parse_string(s, i) {
            None => None,
            Some((t, j)) => Some((Some(t), j)),
        }
    }
}

/// A parsed optional string ends after the position it started from
/// and inside the text.
pub proof fn lemma_parse_opt_string_bounds(s: Seq<char>, i: int)
    requires
        0 <= i <= s.len(),
    ensures
        match parse_opt_string(s, i) {
            Some((o, j)) => i < j <= s.len(),
            None => true,
        },
{
    lemma_skip_ws_bounds(s, i);
    lemma_parse_string_bounds(s, i);
}

/// The entries of a non-empty environment object, parsed up to and
/// including its closing brace.
pub open spec fn parse_env_entries(s: Seq<char>, i: int) -> Option<
    (Seq<(Seq<char>, Seq<char>)>, int),
>
    decreases s.len() - i,
    when 0 <= i <= s.len()
{
    match parse_string(s, i) {
        None => None,
        Some((k, j1)) => {
            let j2 = skip_ws(s, j1);
            if 0 <= j1 <= s.len() && j2 < s.len() && s[j2] == ':' {
                match parse_string(s, j2 + 1) {
                    None => None,
                    Some((v, j3)) => {
                        if 0 <= j3 <= s.len() {
                            let j4 = skip_ws(s, j3);
                            if j4 < s.len() && s[j4] == ',' {
                                if i < j4 + 1 <= s.len() {
                                    match parse_env_entries(s, j4 + 1) {
                                        None => None,
                                        Some((rest, j5)) => Some((seq![(k, v)] + rest, j5)),
                                    }
                                } else {
                                    None
                                }
                            } else if j4 < s.len() && s[j4] == '}' {
                                Some((seq![(k, v)], j4 + 1))
                            } else {
                                None
                            }
                        } else {
                            None
                        }
                    },
                }
            } else {
                None
            }
        },
    }
}

/// An environment object parsed from position `i` on.
pub open spec fn parse_env(s: Seq<char>, i: int) -> Option<(Seq<(Seq<char>, Seq<char>)>, int)> {
    let a = skip_ws(s, i);
    if a < s.len() && s[a] == '{' {
        let b = skip_ws(s, a + 1);
        if b < s.len() && s[b] == '}' {
            Some((Seq::empty(), b + 1))
        } else if a + 1 <= s.len() {
            parse_env_entries(s, a + 1)
        } else {
            None
        }
    } else {
        None
    }
}

/// Parsed environment entries end after the position they started
/// from and inside the text.
pub proof fn lemma_parse_env_entries_bounds(s: Seq<char>, i: int)
    requires
        0 <= i <= s.len(),
    ensures
        match parse_env_entries(s, i) {
            Some((env, j)) => i < j <= s.len(),
            None => true,
        },
    decreases s.len() - i,
{
    lemma_parse_string_bounds(s, i);
    match parse_string(s, i) {
        None => {},
        Some((k, j1)) => {
            lemma_skip_ws_bounds(s, j1);
            let j2 = skip_ws(s, j1);
            if j2 < s.len() && s[j2] == ':' {
                lemma_parse_string_bounds(s, j2 + 1);
                match parse_string(s, j2 + 1) {
                    None => {},
                    Some((v, j3)) => {
                        lemma_skip_ws_bounds(s, j3);
                        let j4 = skip_ws(s, j3);
                        if j4 < s.len() && s[j4] == ',' {
                            lemma_parse_env_entries_bounds(s, j4 + 1);
                        }
                    },
                }
            }
        },
    }
}

/// A parsed environment object ends after the position it started
/// from and inside the text.
pub proof fn lemma_parse_env_bounds(s: Seq<char>, i: int)
    requires
        0 <= i <= s.len(),
    ensures
        match parse_env(s, i) {
            Some((env, j)) => i < j <= s.len(),
            None => true,
        },
{
    lemma_skip_ws_bounds(s, i);
    let a = skip_ws(s, i);
    if a < s.len() && s[a] == '{' {
        lemma_skip_ws_bounds(s, a + 1);
        lemma_parse_env_entries_bounds(s, a + 1);
    }
}

/// A field key parsed from position `i` on: a string equal to `key`,
/// then a colon; the result is the position just after the colon.
pub open spec fn parse_key(s: Seq<char>, i: int, key: Seq<char>) -> Option<int> {
    match parse_string(s, i) {
        None => None,
        Some((k, j)) => if k == key && 0 <= j <= s.len() {
            let j2 = skip_ws(s, j);
            if 0 <= j2 && j2 < s.len() && s[j2] == ':' {
                Some(j2 + 1)
            } else {
                None
            }
        } else {
            None
        },
    }
}

/// A parsed key ends after the position it started from and inside
/// the text.
pub proof fn lemma_parse_key_bounds(s: Seq<char>, i: int, key: Seq<char>)
    requires
        0 <= i <= s.len(),
    ensures
        match parse_key(s, i, key) {
            Some(p) => i < p <= s.len(),
            None => true,
        },
{
    lemma_parse_string_bounds(s, i);
    match parse_string(s, i) {
        None => {},
        Some((k, j)) => {
            lemma_skip_ws_bounds(s, j);
        },
    }
}

/// A comma parsed from position `i` on, whitespace before it skipped;
/// the result is the position just after it.
pub open spec fn parse_comma(s: Seq<char>, i: int) -> Option<int> {
    let c = skip_ws(s, i);
    if 0 <= c && c < s.len() && s[c] == ',' {
        Some(c + 1)
    } else {
        None
    }
}

/// A parsed comma ends after the position it started from and inside
/// the text.
pub proof fn lemma_parse_comma_bounds(s: Seq<char>, i: int)
    requires
        0 <= i <= s.len(),
    ensures
        match parse_comma(s, i) {
            Some(p) => i < p <= s.len(),
            None => true,
        },
{
    lemma_skip_ws_bounds(s, i);
}

/// A config object parsed from position `i` on: the four documented
/// fields, in the order the renderer writes them.
pub open spec fn parse_config(s: Seq<char>, i: int) -> Option<(ConfigView, int)> {
    let a = skip_ws(s, i);
    if 0 <= a && a < s.len() && s[a] == '{' {
        match parse_key(s, a + 1, k_runner()) {
            None => None,
            Some(p1) => match parse_opt_string(s, p1) {
                None => None,
                Some((runner, q1)) => if 0 <= q1 <= s.len() {
                    match parse_comma(s, q1) {
                        None => None,
                        Some(r1) => match parse_key(s, r1, k_dxvk()) {
                            None => None,
                            Some(p2) => match parse_opt_string(s, p2) {
                                None => None,
                                Some((dxvk, q2)) => if 0 <= q2 <= s.len() {
                                    match parse_comma(s, q2) {
                                        None => None,
                                        Some(r2) => match parse_key(s, r2, k_vkd3d()) {
                                            None => None,
                                            Some(p3) => match parse_opt_string(s, p3) {
                                                None => None,
                                                Some((vkd3d, q3)) => if 0 <= q3 <= s.len() {
                                                    match parse_comma(s, q3) {
                                                        None => None,
                                                        Some(r3) => match parse_key(
                                                            s,
                                                            r3,
                                                            k_env(),
                                                        ) {
                                                            None => None,
                                                            Some(p4) => match parse_env(s, p4) {
                                                                None => None,
                                                                Some((env, q4)) => if 0 <= q4
                                                                    <= s.len() {
                                                                    let c = skip_ws(s, q4);
                                                                    if 0 <= c && c < s.len()
                                                                        && s[c] == '}' {
                                                                        Some(
                                                                            (
                                                                                ConfigView {
                                                                                    runner,
                                                                                    dxvk_version:
                                                                                        dxvk,
                                                                                    vkd3d_version:
                                                                                        vkd3d,
                                                                                    environment:
                                                                                        env,
                                                                                },
                                                                                c + 1,
                                                                            ),
                                                                        )
                                                                    } else {
                                                                        None
                                                                    }
                                                                } else {
                                                                    None
                                                                },
                                                            },
                                                        },
                                                    }
                                                } else {
                                                    None
                                                },
                                            },
                                        },
                                    }
                                } else {
                                    None
                                },
                            },
                        },
                    }
                } else {
                    None
                },
            },
        }
    } else {
        None
    }
}

/// A parsed config object ends after the position it started from and
/// inside the text.
pub proof fn lemma_parse_config_bounds(s: Seq<char>, i: int)
    requires
        0 <= i <= s.len(),
    ensures
        match parse_config(s, i) {
            Some((c, j)) => i < j <= s.len(),
            None => true,
        },
{
    lemma_skip_ws_bounds(s, i);
    let a = skip_ws(s, i);
    if a < s.len() && s[a] == '{' {
        lemma_parse_key_bounds(s, a + 1, k_runner());
        match parse_key(s, a + 1, k_runner()) {
            None => {},
            Some(p1) => {
                lemma_parse_opt_string_bounds(s, p1);
                match parse_opt_string(s, p1) {
                    None => {},
                    Some((runner, q1)) => {
                        lemma_parse_comma_bounds(s, q1);
                        match parse_comma(s, q1) {
                            None => {},
                            Some(r1) => {
                                lemma_parse_key_bounds(s, r1, k_dxvk());
                                match parse_key(s, r1, k_dxvk()) {
                                    None => {},
                                    Some(p2) => {
                                        lemma_parse_opt_string_bounds(s, p2);
                                        match parse_opt_string(s, p2) {
                                            None => {},
                                            Some((dxvk, q2)) => {
                                                lemma_parse_comma_bounds(s, q2);
                                                match parse_comma(s, q2) {
                                                    None => {},
                                                    Some(r2) => {
                                                        lemma_parse_key_bounds(s, r2, k_vkd3d());
                                                        match parse_key(s, r2, k_vkd3d()) {
                                                            None => {},
                                                            Some(p3) => {
                                                                lemma_parse_opt_string_bounds(
                                                                    s,
                                                                    p3,
                                                                );
                                                                match parse_opt_string(s, p3) {
                                                                    None => {},
                                                                    Some((vkd3d, q3)) => {
                                                                        lemma_parse_comma_bounds(
                                                                            s,
                                                                            q3,
                                                                        );
                                                                        match parse_comma(s, q3) {
                                                                            None => {},
                                                                            Some(r3) => {
                                                                                lemma_parse_key_bounds(
                                                                                    s,
                                                                                    r3,
                                                                                    k_env(),
                                                                                );
                                                                                match parse_key(
                                                                                    s,
                                                                                    r3,
                                                                                    k_env(),
                                                                                ) {
                                                                                    None => {},
                                                                                    Some(p4) => {
                                                                                        lemma_parse_env_bounds(
                                                                                            s,
                                                                                            p4,
                                                                                        );
                                                                                        match parse_env(
                                                                                            s,
                                                                                            p4,
                                                                                        ) {
                                                                                            None => {},
                                                                                            Some(
                                                                                                (env, q4),
                                                                                            ) => {
                                                                                                lemma_skip_ws_bounds(
                                                                                                    s,
                                                                                                    q4,
                                                                                                );
                                                                                            },
                                                                                        }
                                                                                    },
                                                                                }
                                                                            },
                                                                        }
                                                                    },
                                                                }
                                                            },
                                                        }
                                                    },
                                                }
                                            },
                                        }
                                    },
                                }
                            },
                        }
                    },
                }
            },
        }
    }
}

/// One bottle object parsed from position `i` on: the four documented
/// fields, in the order the renderer writes them.  The transient
/// `active` flag is never read from the document.
pub open spec fn parse_bottle(s: Seq<char>, i: int) -> Option<(BottleView, int)> {
    let a = skip_ws(s, i);
    if 0 <= a && a < s.len() && s[a] == '{' {
        match parse_key(s, a + 1, k_name()) {
            None => None,
            Some(p1) => match parse_string(s, p1) {
                None => None,
                Some((name, q1)) => if 0 <= q1 <= s.len() {
                    match parse_comma(s, q1) {
                        None => None,
                        Some(r1) => match parse_key(s, r1, k_path()) {
                            None => None,
                            Some(p2) => match parse_string(s, p2) {
                                None => None,
                                Some((path, q2)) => if 0 <= q2 <= s.len() {
                                    match parse_comma(s, q2) {
                                        None => None,
                                        Some(r2) => match parse_key(s, r2, k_kind()) {
                                            None => None,
                                            Some(p3) => match parse_string(s, p3) {
                                                None => None,
                                                Some((kn, q3)) => match kind_of_name(kn) {
                                                    None => None,
                                                    Some(kind) => if 0 <= q3 <= s.len() {
                                                        match parse_comma(s, q3) {
                                                            None => None,
                                                            Some(r3) => match parse_key(
                                                                s,
                                                                r3,
                                                                k_config(),
                                                            ) {
                                                                None => None,
                                                                Some(p4) => match parse_config(
                                                                    s,
                                                                    p4,
                                                                ) {
                                                                    None => None,
                                                                    Some((config, q4)) => if 0
                                                                        <= q4 <= s.len() {
                                                                        let c = skip_ws(s, q4);
                                                                        if 0 <= c && c < s.len()
                                                                            && s[c] == '}' {
                                                                            Some(
                                                                                (
                                                                                    BottleView {
                                                                                        name,
                                                                                        path,
                                                                                        kind,
                                                                                        config,
                                                                                        active:
                                                                                            false,
                                                                                    },
                                                                                    c + 1,
                                                                                ),
                                                                            )
                                                                        } else {
                                                                            None
                                                                        }
                                                                    } else {
                                                                        None
                                                                    },
                                                                },
                                                            },
                                                        }
                                                    } else {
                                                        None
                                                    },
                                                },
                                            },
                                        },
                                    }
                                } else {
                                    None
                                },
                            },
                        },
                    }
                } else {
                    None
                },
            },
        }
    } else {
        None
    }
}

/// The elements of a non-empty catalog array, parsed up to and
/// including the closing bracket.
pub open spec fn parse_bottles(s: Seq<char>, i: int) -> Option<(Seq<BottleView>, int)>
    decreases s.len() - i,
    when 0 <= i <= s.len()
{
    match parse_bottle(s, i) {
        None => None,
        Some((b, j)) => if 0 <= j <= s.len() {
            let c = skip_ws(s, j);
            if 0 <= c && c < s.len() && s[c] == ',' {
                if i < c + 1 <= s.len() {
                    match parse_bottles(s, c + 1) {
                        None => None,
                        Some((rest, j2)) => Some((seq![b] + rest, j2)),
                    }
                } else {
                    None
                }
            } else if 0 <= c && c < s.len() && s[c] == ']' {
                Some((seq![b], c + 1))
            } else {
                None
            }
        } else {
            None
        },
    }
}

/// A whole catalog document: an array of bottle objects and nothing
/// but whitespace after it.
pub open spec fn parse_catalog(s: Seq<char>) -> Option<Seq<BottleView>> {
    let a = skip_ws(s, 0);
    if 0 <= a && a < s.len() && s[a] == '[' {
        let b = skip_ws(s, a + 1);
        if 0 <= b && b < s.len() && s[b] == ']' {
            if 0 <= b + 1 <= s.len() && skip_ws(s, b + 1) == s.len() {
                Some(Seq::empty())
            } else {
                None
            }
        } else {
            match parse_bottles(s, a + 1) {
                None => None,
                Some((bs, j)) => if 0 <= j <= s.len() && skip_ws(s, j) == s.len() {
                    Some(bs)
                } else {
                    None
                },
            }
        }
    } else {
        None
    }
}

/// A bottle value as it survives persistence: unchanged but for the
/// transient `active` flag, which is always false after a load.
pub open spec fn strip_active(b: BottleView) -> BottleView {
    BottleView {
        name: b.name,
        path: b.path,
        kind: b.kind,
        config: b.config,
        active: false,
    }
}

/// A catalog as it survives persistence: every bottle unchanged but
/// for its transient `active` flag.
pub open spec fn strip_actives(bs: Seq<BottleView>) -> Seq<BottleView> {
    bs.map_values(|b: BottleView| strip_active(b))
}

// ---------------------------------------------------------------------
// Parsing inverts rendering
// ---------------------------------------------------------------------

/// A region known to hold a concatenation splits into its two parts.
proof fn lemma_region_split(s: Seq<char>, rs: int, a: Seq<char>, b: Seq<char>)
    requires
        0 <= rs,
        rs + a.len() + b.len() <= s.len(),
        s.subrange(rs, rs + a.len() + b.len()) == a + b,
    ensures
        s.subrange(rs, rs + a.len() as int) == a,
        s.subrange(rs + a.len() as int, rs + a.len() + b.len()) == b,
{
    assert forall|k: int| 0 <= k < a.len() + b.len() implies s[rs + k] == (a + b)[k] by {
        assert(s.subrange(rs, rs + a.len() + b.len())[k] == (a + b)[k]);
    }
    assert(s.subrange(rs, rs + a.len() as int) =~= a);
    assert forall|k: int| 0 <= k < b.len() implies s.subrange(
        rs + a.len() as int,
        rs + a.len() + b.len(),
    )[k] == b[k] by {
        assert(s[rs + (a.len() + k)] == (a + b)[a.len() + k]);
    }
    assert(s.subrange(rs + a.len() as int, rs + a.len() + b.len()) =~= b);
}

/// Skipping whitespace before a non-whitespace character goes nowhere.
proof fn lemma_skip_at(s: Seq<char>, i: int)
    requires
        0 <= i <= s.len(),
        i < s.len() ==> !is_ws(s[i]),
    ensures
        skip_ws(s, i) == i,
{
}

/// Skipping whitespace over a single whitespace character steps past
/// exactly that character.
proof fn lemma_skip_one(s: Seq<char>, i: int)
    requires
        0 <= i,
        i + 1 <= s.len(),
        is_ws(s[i]),
        i + 1 < s.len() ==> !is_ws(s[i + 1]),
    ensures
        skip_ws(s, i) == i + 1,
{
    assert(skip_ws(s, i + 1) == i + 1);
}

/// Parsing a rendered string body yields the original characters.
proof fn lemma_rt_string_body(t: Seq<char>, s: Seq<char>, i: int)
    requires
        0 <= i,
        i + esc(t).len() < s.len(),
        s.subrange(i, i + esc(t).len() as int) == esc(t),
        s[i + esc(t).len() as int] == '"',
    ensures
        parse_string_body(s, i) == Some((t, i + esc(t).len() + 1)),
    decreases t.len(),
{
    assert forall|k: int| 0 <= k < esc(t).len() implies s[i + k] == esc(t)[k] by {
        assert(s.subrange(i, i + esc(t).len() as int)[k] == esc(t)[k]);
    }
    if t.len() == 0 {
        assert(esc(t).len() == 0);
        assert(s[i] == '"');
        assert(t =~= Seq::<char>::empty());
    } else {
        let c = t[0];
        let t2 = t.drop_first();
        assert(esc(t) == esc_char(c) + esc(t2));
        if c == '"' || c == '\\' {
            assert(esc_char(c) == seq!['\\', c]);
            assert(esc(t)[0] == '\\');
            assert(esc(t)[1] == c);
            assert(s[i] == '\\');
            assert(s[i + 1] == c);
            assert(s.subrange(i + 2, i + 2 + esc(t2).len() as int) =~= esc(t2)) by {
                assert forall|k: int| 0 <= k < esc(t2).len() implies s.subrange(
                    i + 2,
                    i + 2 + esc(t2).len() as int,
                )[k] == esc(t2)[k] by {
                    assert(esc(t)[2 + k] == esc(t2)[k]);
                    assert(s[i + 2 + k] == esc(t)[2 + k]);
                }
            }
            assert(s[i + 2 + esc(t2).len() as int] == '"');
            lemma_rt_string_body(t2, s, i + 2);
            assert(seq![s[i + 1]] + t2 =~= t);
        } else {
            assert(esc_char(c) == seq![c]);
            assert(esc(t)[0] == c);
            assert(s[i] == c);
            assert(s.subrange(i + 1, i + 1 + esc(t2).len() as int) =~= esc(t2)) by {
                assert forall|k: int| 0 <= k < esc(t2).len() implies s.subrange(
                    i + 1,
                    i + 1 + esc(t2).len() as int,
                )[k] == esc(t2)[k] by {
                    assert(esc(t)[1 + k] == esc(t2)[k]);
                    assert(s[i + 1 + k] == esc(t)[1 + k]);
                }
            }
            assert(s[i + 1 + esc(t2).len() as int] == '"');
            lemma_rt_string_body(t2, s, i + 1);
            assert(seq![s[i]] + t2 =~= t);
        }
    }
}

/// Parsing a rendered string yields the original characters.
proof fn lemma_rt_string(t: Seq<char>, s: Seq<char>, i: int, rs: int)
    requires
        0 <= i <= rs,
        rs + enc_string(t).len() <= s.len(),
        s.subrange(rs, rs + enc_string(t).len() as int) == enc_string(t),
        skip_ws(s, i) == rs,
    ensures
        parse_string(s, i) == Some((t, rs + enc_string(t).len())),
{
    let el = esc(t).len() as int;
    assert forall|k: int| 0 <= k < enc_string(t).len() implies s[rs + k] == enc_string(t)[k] by {
        assert(s.subrange(rs, rs + enc_string(t).len() as int)[k] == enc_string(t)[k]);
    }
    assert(enc_string(t)[0] == '"');
    assert(s[rs] == '"');
    assert(s.subrange(rs + 1, rs + 1 + el) =~= esc(t)) by {
        assert forall|k: int| 0 <= k < el implies s.subrange(rs + 1, rs + 1 + el)[k]
            == esc(t)[k] by {
            assert(enc_string(t)[1 + k] == esc(t)[k]);
            assert(s[rs + 1 + k] == enc_string(t)[1 + k]);
        }
    }
    assert(enc_string(t)[el + 1] == '"');
    assert(s[rs + 1 + el] == '"');
    lemma_rt_string_body(t, s, rs + 1);
}

/// Parsing a rendered optional string yields the original value.
proof fn lemma_rt_opt_string(o: Option<Seq<char>>, s: Seq<char>, i: int, rs: int)
    requires
        0 <= i <= rs,
        rs + enc_opt_string(o).len() <= s.len(),
        s.subrange(rs, rs + enc_opt_string(o).len() as int) == enc_opt_string(o),
        skip_ws(s, i) == rs,
    ensures
        parse_opt_string(s, i) == Some((o, rs + enc_opt_string(o).len())),
{
    assert forall|k: int| 0 <= k < enc_opt_string(o).len() implies s[rs + k] == enc_opt_string(
        o,
    )[k] by {
        assert(s.subrange(rs, rs + enc_opt_string(o).len() as int)[k] == enc_opt_string(o)[k]);
    }
    match o {
        None => {
            assert(s[rs] == 'n');
            assert(s[rs + 1] == 'u');
            assert(s[rs + 2] == 'l');
            assert(s[rs + 3] == 'l');
        },
        Some(t) => {
            assert(enc_opt_string(o)[0] == '"');
            assert(s[rs] == '"');
            lemma_rt_string(t, s, i, rs);
        },
    }
}

/// Parsing a rendered field key steps to the position just after its
/// colon.
proof fn lemma_rt_key(key: Seq<char>, s: Seq<char>, i: int, rs: int)
    requires
        0 <= i <= rs,
        rs + enc_string(key).len() + 1 <= s.len(),
        s.subrange(rs, rs + enc_string(key).len() as int) == enc_string(key),
        s[rs + enc_string(key).len() as int] == ':',
        skip_ws(s, i) == rs,
    ensures
        parse_key(s, i, key) == Some(rs + enc_string(key).len() + 1),
{
    let j = rs + enc_string(key).len() as int;
    lemma_rt_string(key, s, i, rs);
    lemma_skip_at(s, j);
}

/// Parsing rendered environment entries yields the original entries.
proof fn lemma_rt_env_entries(env: Seq<(Seq<char>, Seq<char>)>, s: Seq<char>, i: int, rs: int)
    requires
        env.len() >= 1,
        0 <= i <= rs,
        rs + enc_env_entries(env).len() <= s.len(),
        s.subrange(rs, rs + enc_env_entries(env).len() as int) == enc_env_entries(env),
        skip_ws(s, i) == rs,
    ensures
        parse_env_entries(s, i) == Some((env, rs + enc_env_entries(env).len())),
    decreases env.len(),
{
    let k0 = env[0].0;
    let v0 = env[0].1;
    let ka = enc_string(k0);
    let va = enc_string(v0);
    let p1 = rs + ka.len() as int;
    let p2 = p1 + 2;
    let p3 = p2 + va.len() as int;
    if env.len() == 1 {
        let restb = seq![':', ' '] + (va + seq!['\n', '}']);
        assert(enc_env_entries(env) == ka + restb);
        lemma_region_split(s, rs, ka, restb);
        let restc = va + seq!['\n', '}'];
        lemma_region_split(s, p1, seq![':', ' '], restc);
        lemma_region_split(s, p2, va, seq!['\n', '}']);
        assert(s[p1] == ':') by {
            assert(s.subrange(p1, p1 + 2)[0] == ':');
        }
        assert(s[p1 + 1] == ' ') by {
            assert(s.subrange(p1, p1 + 2)[1] == ' ');
        }
        assert(s[p3] == '\n') by {
            assert(s.subrange(p3, p3 + 2)[0] == '\n');
        }
        assert(s[p3 + 1] == '}') by {
            assert(s.subrange(p3, p3 + 2)[1] == '}');
        }
        lemma_rt_string(k0, s, i, rs);
        lemma_skip_at(s, p1);
        assert(s[p2] == '"') by {
            assert(s.subrange(p2, p2 + va.len() as int)[0] == va[0]);
            assert(va[0] == '"');
        }
        lemma_skip_one(s, p1 + 1);
        lemma_rt_string(v0, s, p1 + 1, p2);
        lemma_skip_one(s, p3);
        assert(seq![(k0, v0)] =~= env);
    } else {
        let reste = enc_env_entries(env.drop_first());
        let restb = seq![':', ' '] + (va + (seq![',', '\n'] + reste));
        assert(enc_env_entries(env) == ka + restb);
        lemma_region_split(s, rs, ka, restb);
        let restc = va + (seq![',', '\n'] + reste);
        lemma_region_split(s, p1, seq![':', ' '], restc);
        let restd = seq![',', '\n'] + reste;
        lemma_region_split(s, p2, va, restd);
        lemma_region_split(s, p3, seq![',', '\n'], reste);
        assert(s[p1] == ':') by {
            assert(s.subrange(p1, p1 + 2)[0] == ':');
        }
        assert(s[p1 + 1] == ' ') by {
            assert(s.subrange(p1, p1 + 2)[1] == ' ');
        }
        assert(s[p3] == ',') by {
            assert(s.subrange(p3, p3 + 2)[0] == ',');
        }
        assert(s[p3 + 1] == '\n') by {
            assert(s.subrange(p3, p3 + 2)[1] == '\n');
        }
        lemma_rt_string(k0, s, i, rs);
        lemma_skip_at(s, p1);
        assert(s[p2] == '"') by {
            assert(s.subrange(p2, p2 + va.len() as int)[0] == va[0]);
            assert(va[0] == '"');
        }
        lemma_skip_one(s, p1 + 1);
        lemma_rt_string(v0, s, p1 + 1, p2);
        lemma_skip_at(s, p3);
        let p4 = p3 + 2;
        assert(s[p4] == '"') by {
            assert(s.subrange(p4, p4 + reste.len() as int)[0] == reste[0]);
            assert(reste[0] == (enc_string(env.drop_first()[0].0))[0]);
            assert((enc_string(env.drop_first()[0].0))[0] == '"');
        }
        lemma_skip_one(s, p3 + 1);
        lemma_rt_env_entries(env.drop_first(), s, p3 + 1, p4);
        assert(seq![(k0, v0)] + env.drop_first() =~= env);
    }
}

/// Parsing a rendered environment object yields the original entries.
proof fn lemma_rt_env(env: Seq<(Seq<char>, Seq<char>)>, s: Seq<char>, i: int, rs: int)
    requires
        0 <= i <= rs,
        rs + enc_env(env).len() <= s.len(),
        s.subrange(rs, rs + enc_env(env).len() as int) == enc_env(env),
        skip_ws(s, i) == rs,
    ensures
        parse_env(s, i) == Some((env, rs + enc_env(env).len())),
{
    if env.len() == 0 {
        assert(s[rs] == '{') by {
            assert(s.subrange(rs, rs + 2)[0] == '{');
        }
        assert(s[rs + 1] == '}') by {
            assert(s.subrange(rs, rs + 2)[1] == '}');
        }
        lemma_skip_at(s, rs + 1);
        assert(env =~= Seq::<(Seq<char>, Seq<char>)>::empty());
    } else {
        let reste = enc_env_entries(env);
        assert(enc_env(env) == seq!['{', '\n'] + reste);
        lemma_region_split(s, rs, seq!['{', '\n'], reste);
        assert(s[rs] == '{') by {
            assert(s.subrange(rs, rs + 2)[0] == '{');
        }
        assert(s[rs + 1] == '\n') by {
            assert(s.subrange(rs, rs + 2)[1] == '\n');
        }
        assert(s[rs + 2] == '"') by {
            assert(s.subrange(rs + 2, rs + 2 + reste.len() as int)[0] == reste[0]);
            assert(reste[0] == (enc_string(env[0].0))[0]);
            assert((enc_string(env[0].0))[0] == '"');
        }
        lemma_skip_one(s, rs + 1);
        lemma_rt_env_entries(env, s, rs + 1, rs + 2);
    }
}

/// The rendering of an optional string starts with a non-whitespace
/// character.
proof fn lemma_enc_opt_head(o: Option<Seq<char>>)
    ensures
        enc_opt_string(o).len() >= 1,
        !is_ws(enc_opt_string(o)[0]),
        enc_opt_string(o)[0] != ',',
{
    match o {
        None => {
            assert(enc_opt_string(o)[0] == 'n');
        },
        Some(t) => {
            assert(enc_opt_string(o)[0] == '"');
        },
    }
}

/// Parsing a rendered config object yields the original value.
#[verifier::rlimit(100)]
proof fn lemma_rt_config(c: ConfigView, s: Seq<char>, i: int, rs: int)
    requires
        0 <= i <= rs,
        rs + enc_config(c).len() <= s.len(),
        s.subrange(rs, rs + enc_config(c).len() as int) == enc_config(c),
        skip_ws(s, i) == rs,
    ensures
        parse_config(s, i) == Some((c, rs + enc_config(c).len())),
{
    let z = seq!['\n', '}'];
    let t16 = enc_env(c.environment) + z;
    let t15 = seq![':', ' '] + t16;
    let t14 = enc_string(k_env()) + t15;
    let t13 = seq![',', '\n'] + t14;
    let t12 = enc_opt_string(c.vkd3d_version) + t13;
    let t11 = seq![':', ' '] + t12;
    let t10 = enc_string(k_vkd3d()) + t11;
    let t9 = seq![',', '\n'] + t10;
    let t8 = enc_opt_string(c.dxvk_version) + t9;
    let t7 = seq![':', ' '] + t8;
    let t6 = enc_string(k_dxvk()) + t7;
    let t5 = seq![',', '\n'] + t6;
    let t4 = enc_opt_string(c.runner) + t5;
    let t3 = seq![':', ' '] + t4;
    let t2 = enc_string(k_runner()) + t3;
    assert(enc_config(c) == seq!['{', '\n'] + t2);
    let k1 = rs + 2;
    let a1 = k1 + enc_string(k_runner()).len() as int;
    let w1 = a1 + 2;
    let e1 = w1 + enc_opt_string(c.runner).len() as int;
    let k2 = e1 + 2;
    let a2 = k2 + enc_string(k_dxvk()).len() as int;
    let w2 = a2 + 2;
    let e2 = w2 + enc_opt_string(c.dxvk_version).len() as int;
    let k3 = e2 + 2;
    let a3 = k3 + enc_string(k_vkd3d()).len() as int;
    let w3 = a3 + 2;
    let e3 = w3 + enc_opt_string(c.vkd3d_version).len() as int;
    let k4 = e3 + 2;
    let a4 = k4 + enc_string(k_env()).len() as int;
    let w4 = a4 + 2;
    let e4 = w4 + enc_env(c.environment).len() as int;
    lemma_region_split(s, rs, seq!['{', '\n'], t2);
    lemma_region_split(s, k1, enc_string(k_runner()), t3);
    lemma_region_split(s, a1, seq![':', ' '], t4);
    lemma_region_split(s, w1, enc_opt_string(c.runner), t5);
    lemma_region_split(s, e1, seq![',', '\n'], t6);
    lemma_region_split(s, k2, enc_string(k_dxvk()), t7);
    lemma_region_split(s, a2, seq![':', ' '], t8);
    lemma_region_split(s, w2, enc_opt_string(c.dxvk_version), t9);
    lemma_region_split(s, e2, seq![',', '\n'], t10);
    lemma_region_split(s, k3, enc_string(k_vkd3d()), t11);
    lemma_region_split(s, a3, seq![':', ' '], t12);
    lemma_region_split(s, w3, enc_opt_string(c.vkd3d_version), t13);
    lemma_region_split(s, e3, seq![',', '\n'], t14);
    lemma_region_split(s, k4, enc_string(k_env()), t15);
    lemma_region_split(s, a4, seq![':', ' '], t16);
    lemma_region_split(s, w4, enc_env(c.environment), z);
    assert(s[rs] == '{') by {
        assert(s.subrange(rs, rs + 2)[0] == '{');
    }
    assert(s[rs + 1] == '\n') by {
        assert(s.subrange(rs, rs + 2)[1] == '\n');
    }
    assert(s[a1] == ':' && s[a1 + 1] == ' ') by {
        assert(s.subrange(a1, a1 + 2)[0] == ':');
        assert(s.subrange(a1, a1 + 2)[1] == ' ');
    }
    assert(s[e1] == ',' && s[e1 + 1] == '\n') by {
        assert(s.subrange(e1, e1 + 2)[0] == ',');
        assert(s.subrange(e1, e1 + 2)[1] == '\n');
    }
    assert(s[a2] == ':' && s[a2 + 1] == ' ') by {
        assert(s.subrange(a2, a2 + 2)[0] == ':');
        assert(s.subrange(a2, a2 + 2)[1] == ' ');
    }
    assert(s[e2] == ',' && s[e2 + 1] == '\n') by {
        assert(s.subrange(e2, e2 + 2)[0] == ',');
        assert(s.subrange(e2, e2 + 2)[1] == '\n');
    }
    assert(s[a3] == ':' && s[a3 + 1] == ' ') by {
        assert(s.subrange(a3, a3 + 2)[0] == ':');
        assert(s.subrange(a3, a3 + 2)[1] == ' ');
    }
    assert(s[e3] == ',' && s[e3 + 1] == '\n') by {
        assert(s.subrange(e3, e3 + 2)[0] == ',');
        assert(s.subrange(e3, e3 + 2)[1] == '\n');
    }
    assert(s[a4] == ':' && s[a4 + 1] == ' ') by {
        assert(s.subrange(a4, a4 + 2)[0] == ':');
        assert(s.subrange(a4, a4 + 2)[1] == ' ');
    }
    assert(s[e4] == '\n' && s[e4 + 1] == '}') by {
        assert(s.subrange(e4, e4 + 2)[0] == '\n');
        assert(s.subrange(e4, e4 + 2)[1] == '}');
    }
    assert(s[k1] == '"') by {
        assert(s.subrange(k1, a1)[0] == enc_string(k_runner())[0]);
        assert(enc_string(k_runner())[0] == '"');
    }
    assert(s[k2] == '"') by {
        assert(s.subrange(k2, a2)[0] == enc_string(k_dxvk())[0]);
        assert(enc_string(k_dxvk())[0] == '"');
    }
    assert(s[k3] == '"') by {
        assert(s.subrange(k3, a3)[0] == enc_string(k_vkd3d())[0]);
        assert(enc_string(k_vkd3d())[0] == '"');
    }
    assert(s[k4] == '"') by {
        assert(s.subrange(k4, a4)[0] == enc_string(k_env())[0]);
        assert(enc_string(k_env())[0] == '"');
    }
    lemma_enc_opt_head(c.runner);
    assert(s[w1] == enc_opt_string(c.runner)[0]) by {
        assert(s.subrange(w1, e1)[0] == enc_opt_string(c.runner)[0]);
    }
    lemma_enc_opt_head(c.dxvk_version);
    assert(s[w2] == enc_opt_string(c.dxvk_version)[0]) by {
        assert(s.subrange(w2, e2)[0] == enc_opt_string(c.dxvk_version)[0]);
    }
    lemma_enc_opt_head(c.vkd3d_version);
    assert(s[w3] == enc_opt_string(c.vkd3d_version)[0]) by {
        assert(s.subrange(w3, e3)[0] == enc_opt_string(c.vkd3d_version)[0]);
    }
    assert(s[w4] == '{') by {
        assert(s.subrange(w4, e4)[0] == enc_env(c.environment)[0]);
        assert(enc_env(c.environment)[0] == '{');
    }
    lemma_skip_one(s, rs + 1);
    lemma_rt_key(k_runner(), s, rs + 1, k1);
    lemma_skip_one(s, a1 + 1);
    lemma_rt_opt_string(c.runner, s, a1 + 1, w1);
    lemma_skip_at(s, e1);
    lemma_skip_one(s, e1 + 1);
    lemma_rt_key(k_dxvk(), s, e1 + 1, k2);
    lemma_skip_one(s, a2 + 1);
    lemma_rt_opt_string(c.dxvk_version, s, a2 + 1, w2);
    lemma_skip_at(s, e2);
    lemma_skip_one(s, e2 + 1);
    lemma_rt_key(k_vkd3d(), s, e2 + 1, k3);
    lemma_skip_one(s, a3 + 1);
    lemma_rt_opt_string(c.vkd3d_version, s, a3 + 1, w3);
    lemma_skip_at(s, e3);
    lemma_skip_one(s, e3 + 1);
    lemma_rt_key(k_env(), s, e3 + 1, k4);
    lemma_skip_one(s, a4 + 1);
    lemma_rt_env(c.environment, s, a4 + 1, w4);
    lemma_skip_one(s, e4);
    assert(parse_config(s, i) == Some(
        (
            ConfigView {
                runner: c.runner,
                dxvk_version: c.dxvk_version,
                vkd3d_version: c.vkd3d_version,
                environment: c.environment,
            },
            e4 + 2,
        ),
    ));
    assert(ConfigView {
        runner: c.runner,
        dxvk_version: c.dxvk_version,
        vkd3d_version: c.vkd3d_version,
        environment: c.environment,
    } == c);
}

/// A rendered category name reads back as the category it was written
/// for.
proof fn lemma_rt_kind(k: BottleType)
    ensures
        kind_of_name(kind_name(k)) == Some(k),
{
    assert(kn_gaming()[0] == 'G');
    assert(kn_custom()[0] == 'C');
    assert(kn_software().len() == 8);
    assert(kn_gaming().len() == 6);
    assert(kn_custom().len() == 6);
}

/// Parsing a rendered bottle object yields the original value with its
/// transient flag cleared.
#[verifier::rlimit(100)]
proof fn lemma_rt_bottle(b: BottleView, s: Seq<char>, i: int, rs: int)
    requires
        0 <= i <= rs,
        rs + enc_bottle(b).len() <= s.len(),
        s.subrange(rs, rs + enc_bottle(b).len() as int) == enc_bottle(b),
        skip_ws(s, i) == rs,
    ensures
        parse_bottle(s, i) == Some((strip_active(b), rs + enc_bottle(b).len())),
{
    let z = seq!['\n', '}'];
    let t16 = enc_config(b.config) + z;
    let t15 = seq![':', ' '] + t16;
    let t14 = enc_string(k_config()) + t15;
    let t13 = seq![',', '\n'] + t14;
    let t12 = enc_string(kind_name(b.kind)) + t13;
    let t11 = seq![':', ' '] + t12;
    let t10 = enc_string(k_kind()) + t11;
    let t9 = seq![',', '\n'] + t10;
    let t8 = enc_string(b.path) + t9;
    let t7 = seq![':', ' '] + t8;
    let t6 = enc_string(k_path()) + t7;
    let t5 = seq![',', '\n'] + t6;
    let t4 = enc_string(b.name) + t5;
    let t3 = seq![':', ' '] + t4;
    let t2 = enc_string(k_name()) + t3;
    assert(enc_bottle(b) == seq!['{', '\n'] + t2);
    let k1 = rs + 2;
    let a1 = k1 + enc_string(k_name()).len() as int;
    let w1 = a1 + 2;
    let e1 = w1 + enc_string(b.name).len() as int;
    let k2 = e1 + 2;
    let a2 = k2 + enc_string(k_path()).len() as int;
    let w2 = a2 + 2;
    let e2 = w2 + enc_string(b.path).len() as int;
    let k3 = e2 + 2;
    let a3 = k3 + enc_string(k_kind()).len() as int;
    let w3 = a3 + 2;
    let e3 = w3 + enc_string(kind_name(b.kind)).len() as int;
    let k4 = e3 + 2;
    let a4 = k4 + enc_string(k_config()).len() as int;
    let w4 = a4 + 2;
    let e4 = w4 + enc_config(b.config).len() as int;
    lemma_region_split(s, rs, seq!['{', '\n'], t2);
    lemma_region_split(s, k1, enc_string(k_name()), t3);
    lemma_region_split(s, a1, seq![':', ' '], t4);
    lemma_region_split(s, w1, enc_string(b.name), t5);
    lemma_region_split(s, e1, seq![',', '\n'], t6);
    lemma_region_split(s, k2, enc_string(k_path()), t7);
    lemma_region_split(s, a2, seq![':', ' '], t8);
    lemma_region_split(s, w2, enc_string(b.path), t9);
    lemma_region_split(s, e2, seq![',', '\n'], t10);
    lemma_region_split(s, k3, enc_string(k_kind()), t11);
    lemma_region_split(s, a3, seq![':', ' '], t12);
    lemma_region_split(s, w3, enc_string(kind_name(b.kind)), t13);
    lemma_region_split(s, e3, seq![',', '\n'], t14);
    lemma_region_split(s, k4, enc_string(k_config()), t15);
    lemma_region_split(s, a4, seq![':', ' '], t16);
    lemma_region_split(s, w4, enc_config(b.config), z);
    assert(s[rs] == '{') by {
        assert(s.subrange(rs, rs + 2)[0] == '{');
    }
    assert(s[rs + 1] == '\n') by {
        assert(s.subrange(rs, rs + 2)[1] == '\n');
    }
    assert(s[a1] == ':' && s[a1 + 1] == ' ') by {
        assert(s.subrange(a1, a1 + 2)[0] == ':');
        assert(s.subrange(a1, a1 + 2)[1] == ' ');
    }
    assert(s[e1] == ',' && s[e1 + 1] == '\n') by {
        assert(s.subrange(e1, e1 + 2)[0] == ',');
        assert(s.subrange(e1, e1 + 2)[1] == '\n');
    }
    assert(s[a2] == ':' && s[a2 + 1] == ' ') by {
        assert(s.subrange(a2, a2 + 2)[0] == ':');
        assert(s.subrange(a2, a2 + 2)[1] == ' ');
    }
    assert(s[e2] == ',' && s[e2 + 1] == '\n') by {
        assert(s.subrange(e2, e2 + 2)[0] == ',');
        assert(s.subrange(e2, e2 + 2)[1] == '\n');
    }
    assert(s[a3] == ':' && s[a3 + 1] == ' ') by {
        assert(s.subrange(a3, a3 + 2)[0] == ':');
        assert(s.subrange(a3, a3 + 2)[1] == ' ');
    }
    assert(s[e3] == ',' && s[e3 + 1] == '\n') by {
        assert(s.subrange(e3, e3 + 2)[0] == ',');
        assert(s.subrange(e3, e3 + 2)[1] == '\n');
    }
    assert(s[a4] == ':' && s[a4 + 1] == ' ') by {
        assert(s.subrange(a4, a4 + 2)[0] == ':');
        assert(s.subrange(a4, a4 + 2)[1] == ' ');
    }
    assert(s[e4] == '\n' && s[e4 + 1] == '}') by {
        assert(s.subrange(e4, e4 + 2)[0] == '\n');
        assert(s.subrange(e4, e4 + 2)[1] == '}');
    }
    assert(s[k1] == '"') by {
        assert(s.subrange(k1, a1)[0] == enc_string(k_name())[0]);
        assert(enc_string(k_name())[0] == '"');
    }
    assert(s[k2] == '"') by {
        assert(s.subrange(k2, a2)[0] == enc_string(k_path())[0]);
        assert(enc_string(k_path())[0] == '"');
    }
    assert(s[k3] == '"') by {
        assert(s.subrange(k3, a3)[0] == enc_string(k_kind())[0]);
        assert(enc_string(k_kind())[0] == '"');
    }
    assert(s[k4] == '"') by {
        assert(s.subrange(k4, a4)[0] == enc_string(k_config())[0]);
        assert(enc_string(k_config())[0] == '"');
    }
    assert(s[w1] == '"') by {
        assert(s.subrange(w1, e1)[0] == enc_string(b.name)[0]);
        assert(enc_string(b.name)[0] == '"');
    }
    assert(s[w2] == '"') by {
        assert(s.subrange(w2, e2)[0] == enc_string(b.path)[0]);
        assert(enc_string(b.path)[0] == '"');
    }
    assert(s[w3] == '"') by {
        assert(s.subrange(w3, e3)[0] == enc_string(kind_name(b.kind))[0]);
        assert(enc_string(kind_name(b.kind))[0] == '"');
    }
    assert(s[w4] == '{') by {
        assert(s.subrange(w4, e4)[0] == enc_config(b.config)[0]);
        assert(enc_config(b.config)[0] == '{');
    }
    lemma_skip_one(s, rs + 1);
    lemma_rt_key(k_name(), s, rs + 1, k1);
    lemma_skip_one(s, a1 + 1);
    lemma_rt_string(b.name, s, a1 + 1, w1);
    lemma_skip_at(s, e1);
    lemma_skip_one(s, e1 + 1);
    lemma_rt_key(k_path(), s, e1 + 1, k2);
    lemma_skip_one(s, a2 + 1);
    lemma_rt_string(b.path, s, a2 + 1, w2);
    lemma_skip_at(s, e2);
    lemma_skip_one(s, e2 + 1);
    lemma_rt_key(k_kind(), s, e2 + 1, k3);
    lemma_skip_one(s, a3 + 1);
    lemma_rt_string(kind_name(b.kind), s, a3 + 1, w3);
    lemma_rt_kind(b.kind);
    lemma_skip_at(s, e3);
    lemma_skip_one(s, e3 + 1);
    lemma_rt_key(k_config(), s, e3 + 1, k4);
    lemma_skip_one(s, a4 + 1);
    lemma_rt_config(b.config, s, a4 + 1, w4);
    lemma_skip_one(s, e4);
}

/// Parsing rendered catalog elements yields the original bottles with
/// their transient flags cleared.
#[verifier::rlimit(100)]
proof fn lemma_rt_bottles(bs: Seq<BottleView>, s: Seq<char>, i: int, rs: int)
    requires
        bs.len() >= 1,
        0 <= i <= rs,
        rs + enc_bottles(bs).len() <= s.len(),
        s.subrange(rs, rs + enc_bottles(bs).len() as int) == enc_bottles(bs),
        skip_ws(s, i) == rs,
    ensures
        parse_bottles(s, i) == Some((strip_actives(bs), rs + enc_bottles(bs).len())),
    decreases bs.len(),
{
    let ba = enc_bottle(bs[0]);
    let p = rs + ba.len() as int;
    if bs.len() == 1 {
        assert(enc_bottles(bs) == ba + seq!['\n', ']']);
        lemma_region_split(s, rs, ba, seq!['\n', ']']);
        assert(s[p] == '\n' && s[p + 1] == ']') by {
            assert(s.subrange(p, p + 2)[0] == '\n');
            assert(s.subrange(p, p + 2)[1] == ']');
        }
        lemma_rt_bottle(bs[0], s, i, rs);
        lemma_skip_one(s, p);
        assert(seq![strip_active(bs[0])] =~= strip_actives(bs));
    } else {
        let reste = enc_bottles(bs.drop_first());
        assert(enc_bottles(bs) == ba + (seq![',', '\n'] + reste));
        lemma_region_split(s, rs, ba, seq![',', '\n'] + reste);
        lemma_region_split(s, p, seq![',', '\n'], reste);
        assert(s[p] == ',' && s[p + 1] == '\n') by {
            assert(s.subrange(p, p + 2)[0] == ',');
            assert(s.subrange(p, p + 2)[1] == '\n');
        }
        assert(s[p + 2] == '{') by {
            assert(s.subrange(p + 2, p + 2 + reste.len() as int)[0] == reste[0]);
            assert(reste[0] == enc_bottle(bs.drop_first()[0])[0]);
            assert(enc_bottle(bs.drop_first()[0])[0] == '{');
        }
        lemma_rt_bottle(bs[0], s, i, rs);
        lemma_skip_at(s, p);
        lemma_skip_one(s, p + 1);
        lemma_rt_bottles(bs.drop_first(), s, p + 1, p + 2);
        assert(seq![strip_active(bs[0])] + strip_actives(bs.drop_first()) =~= strip_actives(bs));
    }
}

/// Parsing a rendered catalog yields the original bottles with their
/// transient flags cleared: persistence round-trips every catalog, for
/// arbitrary names, paths, categories, configuration strings and
/// environment mappings.
/// The non-empty case of the catalog round trip.
#[verifier::rlimit(100)]
#[verifier::spinoff_prover]
proof fn lemma_rt_catalog_nonempty(bs: Seq<BottleView>)
    requires
        bs.len() >= 1,
    ensures
        parse_catalog(enc_catalog(bs)) == Some(strip_actives(bs)),
{
    let s = enc_catalog(bs);
    let reste = enc_bottles(bs);
    assert(s == seq!['[', '\n'] + reste);
    assert(s.subrange(0, 2 + reste.len() as int) =~= s);
    lemma_region_split(s, 0, seq!['[', '\n'], reste);
    assert(s[0] == '[' && s[1] == '\n') by {
        assert(s.subrange(0, 2)[0] == '[');
        assert(s.subrange(0, 2)[1] == '\n');
    }
    assert(s[2] == '{') by {
        assert(s.subrange(2, 2 + reste.len() as int)[0] == reste[0]);
        assert(reste[0] == enc_bottle(bs[0])[0]);
        assert(enc_bottle(bs[0])[0] == '{');
    }
    lemma_skip_at(s, 0);
    lemma_skip_one(s, 1);
    lemma_rt_bottles(bs, s, 1, 2);
    lemma_skip_at(s, s.len() as int);
}

/// Parsing a rendered catalog yields the original bottles with their
/// transient flags cleared: persistence round-trips every catalog, for
/// arbitrary names, paths, categories, configuration strings and
/// environment mappings.
#[verifier::rlimit(100)]
pub proof fn lemma_catalog_round_trip(bs: Seq<BottleView>)
    ensures
        parse_catalog(enc_catalog(bs)) == Some(strip_actives(bs)),
{
    let s = enc_catalog(bs);
    if bs.len() == 0 {
        assert(s == seq!['[', ']']);
        assert(s[0] == '[' && s[1] == ']');
        lemma_skip_at(s, 0);
        lemma_skip_at(s, 1);
        lemma_skip_at(s, 2);
        assert(strip_actives(bs) =~= Seq::<BottleView>::empty());
    } else {
        lemma_rt_catalog_nonempty(bs);
    }
}

// ---------------------------------------------------------------------
// The renderer
// ---------------------------------------------------------------------

/// Escaping a string grows by one rendered character at a time.
proof fn lemma_esc_snoc(t: Seq<char>, i: int)
    requires
        0 <= i < t.len(),
    ensures
        esc(t.take(i + 1)) == esc(t.take(i)) + esc_char(t[i]),
{
    lemma_esc_append(t.take(i), seq![t[i]]);
    assert(t.take(i + 1) =~= t.take(i) + seq![t[i]]);
    assert(seq![t[i]].drop_first() =~= Seq::<char>::empty());
    assert(esc(seq![t[i]]) == esc_char(seq![t[i]][0]) + esc(Seq::<char>::empty()));
    assert(esc_char(t[i]) + esc(Seq::<char>::empty()) =~= esc_char(t[i]));
}

/// Append the rendering of a string value.
fn enc_string_exec(out: &mut Vec<char>, t: &Vec<char>)
    ensures
        final(out)@ == old(out)@ + enc_string(t@),
{
    out.push('"');
    let mut i: usize = 0;
    while i < t.len()
        invariant
            i <= t.len(),
            out@ == old(out)@ + seq!['"'] + esc(t@.take(i as int)),
        decreases t.len() - i,
    {
        let c = t[i];
        if c == '"' || c == '\\' {
            out.push('\\');
            out.push(c);
        } else {
            out.push(c);
        }
        proof {
            lemma_esc_snoc(t@, i as int);
            assert(out@ =~= old(out)@ + seq!['"'] + esc(t@.take(i + 1 as int)));
        }
        i = i + 1;
    }
    out.push('"');
    proof {
        assert(t@.take(t@.len() as int) =~= t@);
        assert(out@ =~= old(out)@ + enc_string(t@));
    }
}

/// Append the rendering of an optional string value.
fn enc_opt_string_exec(out: &mut Vec<char>, o: &Option<String>)
    ensures
        final(out)@ == old(out)@ + enc_opt_string(opt_view(*o)),
{
    match o {
        None => {
            out.push('n');
            out.push('u');
            out.push('l');
            out.push('l');
            proof {
                assert(out@ =~= old(out)@ + enc_opt_string(opt_view(*o)));
            }
        },
        Some(t) => {
            let tv = chars_vec(t.as_str());
            enc_string_exec(out, &tv);
        },
    }
}

/// Append a colon and a space.
fn enc_sep_exec(out: &mut Vec<char>)
    ensures
        final(out)@ == old(out)@ + seq![':', ' '],
{
    out.push(':');
    out.push(' ');
    proof {
        assert(out@ =~= old(out)@ + seq![':', ' ']);
    }
}

/// Append a comma and a line break.
fn enc_comma_exec(out: &mut Vec<char>)
    ensures
        final(out)@ == old(out)@ + seq![',', '\n'],
{
    out.push(',');
    out.push('\n');
    proof {
        assert(out@ =~= old(out)@ + seq![',', '\n']);
    }
}

/// The characters of the `runner` field key, as a value.
fn key_runner_vec() -> (r: Vec<char>)
    ensures
        r@ == k_runner(),
{
    let mut v: Vec<char> = Vec::new();
    v.push('r');
    v.push('u');
    v.push('n');
    v.push('n');
    v.push('e');
    v.push('r');
    proof {
        assert(v@ =~= k_runner());
    }
    v
}

/// The characters of the `dxvk_version` field key, as a value.
fn key_dxvk_vec() -> (r: Vec<char>)
    ensures
        r@ == k_dxvk(),
{
    let mut v: Vec<char> = Vec::new();
    v.push('d');
    v.push('x');
    v.push('v');
    v.push('k');
    v.push('_');
    v.push('v');
    v.push('e');
    v.push('r');
    v.push('s');
    v.push('i');
    v.push('o');
    v.push('n');
    proof {
        assert(v@ =~= k_dxvk());
    }
    v
}

/// The characters of the `vkd3d_version` field key, as a value.
fn key_vkd3d_vec() -> (r: Vec<char>)
    ensures
        r@ == k_vkd3d(),
{
    let mut v: Vec<char> = Vec::new();
    v.push('v');
    v.push('k');
    v.push('d');
    v.push('3');
    v.push('d');
    v.push('_');
    v.push('v');
    v.push('e');
    v.push('r');
    v.push('s');
    v.push('i');
    v.push('o');
    v.push('n');
    proof {
        assert(v@ =~= k_vkd3d());
    }
    v
}

/// The characters of the `environment` field key, as a value.
fn key_env_vec() -> (r: Vec<char>)
    ensures
        r@ == k_env(),
{
    let mut v: Vec<char> = Vec::new();
    v.push('e');
    v.push('n');
    v.push('v');
    v.push('i');
    v.push('r');
    v.push('o');
    v.push('n');
    v.push('m');
    v.push('e');
    v.push('n');
    v.push('t');
    proof {
        assert(v@ =~= k_env());
    }
    v
}

/// The characters of the `name` field key, as a value.
fn key_name_vec() -> (r: Vec<char>)
    ensures
        r@ == k_name(),
{
    let mut v: Vec<char> = Vec::new();
    v.push('n');
    v.push('a');
    v.push('m');
    v.push('e');
    proof {
        assert(v@ =~= k_name());
    }
    v
}

/// The characters of the `path` field key, as a value.
fn key_path_vec() -> (r: Vec<char>)
    ensures
        r@ == k_path(),
{
    let mut v: Vec<char> = Vec::new();
    v.push('p');
    v.push('a');
    v.push('t');
    v.push('h');
    proof {
        assert(v@ =~= k_path());
    }
    v
}

/// The characters of the `kind` field key, as a value.
fn key_kind_vec() -> (r: Vec<char>)
    ensures
        r@ == k_kind(),
{
    let mut v: Vec<char> = Vec::new();
    v.push('k');
    v.push('i');
    v.push('n');
    v.push('d');
    proof {
        assert(v@ =~= k_kind());
    }
    v
}

/// The characters of the `config` field key, as a value.
fn key_config_vec() -> (r: Vec<char>)
    ensures
        r@ == k_config(),
{
    let mut v: Vec<char> = Vec::new();
    v.push('c');
    v.push('o');
    v.push('n');
    v.push('f');
    v.push('i');
    v.push('g');
    proof {
        assert(v@ =~= k_config());
    }
    v
}

/// The name a category is written as, as a value.
fn kind_name_vec(k: &BottleType) -> (r: Vec<char>)
    ensures
        r@ == kind_name(*k),
{
    let mut v: Vec<char> = Vec::new();
    match k {
        BottleType::Gaming => {
            v.push('G');
            v.push('a');
            v.push('m');
            v.push('i');
            v.push('n');
            v.push('g');
            proof {
                assert(v@ =~= kn_gaming());
            }
        },
        BottleType::Software => {
            v.push('S');
            v.push('o');
            v.push('f');
            v.push('t');
            v.push('w');
            v.push('a');
            v.push('r');
            v.push('e');
            proof {
                assert(v@ =~= kn_software());
            }
        },
        BottleType::Custom => {
            v.push('C');
            v.push('u');
            v.push('s');
            v.push('t');
            v.push('o');
            v.push('m');
            proof {
                assert(v@ =~= kn_custom());
            }
        },
    }
    v
}

/// Append the rendering of the entries of a non-empty environment
/// object, including the closing brace.
fn enc_env_entries_exec(out: &mut Vec<char>, env: &Vec<(String, String)>, i: usize)
    requires
        i < env.len(),
    ensures
        final(out)@ == old(out)@ + enc_env_entries(env_view(env@).skip(i as int)),
    decreases env.len() - i,
{
    let ghost evs = env_view(env@).skip(i as int);
    let kv = chars_vec(env[i].0.as_str());
    let vv = chars_vec(env[i].1.as_str());
    proof {
        assert(env_view(env@)[i as int] == (env@[i as int].0@, env@[i as int].1@));
        assert(evs[0] == env_view(env@)[i as int]);
    }
    enc_string_exec(out, &kv);
    enc_sep_exec(out);
    enc_string_exec(out, &vv);
    if i + 1 == env.len() {
        out.push('\n');
        out.push('}');
        proof {
            assert(evs.len() == 1);
            assert(out@ =~= old(out)@ + enc_env_entries(evs));
        }
    } else {
        enc_comma_exec(out);
        enc_env_entries_exec(out, env, i + 1);
        proof {
            assert(evs.drop_first() =~= env_view(env@).skip(i + 1 as int));
            assert(out@ =~= old(out)@ + enc_env_entries(evs));
        }
    }
}

/// Append the rendering of an environment object.
fn enc_env_exec(out: &mut Vec<char>, env: &Vec<(String, String)>)
    ensures
        final(out)@ == old(out)@ + enc_env(env_view(env@)),
{
    if env.len() == 0 {
        out.push('{');
        out.push('}');
        proof {
            assert(env_view(env@).len() == 0);
            assert(out@ =~= old(out)@ + enc_env(env_view(env@)));
        }
    } else {
        out.push('{');
        out.push('\n');
        enc_env_entries_exec(out, env, 0);
        proof {
            assert(env_view(env@).skip(0) =~= env_view(env@));
            assert(out@ =~= old(out)@ + enc_env(env_view(env@)));
        }
    }
}

/// Append the rendering of a config object.
#[verifier::rlimit(100)]
fn enc_config_exec(out: &mut Vec<char>, c: &BottleConfig)
    ensures
        final(out)@ == old(out)@ + enc_config(c@),
{
    out.push('{');
    out.push('\n');
    let kr = key_runner_vec();
    enc_string_exec(out, &kr);
    enc_sep_exec(out);
    enc_opt_string_exec(out, &c.runner);
    enc_comma_exec(out);
    let kd = key_dxvk_vec();
    enc_string_exec(out, &kd);
    enc_sep_exec(out);
    enc_opt_string_exec(out, &c.dxvk_version);
    enc_comma_exec(out);
    let kv = key_vkd3d_vec();
    enc_string_exec(out, &kv);
    enc_sep_exec(out);
    enc_opt_string_exec(out, &c.vkd3d_version);
    enc_comma_exec(out);
    let ke = key_env_vec();
    enc_string_exec(out, &ke);
    enc_sep_exec(out);
    enc_env_exec(out, &c.environment);
    out.push('\n');
    out.push('}');
    proof {
        assert(out@ =~= old(out)@ + enc_config(c@));
    }
}

/// Append the rendering of one bottle object.
#[verifier::rlimit(100)]
fn enc_bottle_exec(out: &mut Vec<char>, b: &Bottle)
    ensures
        final(out)@ == old(out)@ + enc_bottle(b@),
{
    out.push('{');
    out.push('\n');
    let kn = key_name_vec();
    enc_string_exec(out, &kn);
    enc_sep_exec(out);
    let nv = chars_vec(b.name.as_str());
    enc_string_exec(out, &nv);
    enc_comma_exec(out);
    let kp = key_path_vec();
    enc_string_exec(out, &kp);
    enc_sep_exec(out);
    let pv = chars_vec(b.path.as_str());
    enc_string_exec(out, &pv);
    enc_comma_exec(out);
    let kk = key_kind_vec();
    enc_string_exec(out, &kk);
    enc_sep_exec(out);
    let knv = kind_name_vec(&b.kind);
    enc_string_exec(out, &knv);
    enc_comma_exec(out);
    let kc = key_config_vec();
    enc_string_exec(out, &kc);
    enc_sep_exec(out);
    enc_config_exec(out, &b.config);
    out.push('\n');
    out.push('}');
    proof {
        assert(out@ =~= old(out)@ + enc_bottle(b@));
    }
}

/// Append the rendering of the elements of a non-empty catalog,
/// including the closing bracket.
#[verifier::rlimit(100)]
fn enc_bottles_exec(out: &mut Vec<char>, bottles: &Vec<Bottle>, i: usize)
    requires
        i < bottles.len(),
    ensures
        final(out)@ == old(out)@ + enc_bottles(bottles_view(bottles@).skip(i as int)),
    decreases bottles.len() - i,
{
    let ghost bvs = bottles_view(bottles@).skip(i as int);
    proof {
        assert(bvs[0] == bottles_view(bottles@)[i as int]);
    }
    enc_bottle_exec(out, &bottles[i]);
    if i + 1 == bottles.len() {
        out.push('\n');
        out.push(']');
        proof {
            assert(bvs.len() == 1);
            assert(out@ =~= old(out)@ + enc_bottles(bvs));
        }
    } else {
        enc_comma_exec(out);
        enc_bottles_exec(out, bottles, i + 1);
        proof {
            assert(bvs.drop_first() =~= bottles_view(bottles@).skip(i + 1 as int));
            assert(out@ =~= old(out)@ + enc_bottles(bvs));
        }
    }
}

// ---------------------------------------------------------------------
// The parser
// ---------------------------------------------------------------------

/// The view of an optional character vector.
pub open spec fn opt_chars_view(o: Option<Vec<char>>) -> Option<Seq<char>> {
    match o {
        Some(t) => Some(t@),
        None => None,
    }
}

/// Compare two character vectors for equality.
fn eq_chars(a: &Vec<char>, b: &Vec<char>) -> (r: bool)
    ensures
        r == (a@ == b@),
{
    if a.len() != b.len() {
        return false;
    }
    let mut i: usize = 0;
    while i < a.len()
        invariant
            i <= a.len(),
            a.len() == b.len(),
            forall|k: int| 0 <= k < i ==> a@[k] == b@[k],
        decreases a.len() - i,
    {
        if a[i] != b[i] {
            return false;
        }
        i = i + 1;
    }
    proof {
        assert(a@ =~= b@);
    }
    true
}

/// Read a string body up to its closing quote.
fn parse_string_body_exec(s: &Vec<char>, i: usize) -> (r: Option<(Vec<char>, usize)>)
    requires
        i <= s.len(),
    ensures
        match r {
            Some((t, j)) => parse_string_body(s@, i as int) == Some((t@, j as int)) && i < j
                <= s.len(),
            None => parse_string_body(s@, i as int) is None,
        },
    decreases s.len() - i,
{
    if i >= s.len() {
        None
    } else {
        let c = s[i];
        if c == '"' {
            let t: Vec<char> = Vec::new();
            proof {
                assert(t@ =~= Seq::<char>::empty());
            }
            Some((t, i + 1))
        } else if c == '\\' {
            if i + 1 < s.len() && (s[i + 1] == '"' || s[i + 1] == '\\') {
                match parse_string_body_exec(s, i + 2) {
                    None => None,
                    Some((mut t, j)) => {
                        let c2 = s[i + 1];
                        let ghost t0 = t@;
                        t.insert(0, c2);
                        proof {
                            assert(t@ =~= seq![s@[i + 1 as int]] + t0);
                        }
                        Some((t, j))
                    },
                }
            } else {
                None
            }
        } else {
            match parse_string_body_exec(s, i + 1) {
                None => None,
                Some((mut t, j)) => {
                    let ghost t0 = t@;
                    t.insert(0, c);
                    proof {
                        assert(t@ =~= seq![s@[i as int]] + t0);
                    }
                    Some((t, j))
                },
            }
        }
    }
}

/// Read a string value: leading whitespace, a quote, the body.
fn parse_string_exec(s: &Vec<char>, i: usize) -> (r: Option<(Vec<char>, usize)>)
    requires
        i <= s.len(),
    ensures
        match r {
            Some((t, j)) => parse_string(s@, i as int) == Some((t@, j as int)) && i < j <= s.len(),
            None => parse_string(s@, i as int) is None,
        },
{
    let a = skip_ws_exec(s, i);
    if a < s.len() && s[a] == '"' {
        parse_string_body_exec(s, a + 1)
    } else {
        None
    }
}

/// Read an optional string value: either the literal `null` or a
/// string.
fn parse_opt_string_exec(s: &Vec<char>, i: usize) -> (r: Option<(Option<Vec<char>>, usize)>)
    requires
        i <= s.len(),
    ensures
        match r {
            Some((o, j)) => parse_opt_string(s@, i as int) == Some((opt_chars_view(o), j as int))
                && i < j <= s.len(),
            None => parse_opt_string(s@, i as int) is None,
        },
{
    let a = skip_ws_exec(s, i);
    if s.len() - a >= 4 && s[a] == 'n' && s[a + 1] == 'u' && s[a + 2] == 'l' && s[a + 3] == 'l' {
        Some((None, a + 4))
    } else {
        match parse_string_exec(s, i) {
            None => None,
            Some((t, j)) => Some((Some(t), j)),
        }
    }
}

/// Read a field key equal to `key`, then its colon.
fn parse_key_exec(s: &Vec<char>, i: usize, key: &Vec<char>) -> (r: Option<usize>)
    requires
        i <= s.len(),
    ensures
        match r {
            Some(p) => parse_key(s@, i as int, key@) == Some(p as int) && i < p <= s.len(),
            None => parse_key(s@, i as int, key@) is None,
        },
{
    match parse_string_exec(s, i) {
        None => None,
        Some((k, j)) => {
            if eq_chars(&k, key) {
                let j2 = skip_ws_exec(s, j);
                if j2 < s.len() && s[j2] == ':' {
                    Some(j2 + 1)
                } else {
                    None
                }
            } else {
                None
            }
        },
    }
}

/// Read a comma, whitespace before it skipped.
fn parse_comma_exec(s: &Vec<char>, i: usize) -> (r: Option<usize>)
    requires
        i <= s.len(),
    ensures
        match r {
            Some(p) => parse_comma(s@, i as int) == Some(p as int) && i < p <= s.len(),
            None => parse_comma(s@, i as int) is None,
        },
{
    let c = skip_ws_exec(s, i);
    if c < s.len() && s[c] == ',' {
        Some(c + 1)
    } else {
        None
    }
}

/// Read the entries of a non-empty environment object, up to and
/// including its closing brace.
fn parse_env_entries_exec(s: &Vec<char>, i: usize) -> (r: Option<(Vec<(String, String)>, usize)>)
    requires
        i <= s.len(),
    ensures
        match r {
            Some((env, j)) => parse_env_entries(s@, i as int) == Some((env_view(env@), j as int))
                && i < j <= s.len(),
            None => parse_env_entries(s@, i as int) is None,
        },
    decreases s.len() - i,
{
    match parse_string_exec(s, i) {
        None => None,
        Some((k, j1)) => {
            let j2 = skip_ws_exec(s, j1);
            if j2 < s.len() && s[j2] == ':' {
                match parse_string_exec(s, j2 + 1) {
                    None => None,
                    Some((v, j3)) => {
                        let j4 = skip_ws_exec(s, j3);
                        if j4 < s.len() && s[j4] == ',' {
                            match parse_env_entries_exec(s, j4 + 1) {
                                None => None,
                                Some((mut env, j5)) => {
                                    let ks = string_of_chars(&k);
                                    let vs = string_of_chars(&v);
                                    let ghost env0 = env@;
                                    env.insert(0, (ks, vs));
                                    proof {
                                        assert(env_view(env@) =~= seq![(k@, v@)] + env_view(env0));
                                    }
                                    Some((env, j5))
                                },
                            }
                        } else if j4 < s.len() && s[j4] == '}' {
                            let ks = string_of_chars(&k);
                            let vs = string_of_chars(&v);
                            let mut env: Vec<(String, String)> = Vec::new();
                            env.push((ks, vs));
                            proof {
                                assert(env_view(env@) =~= seq![(k@, v@)]);
                            }
                            Some((env, j4 + 1))
                        } else {
                            None
                        }
                    },
                }
            } else {
                None
            }
        },
    }
}

/// Read an environment object.
fn parse_env_exec(s: &Vec<char>, i: usize) -> (r: Option<(Vec<(String, String)>, usize)>)
    requires
        i <= s.len(),
    ensures
        match r {
            Some((env, j)) => parse_env(s@, i as int) == Some((env_view(env@), j as int)) && i < j
                <= s.len(),
            None => parse_env(s@, i as int) is None,
        },
{
    let a = skip_ws_exec(s, i);
    if a < s.len() && s[a] == '{' {
        let b = skip_ws_exec(s, a + 1);
        if b < s.len() && s[b] == '}' {
            let env: Vec<(String, String)> = Vec::new();
            proof {
                assert(env_view(env@) =~= Seq::<(Seq<char>, Seq<char>)>::empty());
            }
            Some((env, b + 1))
        } else {
            parse_env_entries_exec(s, a + 1)
        }
    } else {
        None
    }
}

/// Read a config object.
fn parse_config_exec(s: &Vec<char>, i: usize) -> (r: Option<(BottleConfig, usize)>)
    requires
        i <= s.len(),
    ensures
        match r {
            Some((c, j)) => parse_config(s@, i as int) == Some((c@, j as int)) && i < j <= s.len(),
            None => parse_config(s@, i as int) is None,
        },
{
    let a = skip_ws_exec(s, i);
    if !(a < s.len() && s[a] == '{') {
        return None;
    }
    let kr = key_runner_vec();
    let p1 = match parse_key_exec(s, a + 1, &kr) {
        None => {
            return None;
        },
        Some(p) => p,
    };
    let (runner, q1) = match parse_opt_string_exec(s, p1) {
        None => {
            return None;
        },
        Some(x) => x,
    };
    let r1 = match parse_comma_exec(s, q1) {
        None => {
            return None;
        },
        Some(p) => p,
    };
    let kd = key_dxvk_vec();
    let p2 = match parse_key_exec(s, r1, &kd) {
        None => {
            return None;
        },
        Some(p) => p,
    };
    let (dxvk, q2) = match parse_opt_string_exec(s, p2) {
        None => {
            return None;
        },
        Some(x) => x,
    };
    let r2 = match parse_comma_exec(s, q2) {
        None => {
            return None;
        },
        Some(p) => p,
    };
    let kv = key_vkd3d_vec();
    let p3 = match parse_key_exec(s, r2, &kv) {
        None => {
            return None;
        },
        Some(p) => p,
    };
    let (vkd3d, q3) = match parse_opt_string_exec(s, p3) {
        None => {
            return None;
        },
        Some(x) => x,
    };
    let r3 = match parse_comma_exec(s, q3) {
        None => {
            return None;
        },
        Some(p) => p,
    };
    let ke = key_env_vec();
    let p4 = match parse_key_exec(s, r3, &ke) {
        None => {
            return None;
        },
        Some(p) => p,
    };
    let (env, q4) = match parse_env_exec(s, p4) {
        None => {
            return None;
        },
        Some(x) => x,
    };
    let c = skip_ws_exec(s, q4);
    if !(c < s.len() && s[c] == '}') {
        return None;
    }
    let config = BottleConfig {
        runner: match runner {
            Some(t) => Some(string_of_chars(&t)),
            None => None,
        },
        dxvk_version: match dxvk {
            Some(t) => Some(string_of_chars(&t)),
            None => None,
        },
        vkd3d_version: match vkd3d {
            Some(t) => Some(string_of_chars(&t)),
            None => None,
        },
        environment: env,
    };
    Some((config, c + 1))
}

/// Read one bottle object.  The transient `active` flag is never read
/// from the document: a loaded bottle is inactive.
fn parse_bottle_exec(s: &Vec<char>, i: usize) -> (r: Option<(Bottle, usize)>)
    requires
        i <= s.len(),
    ensures
        match r {
            Some((b, j)) => parse_bottle(s@, i as int) == Some((b@, j as int)) && i < j <= s.len(),
            None => parse_bottle(s@, i as int) is None,
        },
{
    let a = skip_ws_exec(s, i);
    if !(a < s.len() && s[a] == '{') {
        return None;
    }
    let kn = key_name_vec();
    let p1 = match parse_key_exec(s, a + 1, &kn) {
        None => {
            return None;
        },
        Some(p) => p,
    };
    let (name, q1) = match parse_string_exec(s, p1) {
        None => {
            return None;
        },
        Some(x) => x,
    };
    let r1 = match parse_comma_exec(s, q1) {
        None => {
            return None;
        },
        Some(p) => p,
    };
    let kp = key_path_vec();
    let p2 = match parse_key_exec(s, r1, &kp) {
        None => {
            return None;
        },
        Some(p) => p,
    };
    let (path, q2) = match parse_string_exec(s, p2) {
        None => {
            return None;
        },
        Some(x) => x,
    };
    let r2 = match parse_comma_exec(s, q2) {
        None => {
            return None;
        },
        Some(p) => p,
    };
    let kk = key_kind_vec();
    let p3 = match parse_key_exec(s, r2, &kk) {
        None => {
            return None;
        },
        Some(p) => p,
    };
    let (kname, q3) = match parse_string_exec(s, p3) {
        None => {
            return None;
        },
        Some(x) => x,
    };
    let gv = kind_name_vec(&BottleType::Gaming);
    let sv = kind_name_vec(&BottleType::Software);
    let cv = kind_name_vec(&BottleType::Custom);
    let kind: BottleType;
    if eq_chars(&kname, &gv) {
        kind = BottleType::Gaming;
    } else if eq_chars(&kname, &sv) {
        kind = BottleType::Software;
    } else if eq_chars(&kname, &cv) {
        kind = BottleType::Custom;
    } else {
        return None;
    }
    let r3 = match parse_comma_exec(s, q3) {
        None => {
            return None;
        },
        Some(p) => p,
    };
    let kc = key_config_vec();
    let p4 = match parse_key_exec(s, r3, &kc) {
        None => {
            return None;
        },
        Some(p) => p,
    };
    let (config, q4) = match parse_config_exec(s, p4) {
        None => {
            return None;
        },
        Some(x) => x,
    };
    let c = skip_ws_exec(s, q4);
    if !(c < s.len() && s[c] == '}') {
        return None;
    }
    let bottle = Bottle {
        name: string_of_chars(&name),
        path: string_of_chars(&path),
        kind,
        config,
        active: false,
    };
    Some((bottle, c + 1))
}

/// Read the elements of a non-empty catalog array, up to and
/// including the closing bracket.
fn parse_bottles_exec(s: &Vec<char>, i: usize) -> (r: Option<(Vec<Bottle>, usize)>)
    requires
        i <= s.len(),
    ensures
        match r {
            Some((bottles, j)) => parse_bottles(s@, i as int) == Some(
                (bottles_view(bottles@), j as int),
            ) && i < j <= s.len(),
            None => parse_bottles(s@, i as int) is None,
        },
    decreases s.len() - i,
{
    match parse_bottle_exec(s, i) {
        None => None,
        Some((b, j)) => {
            let c = skip_ws_exec(s, j);
            if c < s.len() && s[c] == ',' {
                match parse_bottles_exec(s, c + 1) {
                    None => None,
                    Some((mut bottles, j2)) => {
                        let ghost bs0 = bottles@;
                        bottles.insert(0, b);
                        proof {
                            assert(bottles_view(bottles@) =~= seq![b@] + bottles_view(bs0));
                        }
                        Some((bottles, j2))
                    },
                }
            } else if c < s.len() && s[c] == ']' {
                let mut bottles: Vec<Bottle> = Vec::new();
                bottles.push(b);
                proof {
                    assert(bottles_view(bottles@) =~= seq![b@]);
                }
                Some((bottles, c + 1))
            } else {
                None
            }
        },
    }
}

/// Read a whole catalog document.
pub fn parse_catalog_exec(s: &Vec<char>) -> (r: Option<Vec<Bottle>>)
    ensures
        match r {
            Some(bottles) => parse_catalog(s@) == Some(bottles_view(bottles@)),
            None => parse_catalog(s@) is None,
        },
{
    let a = skip_ws_exec(s, 0);
    if !(a < s.len() && s[a] == '[') {
        return None;
    }
    let b = skip_ws_exec(s, a + 1);
    if b < s.len() && s[b] == ']' {
        let e = skip_ws_exec(s, b + 1);
        if e == s.len() {
            let bottles: Vec<Bottle> = Vec::new();
            proof {
                assert(bottles_view(bottles@) =~= Seq::<BottleView>::empty());
            }
            Some(bottles)
        } else {
            None
        }
    } else {
        match parse_bottles_exec(s, a + 1) {
            None => None,
            Some((bottles, j)) => {
                let e = skip_ws_exec(s, j);
                if e == s.len() {
                    Some(bottles)
                } else {
                    None
                }
            },
        }
    }
}

/// Render a catalog document for the given bottles.
pub fn enc_catalog_exec(bottles: &Vec<Bottle>) -> (r: Vec<char>)
    ensures
        r@ == enc_catalog(bottles_view(bottles@)),
{
    let mut out: Vec<char> = Vec::new();
    if bottles.len() == 0 {
        out.push('[');
        out.push(']');
        proof {
            assert(bottles_view(bottles@).len() == 0);
            assert(out@ =~= enc_catalog(bottles_view(bottles@)));
        }
    } else {
        out.push('[');
        out.push('\n');
        enc_bottles_exec(&mut out, bottles, 0);
        proof {
            assert(bottles_view(bottles@).skip(0) =~= bottles_view(bottles@));
            assert(out@ =~= enc_catalog(bottles_view(bottles@)));
        }
    }
    out
}

} // verus!
