//! Expanding `~/` and `./` at the start of a configured path.
use vstd::prelude::*;

use crate::text::chars_of;

verus! {

/// `rel` adjoined to `base` as a path: an absolute `rel` replaces `base`, and
/// a separator is put between them when `base` is not empty and does not end
/// with one.
pub open spec fn path_join(base: Seq<char>, rel: Seq<char>) -> Seq<char> {
    if rel.len() > 0 && rel[0] == '/' {
        rel
    } else if base.len() == 0 || base.last() == '/' {
        base + rel
    } else {
        base + seq!['/'] + rel
    }
}

/// Adjoins `rel` to `base` as a path.
pub fn join_path(base: &str, rel: &str) -> (r: String)
    ensures
        r@ == path_join(base@, rel@),
{
    let b = chars_of(base);
    let c = chars_of(rel);
    if c.len() > 0 && c[0] == '/' {
        return rel.to_string();
    }
    let mut s = base.to_string();
    if !(b.len() == 0 || b[b.len() - 1] == '/') {
        s.append("/");
        proof {
            reveal_strlit("/");
            assert("/"@ =~= seq!['/']);
        }
    }
    s.append(rel);
    s
}

/// A path with `~` or a leading `~/` taken from the home directory (when it
/// is known), or a leading `./` taken from the current directory.
pub open spec fn expanded_path(raw: Seq<char>, home: Option<Seq<char>>, cwd: Seq<char>) -> Seq<char> {
    if raw == seq!['~'] || (raw.len() >= 2 && raw[0] == '~' && raw[1] == '/') {
        match home {
            Some(h) => if raw.len() > 2 {
                path_join(h, raw.skip(2))
            } else {
                h
            },
            None => raw,
        }
    } else if raw.len() >= 2 && raw[0] == '.' && raw[1] == '/' {
        path_join(cwd, raw.skip(2))
    } else {
        raw
    }
}

/// A path after `~/` is taken relative to the home directory, and one after
/// `./` relative to the current directory: the directory, a `/` unless it
/// already ends with one (or is empty), then the rest; a rest that starts
/// with `/` stands alone. Without a home directory `~/` is left as it is.
pub proof fn law_expanded_relative_paths(
    rest: Seq<char>,
    home: Seq<char>,
    cwd: Seq<char>,
    any_home: Option<Seq<char>>,
)
    requires
        rest.len() > 0,
    ensures
        expanded_path(seq!['~', '/'] + rest, Some(home), cwd) == (if rest[0] == '/' {
            rest
        } else if home.len() == 0 || home[home.len() - 1] == '/' {
            home + rest
        } else {
            home + seq!['/'] + rest
        }),
        expanded_path(seq!['~', '/'] + rest, None, cwd) == seq!['~', '/'] + rest,
        expanded_path(seq!['.', '/'] + rest, any_home, cwd) == (if rest[0] == '/' {
            rest
        } else if cwd.len() == 0 || cwd[cwd.len() - 1] == '/' {
            cwd + rest
        } else {
            cwd + seq!['/'] + rest
        }),
{
    let t = seq!['~', '/'] + rest;
    let d = seq!['.', '/'] + rest;
    assert(t[0] == '~' && t[1] == '/');
    assert(t.skip(2) =~= rest);
    assert(t != seq!['~']) by {
        assert(t.len() != 1);
    }
    assert(d[0] == '.' && d[1] == '/');
    assert(d.skip(2) =~= rest);
    assert(d != seq!['~']) by {
        assert(d[0] != '~');
    }
}

/// Expands `~`, `~/` and `./` at the start of `raw`, given the home
/// directory (`None` when it is not set) and the current directory.
pub fn expand_path(raw: &str, home: Option<&str>, cwd: &str) -> (r: String)
    ensures
        r@ == expanded_path(raw@, match home {
            Some(h) => Some(h@),
            None => None,
        }, cwd@),
{
    let c = chars_of(raw);
    let tilde = (c.len() == 1 && c[0] == '~') || (c.len() >= 2 && c[0] == '~' && c[1] == '/');
    assert(tilde == (raw@ == seq!['~'] || (raw@.len() >= 2 && raw@[0] == '~' && raw@[1] == '/'))) by {
        if c@.len() == 1 && c@[0] == '~' {
            assert(raw@ =~= seq!['~']);
        }
    }
    if tilde {
        match home {
            Some(h) => {
                if c.len() > 2 {
                    let rest = vstd::slice::slice_subrange(c.as_slice(), 2, c.len());
                    let rest_text = crate::text::string_from_chars(rest);
                    assert(rest@ =~= raw@.skip(2));
                    return join_path(h, rest_text.as_str());
                }
                return h.to_string();
            },
            None => {
                return raw.to_string();
            },
        }
    } else if c.len() >= 2 && c[0] == '.' && c[1] == '/' {
        let rest = vstd::slice::slice_subrange(c.as_slice(), 2, c.len());
        let rest_text = crate::text::string_from_chars(rest);
        assert(rest@ =~= raw@.skip(2));
        return join_path(cwd, rest_text.as_str());
    }
    raw.to_string()
}

} // verus!
