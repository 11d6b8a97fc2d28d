//! How the event-bus connection is set up from environment settings: which
//! values count as set, where the authentication seed comes from, which
//! client certificate is used and when TLS is required.
use vstd::prelude::*;
use vstd::string::*;
use crate::text::{
    find, find_spec, is_whitespace, lemma_find_from, lemma_trim, starts_with, starts_with_spec,
    trim, trim_spec, trim_start, trim_start_spec,
};

verus! {

/// A setting trimmed of surrounding whitespace, where anything is left.
pub open spec fn non_blank_spec(raw: Seq<char>) -> Option<Seq<char>> {
    if trim_spec(raw).len() > 0 {
        Some(trim_spec(raw))
    } else {
        None
    }
}

/// A line of a seed file that holds the seed: not blank and not a comment.
pub open spec fn is_seed_line(line: Seq<char>) -> bool {
    !starts_with_spec(trim_start_spec(line), "#"@) && trim_spec(line).len() > 0
}

/// The seed in a seed file: the first line that is neither blank nor a
/// comment, trimmed.  Lines end at `\n`; a `\r` before it is whitespace.
pub open spec fn seed_in_file(s: Seq<char>) -> Option<Seq<char>>
    decreases s.len(),
{
    let e = find_spec(s, "\n"@);
    let line = if e == -1 {
        s
    } else {
        s.subrange(0, e)
    };
    if is_seed_line(line) {
        Some(trim_spec(line))
    } else if e == -1 {
        None
    } else {
        proof {
            lemma_find_from(s, "\n"@, 0);
        }
        if 0 <= e < s.len() {
            seed_in_file(s.subrange(e + 1, s.len() as int))
        } else {
            None
        }
    }
}

/// A set value is never blank and never has whitespace around it, and a
/// value with something besides whitespace is always set.
pub proof fn lemma_non_blank(raw: Seq<char>)
    ensures
        non_blank_spec(raw) matches Some(v) ==> v.len() > 0 && !is_whitespace(v[0])
            && !is_whitespace(v.last()),
        non_blank_spec(raw) is None <==> forall|i: int|
            0 <= i < raw.len() ==> is_whitespace(#[trigger] raw[i]),
{
    lemma_trim(raw);
}

/// The seed found in a file is what a seed line holds: it is not empty, has
/// no whitespace around it and does not start with the comment mark `#`.
pub proof fn lemma_seed_is_clean(s: Seq<char>)
    ensures
        seed_in_file(s) matches Some(v) ==> v.len() > 0 && v[0] != '#' && !is_whitespace(v[0])
            && !is_whitespace(v.last()),
    decreases s.len(),
{
    let e = find_spec(s, "\n"@);
    let line = if e == -1 {
        s
    } else {
        s.subrange(0, e)
    };
    if is_seed_line(line) {
        lemma_trim(line);
        let t = trim_start_spec(line);
        let r = trim_spec(line);
        reveal_strlit("#");
        assert(r[0] == t[0]) by {
            crate::text::lemma_trim_end(t);
        }
        if t[0] == '#' {
            assert(t.subrange(0, 1) =~= "#"@);
        }
    } else if e != -1 {
        lemma_find_from(s, "\n"@, 0);
        if 0 <= e < s.len() {
            lemma_seed_is_clean(s.subrange(e + 1, s.len() as int));
        }
    }
}

/// A setting, trimmed, where it is not blank.
pub fn non_blank(raw: &str) -> (r: Option<String>)
    ensures
        match r {
            Some(v) => non_blank_spec(raw@) == Some(v@),
            None => non_blank_spec(raw@) is None,
        },
{
    let t = trim(raw);
    if t.unicode_len() > 0 {
        Some(String::from_str(t))
    } else {
        None
    }
}

/// The seed held in the contents of a seed file.
pub fn seed_from_file(contents: &str) -> (r: Option<String>)
    ensures
        match r {
            Some(v) => seed_in_file(contents@) == Some(v@),
            None => seed_in_file(contents@) is None,
        },
{
    proof {
        reveal_strlit("\n");
    }
    let mut rest: &str = contents;
    loop
        invariant
            seed_in_file(contents@) == seed_in_file(rest@),
        decreases rest@.len(),
    {
        proof {
            reveal_strlit("\n");
        }
        let n = rest.unicode_len();
        let e = find(rest, "\n");
        let line = match e {
            Some(i) => rest.substring_char(0, i),
            None => rest,
        };
        let comment = starts_with(trim_start(line), "#");
        let blank = trim(line).unicode_len() == 0;
        if !comment && !blank {
            return Some(String::from_str(trim(line)));
        }
        match e {
            None => {
                return None;
            },
            Some(i) => {
                rest = rest.substring_char(i + 1, n);
            },
        }
    }
}

/// The client certificate and key files, where both are set and not blank.
pub fn client_certificate(cert: Option<String>, key: Option<String>) -> (r: Option<(String, String)>)
    ensures
        match r {
            Some((c, k)) => cert matches Some(c0) && key matches Some(k0) && non_blank_spec(c0@)
                == Some(c@) && non_blank_spec(k0@) == Some(k@),
            None => !(cert matches Some(c0) && key matches Some(k0) && non_blank_spec(c0@) is Some
                && non_blank_spec(k0@) is Some),
        },
{
    match (cert, key) {
        (Some(c), Some(k)) => match (non_blank(c.as_str()), non_blank(k.as_str())) {
            (Some(c2), Some(k2)) => Some((c2, k2)),
            _ => None,
        },
        _ => None,
    }
}

/// Whether the server URL asks for TLS.
pub fn requires_tls(url: &str) -> (r: bool)
    ensures
        r == starts_with_spec(url@, "tls://"@),
{
    starts_with(url, "tls://")
}

/// Where the authentication seed comes from.
#[derive(Debug, Clone, PartialEq, Eq)]
pub enum SeedSource {
    /// The seed given inline.
    Inline(String),
    /// A file to read the seed from.
    File(String),
    /// No seed: no key authentication.
    Absent,
}

/// The seed source: the inline seed where it is not blank, else the seed
/// file where its path is not blank.
pub fn seed_source(inline_seed: Option<String>, seed_file: Option<String>) -> (r: SeedSource)
    ensures
        match r {
            SeedSource::Inline(seed) => inline_seed matches Some(raw) && non_blank_spec(raw@) == Some(
                seed@,
            ),
            SeedSource::File(path) => {
                &&& !(inline_seed matches Some(raw) && non_blank_spec(raw@) is Some)
                &&& seed_file matches Some(raw) && non_blank_spec(raw@) == Some(path@)
            },
            SeedSource::Absent => {
                &&& !(inline_seed matches Some(raw) && non_blank_spec(raw@) is Some)
                &&& !(seed_file matches Some(raw) && non_blank_spec(raw@) is Some)
            },
        },
{
    let inline = match &inline_seed {
        Some(raw) => non_blank(raw.as_str()),
        None => None,
    };
    match inline {
        Some(seed) => SeedSource::Inline(seed),
        None => {
            let path = match &seed_file {
                Some(raw) => non_blank(raw.as_str()),
                None => None,
            };
            match path {
                Some(p) => SeedSource::File(p),
                None => SeedSource::Absent,
            }
        },
    }
}

} // verus!
