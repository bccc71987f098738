//! Name patterns for sync rules, ignore lists and the syncback filter.
//!
//! A pattern is matched against a whole string. `*` stands for any run of
//! characters (the empty one included), `?` for exactly one character, and
//! every other character only for itself.

use vstd::prelude::*;

verus! {

/// Whether pattern `p` matches the whole of `s`.
pub open spec fn glob_match(p: Seq<char>, s: Seq<char>) -> bool
    decreases p.len() + s.len(),
{
    if p.len() == 0 {
        s.len() == 0
    } else if p[0] == '*' {
        glob_match(p.skip(1), s) || (s.len() > 0 && glob_match(p, s.skip(1)))
    } else if s.len() == 0 {
        false
    } else {
        (p[0] == '?' || p[0] == s[0]) && glob_match(p.skip(1), s.skip(1))
    }
}

fn glob_match_at(p: &str, pi: usize, s: &str, si: usize) -> (r: bool)
    requires
        pi <= p@.len(),
        si <= s@.len(),
    ensures
        r == glob_match(p@.skip(pi as int), s@.skip(si as int)),
    decreases p@.len() - pi + s@.len() - si,
{
    let pn: usize = p.unicode_len();
    let sn: usize = s.unicode_len();
    proof {
        assert(p@.skip(pi as int).len() == pn - pi);
        assert(s@.skip(si as int).len() == sn - si);
    }
    if pi == pn {
        return si == sn;
    }
    let pc = p.get_char(pi);
    proof {
        assert(p@.skip(pi as int)[0] == p@[pi as int]);
        assert(p@.skip(pi as int).skip(1) =~= p@.skip(pi + 1));
    }
    if pc == '*' {
        if glob_match_at(p, pi + 1, s, si) {
            return true;
        }
        if si < sn {
            proof {
                assert(s@.skip(si as int).skip(1) =~= s@.skip(si + 1));
            }
            return glob_match_at(p, pi, s, si + 1);
        }
        false
    } else if si == sn {
        false
    } else {
        let sc = s.get_char(si);
        proof {
            assert(s@.skip(si as int)[0] == s@[si as int]);
            assert(s@.skip(si as int).skip(1) =~= s@.skip(si + 1));
        }
        if pc == '?' || pc == sc {
            glob_match_at(p, pi + 1, s, si + 1)
        } else {
            false
        }
    }
}

/// A compiled name pattern.
pub struct Glob {
    pub pattern: String,
}

impl Glob {
    /// The pattern text this glob was made from.
    pub open spec fn pat(&self) -> Seq<char> {
        self.pattern@
    }

    pub fn new(pattern: &str) -> (r: Glob)
        ensures
            r.pat() == pattern@,
    {
        Glob { pattern: pattern.to_owned() }
    }

    pub fn as_str(&self) -> (r: &str)
        ensures
            r@ == self.pat(),
    {
        self.pattern.as_str()
    }

    /// Whether this pattern matches the whole of `text`.
    pub fn matches(&self, text: &str) -> (r: bool)
        ensures
            r == glob_match(self.pat(), text@),
    {
        proof {
            assert(self.pattern@.skip(0) =~= self.pattern@);
            assert(text@.skip(0) =~= text@);
        }
        glob_match_at(self.pattern.as_str(), 0, text, 0)
    }
}

impl Clone for Glob {
    fn clone(&self) -> (r: Self)
        ensures
            r.pat() == self.pat(),
    {
        Glob { pattern: self.pattern.clone() }
    }
}

} // verus!
