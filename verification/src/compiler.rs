use vstd::prelude::*;

verus! {

/// A path separator; both kinds are accepted on every platform.
pub open spec fn is_sep(c: char) -> bool {
    c == '/' || c == '\\'
}

/// The final path component: everything after the last separator.
pub open spec fn after_last_sep(s: Seq<char>) -> Seq<char>
    decreases s.len(),
{
    if s.len() == 0 {
        s
    } else if is_sep(s.last()) {
        Seq::empty()
    } else {
        after_last_sep(s.drop_last()).push(s.last())
    }
}

/// The index of the last dot, or -1 when there is none.
pub open spec fn last_dot_index(s: Seq<char>) -> int
    decreases s.len(),
{
    if s.len() == 0 {
        -1
    } else if s.last() == '.' {
        s.len() - 1
    } else {
        last_dot_index(s.drop_last())
    }
}

/// The file stem: the part before the final dot, unless the only dot
/// starts the name.
pub open spec fn stem_of(name: Seq<char>) -> Seq<char> {
    let d = last_dot_index(name);
    if d > 0 {
        name.take(d)
    } else {
        name
    }
}

/// ASCII lower case of one character.
pub open spec fn lower_char(c: char) -> char {
    if 'A' <= c <= 'Z' {
        ((c as int) + 32) as char
    } else {
        c
    }
}

/// ASCII lower case of a text.
pub open spec fn ascii_lower(s: Seq<char>) -> Seq<char> {
    s.map(|i: int, c: char| lower_char(c))
}

/// An engine is allowed when the lowercased stem of its final path
/// component names one of the four supported binaries.
pub open spec fn spec_allowed_engine(engine: Seq<char>) -> bool {
    let stem = ascii_lower(stem_of(after_last_sep(engine)));
    ||| stem == "pdflatex"@
    ||| stem == "xelatex"@
    ||| stem == "lualatex"@
    ||| stem == "latexmk"@
}

fn lower_char_exec(c: char) -> (r: char)
    ensures
        r == lower_char(c),
{
    if c >= 'A' && c <= 'Z' {
        (((c as u8) + 32) as char)
    } else {
        c
    }
}

proof fn lemma_last_dot_of_suffixless(s: Seq<char>, k: int)
    requires
        0 <= k <= s.len(),
        forall|t: int| k <= t < s.len() ==> s[t] != '.',
    ensures
        last_dot_index(s) == last_dot_index(s.take(k)),
    decreases s.len() - k,
{
    if k == s.len() {
        assert(s.take(k) =~= s);
    } else {
        assert(s[s.len() - 1] != '.');
        assert(s.drop_last() =~= s.take(s.len() - 1));
        lemma_last_dot_of_suffixless(s.take(s.len() - 1), k);
        assert(s.take(s.len() - 1).take(k) =~= s.take(k));
    }
}

fn stem_matches(name: &Vec<char>, st: usize, target: &str) -> (r: bool)
    requires
        st <= name@.len(),
    ensures
        r == (ascii_lower(name@.take(st as int)) == target@),
{
    let tlen = target.unicode_len();
    if tlen != st {
        proof {
            assert(ascii_lower(name@.take(st as int)).len() == st);
        }
        return false;
    }
    let mut t: usize = 0;
    while t < st
        invariant
            st <= name@.len(),
            tlen == target@.len(),
            tlen == st,
            t <= st,
            forall|q: int|
                0 <= q < t ==> ascii_lower(name@.take(st as int))[q] == target@[q],
        decreases st - t,
    {
        if lower_char_exec(name[t]) != target.get_char(t) {
            proof {
                assert(ascii_lower(name@.take(st as int))[t as int] == lower_char(
                    name@[t as int],
                ));
            }
            return false;
        }
        t = t + 1;
    }
    proof {
        assert(ascii_lower(name@.take(st as int)) =~= target@);
    }
    true
}

/// Decides whether an engine may be invoked: only the four supported
/// binaries are, named directly or through a path, in any letter case.
pub fn is_allowed_engine(engine: &str) -> (r: bool)
    ensures
        r == spec_allowed_engine(engine@),
{
    let len = engine.unicode_len();
    let mut name: Vec<char> = Vec::new();
    let mut i: usize = 0;
    proof {
        assert(engine@.take(0) =~= Seq::<char>::empty());
        assert(name@ =~= after_last_sep(engine@.take(0)));
    }
    while i < len
        invariant
            len == engine@.len(),
            i <= len,
            name@ == after_last_sep(engine@.take(i as int)),
        decreases len - i,
    {
        let c = engine.get_char(i);
        proof {
            assert(engine@.take(i + 1int).drop_last() =~= engine@.take(i as int));
            assert(engine@.take(i + 1int).last() == engine@[i as int]);
        }
        if c == '/' || c == '\\' {
            name = Vec::new();
            proof {
                assert(name@ =~= after_last_sep(engine@.take(i + 1int)));
            }
        } else {
            name.push(c);
        }
        i = i + 1;
    }
    proof {
        assert(engine@.take(len as int) =~= engine@);
    }
    let nlen = name.len();
    let mut dot: usize = nlen;
    let mut k: usize = 0;
    while k < nlen
        invariant
            nlen == name@.len(),
            k <= nlen,
            dot == nlen || (dot < k && name@[dot as int] == '.'),
            forall|t: int| 0 <= t < k && t > dot ==> name@[t] != '.',
            dot == nlen ==> forall|t: int| 0 <= t < k ==> name@[t] != '.',
        decreases nlen - k,
    {
        if name[k] == '.' {
            dot = k;
        }
        k = k + 1;
    }
    proof {
        if dot == nlen {
            lemma_last_dot_of_suffixless(name@, 0);
            assert(name@.take(0) =~= Seq::<char>::empty());
            assert(last_dot_index(name@) == -1);
        } else {
            lemma_last_dot_of_suffixless(name@, dot + 1int);
            assert(name@.take(dot + 1int).last() == name@[dot as int]);
            assert(name@.take(dot + 1int).drop_last() =~= name@.take(dot as int));
            assert(last_dot_index(name@) == dot as int);
        }
    }
    let st: usize = if dot != nlen && dot > 0 {
        dot
    } else {
        nlen
    };
    proof {
        if st == nlen {
            assert(name@.take(nlen as int) =~= name@);
        }
        assert(name@.take(st as int) == stem_of(name@));
    }
    stem_matches(&name, st, "pdflatex") || stem_matches(&name, st, "xelatex") || stem_matches(
        &name,
        st,
        "lualatex",
    ) || stem_matches(&name, st, "latexmk")
}

} // verus!
