//! Path-template matching.
//!
//! A template is a path string in which each well-nested `{name}` segment
//! is a placeholder standing for one or more characters other than `/`.
//! A template without placeholders matches only its exact literal; a
//! template with unbalanced or nested braces matches nothing.

use vstd::prelude::*;

verus! {

/// One element of a parsed template: a literal character or a placeholder.
pub enum TemplateToken {
    Lit(char),
    Param,
}

/// Parsing of a template into tokens. `None` means the braces are
/// malformed: a `}` with no `{` before it, a `{` that is never closed, or
/// a `{` nested inside a placeholder.
pub open spec fn spec_tokenize(s: Seq<char>) -> Option<Seq<TemplateToken>>
    decreases s.len(), 1int,
{
    if s.len() == 0 {
        Some(Seq::empty())
    } else if s[0] == '}' {
        None
    } else if s[0] == '{' {
        spec_tokenize_param(s.skip(1))
    } else {
        match spec_tokenize(s.skip(1)) {
            Some(ts) => Some(seq![TemplateToken::Lit(s[0])] + ts),
            None => None,
        }
    }
}

/// Parsing the rest of a placeholder, after its `{`: skip the name up to
/// the closing `}`; a nested `{` or the end of the template is malformed.
pub open spec fn spec_tokenize_param(s: Seq<char>) -> Option<Seq<TemplateToken>>
    decreases s.len(), 0int,
{
    if s.len() == 0 {
        None
    } else if s[0] == '}' {
        match spec_tokenize(s.skip(1)) {
            Some(ts) => Some(seq![TemplateToken::Param] + ts),
            None => None,
        }
    } else if s[0] == '{' {
        None
    } else {
        spec_tokenize_param(s.skip(1))
    }
}

/// No `/` anywhere in the sequence.
pub open spec fn slash_free(s: Seq<char>) -> bool {
    forall|i: int| 0 <= i < s.len() ==> s[i] != '/'
}

/// Whether a token sequence matches a concrete path: literals match
/// themselves and each placeholder consumes one or more non-`/` characters.
pub open spec fn tokens_match(ts: Seq<TemplateToken>, p: Seq<char>) -> bool
    decreases ts.len(),
{
    if ts.len() == 0 {
        p.len() == 0
    } else {
        match ts[0] {
            TemplateToken::Lit(c) => p.len() > 0 && p[0] == c && tokens_match(
                ts.skip(1),
                p.skip(1),
            ),
            TemplateToken::Param => exists|k: int|
                1 <= k <= p.len() && slash_free(#[trigger] p.take(k)) && tokens_match(
                    ts.skip(1),
                    p.skip(k),
                ),
        }
    }
}

/// Whether a template matches a concrete path.
pub open spec fn template_matches(t: Seq<char>, p: Seq<char>) -> bool {
    match spec_tokenize(t) {
        Some(ts) => tokens_match(ts, p),
        None => false,
    }
}

fn tokenize_at(t: &Vec<char>, i: usize) -> (r: Option<Vec<TemplateToken>>)
    requires
        i <= t@.len(),
    ensures
        match r {
            Some(ts) => spec_tokenize(t@.skip(i as int)) == Some(ts@),
            None => spec_tokenize(t@.skip(i as int)) is None,
        },
    decreases t@.len() - i, 1int,
{
    if i == t.len() {
        proof {
            assert(t@.skip(i as int) =~= Seq::<char>::empty());
        }
        Some(Vec::new())
    } else {
        let c = t[i];
        assert(c == t@.skip(i as int)[0]);
        if c == '}' {
            None
        } else if c == '{' {
            proof {
                assert(t@.skip(i as int).skip(1) =~= t@.skip(i as int + 1));
            }
            tokenize_param_at(t, i + 1)
        } else {
            proof {
                assert(t@.skip(i as int).skip(1) =~= t@.skip(i as int + 1));
            }
            match tokenize_at(t, i + 1) {
                Some(mut ts) => {
                    let ghost tail = ts@;
                    ts.insert(0, TemplateToken::Lit(c));
                    proof {
                        tail.insert_ensures(0, TemplateToken::Lit(c));
                        assert(ts@ =~= seq![TemplateToken::Lit(c)] + tail);
                        assert(seq![TemplateToken::Lit(c)]
                            =~= seq![TemplateToken::Lit(t@.skip(i as int)[0])]);
                    }
                    Some(ts)
                },
                None => None,
            }
        }
    }
}

fn tokenize_param_at(t: &Vec<char>, i: usize) -> (r: Option<Vec<TemplateToken>>)
    requires
        i <= t@.len(),
    ensures
        match r {
            Some(ts) => spec_tokenize_param(t@.skip(i as int)) == Some(ts@),
            None => spec_tokenize_param(t@.skip(i as int)) is None,
        },
    decreases t@.len() - i, 0int,
{
    if i == t.len() {
        None
    } else {
        let c = t[i];
        assert(c == t@.skip(i as int)[0]);
        if c == '}' {
            proof {
                assert(t@.skip(i as int).skip(1) =~= t@.skip(i as int + 1));
            }
            match tokenize_at(t, i + 1) {
                Some(mut ts) => {
                    let ghost tail = ts@;
                    ts.insert(0, TemplateToken::Param);
                    proof {
                        tail.insert_ensures(0, TemplateToken::Param);
                        assert(ts@ =~= seq![TemplateToken::Param] + tail);
                    }
                    Some(ts)
                },
                None => None,
            }
        } else if c == '{' {
            None
        } else {
            proof {
                assert(t@.skip(i as int).skip(1) =~= t@.skip(i as int + 1));
            }
            tokenize_param_at(t, i + 1)
        }
    }
}

/// Parse a template's characters into tokens, or `None` if malformed.
pub fn tokenize(t: &Vec<char>) -> (r: Option<Vec<TemplateToken>>)
    ensures
        match r {
            Some(ts) => spec_tokenize(t@) == Some(ts@),
            None => spec_tokenize(t@) is None,
        },
{
    proof {
        assert(t@.skip(0) =~= t@);
    }
    tokenize_at(t, 0)
}

fn match_at(ts: &Vec<TemplateToken>, ti: usize, p: &Vec<char>, pi: usize) -> (r: bool)
    requires
        ti <= ts@.len(),
        pi <= p@.len(),
    ensures
        r == tokens_match(ts@.skip(ti as int), p@.skip(pi as int)),
    decreases ts@.len() - ti,
{
    let ghost tss = ts@.skip(ti as int);
    let ghost ps = p@.skip(pi as int);
    if ti == ts.len() {
        proof {
            assert(tss =~= Seq::<TemplateToken>::empty());
        }
        pi == p.len()
    } else {
        assert(ts@[ti as int] == tss[0]);
        match ts[ti] {
            TemplateToken::Lit(c) => {
                if pi < p.len() && p[pi] == c {
                    proof {
                        assert(tss.skip(1) =~= ts@.skip(ti as int + 1));
                        assert(ps.skip(1) =~= p@.skip(pi as int + 1));
                    }
                    match_at(ts, ti + 1, p, pi + 1)
                } else {
                    false
                }
            },
            TemplateToken::Param => {
                let rem = p.len() - pi;
                let mut j: usize = 0;
                while j < rem
                    invariant
                        ti < ts@.len(),
                        ts@.len() <= usize::MAX,
                        pi <= p@.len(),
                        p@.len() <= usize::MAX,
                        rem == p@.len() - pi,
                        ts@[ti as int] == tss[0],
                        tss == ts@.skip(ti as int),
                        ps == p@.skip(pi as int),
                        tss[0] is Param,
                        j <= rem,
                        forall|x: int| 0 <= x < j ==> #[trigger] p@[pi + x] != '/',
                        forall|jj: int|
                            1 <= jj <= j ==> !tokens_match(tss.skip(1), #[trigger] p@.skip(
                                pi + jj,
                            )),
                    decreases rem - j,
                {
                    if p[pi + j] == '/' {
                        proof {
                            assert forall|kk: int|
                                1 <= kk <= ps.len() && slash_free(#[trigger] ps.take(kk)) implies
                                !tokens_match(tss.skip(1), ps.skip(kk)) by {
                                if kk > j {
                                    assert(ps.take(kk)[j as int] == p@[pi + j]);
                                    assert(!slash_free(ps.take(kk)));
                                } else {
                                    assert(ps.skip(kk) =~= p@.skip(pi + kk));
                                }
                            }
                            assert(!tokens_match(tss, ps));
                        }
                        return false;
                    }
                    proof {
                        assert(tss.skip(1) =~= ts@.skip(ti as int + 1));
                    }
                    if match_at(ts, ti + 1, p, pi + j + 1) {
                        proof {
                            let kk = j + 1 as int;
                            assert(ps.skip(kk) =~= p@.skip(pi + kk));
                            assert forall|x: int| 0 <= x < ps.take(kk).len() implies
                                ps.take(kk)[x] != '/' by {
                                assert(ps.take(kk)[x] == p@[pi + x]);
                            }
                            assert(slash_free(ps.take(kk)));
                            assert(1 <= kk <= ps.len() && slash_free(ps.take(kk))
                                && tokens_match(tss.skip(1), ps.skip(kk)));
                            assert(tokens_match(tss, ps));
                        }
                        return true;
                    }
                    proof {
                        assert(p@.skip(pi + j + 1) =~= ps.skip(j + 1));
                    }
                    j = j + 1;
                }
                proof {
                    assert forall|kk: int|
                        1 <= kk <= ps.len() && slash_free(#[trigger] ps.take(kk)) implies
                        !tokens_match(tss.skip(1), ps.skip(kk)) by {
                        assert(kk <= j);
                        assert(ps.skip(kk) =~= p@.skip(pi + kk));
                    }
                    assert(!tokens_match(tss, ps));
                }
                false
            },
        }
    }
}

/// Whether the path template `template` matches the concrete path
/// `actual_path`. Placeholders such as `{id}` stand for one or more
/// characters other than `/`; matching is case-sensitive and anchored at
/// both ends; a malformed template matches nothing.
pub fn matches_path_template(template: &str, actual_path: &str) -> (r: bool)
    ensures
        r == template_matches(template@, actual_path@),
{
    let tc = crate::text::chars_of(template);
    match tokenize(&tc) {
        None => false,
        Some(ts) => {
            let pc = crate::text::chars_of(actual_path);
            proof {
                assert(ts@.skip(0) =~= ts@);
                assert(pc@.skip(0) =~= pc@);
            }
            match_at(&ts, 0, &pc, 0)
        },
    }
}

/// How many placeholders a token sequence has.
pub open spec fn count_params(ts: Seq<TemplateToken>) -> nat
    decreases ts.len(),
{
    if ts.len() == 0 {
        0
    } else {
        (match ts[0] {
            TemplateToken::Param => 1 as nat,
            TemplateToken::Lit(_) => 0 as nat,
        }) + count_params(ts.skip(1))
    }
}

/// The path obtained by replacing each placeholder, in order, with the
/// corresponding entry of `ss`, and keeping every literal.
pub open spec fn apply_subst(ts: Seq<TemplateToken>, ss: Seq<Seq<char>>) -> Seq<char>
    decreases ts.len(),
{
    if ts.len() == 0 {
        Seq::empty()
    } else {
        match ts[0] {
            TemplateToken::Lit(c) => seq![c] + apply_subst(ts.skip(1), ss),
            TemplateToken::Param => (if ss.len() > 0 {
                ss[0]
            } else {
                Seq::empty()
            }) + apply_subst(ts.skip(1), ss.skip(1)),
        }
    }
}

/// Every replacement is non-empty and free of `/`.
pub open spec fn valid_subst(ss: Seq<Seq<char>>) -> bool {
    forall|i: int| 0 <= i < ss.len() ==> (#[trigger] ss[i]).len() >= 1 && slash_free(ss[i])
}

proof fn lemma_match_gives_subst(ts: Seq<TemplateToken>, p: Seq<char>)
    requires
        tokens_match(ts, p),
    ensures
        exists|ss: Seq<Seq<char>>|
            valid_subst(ss) && ss.len() == count_params(ts) && #[trigger] apply_subst(ts, ss)
                == p,
    decreases ts.len(),
{
    if ts.len() == 0 {
        let ss = Seq::<Seq<char>>::empty();
        assert(apply_subst(ts, ss) =~= p);
    } else {
        match ts[0] {
            TemplateToken::Lit(c) => {
                lemma_match_gives_subst(ts.skip(1), p.skip(1));
                let ss = choose|ss: Seq<Seq<char>>|
                    valid_subst(ss) && ss.len() == count_params(ts.skip(1))
                        && #[trigger] apply_subst(ts.skip(1), ss) == p.skip(1);
                assert(apply_subst(ts, ss) =~= p);
            },
            TemplateToken::Param => {
                let k = choose|k: int|
                    1 <= k <= p.len() && slash_free(#[trigger] p.take(k)) && tokens_match(
                        ts.skip(1),
                        p.skip(k),
                    );
                lemma_match_gives_subst(ts.skip(1), p.skip(k));
                let ss0 = choose|ss: Seq<Seq<char>>|
                    valid_subst(ss) && ss.len() == count_params(ts.skip(1))
                        && #[trigger] apply_subst(ts.skip(1), ss) == p.skip(k);
                let ss = seq![p.take(k)] + ss0;
                assert(ss.skip(1) =~= ss0);
                assert(ss[0] == p.take(k));
                assert(apply_subst(ts, ss) =~= p);
            },
        }
    }
}

proof fn lemma_subst_gives_match(ts: Seq<TemplateToken>, ss: Seq<Seq<char>>)
    requires
        valid_subst(ss),
        ss.len() == count_params(ts),
    ensures
        tokens_match(ts, apply_subst(ts, ss)),
    decreases ts.len(),
{
    let p = apply_subst(ts, ss);
    if ts.len() == 0 {
    } else {
        match ts[0] {
            TemplateToken::Lit(c) => {
                lemma_subst_gives_match(ts.skip(1), ss);
                assert(p.skip(1) =~= apply_subst(ts.skip(1), ss));
            },
            TemplateToken::Param => {
                assert(ss.len() >= 1);
                assert(valid_subst(ss.skip(1)));
                lemma_subst_gives_match(ts.skip(1), ss.skip(1));
                let k = ss[0].len() as int;
                assert(p.take(k) =~= ss[0]);
                assert(p.skip(k) =~= apply_subst(ts.skip(1), ss.skip(1)));
                assert(1 <= k <= p.len() && slash_free(p.take(k)) && tokens_match(
                    ts.skip(1),
                    p.skip(k),
                ));
            },
        }
    }
}

/// A well-formed template matches a path exactly when some substitution of
/// its placeholders by non-empty, slash-free strings yields that path; a
/// malformed template matches no path at all.
pub proof fn lemma_matches_iff_substitution(t: Seq<char>, p: Seq<char>)
    ensures
        template_matches(t, p) <==> (spec_tokenize(t) matches Some(ts) && exists|
            ss: Seq<Seq<char>>,
        |
            valid_subst(ss) && ss.len() == count_params(ts) && #[trigger] apply_subst(ts, ss)
                == p),
{
    match spec_tokenize(t) {
        Some(ts) => {
            if tokens_match(ts, p) {
                lemma_match_gives_subst(ts, p);
            }
            if exists|ss: Seq<Seq<char>>|
                valid_subst(ss) && ss.len() == count_params(ts) && #[trigger] apply_subst(
                    ts,
                    ss,
                ) == p {
                let ss = choose|ss: Seq<Seq<char>>|
                    valid_subst(ss) && ss.len() == count_params(ts) && #[trigger] apply_subst(
                        ts,
                        ss,
                    ) == p;
                lemma_subst_gives_match(ts, ss);
            }
        },
        None => {},
    }
}

} // verus!
