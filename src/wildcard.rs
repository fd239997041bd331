//! The `*` matcher for topic patterns.

use vstd::prelude::*;
use vstd::string::StrSliceExecFns;

verus! {

/// One step of a compiled pattern: a character to match (or the end of the
/// pattern), and whether a `*` stood before it.
#[derive(Clone, Copy, Debug, PartialEq, Eq, Structural)]
pub struct State {
    pub next_char: Option<char>,
    pub has_wildcard: bool,
}

/// The states of `p`, where `star` says that a `*` came just before it.
pub open spec fn compile_from(p: Seq<char>, star: bool) -> Seq<State>
    decreases p.len(),
{
    if p.len() == 0 {
        seq![State { next_char: None, has_wildcard: star }]
    } else if p[0] == '*' {
        compile_from(p.drop_first(), true)
    } else {
        seq![State { next_char: Some(p[0]), has_wildcard: star }] + compile_from(p.drop_first(), false)
    }
}

/// The states of a pattern: one per character other than `*`, then an end
/// state; runs of `*` fold into the flag of the state after them. The empty
/// pattern has no states.
pub open spec fn compile(p: Seq<char>) -> Seq<State> {
    if p.len() == 0 {
        Seq::empty()
    } else {
        compile_from(p, false)
    }
}

/// Whether the states `st` match all of `s`: a flagged state may first skip
/// any number of characters; then its character must come next, or, for
/// the end state, the input must end.
pub open spec fn state_match(st: Seq<State>, s: Seq<char>) -> bool
    decreases st.len() + s.len(),
{
    if st.len() == 0 {
        s.len() == 0
    } else {
        (st[0].has_wildcard && s.len() > 0 && state_match(st, s.drop_first())) || match st[0].next_char {
            None => s.len() == 0,
            Some(c) => s.len() > 0 && s[0] == c && state_match(st.drop_first(), s.drop_first()),
        }
    }
}

/// Whether `s` holds no `*`.
pub open spec fn no_star(s: Seq<char>) -> bool {
    forall|i: int| 0 <= i < s.len() ==> s[i] != '*'
}

/// A compiled pattern.
#[derive(Clone, Debug, PartialEq, Default)]
pub struct WildCard {
    pattern: Vec<State>,
}

impl View for WildCard {
    type V = Seq<State>;

    closed spec fn view(&self) -> Seq<State> {
        self.pattern@
    }
}

/// The states of a pattern without `*` match exactly that pattern.
pub proof fn lemma_literal_from(p: Seq<char>, s: Seq<char>)
    requires
        no_star(p),
    ensures
        state_match(compile_from(p, false), s) == (s == p),
    decreases p.len(),
{
    let st = compile_from(p, false);
    if p.len() == 0 {
        assert(st == seq![State { next_char: None, has_wildcard: false }]);
        if s.len() == 0 {
            assert(s =~= p);
        }
    } else {
        assert(p[0] != '*');
        let rest = p.drop_first();
        assert(no_star(rest)) by {
            assert forall|i: int| 0 <= i < rest.len() implies rest[i] != '*' by {
                assert(rest[i] == p[i + 1]);
            }
        }
        assert(st.drop_first() =~= compile_from(rest, false));
        if s.len() > 0 {
            lemma_literal_from(rest, s.drop_first());
            if s == p {
                assert(s.drop_first() =~= rest);
            } else if s[0] == p[0] && s.drop_first() == rest {
                assert forall|i: int| 0 <= i < s.len() implies s[i] == p[i] by {
                    if i > 0 {
                        assert(s[i] == s.drop_first()[i - 1]);
                    }
                }
                assert(s =~= p);
            }
        }
    }
}

/// A pattern without `*` matches exactly the identical string.
pub proof fn lemma_literal_pattern(p: Seq<char>, s: Seq<char>)
    requires
        no_star(p),
    ensures
        state_match(compile(p), s) == (s == p),
{
    if p.len() > 0 {
        lemma_literal_from(p, s);
    } else if s.len() == 0 {
        assert(s =~= p);
    }
}

/// The recursion of `state_match` read on suffixes of the states and input.
proof fn lemma_state_match_step(st: Seq<State>, s: Seq<char>, i: int, j: int)
    requires
        0 <= i < st.len(),
        0 <= j <= s.len(),
    ensures
        state_match(st.skip(i), s.skip(j)) == ((st[i].has_wildcard && j < s.len() && state_match(
            st.skip(i),
            s.skip(j + 1),
        )) || match st[i].next_char {
            None => j == s.len(),
            Some(c) => j < s.len() && s[j] == c && state_match(st.skip(i + 1), s.skip(j + 1)),
        }),
{
    if j < s.len() {
        assert(s.skip(j).drop_first() =~= s.skip(j + 1));
    }
    assert(st.skip(i).drop_first() =~= st.skip(i + 1));
}

/// The characters of a string.
pub(crate) fn chars_of(s: &str) -> (r: Vec<char>)
    ensures
        r@ == s@,
{
    let n = s.unicode_len();
    let mut r: Vec<char> = Vec::new();
    let mut i: usize = 0;
    while i < n
        invariant
            n == s@.len(),
            i <= n,
            r@ == s@.take(i as int),
        decreases n - i,
    {
        r.push(s.get_char(i));
        i = i + 1;
        assert(r@ =~= s@.take(i as int));
    }
    assert(s@.take(n as int) =~= s@);
    r
}

impl WildCard {
    /// Compiles a pattern in which `*` stands for any run of characters,
    /// e.g. `cat*dog` for `cat_dog` or `cat1dog`.
    pub fn new(pattern: &str) -> (r: WildCard)
        ensures
            r@ == compile(pattern@),
    {
        let p = chars_of(pattern);
        let n = p.len();
        if n == 0 {
            return WildCard { pattern: Vec::new() };
        }
        let mut simplified: Vec<State> = Vec::new();
        let mut prev_was_star = false;
        proof {
            assert(p@.skip(0) =~= p@);
            assert(Seq::<State>::empty() + compile_from(p@, false) =~= compile_from(p@, false));
        }
        let mut i: usize = 0;
        while i < n
            invariant
                n == p@.len(),
                p@ == pattern@,
                i <= n,
                n > 0 ==> compile(p@) == simplified@ + compile_from(p@.skip(i as int), prev_was_star),
            decreases n - i,
        {
            let c = p[i];
            proof {
                assert(p@.skip(i as int).drop_first() =~= p@.skip(i as int + 1));
                assert(p@.skip(i as int)[0] == c);
            }
            if c == '*' {
                prev_was_star = true;
            } else {
                let ghost before = simplified@;
                let ghost st = State { next_char: Some(c), has_wildcard: prev_was_star };
                let ghost rest = compile_from(p@.skip(i as int + 1), false);
                simplified.push(State { next_char: Some(c), has_wildcard: prev_was_star });
                prev_was_star = false;
                assert(before + (seq![st] + rest) =~= simplified@ + rest);
            }
            i = i + 1;
        }
        if n > 0 {
            let ghost before = simplified@;
            simplified.push(State { next_char: None, has_wildcard: prev_was_star });
            assert(p@.skip(n as int) =~= Seq::<char>::empty());
            assert(simplified@ =~= before + compile_from(p@.skip(n as int), prev_was_star));
        }
        WildCard { pattern: simplified }
    }

    /// Whether `input` matches the pattern, in full.
    pub fn matches(&self, input: &str) -> (r: bool)
        ensures
            r == state_match(self@, input@),
    {
        let s = chars_of(input);
        let st = &self.pattern;
        let n = s.len();
        let k = st.len();
        let ghost ss = s@;
        let ghost sts = st@;
        // row[t] says whether the states from index i on match the input
        // from position t on; it starts with no states left.
        let mut row: Vec<bool> = Vec::new();
        let mut j: usize = 0;
        while j < n
            invariant
                n == s@.len(),
                j <= n,
                row@.len() == j,
                forall|t: int| 0 <= t < j ==> row@[t] == (t == n),
            decreases n - j,
        {
            row.push(false);
            j = j + 1;
        }
        row.push(true);
        proof {
            assert(sts.skip(k as int) =~= Seq::<State>::empty());
        }
        let mut i: usize = k;
        while i > 0
            invariant
                ss == s@,
                sts == st@,
                n == ss.len(),
                k == sts.len(),
                sts == self@,
                i <= k,
                row@.len() == n + 1,
                forall|t: int| 0 <= t <= n ==> row@[t] == state_match(sts.skip(i as int), ss.skip(t)),
            decreases i,
        {
            i = i - 1;
            let state = st[i];
            let mut cur: Vec<bool> = Vec::new();
            let mut j: usize = 0;
            while j < n
                invariant
                    ss == s@,
                    n == ss.len(),
                    row@.len() == n + 1,
                    j <= n,
                    cur@.len() == j,
                    forall|t: int| 0 <= t < j ==> cur@[t] == match state.next_char {
                        None => t == n,
                        Some(c) => t < n && ss[t] == c && row@[t + 1],
                    },
                decreases n - j,
            {
                let step = match state.next_char {
                    None => false,
                    Some(c) => s[j] == c && row[j + 1],
                };
                cur.push(step);
                j = j + 1;
            }
            cur.push(state.next_char.is_none());
            proof {
                lemma_state_match_step(sts, ss, i as int, n as int);
            }
            if state.has_wildcard {
                // A flagged state may also skip a character: fold from the end.
                let mut t: usize = n;
                while t > 0
                    invariant
                        ss == s@,
                        sts == st@,
                        n == ss.len(),
                        k == sts.len(),
                        i < k,
                        state == sts[i as int],
                        state.has_wildcard,
                        t <= n,
                        cur@.len() == n + 1,
                        row@.len() == n + 1,
                        forall|u: int| 0 <= u <= n ==> row@[u] == state_match(sts.skip(i as int + 1), ss.skip(u)),
                        forall|u: int| t <= u <= n ==> cur@[u] == state_match(sts.skip(i as int), ss.skip(u)),
                        forall|u: int| 0 <= u < t ==> cur@[u] == match state.next_char {
                            None => u == n,
                            Some(c) => u < n && ss[u] == c && row@[u + 1],
                        },
                    decreases t,
                {
                    t = t - 1;
                    let v = cur[t] || cur[t + 1];
                    cur.set(t, v);
                    proof {
                        lemma_state_match_step(sts, ss, i as int, t as int);
                    }
                }
            } else {
                proof {
                    assert forall|u: int| 0 <= u <= n implies cur@[u] == state_match(
                        sts.skip(i as int),
                        ss.skip(u),
                    ) by {
                        lemma_state_match_step(sts, ss, i as int, u);
                    }
                }
            }
            row = cur;
        }
        proof {
            assert(sts.skip(0) =~= sts);
            assert(ss.skip(0) =~= ss);
        }
        row[0]
    }
}

} // verus!
