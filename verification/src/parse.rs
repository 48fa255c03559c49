use vstd::prelude::*;
use crate::types::views_of;

verus! {

/// Whitespace for command-line splitting: blank, tab, newline, carriage
/// return.
pub open spec fn is_space_char(c: char) -> bool {
    c == ' ' || c == '\t' || c == '\n' || c == '\r'
}

fn is_space(c: char) -> (r: bool)
    ensures
        r == is_space_char(c),
{
    c == ' ' || c == '\t' || c == '\n' || c == '\r'
}

/// The length of the leading run of non-whitespace characters of `s`.
pub open spec fn word_len(s: Seq<char>) -> nat
    decreases s.len(),
{
    if s.len() == 0 || is_space_char(s[0]) {
        0
    } else {
        (1 + word_len(s.drop_first())) as nat
    }
}

proof fn lemma_word_len_le(s: Seq<char>)
    ensures
        word_len(s) <= s.len(),
    decreases s.len(),
{
    if s.len() == 0 || is_space_char(s[0]) {
    } else {
        lemma_word_len_le(s.drop_first());
    }
}

/// The whitespace-separated tokens of `s`, in order: maximal runs of
/// non-whitespace characters.
pub open spec fn tokens_of(s: Seq<char>) -> Seq<Seq<char>>
    decreases s.len(),
    via tokens_of_decreases
{
    if s.len() == 0 {
        Seq::<Seq<char>>::empty()
    } else if is_space_char(s[0]) {
        tokens_of(s.drop_first())
    } else {
        seq![s.take(word_len(s) as int)] + tokens_of(s.skip(word_len(s) as int))
    }
}

#[via_fn]
proof fn tokens_of_decreases(s: Seq<char>) {
    if s.len() > 0 && !is_space_char(s[0]) {
        lemma_word_len_le(s);
        assert(word_len(s) >= 1);
    }
}

proof fn lemma_word_len_is(s: Seq<char>, n: int)
    requires
        0 <= n <= s.len(),
        forall|k: int| 0 <= k < n ==> !is_space_char(s[k]),
        n == s.len() || is_space_char(s[n]),
    ensures
        word_len(s) == n,
    decreases n,
{
    if n > 0 {
        let t = s.drop_first();
        assert forall|k: int| 0 <= k < n - 1 implies !is_space_char(t[k]) by {
            assert(t[k] == s[k + 1]);
        }
        if n - 1 < t.len() {
            assert(t[n - 1] == s[n]);
        }
        lemma_word_len_is(t, n - 1);
    }
}

proof fn lemma_tokens_skip_one(s: Seq<char>, i: int)
    requires
        0 <= i < s.len(),
        is_space_char(s[i]),
    ensures
        tokens_of(s.skip(i)) == tokens_of(s.skip(i + 1)),
{
    let t = s.skip(i);
    assert(t[0] == s[i]);
    assert(t.drop_first() =~= s.skip(i + 1));
}

proof fn lemma_tokens_word(s: Seq<char>, i: int, j: int)
    requires
        0 <= i < s.len(),
        i < j <= s.len(),
        forall|k: int| i <= k < j ==> !is_space_char(s[k]),
        j == s.len() || is_space_char(s[j]),
    ensures
        tokens_of(s.skip(i)) == seq![s.subrange(i, j)] + tokens_of(s.skip(j)),
{
    let t = s.skip(i);
    assert forall|k: int| 0 <= k < j - i implies !is_space_char(t[k]) by {
        assert(t[k] == s[k + i]);
    }
    if j - i < t.len() {
        assert(t[j - i] == s[j]);
    }
    lemma_word_len_is(t, j - i);
    assert(t[0] == s[i]);
    assert(t.take(j - i) =~= s.subrange(i, j));
    assert(t.skip(j - i) =~= s.skip(j));
}

fn word_end(s: &str, start: usize, sn: usize) -> (j: usize)
    requires
        sn == s@.len(),
        start <= sn,
    ensures
        start <= j <= sn,
        forall|k: int| start <= k < j ==> !is_space_char(s@[k]),
        j < sn ==> is_space_char(s@[j as int]),
{
    let mut j = start;
    while j < sn
        invariant
            start <= j <= sn,
            sn == s@.len(),
            forall|k: int| start <= k < j ==> !is_space_char(s@[k]),
        decreases sn - j,
    {
        if is_space(s.get_char(j)) {
            return j;
        }
        j += 1;
    }
    j
}

fn tokenize(s: &str) -> (r: Vec<String>)
    ensures
        views_of(r@) == tokens_of(s@),
{
    let sn = s.unicode_len();
    let mut out: Vec<String> = Vec::new();
    let mut i: usize = 0;
    proof {
        assert(s@.skip(0) =~= s@);
        assert(views_of(out@) + tokens_of(s@) =~= tokens_of(s@));
    }
    while i < sn
        invariant
            i <= sn,
            sn == s@.len(),
            tokens_of(s@) == views_of(out@) + tokens_of(s@.skip(i as int)),
        decreases sn - i,
    {
        let c = s.get_char(i);
        if is_space(c) {
            proof {
                lemma_tokens_skip_one(s@, i as int);
            }
            i += 1;
        } else {
            let j = word_end(s, i, sn);
            proof {
                assert(j > i);
                lemma_tokens_word(s@, i as int, j as int);
            }
            let ghost out0 = out@;
            let tok = s.substring_char(i, j).to_owned();
            out.push(tok);
            proof {
                let sub = s@.subrange(i as int, j as int);
                assert(views_of(out@) =~= views_of(out0).push(sub));
                assert(views_of(out0) + (seq![sub] + tokens_of(s@.skip(j as int))) =~= views_of(
                    out0,
                ).push(sub) + tokens_of(s@.skip(j as int)));
            }
            i = j;
        }
    }
    proof {
        assert(s@.skip(sn as int) =~= Seq::<char>::empty());
        assert(views_of(out@) + tokens_of(s@.skip(sn as int)) =~= views_of(out@));
    }
    out
}

/// Parses a command line of the form `sudo <command> [args...]`: splits the
/// input on whitespace and returns the target command and its arguments
/// iff the first token is `sudo` and a command follows; any other shape is
/// rejected.
pub fn parse_sudo_command(input: &str) -> (r: Option<(String, Vec<String>)>)
    ensures
        ({
            let toks = tokens_of(input@);
            match r {
                Option::None => toks.len() < 2 || toks[0] != "sudo"@,
                Option::Some((command, args)) => {
                    &&& toks.len() >= 2
                    &&& toks[0] == "sudo"@
                    &&& command@ == toks[1]
                    &&& views_of(args@) == toks.skip(2)
                },
            }
        }),
{
    let toks = tokenize(input);
    if toks.len() < 2 {
        return None;
    }
    let sudo_word: String = "sudo".to_owned();
    let matches_sudo = toks[0] == sudo_word;
    if !matches_sudo {
        proof {
            assert(tokens_of(input@)[0] == toks@[0]@);
        }
        return None;
    }
    let command = toks[1].clone();
    let n = toks.len();
    let mut args: Vec<String> = Vec::new();
    let mut i: usize = 2;
    proof {
        assert(views_of(args@) =~= tokens_of(input@).subrange(2, 2));
    }
    while i < n
        invariant
            2 <= i <= n,
            n == toks@.len(),
            views_of(toks@) == tokens_of(input@),
            views_of(args@) == tokens_of(input@).subrange(2, i as int),
        decreases n - i,
    {
        let ghost args0 = args@;
        args.push(toks[i].clone());
        proof {
            assert(views_of(args@) =~= views_of(args0).push(toks@[i as int]@));
            assert(tokens_of(input@).subrange(2, i + 1) =~= tokens_of(input@).subrange(
                2,
                i as int,
            ).push(tokens_of(input@)[i as int]));
        }
        i += 1;
    }
    proof {
        assert(tokens_of(input@).subrange(2, n as int) =~= tokens_of(input@).skip(2));
    }
    Some((command, args))
}

} // verus!
