//! Small decisions of the command-line front end: how a `--step` of
//! `flow add` names its file and function, how a `owner/name` repository
//! splits for status reporting, and which exit code a multi-role pipeline
//! ends with.

use vstd::prelude::*;
use crate::heuristics::{find_char_from, first_index_from, lemma_first_index_from};
use crate::text::{chars_of, string_from_chars, sub_chars};

verus! {

/// The last index at which `c` occurs in `s`.
pub open spec fn last_index_of(s: Seq<char>, c: char) -> Option<int>
    decreases s.len(),
{
    if s.len() == 0 {
        None
    } else if s.last() == c {
        Some(s.len() - 1)
    } else {
        last_index_of(s.drop_last(), c)
    }
}

proof fn lemma_last_index_of(s: Seq<char>, c: char)
    ensures
        last_index_of(s, c) matches Some(i) ==> 0 <= i < s.len() && s[i] == c && forall|k: int|
            i < k < s.len() ==> s[k] != c,
        last_index_of(s, c) is None ==> forall|k: int| 0 <= k < s.len() ==> s[k] != c,
    decreases s.len(),
{
    if s.len() > 0 {
        let p = s.drop_last();
        lemma_last_index_of(p, c);
        assert forall|k: int| 0 <= k < p.len() implies #[trigger] s[k] == p[k] by {}
        if s.last() != c {
            if let Some(i) = last_index_of(p, c) {
                assert forall|k: int| i < k < s.len() implies s[k] != c by {
                    if k < p.len() {
                        assert(p[k] != c);
                    }
                }
            } else {
                assert forall|k: int| 0 <= k < s.len() implies s[k] != c by {
                    if k < p.len() {
                        assert(p[k] != c);
                    }
                }
            }
        }
    }
}

/// A `--step` that is not of the form `path:function`.
#[derive(Debug)]
pub struct InvalidFlowStep {
    pub step: String,
}

/// Reads one `--step path:function` of `flow add`: the text before the last
/// `:` is the file, the text after it the function; a step without `:` is
/// an error that carries it.
pub fn parse_flow_step(step: &str) -> (r: Result<(String, String), InvalidFlowStep>)
    ensures
        match last_index_of(step@, ':') {
            Some(i) => r matches Ok((file, function)) && file@ == step@.take(i) && function@
                == step@.skip(i + 1),
            None => r matches Err(e) && e.step@ == step@,
        },
{
    let v = chars_of(step);
    proof {
        lemma_last_index_of(step@, ':');
    }
    let mut j: usize = v.len();
    while j > 0 && v[j - 1] != ':'
        invariant
            j <= v.len(),
            v@ == step@,
            forall|k: int| j <= k < v.len() ==> v@[k] != ':',
        decreases j,
    {
        j -= 1;
    }
    if j == 0 {
        proof {
            if let Some(i) = last_index_of(step@, ':') {
                assert(v@[i] == ':');
            }
        }
        return Err(InvalidFlowStep { step: string_from_chars(&v) });
    }
    let i = j - 1;
    proof {
        if let Some(m) = last_index_of(step@, ':') {
            if m < i {
                assert(v@[i as int] == ':');
            } else if m > i {
                assert(v@[m] == ':');
            }
        }
        assert(v@.subrange(0, i as int) =~= step@.take(i as int));
        assert(v@.subrange(i + 1, v@.len() as int) =~= step@.skip(i + 1));
    }
    let file = string_from_chars(&sub_chars(&v, 0, i));
    let function = string_from_chars(&sub_chars(&v, i + 1, v.len()));
    Ok((file, function))
}

/// The owner and name a `owner/name` repository splits into at its first
/// `/`; a repository with no `/` is taken as `local/<repository>`.
pub fn repo_owner_and_name(repo: &str) -> (r: (String, String))
    ensures
        match first_index_from(repo@, '/', 0) {
            Some(i) => r.0@ == repo@.take(i) && r.1@ == repo@.skip(i + 1),
            None => r.0@ == "local"@ && r.1@ == repo@,
        },
{
    let v = chars_of(repo);
    proof {
        lemma_first_index_from(repo@, '/', 0);
    }
    match find_char_from(&v, '/', 0) {
        Some(i) => {
            assert(v@.subrange(0, i as int) =~= repo@.take(i as int));
            assert(v@.subrange(i + 1, v@.len() as int) =~= repo@.skip(i + 1));
            (string_from_chars(&sub_chars(&v, 0, i)), string_from_chars(&sub_chars(&v, i + 1, v.len())))
        },
        None => (string_from_chars(&chars_of("local")), string_from_chars(&v)),
    }
}

/// The exit code of a multi-role pipeline run: that of the last role whose
/// run did not end with 0, or 0 when every role's did.
pub open spec fn pipeline_exit_code_spec(codes: Seq<u8>) -> u8
    decreases codes.len(),
{
    if codes.len() == 0 {
        0
    } else if codes.last() != 0 {
        codes.last()
    } else {
        pipeline_exit_code_spec(codes.drop_last())
    }
}

/// The exit code of a pipeline whose roles ended with `codes`, in order.
pub fn pipeline_exit_code(codes: &Vec<u8>) -> (code: u8)
    ensures
        code == pipeline_exit_code_spec(codes@),
{
    let mut code: u8 = 0;
    let mut i: usize = 0;
    while i < codes.len()
        invariant
            i <= codes.len(),
            code == pipeline_exit_code_spec(codes@.take(i as int)),
        decreases codes.len() - i,
    {
        assert(codes@.take(i + 1).drop_last() =~= codes@.take(i as int));
        assert(codes@.take(i + 1).last() == codes@[i as int]);
        if codes[i] != 0 {
            code = codes[i];
        }
        i += 1;
    }
    assert(codes@.take(codes.len() as int) =~= codes@);
    code
}

/// A pipeline ends with the code of its last failing role: when the
/// result is not 0 it is the code of some role and every role after that
/// one ended with 0; in particular a failing last role decides the code.
pub proof fn law_pipeline_ends_with_the_last_failure(codes: Seq<u8>)
    ensures
        codes.len() > 0 && codes.last() != 0 ==> pipeline_exit_code_spec(codes) == codes.last(),
        pipeline_exit_code_spec(codes) != 0 ==> exists|j: int|
            0 <= j < codes.len() && codes[j] == pipeline_exit_code_spec(codes) && forall|k: int|
                j < k < codes.len() ==> #[trigger] codes[k] == 0,
        pipeline_exit_code_spec(codes) == 0 ==> forall|k: int|
            0 <= k < codes.len() ==> #[trigger] codes[k] == 0,
    decreases codes.len(),
{
    if codes.len() > 0 {
        let p = codes.drop_last();
        law_pipeline_ends_with_the_last_failure(p);
        assert forall|k: int| 0 <= k < p.len() implies #[trigger] codes[k] == p[k] by {}
        let last = codes.len() - 1;
        assert(codes[last] == codes.last());
        if codes.last() == 0 && pipeline_exit_code_spec(p) != 0 {
            let j = choose|j: int|
                0 <= j < p.len() && p[j] == pipeline_exit_code_spec(p) && forall|k: int|
                    j < k < p.len() ==> #[trigger] p[k] == 0;
            assert(codes[j] == p[j]);
            assert forall|k: int| j < k < codes.len() implies #[trigger] codes[k] == 0 by {
                if k < last {
                    assert(p[k] == 0);
                }
            }
        }
        if codes.last() == 0 && pipeline_exit_code_spec(p) == 0 {
            assert forall|k: int| 0 <= k < codes.len() implies #[trigger] codes[k] == 0 by {
                if k < last {
                    assert(p[k] == 0);
                }
            }
        }
    }
}

/// A pipeline fails exactly when some role failed.
pub proof fn law_pipeline_fails_iff_a_role_failed(codes: Seq<u8>)
    ensures
        (pipeline_exit_code_spec(codes) != 0) <==> exists|k: int| 0 <= k < codes.len() && codes[k] != 0,
    decreases codes.len(),
{
    if codes.len() > 0 {
        law_pipeline_fails_iff_a_role_failed(codes.drop_last());
        if pipeline_exit_code_spec(codes.drop_last()) != 0 {
            let k = choose|k: int| 0 <= k < codes.drop_last().len() && codes.drop_last()[k] != 0;
            assert(codes[k] != 0);
        }
        if codes.last() != 0 {
            assert(codes[codes.len() - 1] != 0);
        }
        assert forall|k: int| 0 <= k < codes.len() && codes[k] != 0 && codes.last() == 0 implies k
            < codes.len() - 1 && codes.drop_last()[k] != 0 by {
        }
    }
}

} // verus!
