//! Reading the prober's argument string: which file it takes candidates
//! from, where it writes its result, and the forced per-run overrides.

use vstd::prelude::*;
use crate::text::{copy_str, dec_str_of, str_eq, tokens, tokens_of, u32_string};

verus! {

/// The token following the first occurrence of `param`, if any.
pub open spec fn arg_after(toks: Seq<Seq<char>>, param: Seq<char>) -> Option<Seq<char>>
    decreases toks.len(),
{
    if toks.len() == 0 {
        None
    } else if toks[0] == param {
        if toks.len() >= 2 {
            Some(toks[1])
        } else {
            None
        }
    } else {
        arg_after(toks.drop_first(), param)
    }
}

/// The value `arg_after` finds is untouched by tokens before the first
/// occurrence of `param`.
pub proof fn lemma_arg_after_skip(toks: Seq<Seq<char>>, param: Seq<char>, i: int)
    requires
        0 <= i <= toks.len(),
        forall|j: int| 0 <= j < i ==> toks[j] != param,
    ensures
        arg_after(toks, param) == arg_after(toks.skip(i), param),
    decreases i,
{
    if i > 0 {
        lemma_arg_after_skip(toks, param, i - 1);
        let t = toks.skip(i - 1);
        assert(t[0] == toks[i - 1]);
        assert(t.drop_first() =~= toks.skip(i));
    } else {
        assert(toks.skip(0) =~= toks);
    }
}

/// The file path that the flag `param` designates inside the prober's
/// argument string: the token right after the first occurrence of `param`.
pub fn parse_cf_command_for_file(cf_command: &str, param: &str) -> (r: Option<String>)
    ensures
        r.deep_view() == arg_after(tokens_of(cf_command@), param@),
{
    let toks = tokens(cf_command);
    let ghost tv = toks.deep_view();
    let n: usize = toks.len();
    let mut i: usize = 0;
    while i < n
        invariant
            tv == toks.deep_view(),
            tv == tokens_of(cf_command@),
            n == tv.len(),
            0 <= i <= n,
            forall|j: int| 0 <= j < i ==> tv[j] != param@,
        decreases n - i,
    {
        if str_eq(toks[i].as_str(), param) {
            proof {
                lemma_arg_after_skip(tv, param@, i as int);
                assert(tv.skip(i as int)[0] == tv[i as int]);
            }
            if i + 1 < n {
                proof {
                    assert(tv.skip(i as int)[1] == tv[i + 1]);
                }
                return Some(copy_str(toks[i + 1].as_str()));
            } else {
                proof {
                    assert(tv.skip(i as int).len() == n - i);
                }
                return None;
            }
        }
        i += 1;
    }
    proof {
        lemma_arg_after_skip(tv, param@, n as int);
        assert(tv.skip(n as int) =~= Seq::<Seq<char>>::empty());
    }
    None
}

/// The file path the prober is told to write its result to, if its argument
/// string carries the output flag.
pub fn parse_cf_command_for_output_file(cf_command: &str) -> (r: Option<String>)
    ensures
        r.deep_view() == arg_after(tokens_of(cf_command@), "-o"@),
{
    parse_cf_command_for_file(cf_command, "-o")
}

/// The result-file path of one run: the output flag's value when present,
/// the conventional name otherwise.
pub fn get_result_csv_path(cf_command: &str) -> (r: String)
    ensures
        r@ == (match arg_after(tokens_of(cf_command@), "-o"@) {
            Some(p) => p,
            None => "result.csv"@,
        }),
{
    match parse_cf_command_for_output_file(cf_command) {
        Some(p) => p,
        None => copy_str("result.csv"),
    }
}

/// The argument list for one prober invocation: the configured tokens, then,
/// for a family with a non-zero quota, the forced sample-count and
/// output-count overrides set to that quota.
pub fn prober_args(cf_command: &str, num: u32) -> (r: Vec<String>)
    ensures
        num == 0 ==> r.deep_view() == tokens_of(cf_command@),
        num > 0 ==> r.deep_view() == tokens_of(cf_command@) + seq![
            "-dn"@,
            dec_str_of(num as nat),
            "-p"@,
            dec_str_of(num as nat),
        ],
{
    let mut toks = tokens(cf_command);
    let ghost base = toks.deep_view();
    if num > 0 {
        toks.push(copy_str("-dn"));
        toks.push(u32_string(num));
        toks.push(copy_str("-p"));
        toks.push(u32_string(num));
        proof {
            assert(toks.deep_view() =~= base + seq![
                "-dn"@,
                dec_str_of(num as nat),
                "-p"@,
                dec_str_of(num as nat),
            ]);
        }
    } else {
        proof {
            assert(toks.deep_view() =~= base);
        }
    }
    toks
}

} // verus!
