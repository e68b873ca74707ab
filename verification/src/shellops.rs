//! Text assembly for the shell helpers: single-quoted argument escaping
//! for the elevation relauncher, the registry key paths of the context
//! menu, and the parse of the elevation probe's answer.

use vstd::prelude::*;
use vstd::string::StringExecFns;
use crate::paths;
use crate::strutil;

verus! {

/// Single quotes doubled, as the shell's single-quoting wants them.
pub open spec fn double_quotes(s: Seq<char>) -> Seq<char>
    decreases s.len(),
{
    if s.len() == 0 {
        Seq::empty()
    } else {
        (if s[0] == '\'' {
            seq!['\'', '\'']
        } else {
            seq![s[0]]
        }) + double_quotes(s.drop_first())
    }
}

/// Wraps a value in single quotes, doubling any quotes inside it.
pub fn ps_single_quoted(value: &str) -> (r: String)
    ensures
        r@ == seq!['\''] + double_quotes(value@) + seq!['\''],
{
    let v = strutil::chars_vec(value);
    let mut out: Vec<char> = Vec::new();
    out.push('\'');
    let mut i: usize = 0;
    while i < v.len()
        invariant
            v@ == value@,
            i <= v@.len(),
            out@ == seq!['\''] + double_quotes(v@.take(i as int)),
        decreases v@.len() - i,
    {
        let ghost before = v@.take(i as int);
        let c = v[i];
        if c == '\'' {
            out.push('\'');
            out.push('\'');
        } else {
            out.push(c);
        }
        i = i + 1;
        proof {
            lemma_double_quotes_snoc(v@.take(i as int));
            assert(v@.take(i as int).drop_last() =~= before);
            assert(out@ =~= seq!['\''] + double_quotes(v@.take(i as int)));
        }
    }
    out.push('\'');
    proof {
        assert(v@.take(v@.len() as int) =~= v@);
        assert(out@ =~= seq!['\''] + double_quotes(value@) + seq!['\'']);
    }
    strutil::string_of_chars(out.as_slice())
}

proof fn lemma_double_quotes_snoc(s: Seq<char>)
    requires
        s.len() > 0,
    ensures
        double_quotes(s) == double_quotes(s.drop_last()) + (if s.last() == '\'' {
            seq!['\'', '\'']
        } else {
            seq![s.last()]
        }),
    decreases s.len(),
{
    if s.len() == 1 {
        assert(s.drop_first() =~= Seq::<char>::empty());
        assert(double_quotes(Seq::<char>::empty()) == Seq::<char>::empty());
        assert(s.drop_last() =~= Seq::<char>::empty());
        assert(double_quotes(s) =~= double_quotes(s.drop_last()) + (if s.last() == '\'' {
            seq!['\'', '\'']
        } else {
            seq![s.last()]
        }));
    } else {
        lemma_double_quotes_snoc(s.drop_first());
        assert(s.drop_first().drop_last() =~= s.drop_last().drop_first());
        assert(s.drop_last()[0] == s[0]);
        assert(s.drop_first().last() == s.last());
        let head: Seq<char> = if s[0] == '\'' {
            seq!['\'', '\'']
        } else {
            seq![s[0]]
        };
        let tail: Seq<char> = if s.last() == '\'' {
            seq!['\'', '\'']
        } else {
            seq![s.last()]
        };
        assert(double_quotes(s) == head + double_quotes(s.drop_first()));
        assert(double_quotes(s.drop_first()) == double_quotes(s.drop_last().drop_first()) + tail);
        assert(double_quotes(s.drop_last()) == head + double_quotes(s.drop_last().drop_first()));
        assert(head + (double_quotes(s.drop_last().drop_first()) + tail) =~= (head + double_quotes(
            s.drop_last().drop_first(),
        )) + tail);
    }
}

/// The quoted arguments joined with comma-space.
pub open spec fn quoted_args(args: Seq<Seq<char>>) -> Seq<char>
    decreases args.len(),
{
    if args.len() == 0 {
        Seq::empty()
    } else if args.len() == 1 {
        seq!['\''] + double_quotes(args[0]) + seq!['\'']
    } else {
        quoted_args(args.drop_last()) + seq![',', ' '] + (seq!['\''] + double_quotes(args.last())
            + seq!['\''])
    }
}

/// The argument-list clause handed to the relauncher: empty for no
/// arguments, else each argument single-quoted, comma-joined, in an
/// `-ArgumentList` array.
pub fn ps_argument_list(args: &Vec<String>) -> (r: String)
    ensures
        args@.len() == 0 ==> r@ == Seq::<char>::empty(),
        args@.len() > 0 ==> r@ == " -ArgumentList @("@ + quoted_args(
            args@.map_values(|s: String| s@),
        ) + ")"@,
{
    if args.len() == 0 {
        return String::new();
    }
    let ghost av = args@.map_values(|s: String| s@);
    let mut joined = String::new();
    let mut i: usize = 0;
    while i < args.len()
        invariant
            av == args@.map_values(|s: String| s@),
            i <= args@.len(),
            i > 0 ==> joined@ == quoted_args(av.take(i as int)),
            i == 0 ==> joined@ == Seq::<char>::empty(),
        decreases args@.len() - i,
    {
        if i > 0 {
            joined.append(", ");
        }
        let q = ps_single_quoted(args[i].as_str());
        joined.append(q.as_str());
        i = i + 1;
        proof {
            reveal_strlit(", ");
            assert(", "@ =~= seq![',', ' ']);
            assert(av.take(i as int).drop_last() =~= av.take(i as int - 1));
            assert(av.take(i as int).last() == av[i as int - 1]);
            if i == 1 {
                assert(joined@ =~= quoted_args(av.take(1)));
            } else {
                assert(joined@ =~= quoted_args(av.take(i as int)));
            }
        }
    }
    proof {
        assert(av.take(av.len() as int) =~= av);
    }
    let mut out = String::from_str(" -ArgumentList @(");
    out.append(joined.as_str());
    out.append(")");
    out
}

/// The registry key paths the context-menu integration owns: one under
/// every file, one under every directory.
pub fn shell_key_paths() -> (r: Vec<&'static str>)
    ensures
        r@.len() == 2,
        r@[0]@ == "*\\shell\\symview"@,
        r@[1]@ == "Directory\\shell\\symview"@,
{
    let mut v: Vec<&'static str> = Vec::new();
    v.push("*\\shell\\symview");
    v.push("Directory\\shell\\symview");
    v
}

/// Whether the elevation probe's answer means elevated: its trimmed text
/// lower-cases to `true`.
pub fn parse_elevation_output(output: &str) -> (r: bool)
    ensures
        r == (strutil::lower_of(paths::trim_spec(output@)) == "true"@),
{
    let v = strutil::chars_vec(output);
    let t = paths::trim_chars(&v);
    let s = strutil::string_of_chars(t.as_slice());
    let low = strutil::lowercase(s.as_str());
    strutil::str_eq(low.as_str(), "true")
}

} // verus!
