//! The code-analysis step of preprocessing: each source file is analysed on
//! its own (statically, then by an LLM), and the step succeeds only where
//! every file was analysed.
//!
//! This module holds the step's decisions: how the per-file outcomes are
//! tallied, what the step reports, and when it fails.
use vstd::prelude::*;

verus! {

/// The results that succeeded, in order.
pub open spec fn successes<T, E>(rs: Seq<Result<T, E>>) -> Seq<T>
    decreases rs.len(),
{
    if rs.len() == 0 {
        Seq::empty()
    } else {
        match rs[0] {
            Ok(t) => seq![t] + successes(rs.drop_first()),
            Err(_) => successes(rs.drop_first()),
        }
    }
}

/// The errors of the results that failed, in order.
pub open spec fn failures<T, E>(rs: Seq<Result<T, E>>) -> Seq<E>
    decreases rs.len(),
{
    if rs.len() == 0 {
        Seq::empty()
    } else {
        match rs[0] {
            Ok(_) => failures(rs.drop_first()),
            Err(e) => seq![e] + failures(rs.drop_first()),
        }
    }
}

/// Every result either succeeded or failed: the two counts add up to the
/// number of results.
pub proof fn lemma_counts_add_up<T, E>(rs: Seq<Result<T, E>>)
    ensures
        successes(rs).len() + failures(rs).len() == rs.len(),
    decreases rs.len(),
{
    if rs.len() > 0 {
        lemma_counts_add_up(rs.drop_first());
    }
}

/// The tally is taken file by file, in order: results one after the other
/// give their successes and their failures one after the other; a success
/// gives its insight and no error, a failure its error and no insight.
pub proof fn lemma_tally_in_order<T, E>(a: Seq<Result<T, E>>, b: Seq<Result<T, E>>)
    ensures
        successes(a + b) == successes(a) + successes(b),
        failures(a + b) == failures(a) + failures(b),
        forall|t: T| successes(seq![Ok::<T, E>(t)]) == seq![t],
        forall|t: T| failures(seq![Ok::<T, E>(t)]) == Seq::<E>::empty(),
        forall|e: E| successes(seq![Err::<T, E>(e)]) == Seq::<T>::empty(),
        forall|e: E| failures(seq![Err::<T, E>(e)]) == seq![e],
    decreases a.len(),
{
    if a.len() == 0 {
        assert(a + b =~= b);
        assert(successes(a) + successes(b) =~= successes(b));
        assert(failures(a) + failures(b) =~= failures(b));
    } else {
        lemma_tally_in_order(a.drop_first(), b);
        assert((a + b)[0] == a[0]);
        assert((a + b).drop_first() =~= a.drop_first() + b);
        assert(successes(a + b) =~= successes(a) + successes(b));
        assert(failures(a + b) =~= failures(a) + failures(b));
    }
    assert forall|t: T| successes(seq![Ok::<T, E>(t)]) == seq![t] by {
        let r = seq![Ok::<T, E>(t)];
        assert(r[0] == Ok::<T, E>(t));
        assert(r.drop_first() =~= Seq::<Result<T, E>>::empty());
        assert(successes(r.drop_first()) =~= Seq::<T>::empty());
        assert(seq![t] + Seq::<T>::empty() =~= seq![t]);
    }
    assert forall|t: T| failures(seq![Ok::<T, E>(t)]) == Seq::<E>::empty() by {
        let r = seq![Ok::<T, E>(t)];
        assert(r[0] == Ok::<T, E>(t));
        assert(r.drop_first() =~= Seq::<Result<T, E>>::empty());
        assert(failures(r.drop_first()) =~= Seq::<E>::empty());
    }
    assert forall|e: E| successes(seq![Err::<T, E>(e)]) == Seq::<T>::empty() by {
        let r = seq![Err::<T, E>(e)];
        assert(r[0] == Err::<T, E>(e));
        assert(r.drop_first() =~= Seq::<Result<T, E>>::empty());
        assert(successes(r.drop_first()) =~= Seq::<T>::empty());
    }
    assert forall|e: E| failures(seq![Err::<T, E>(e)]) == seq![e] by {
        let r = seq![Err::<T, E>(e)];
        assert(r[0] == Err::<T, E>(e));
        assert(r.drop_first() =~= Seq::<Result<T, E>>::empty());
        assert(failures(r.drop_first()) =~= Seq::<E>::empty());
        assert(seq![e] + Seq::<E>::empty() =~= seq![e]);
    }
}

/// The decimal digit for `d < 10`.
pub open spec fn digit_char(d: nat) -> char {
    (('0' as int) + d) as char
}

/// The decimal representation of `n`, without leading zeros.
pub open spec fn decimal(n: nat) -> Seq<char>
    decreases n,
{
    if n < 10 {
        seq![digit_char(n)]
    } else {
        decimal(n / 10).push(digit_char(n % 10))
    }
}

/// The decimal digit for `d < 10`, as a string.
fn digit_str(d: usize) -> (r: &'static str)
    requires
        d < 10,
    ensures
        r@ == seq![digit_char(d as nat)],
{
    proof {
        reveal_strlit("0");
        reveal_strlit("1");
        reveal_strlit("2");
        reveal_strlit("3");
        reveal_strlit("4");
        reveal_strlit("5");
        reveal_strlit("6");
        reveal_strlit("7");
        reveal_strlit("8");
        reveal_strlit("9");
    }
    if d == 0 {
        "0"
    } else if d == 1 {
        "1"
    } else if d == 2 {
        "2"
    } else if d == 3 {
        "3"
    } else if d == 4 {
        "4"
    } else if d == 5 {
        "5"
    } else if d == 6 {
        "6"
    } else if d == 7 {
        "7"
    } else if d == 8 {
        "8"
    } else {
        "9"
    }
}

/// `n` written in decimal.
pub fn decimal_string(n: usize) -> (r: String)
    ensures
        r@ == decimal(n as nat),
    decreases n,
{
    if n < 10 {
        String::from_str(digit_str(n))
    } else {
        let mut s = decimal_string(n / 10);
        s.append(digit_str(n % 10));
        s
    }
}

/// The message that reports how the analysis went.
pub open spec fn summary_text(success: nat, failed: nat, total: nat) -> Seq<char> {
    "✓ Concurrent code analysis completed, successfully analyzed "@ + decimal(success)
        + " files ("@ + decimal(failed) + " failed out of "@ + decimal(total) + ")"@
}

/// The error that fails the step where files failed.
pub open spec fn failure_text(failed: nat) -> Seq<char> {
    "Preprocess stage failed due to "@ + decimal(failed) + " file analysis error(s)"@
}

/// The outcome of analysing every file.
pub struct AnalysisReport<T, E> {
    /// The insights of the files that were analysed, in order.
    pub code_insights: Vec<T>,
    /// The errors of the files that failed, in order.
    pub errors: Vec<E>,
    /// The number of files.
    pub total_count: usize,
}

impl<T, E> AnalysisReport<T, E> {
    /// Number of files that were analysed.
    pub fn success_count(&self) -> (r: usize)
        ensures
            r == self.code_insights.len(),
    {
        self.code_insights.len()
    }

    /// Number of files that failed.
    pub fn failed_count(&self) -> (r: usize)
        ensures
            r == self.errors.len(),
    {
        self.errors.len()
    }

    /// The message that reports how the analysis went.
    pub fn summary_message(&self) -> (r: String)
        ensures
            r@ == summary_text(
                self.code_insights.len() as nat,
                self.errors.len() as nat,
                self.total_count as nat,
            ),
    {
        let mut m = String::from_str("✓ Concurrent code analysis completed, successfully analyzed ");
        m.append(decimal_string(self.code_insights.len()).as_str());
        m.append(" files (");
        m.append(decimal_string(self.errors.len()).as_str());
        m.append(" failed out of ");
        m.append(decimal_string(self.total_count).as_str());
        m.append(")");
        m
    }

    /// The insights, where every file was analysed; else the error that
    /// names how many failed.
    pub fn into_result(self) -> (r: Result<Vec<T>, String>)
        ensures
            self.errors.len() == 0 ==> r == Ok::<Vec<T>, String>(self.code_insights),
            self.errors.len() > 0 ==> (r matches Err(msg) && msg@ == failure_text(
                self.errors.len() as nat,
            )),
    {
        if self.errors.len() > 0 {
            let mut m = String::from_str("Preprocess stage failed due to ");
            m.append(decimal_string(self.errors.len()).as_str());
            m.append(" file analysis error(s)");
            Err(m)
        } else {
            Ok(self.code_insights)
        }
    }
}

/// The code-analysis step, with the language processor that extracts
/// interfaces, dependencies and complexity metrics from source files.
pub struct CodeAnalyze<P> {
    language_processor: P,
}

impl<P> CodeAnalyze<P> {
    /// The language processor that the step uses.
    pub closed spec fn processor(&self) -> P {
        self.language_processor
    }

    /// A step that uses `language_processor`.
    pub fn new(language_processor: P) -> (r: Self)
        ensures
            r.processor() == language_processor,
    {
        CodeAnalyze { language_processor }
    }

    /// The language processor that the step uses.
    pub fn language_processor(&self) -> (r: &P)
        ensures
            *r == self.processor(),
    {
        &self.language_processor
    }

    /// Tallies the per-file results, in the order the files were given.
    pub fn collect_results<T, E>(&self, results: Vec<Result<T, E>>) -> (r: AnalysisReport<T, E>)
        ensures
            r.code_insights@ == successes(results@),
            r.errors@ == failures(results@),
            r.total_count == results@.len(),
            r.code_insights@.len() + r.errors@.len() == r.total_count,
    {
        let ghost all = results@;
        let total_count = results.len();
        let mut rest = results;
        let mut code_insights: Vec<T> = Vec::new();
        let mut errors: Vec<E> = Vec::new();
        while rest.len() > 0
            invariant
                successes(all) == code_insights@ + successes(rest@),
                failures(all) == errors@ + failures(rest@),
            decreases rest.len(),
        {
            let ghost before = rest@;
            let item = rest.remove(0);
            assert(before.drop_first() =~= rest@);
            match item {
                Ok(t) => {
                    code_insights.push(t);
                    assert(successes(all) =~= code_insights@ + successes(rest@));
                },
                Err(e) => {
                    errors.push(e);
                    assert(failures(all) =~= errors@ + failures(rest@));
                },
            }
        }
        proof {
            assert(code_insights@ + successes(rest@) =~= code_insights@);
            assert(errors@ + failures(rest@) =~= errors@);
            lemma_counts_add_up(all);
        }
        AnalysisReport { code_insights, errors, total_count }
    }
}

} // verus!
