use vstd::prelude::*;
use crate::ast::{Ast, Node, nodes_view, lemma_nodes_view_index, lemma_nodes_view_len};
use crate::env::{Environment, Scope};
use crate::eval::{EvalError, Fault, MAX_DEPTH, Run, eval_in, eval_spec, fault_of, texts};
use crate::value::{Val, Value};

verus! {

broadcast use vstd::seq::group_seq_axioms;

/// What running a program tells its user, in order.
#[derive(Debug, PartialEq)]
pub enum Report {
    /// A line that `print` printed.
    Printed(String),
    /// The value of a top-level item, when it is not the unit value.
    Value(Value),
    /// Why a top-level item failed; the run goes on with the next one.
    Failed(EvalError),
}

/// The model of a report.
pub enum Note {
    Printed(Seq<char>),
    Shown(Val),
    Failed(Fault),
}

pub open spec fn report_view(r: Report) -> Note {
    match r {
        Report::Printed(t) => Note::Printed(t@),
        Report::Value(v) => Note::Shown(v@),
        Report::Failed(e) => Note::Failed(fault_of(e)),
    }
}

pub open spec fn reports_view(v: Seq<Report>) -> Seq<Note> {
    v.map_values(|r: Report| report_view(r))
}

/// The reports of one item: its printed lines, then its value unless that
/// is the unit value, or its failure.
pub open spec fn notes_of(run: Run) -> Seq<Note> {
    run.out.map_values(|l: Seq<char>| Note::Printed(l)) + match run.result {
        Ok(Val::Unit) => Seq::empty(),
        Ok(v) => seq![Note::Shown(v)],
        Err(f) => seq![Note::Failed(f)],
    }
}

/// Running items in order from `sc`, each in the environment the one before
/// left, failed or not: the final environment and all reports.
pub open spec fn session(items: Seq<Ast>, sc: Scope) -> (Scope, Seq<Note>)
    decreases items.len(),
{
    if items.len() == 0 {
        (sc, Seq::empty())
    } else {
        let r = eval_spec(MAX_DEPTH as nat, items[0], sc);
        let (last, rest) = session(items.drop_first(), r.scope);
        (last, notes_of(r) + rest)
    }
}

proof fn lemma_reports_push(v: Seq<Report>, r: Report)
    ensures
        reports_view(v.push(r)) == reports_view(v).push(report_view(r)),
{
    assert(reports_view(v.push(r)) =~= reports_view(v).push(report_view(r)));
}

/// Runs the top-level items of a program in order in `env`, going on after a
/// failure with the environment it left; returns what there is to report.
pub fn run_items(items: &Vec<Node>, env: &mut Environment) -> (r: Vec<Report>)
    ensures
        session(nodes_view(items@), old(env)@) == (final(env)@, reports_view(r@)),
{
    let ghost all = nodes_view(items@);
    let ghost env0 = env@;
    proof {
        lemma_nodes_view_len(items@);
        assert(all.subrange(0, all.len() as int) =~= all);
        assert(reports_view(Seq::<Report>::empty()) =~= Seq::<Note>::empty());
    }
    let mut reports: Vec<Report> = Vec::new();
    let mut i: usize = 0;
    while i < items.len()
        invariant
            i <= items@.len() == all.len(),
            all == nodes_view(items@),
            env0 == old(env)@,
            ({
                let (last, rest) = session(all.subrange(i as int, all.len() as int), env@);
                session(all, env0) == (last, reports_view(reports@) + rest)
            }),
        decreases items@.len() - i,
    {
        let ghost before = env@;
        let ghost sub = all.subrange(i as int, all.len() as int);
        let ghost reports0 = reports_view(reports@);
        proof {
            lemma_nodes_view_index(items@, i as int);
            assert(sub[0] == items@[i as int]@);
            assert(sub.drop_first() =~= all.subrange(i + 1, all.len() as int));
        }
        let mut lines: Vec<String> = Vec::new();
        let r = eval_in(&items[i], env, &mut lines, MAX_DEPTH);
        let ghost run = eval_spec(MAX_DEPTH as nat, items@[i as int]@, before);
        assert(texts(lines@) =~= run.out);
        let mut k: usize = 0;
        while k < lines.len()
            invariant
                k <= lines@.len(),
                texts(lines@) == run.out,
                reports_view(reports@) == reports0 + run.out.subrange(0, k as int).map_values(
                    |l: Seq<char>| Note::Printed(l),
                ),
            decreases lines@.len() - k,
        {
            let line = lines[k].clone();
            let rep = Report::Printed(line);
            proof {
                lemma_reports_push(reports@, rep);
                assert(run.out.subrange(0, k + 1).map_values(|l: Seq<char>| Note::Printed(l))
                    =~= run.out.subrange(0, k as int).map_values(|l: Seq<char>| Note::Printed(l)).push(
                    Note::Printed(run.out[k as int]),
                ));
            }
            reports.push(rep);
            k = k + 1;
        }
        let ghost printed = reports_view(reports@);
        assert(run.out.subrange(0, run.out.len() as int) =~= run.out);
        match r {
            Ok(Value::NONE) => {},
            Ok(v) => {
                let rep = Report::Value(v);
                proof {
                    lemma_reports_push(reports@, rep);
                }
                reports.push(rep);
            },
            Err(e) => {
                let rep = Report::Failed(e);
                proof {
                    lemma_reports_push(reports@, rep);
                }
                reports.push(rep);
            },
        }
        i = i + 1;
        proof {
            let (last, rest) = session(all.subrange(i as int, all.len() as int), env@);
            assert(reports_view(reports@) =~= reports0 + notes_of(run));
            assert(reports0 + (notes_of(run) + rest) =~= reports_view(reports@) + rest);
        }
    }
    proof {
        assert(all.subrange(i as int, all.len() as int) =~= Seq::<Ast>::empty());
        assert(reports_view(reports@) + Seq::<Note>::empty() =~= reports_view(reports@));
    }
    reports
}

} // verus!
