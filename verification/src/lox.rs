use vstd::prelude::*;

use crate::ast::{stmts_view, Stmt, StmtV};
use crate::entities::{copy_tokens, tokens_view};
use crate::errors::{results_view, LoxResult, LoxResultView};
use crate::grammar::{parse_program, parse_reports};
use crate::laws::law_scan_feeds_parser;
use crate::parser::Parser;
use crate::scanner::{scan_from, source_tokens, Scanner};

verus! {

/// What the front end makes of a source text: the statements, or the
/// error that stopped it; and every error reported on the way, in order.
pub struct FrontEnd {
    pub result: Result<Vec<Stmt>, LoxResult>,
    pub reports: Vec<LoxResult>,
}

/// What scanning and parsing a source text gives: where scanning fails, its
/// error and the scanning errors; otherwise the parse of its tokens, with
/// the scanning and then the parsing errors.
pub open spec fn front_end_of(src: Seq<char>) -> (Result<Seq<StmtV>, LoxResultView>, Seq<
    LoxResultView,
>) {
    let o = scan_from(src, 0, 1);
    match o.failure {
        Some(e) => (Err(e), o.reports),
        None => (parse_program(source_tokens(src)), o.reports + parse_reports(source_tokens(src))),
    }
}

/// Scans and parses a source text.
pub fn front_end(source: String) -> (r: FrontEnd)
    requires
        source@.len() < usize::MAX,
    ensures
        ({
            let (res, reps) = front_end_of(source@);
            &&& results_view(r.reports@) == reps
            &&& match r.result {
                Ok(v) => res == Ok::<Seq<StmtV>, LoxResultView>(stmts_view(v@)),
                Err(e) => res == Err::<Seq<StmtV>, LoxResultView>(e@),
            }
        }),
{
    let ghost src = source@;
    let mut scanner = Scanner::new(source);
    let scanned = scanner.scan();
    let mut reports: Vec<LoxResult> = Vec::new();
    let tokens = match scanned {
        Ok(tokens) => copy_tokens(tokens),
        Err(e) => {
            let rs = scanner.reports();
            let mut i: usize = 0;
            while i < rs.len()
                invariant
                    i <= rs@.len(),
                    results_view(reports@) == results_view(rs@).take(i as int),
                decreases rs@.len() - i,
            {
                let ghost before = results_view(reports@);
                reports.push(rs[i].dup());
                assert(results_view(reports@) =~= before.push(rs@[i as int]@));
                assert(results_view(rs@).take(i + 1) =~= before.push(rs@[i as int]@));
                i = i + 1;
            }
            assert(results_view(rs@).take(rs@.len() as int) =~= results_view(rs@));
            return FrontEnd { result: Err(e), reports };
        },
    };
    assert(tokens_view(tokens@) =~= source_tokens(src));
    proof {
        law_scan_feeds_parser(src);
    }
    let mut parser = Parser::new(tokens.as_slice());
    let result = parser.parse();
    let rs = scanner.reports();
    let ps = parser.reports();
    let mut i: usize = 0;
    while i < rs.len()
        invariant
            i <= rs@.len(),
            results_view(reports@) == results_view(rs@).take(i as int),
        decreases rs@.len() - i,
    {
        let ghost before = results_view(reports@);
        reports.push(rs[i].dup());
        assert(results_view(reports@) =~= before.push(rs@[i as int]@));
        assert(results_view(rs@).take(i + 1) =~= before.push(rs@[i as int]@));
        i = i + 1;
    }
    assert(results_view(rs@).take(rs@.len() as int) =~= results_view(rs@));
    let mut j: usize = 0;
    while j < ps.len()
        invariant
            j <= ps@.len(),
            results_view(reports@) == results_view(rs@) + results_view(ps@).take(j as int),
        decreases ps@.len() - j,
    {
        let ghost before = results_view(reports@);
        reports.push(ps[j].dup());
        assert(results_view(reports@) =~= before.push(ps@[j as int]@));
        assert(results_view(ps@).take(j + 1) =~= results_view(ps@).take(j as int).push(
            ps@[j as int]@,
        ));
        j = j + 1;
    }
    assert(results_view(ps@).take(ps@.len() as int) =~= results_view(ps@));
    FrontEnd { result, reports }
}

} // verus!
